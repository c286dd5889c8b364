use vstd::prelude::*;
use crate::errors::Errcode;
use crate::events::{is_recv_on, is_send_on, recv_count, send_count, IoEvent};
use crate::ipc::{recv_boolean, send_boolean, sys_close};
use crate::text::{dec_u64, spec_dec};

verus! {

/// In-container ids [0, USERNS_COUNT) map to host ids starting at
/// USERNS_OFFSET, clear of the common system accounts.
pub const USERNS_OFFSET: u64 = 10000;

pub const USERNS_COUNT: u64 = 2000;

/// The id-map path for a child: `/proc/<pid>/uid_map`, or `gid_map` when
/// `gid` holds.
pub open spec fn spec_map_path(pid: i32, gid: bool) -> Seq<char> {
    "/proc/"@ + spec_dec(pid as nat) + (if gid {
        "/gid_map"@
    } else {
        "/uid_map"@
    })
}

/// A child handshake that ran to completion: the report went out first,
/// the acknowledgement `false` (no parent-side failure) came back after
/// it, and nothing else moved on the socket.
pub open spec fn child_handshake_complete(tr: Seq<IoEvent>, fd: i32) -> bool {
    &&& tr.len() == 2
    &&& is_send_on(tr[0], fd)
    &&& tr[1] == (IoEvent::RecvdBool { fd, value: false })
    &&& send_count(tr, fd) == 1
    &&& recv_count(tr, fd) == 1
}

/// A parent handshake that ran to completion: the child's report came in
/// first, the release message `false` went out last, and exactly one
/// message moved in each direction.
pub open spec fn parent_handshake_complete(tr: Seq<IoEvent>, fd: i32) -> bool {
    &&& tr.len() >= 2
    &&& is_recv_on(tr[0], fd)
    &&& tr.last() == (IoEvent::SentBool { fd, value: false })
    &&& send_count(tr, fd) == 1
    &&& recv_count(tr, fd) == 1
}

/// Handshake determinism: a completed lifecycle moves exactly two
/// messages over the socket pair, the child's report before the parent's
/// acknowledgement.  Each side sends exactly once and receives exactly
/// once; the child's send stands before its receive, the parent's
/// receive before its send, so the pairs are ordered child-to-parent
/// first, parent-to-child second.
pub proof fn lemma_handshake_lockstep(tr_c: Seq<IoEvent>, tr_p: Seq<IoEvent>, cfd: i32, pfd: i32)
    requires
        child_handshake_complete(tr_c, cfd),
        parent_handshake_complete(tr_p, pfd),
    ensures
        send_count(tr_c, cfd) + send_count(tr_p, pfd) == 2,
        recv_count(tr_c, cfd) + recv_count(tr_p, pfd) == 2,
        is_send_on(tr_c[0], cfd) && is_recv_on(tr_c[1], cfd),
        is_recv_on(tr_p[0], pfd) && is_send_on(tr_p[tr_p.len() - 1], pfd),
{
}

/// Relies on nix::sched::unshare with CLONE_NEWUSER: asks the kernel to
/// move the calling process into a fresh user namespace.
#[verifier::external_body]
fn sys_unshare_user() -> (r: Result<(), ()>) {
    match nix::sched::unshare(nix::sched::CloneFlags::CLONE_NEWUSER) {
        Ok(()) => Ok(()),
        Err(_) => Err(()),
    }
}

/// Relies on nix::unistd::setgroups: sets the supplementary group list to
/// exactly the one group given.
#[verifier::external_body]
fn sys_setgroups_one(gid: u32) -> (r: Result<(), ()>) {
    match nix::unistd::setgroups(&[nix::unistd::Gid::from_raw(gid)]) {
        Ok(()) => Ok(()),
        Err(_) => Err(()),
    }
}

/// Relies on nix::unistd::setresgid: sets the real, effective and saved
/// group ids, all to the id given.
#[verifier::external_body]
fn sys_setresgid_all(gid: u32) -> (r: Result<(), ()>) {
    let g = nix::unistd::Gid::from_raw(gid);
    match nix::unistd::setresgid(g, g, g) {
        Ok(()) => Ok(()),
        Err(_) => Err(()),
    }
}

/// Relies on nix::unistd::setresuid: sets the real, effective and saved
/// user ids, all to the id given.
#[verifier::external_body]
fn sys_setresuid_all(uid: u32) -> (r: Result<(), ()>) {
    let u = nix::unistd::Uid::from_raw(uid);
    match nix::unistd::setresuid(u, u, u) {
        Ok(()) => Ok(()),
        Err(_) => Err(()),
    }
}

/// O_WRONLY, O_CREAT and O_TRUNC of open(2), as <fcntl.h> fixes them.
pub const O_WRONLY_BITS: i32 = 0o1;

pub const O_CREAT_BITS: i32 = 0o100;

pub const O_TRUNC_BITS: i32 = 0o1000;

/// Relies on nix::unistd::write: hands the kernel the bytes of `bytes`
/// from position `from` on; on success the count the kernel accepted,
/// which is at most what was handed in.
#[verifier::external_body]
fn sys_write_from(fd: i32, bytes: &Vec<u8>, from: usize) -> (r: Result<usize, ()>)
    requires
        from <= bytes@.len(),
    ensures
        r matches Ok(n) ==> from + n <= bytes@.len(),
{
    match nix::unistd::write(fd, &bytes[from..]) {
        Ok(n) => Ok(n),
        Err(_) => Err(()),
    }
}

fn write_all(fd: i32, bytes: &Vec<u8>) -> (r: Result<(), ()>) {
    let mut written: usize = 0;
    while written < bytes.len()
        invariant
            written <= bytes@.len(),
        decreases bytes@.len() - written,
    {
        match sys_write_from(fd, bytes, written) {
            Ok(n) => {
                if n == 0 {
                    return Err(());
                }
                written = written + n;
            },
            Err(()) => {
                return Err(());
            },
        }
    }
    Ok(())
}

/// Writes `line` to the file at `path` in one open-write-close sweep.
/// `Err(true)` means the file could not be opened, `Err(false)` that the
/// write itself failed.
fn write_map_file(path: &String, line: &String) -> (r: Result<(), bool>) {
    let write_flags: i32 = O_WRONLY_BITS | O_CREAT_BITS | O_TRUNC_BITS;
    let fd = match crate::mount::sys_open(path, write_flags, 0o644) {
        Ok(fd) => fd,
        Err(()) => {
            return Err(true);
        },
    };
    let bytes = line.as_str().as_bytes_vec();
    let wrote = write_all(fd, &bytes);
    let _closed = sys_close(fd);
    match wrote {
        Ok(()) => Ok(()),
        Err(()) => Err(false),
    }
}

/// The exact ASCII line written to both map files: in-container id 0 maps
/// to host id USERNS_OFFSET, for USERNS_COUNT consecutive ids.
pub fn uid_map_line() -> (r: String)
    ensures
        r@ == "0 10000 2000"@,
{
    let mut s = String::from_str("0 ");
    let offset = dec_u64(USERNS_OFFSET);
    s.append(offset.as_str());
    s.append(" ");
    let count = dec_u64(USERNS_COUNT);
    s.append(count.as_str());
    proof {
        reveal_strlit("0 ");
        reveal_strlit(" ");
        reveal_strlit("0 10000 2000");
        reveal_with_fuel(crate::text::spec_dec, 6);
        assert(s@ =~= "0 10000 2000"@);
    }
    s
}

/// The path of the child's uid or gid map file.
fn proc_map_path(pid: i32, gid: bool) -> (r: String)
    requires
        pid >= 0,
    ensures
        r@ == spec_map_path(pid, gid),
{
    let mut s = String::from_str("/proc/");
    let digits = dec_u64(pid as u64);
    s.append(digits.as_str());
    if gid {
        s.append("/gid_map");
    } else {
        s.append("/uid_map");
    }
    s
}

/// The child half of the user-namespace setup: tries to unshare into a
/// user namespace, reports the outcome to the parent, waits for the
/// parent's verdict on the id maps, and takes on the requested ids.  The
/// returned trace records the socket traffic: at most one send and one
/// receive, the send first; a run that returns Ok performed exactly the
/// complete child handshake.
pub fn user_namespace(fd: i32, uid: u32) -> (r: (Result<(), Errcode>, Ghost<Seq<IoEvent>>))
    ensures
        send_count(r.1@, fd) <= 1,
        recv_count(r.1@, fd) <= 1,
        forall|i: int, j: int|
            0 <= i < r.1@.len() && 0 <= j < r.1@.len() && is_send_on(#[trigger] r.1@[i], fd)
                && is_recv_on(#[trigger] r.1@[j], fd) ==> i < j,
        forall|i: int|
            0 <= i < r.1@.len() ==> is_send_on(#[trigger] r.1@[i], fd) || is_recv_on(r.1@[i], fd),
        r.0 is Ok ==> child_handshake_complete(r.1@, fd),
        r.0 matches Err(e) ==> {
            ||| e == Errcode::SocketError(1)
            ||| e == Errcode::SocketError(2)
            ||| e == Errcode::NamespaceError(0)
            ||| e == Errcode::NamespaceError(1)
            ||| e == Errcode::NamespaceError(2)
            ||| e == Errcode::NamespaceError(3)
        },
{
    let ghost mut tr: Seq<IoEvent> = Seq::empty();
    let has_userns = sys_unshare_user().is_ok();
    match send_boolean(fd, has_userns) {
        Ok(()) => {
            proof {
                let e = IoEvent::SentBool { fd, value: has_userns };
                crate::events::lemma_counts_push(tr, e, fd, Seq::empty());
                tr = tr.push(e);
            }
        },
        Err(e) => {
            return (Err(e), Ghost(tr));
        },
    }
    let ack = match recv_boolean(fd) {
        Ok(b) => {
            proof {
                let e = IoEvent::RecvdBool { fd, value: b };
                crate::events::lemma_counts_push(tr, e, fd, Seq::empty());
                tr = tr.push(e);
            }
            b
        },
        Err(e) => {
            return (Err(e), Ghost(tr));
        },
    };
    if ack {
        return (Err(Errcode::NamespaceError(0)), Ghost(tr));
    }
    if sys_setgroups_one(uid).is_err() {
        return (Err(Errcode::NamespaceError(1)), Ghost(tr));
    }
    if sys_setresgid_all(uid).is_err() {
        return (Err(Errcode::NamespaceError(2)), Ghost(tr));
    }
    if sys_setresuid_all(uid).is_err() {
        return (Err(Errcode::NamespaceError(3)), Ghost(tr));
    }
    (Ok(()), Ghost(tr))
}

/// The parent half of the user-namespace setup: receives the child's
/// report; when the child has a user namespace, writes exactly the line
/// `"0 10000 2000"` to the child's uid_map and gid_map; then releases
/// the child with `false`, or signals `true` when a map write failed.
/// The returned trace records at most one receive and one send, the
/// receive first; every map write it records carries exactly that line
/// to one of the two map files, and on a map failure any message that
/// went out is the `true` failure signal.
pub fn handle_child_uid_map(pid: i32, fd: i32) -> (r: (Result<(), Errcode>, Ghost<Seq<IoEvent>>))
    requires
        pid >= 0,
    ensures
        send_count(r.1@, fd) <= 1,
        recv_count(r.1@, fd) <= 1,
        forall|i: int, j: int|
            0 <= i < r.1@.len() && 0 <= j < r.1@.len() && is_recv_on(#[trigger] r.1@[i], fd)
                && is_send_on(#[trigger] r.1@[j], fd) ==> i < j,
        forall|i: int|
            0 <= i < r.1@.len() ==> match #[trigger] r.1@[i] {
                IoEvent::MapWritten { path, bytes } => bytes == "0 10000 2000"@ && (path
                    == spec_map_path(pid, false) || path == spec_map_path(pid, true)),
                _ => true,
            },
        forall|i: int|
            0 <= i < r.1@.len() ==> ((#[trigger] r.1@[i]) is SentBool || r.1@[i] is RecvdBool
                || r.1@[i] is MapWritten),
        r.0 is Ok ==> parent_handshake_complete(r.1@, fd),
        r.0 is Ok ==> {
            ||| r.1@ =~= seq![
                (IoEvent::RecvdBool { fd, value: false }),
                (IoEvent::SentBool { fd, value: false }),
            ]
            ||| r.1@ =~= seq![
                (IoEvent::RecvdBool { fd, value: true }),
                (IoEvent::MapWritten {
                    path: spec_map_path(pid, false),
                    bytes: "0 10000 2000"@,
                }),
                (IoEvent::MapWritten { path: spec_map_path(pid, true), bytes: "0 10000 2000"@ }),
                (IoEvent::SentBool { fd, value: false }),
            ]
        },
        (r.0 matches Err(e) && e matches Errcode::NamespaceError(_)) ==> forall|i: int|
            0 <= i < r.1@.len() && is_send_on(#[trigger] r.1@[i], fd) ==> r.1@[i]
                == (IoEvent::SentBool { fd, value: true }),
        r.0 matches Err(e) ==> {
            ||| e == Errcode::SocketError(1)
            ||| e == Errcode::SocketError(2)
            ||| e == Errcode::NamespaceError(4)
            ||| e == Errcode::NamespaceError(5)
            ||| e == Errcode::NamespaceError(6)
            ||| e == Errcode::NamespaceError(7)
        },
{
    let ghost mut tr: Seq<IoEvent> = Seq::empty();
    let child_has_userns = match recv_boolean(fd) {
        Ok(b) => {
            proof {
                let e = IoEvent::RecvdBool { fd, value: b };
                crate::events::lemma_counts_push(tr, e, fd, Seq::empty());
                tr = tr.push(e);
            }
            b
        },
        Err(e) => {
            return (Err(e), Ghost(tr));
        },
    };
    if child_has_userns {
        let line = uid_map_line();
        let upath = proc_map_path(pid, false);
        match write_map_file(&upath, &line) {
            Ok(()) => {
                proof {
                    let e = IoEvent::MapWritten { path: upath@, bytes: line@ };
                    crate::events::lemma_counts_push(tr, e, fd, Seq::empty());
                    tr = tr.push(e);
                }
            },
            Err(open_failed) => {
                let code: u8 = if open_failed {
                    5
                } else {
                    4
                };
                match send_boolean(fd, true) {
                    Ok(()) => {
                        proof {
                            let e = IoEvent::SentBool { fd, value: true };
                            crate::events::lemma_counts_push(tr, e, fd, Seq::empty());
                            tr = tr.push(e);
                        }
                    },
                    Err(_e) => {},
                }
                return (Err(Errcode::NamespaceError(code)), Ghost(tr));
            },
        }
        let gpath = proc_map_path(pid, true);
        match write_map_file(&gpath, &line) {
            Ok(()) => {
                proof {
                    let e = IoEvent::MapWritten { path: gpath@, bytes: line@ };
                    crate::events::lemma_counts_push(tr, e, fd, Seq::empty());
                    tr = tr.push(e);
                }
            },
            Err(open_failed) => {
                let code: u8 = if open_failed {
                    7
                } else {
                    6
                };
                match send_boolean(fd, true) {
                    Ok(()) => {
                        proof {
                            let e = IoEvent::SentBool { fd, value: true };
                            crate::events::lemma_counts_push(tr, e, fd, Seq::empty());
                            tr = tr.push(e);
                        }
                    },
                    Err(_e) => {},
                }
                return (Err(Errcode::NamespaceError(code)), Ghost(tr));
            },
        }
    }
    match send_boolean(fd, false) {
        Ok(()) => {
            proof {
                let e = IoEvent::SentBool { fd, value: false };
                crate::events::lemma_counts_push(tr, e, fd, Seq::empty());
                tr = tr.push(e);
            }
            (Ok(()), Ghost(tr))
        },
        Err(e) => (Err(e), Ghost(tr)),
    }
}

} // verus!
