use vstd::prelude::*;
use crate::child::create_child_process;
use crate::config_opts::ContainerOptions;
use crate::errors::Errcode;
use crate::events::{
    cgroup_created, cgroup_remove_count, close_count, lemma_cgroup_remove_count_zero,
    lemma_close_count_zero, lemma_counts_concat, lemma_counts_push, lemma_pair_count_zero,
    pair_count, pair_created, IoEvent,
};
use crate::ipc::sys_close;
use crate::mount::clean_mount;
use crate::namespace::{handle_child_uid_map, parent_handshake_complete};
use crate::resource::{clean_cgroups, restrict_resources};
use crate::syscalls::SeccompSink;
use crate::text::spec_split_ws;

verus! {

/// The command-line surface of the runtime, as plain values.
#[derive(Debug, Clone)]
pub struct BowlArg {
    /// Verbose logging wanted.
    pub debug: Option<bool>,
    /// The command to run inside the container.
    pub command: String,
    /// The in-container UID to run it under.
    pub uid: u32,
    /// The host directory that becomes the container's root.
    pub mount_directory: String,
    /// Additional bind mounts, each written `source:target`.
    pub add_paths: Vec<String>,
}

/// The parent's lifecycle record for one container.
#[derive(Debug)]
pub struct BowlContainer {
    /// Both ends of the synchronization pair; the parent keeps `.0`.
    pub sockets: (i32, i32),
    /// The immutable options.
    pub config: ContainerOptions,
    /// The child's pid, set once the clone succeeded.
    pub child_pid: Option<i32>,
    /// The child's clone stack, kept alive until the child is reaped.
    pub child_stack: Option<Vec<u8>>,
    /// Which socket ends this process has closed already.
    pub parent_fd_closed: bool,
    pub child_fd_closed: bool,
}

/// The well-formed reading of one additional-path argument: `src` is
/// everything before the first `:` of `s`, `dst` everything after it.
pub open spec fn is_add_path_split(s: Seq<char>, src: Seq<char>, dst: Seq<char>) -> bool {
    exists|i: int|
        {
            &&& 0 <= i < s.len()
            &&& s[i] == ':'
            &&& (forall|j: int| 0 <= j < i ==> s[j] != ':')
            &&& src == s.subrange(0, i)
            &&& dst == s.subrange(i + 1, s.len() as int)
        }
}

/// Whether `dst` is the target half of `arg`: everything after the
/// first `:`.
pub open spec fn split_target(arg: Seq<char>, dst: Seq<char>) -> bool {
    exists|src: Seq<char>| is_add_path_split(arg, src, dst)
}

/// Whether `stored` is the target half of `arg` with its leading `/`
/// characters removed — what the container keeps for one additional
/// bind mount.
pub open spec fn stripped_split_target(arg: Seq<char>, stored: Seq<char>) -> bool {
    exists|dst: Seq<char>|
        #[trigger] split_target(arg, dst) && stored == crate::config_opts::spec_strip_slashes(dst)
}

/// Splits one additional-mount argument at its first `:` into
/// `(source, target)`.
fn split_add_path(s: &String) -> (r: Option<(String, String)>)
    ensures
        r matches Some(p) ==> is_add_path_split(s@, p.0@, p.1@),
        r is None ==> forall|i: int| 0 <= i < s@.len() ==> s@[i] != ':',
{
    let n = s.as_str().unicode_len();
    let mut k: usize = 0;
    while k < n && s.as_str().get_char(k) != ':'
        invariant
            0 <= k <= n,
            n == s@.len(),
            forall|j: int| 0 <= j < k ==> s@[j] != ':',
        decreases n - k,
    {
        k += 1;
    }
    if k == n {
        None
    } else {
        let src = s.as_str().substring_char(0, k).to_owned();
        let dst = s.as_str().substring_char(k + 1, n).to_owned();
        Some((src, dst))
    }
}

impl BowlContainer {
    /// Well-formedness: a well-formed config holding the child end of
    /// two distinct usable descriptors.
    pub open spec fn wf(self) -> bool {
        &&& self.config.wf()
        &&& self.sockets.0 >= 0
        &&& self.sockets.1 >= 0
        &&& self.sockets.0 != self.sockets.1
        &&& self.config.fd == self.sockets.1
    }

    /// Builds the container record from the command-line values: parses
    /// each additional bind mount at its first `:` (an argument without
    /// one is rejected) and builds the options, which validates the
    /// mount root, creates the socket pair and strips each target.
    pub fn new(args: BowlArg) -> (r: Result<BowlContainer, Errcode>)
        ensures
            r matches Ok(c) ==> {
                &&& c.wf()
                &&& c.child_pid is None
                &&& !c.parent_fd_closed
                &&& !c.child_fd_closed
                &&& c.config.uid == args.uid
                &&& c.config.mount_directory@ == args.mount_directory@
                &&& c.config.args.deep_view() == spec_split_ws(args.command@)
                &&& c.config.add_paths@.len() == args.add_paths@.len()
                &&& forall|k: int|
                    0 <= k < args.add_paths@.len() ==> stripped_split_target(
                        (#[trigger] args.add_paths@[k])@,
                        c.config.add_paths@[k].1@,
                    )
            },
            spec_split_ws(args.command@).len() == 0 ==> r is Err,
            r matches Err(e) ==> {
                ||| e matches Errcode::InvalidArgument(_)
                ||| e == Errcode::WordError
                ||| e == Errcode::SocketError(0)
            },
    {
        let mut parsed: Vec<(String, String)> = Vec::new();
        let mut i: usize = 0;
        while i < args.add_paths.len()
            invariant
                0 <= i <= args.add_paths@.len(),
                parsed@.len() == i,
                forall|k: int|
                    0 <= k < i ==> split_target((#[trigger] args.add_paths@[k])@, parsed@[k].1@),
            decreases args.add_paths@.len() - i,
        {
            let ghost before = parsed@;
            match split_add_path(&args.add_paths[i]) {
                Some(p) => {
                    let ghost p0 = p.0@;
                    let ghost p1 = p.1@;
                    parsed.push(p);
                    proof {
                        assert(is_add_path_split(args.add_paths@[i as int]@, p0, p1));
                        assert(split_target(args.add_paths@[i as int]@, parsed@[i as int].1@));
                    }
                },
                None => {
                    return Err(Errcode::InvalidArgument("add_paths"));
                },
            }
            i += 1;
        }
        let ghost parsed_view = parsed@;
        let built = ContainerOptions::new(args.command, args.uid, args.mount_directory, parsed);
        let (config, sockets) = match built {
            Ok(cs) => cs,
            Err(e) => {
                return Err(e);
            },
        };
        proof {
            assert forall|k: int|
                0 <= k < args.add_paths@.len() implies stripped_split_target(
                (#[trigger] args.add_paths@[k])@,
                config.add_paths@[k].1@,
            ) by {
                assert(split_target(args.add_paths@[k]@, parsed_view[k].1@));
                assert(config.add_paths@[k].1@ == crate::config_opts::spec_strip_slashes(
                    parsed_view[k].1@,
                ));
            }
        }
        Ok(
            BowlContainer {
                sockets,
                config,
                child_pid: None,
                child_stack: None,
                parent_fd_closed: false,
                child_fd_closed: false,
            },
        )
    }

    /// Clones the child under the six namespaces — the sink travels
    /// into it for the seccomp step — keeps its pid and its stack, then
    /// applies the cgroup restrictions to it and serves the uid-map
    /// handshake.  A successful spawn leaves the pid and the stack in
    /// the record, and its trace is the cgroup creation under the
    /// container's hostname followed by the completed parent handshake;
    /// the trace never holds close, pair-creation or cgroup-removal
    /// events, and a cgroup creation it holds is always under the
    /// container's hostname.
    pub fn create_process<S: SeccompSink>(&mut self, sink: S) -> (r: (
        Result<(), Errcode>,
        Ghost<Seq<IoEvent>>,
    ))
        requires
            old(self).wf(),
        ensures
            final(self).wf(),
            final(self).sockets == old(self).sockets,
            final(self).config == old(self).config,
            final(self).parent_fd_closed == old(self).parent_fd_closed,
            final(self).child_fd_closed == old(self).child_fd_closed,
            r.0 is Ok ==> final(self).child_pid is Some && final(self).child_stack is Some,
            r.0 is Ok ==> {
                &&& r.1@.len() >= 2
                &&& r.1@[0] == (IoEvent::CgroupCreated { name: old(self).config.hostname@ })
                &&& parent_handshake_complete(r.1@.skip(1), old(self).sockets.0)
            },
            forall|i: int|
                0 <= i < r.1@.len() ==> !((#[trigger] r.1@[i]) is FdClosed) && !(r.1@[i]
                    is PairCreated) && !(r.1@[i] is CgroupRemoveAttempted),
            forall|i: int|
                0 <= i < r.1@.len() ==> ((#[trigger] r.1@[i]) is CgroupCreated ==> r.1@[i]
                    == (IoEvent::CgroupCreated { name: old(self).config.hostname@ })),
            r.0 matches Err(e) ==> {
                ||| e == Errcode::ChildProcessError(0)
                ||| e == Errcode::ResourcesError(0)
                ||| e == Errcode::ResourcesError(1)
                ||| e matches Errcode::SocketError(_)
                ||| e matches Errcode::NamespaceError(_)
            },
    {
        let ghost mut tr: Seq<IoEvent> = Seq::empty();
        let (pid, stack) = match create_child_process(&self.config, sink) {
            Ok(ps) => ps,
            Err(e) => {
                return (Err(e), Ghost(tr));
            },
        };
        self.child_pid = Some(pid);
        self.child_stack = Some(stack);
        let (restrict_res, restrict_tr) = restrict_resources(&self.config.hostname, pid);
        proof {
            tr = tr + restrict_tr@;
        }
        match restrict_res {
            Ok(()) => {},
            Err(e) => {
                return (Err(e), Ghost(tr));
            },
        }
        let (map_res, map_tr) = handle_child_uid_map(pid, self.sockets.0);
        proof {
            tr = tr + map_tr@;
        }
        match map_res {
            Ok(()) => {},
            Err(e) => {
                return (Err(e), Ghost(tr));
            },
        }
        proof {
            assert(tr.skip(1) =~= map_tr@);
        }
        (Ok(()), Ghost(tr))
    }

    /// Releases what the lifecycle acquired: the placeholder mount
    /// cleanup, one close of each socket end not closed before, and
    /// exactly one removal attempt for the container's cgroup, where a
    /// directory already gone counts as success.  Every step runs even
    /// when an earlier one fails; the first failure is reported.
    pub fn clean(&mut self) -> (r: (Result<(), Errcode>, Ghost<Seq<IoEvent>>))
        requires
            old(self).wf(),
        ensures
            final(self).wf(),
            final(self).sockets == old(self).sockets,
            final(self).config == old(self).config,
            final(self).parent_fd_closed,
            final(self).child_fd_closed,
            forall|f: i32|
                close_count(r.1@, f) == (if f == old(self).sockets.0 && !old(
                    self,
                ).parent_fd_closed {
                    1nat
                } else if f == old(self).sockets.1 && !old(self).child_fd_closed {
                    1nat
                } else {
                    0nat
                }),
            forall|n: Seq<char>|
                cgroup_remove_count(r.1@, n) == (if n == old(self).config.hostname@ {
                    1nat
                } else {
                    0nat
                }),
            pair_count(r.1@) == 0,
            forall|i: int|
                0 <= i < r.1@.len() ==> !((#[trigger] r.1@[i]) is CgroupCreated) && !(r.1@[i]
                    is PairCreated),
            r.0 matches Err(e) ==> {
                ||| e == Errcode::SocketError(3)
                ||| e == Errcode::SocketError(4)
                ||| e == Errcode::ResourcesError(2)
            },
    {
        let ghost mut tr: Seq<IoEvent> = Seq::empty();
        let mut first_err: Option<Errcode> = None;
        match clean_mount(&self.config.mount_directory) {
            Ok(()) => {},
            Err(e) => {
                first_err = Some(e);
            },
        }
        if !self.parent_fd_closed {
            self.parent_fd_closed = true;
            proof {
                let e = IoEvent::FdClosed { fd: self.sockets.0 };
                tr = tr.push(e);
            }
            if sys_close(self.sockets.0).is_err() {
                if first_err.is_none() {
                    first_err = Some(Errcode::SocketError(3));
                }
            }
        }
        if !self.child_fd_closed {
            self.child_fd_closed = true;
            proof {
                let e = IoEvent::FdClosed { fd: self.sockets.1 };
                tr = tr.push(e);
            }
            if sys_close(self.sockets.1).is_err() {
                if first_err.is_none() {
                    first_err = Some(Errcode::SocketError(4));
                }
            }
        }
        let ghost tr_before_cgroups = tr;
        let (cg_res, cg_tr) = clean_cgroups(&self.config.hostname);
        proof {
            tr = tr + cg_tr@;
        }
        match cg_res {
            Ok(()) => {},
            Err(Errcode::ResourcesError(3)) => {},
            Err(e) => {
                if first_err.is_none() {
                    first_err = Some(e);
                }
            },
        }
        proof {
            let a = old(self).sockets.0;
            let b = old(self).sockets.1;
            assert forall|f: i32|
                close_count(tr, f) == (if f == a && !old(self).parent_fd_closed {
                    1nat
                } else if f == b && !old(self).child_fd_closed {
                    1nat
                } else {
                    0nat
                }) by {
                let ghost e0 = Seq::<IoEvent>::empty();
                lemma_counts_push(e0, IoEvent::FdClosed { fd: a }, f, Seq::empty());
                lemma_counts_push(
                    e0.push(IoEvent::FdClosed { fd: a }),
                    IoEvent::FdClosed { fd: b },
                    f,
                    Seq::empty(),
                );
                lemma_counts_push(e0, IoEvent::FdClosed { fd: b }, f, Seq::empty());
                lemma_counts_concat(tr_before_cgroups, cg_tr@, f, Seq::empty());
                lemma_close_count_zero(cg_tr@, f);
            }
            assert forall|n: Seq<char>|
                cgroup_remove_count(tr, n) == (if n == old(self).config.hostname@ {
                    1nat
                } else {
                    0nat
                }) by {
                let ghost e0 = Seq::<IoEvent>::empty();
                lemma_cgroup_remove_count_zero(tr_before_cgroups, n);
                lemma_counts_concat(tr_before_cgroups, cg_tr@, 0, n);
                lemma_counts_push(
                    e0,
                    IoEvent::CgroupRemoveAttempted { name: old(self).config.hostname@ },
                    0,
                    n,
                );
            }
            lemma_pair_count_zero(tr_before_cgroups);
            lemma_pair_count_zero(cg_tr@);
            lemma_counts_concat(tr_before_cgroups, cg_tr@, 0, Seq::empty());
        }
        match first_err {
            None => (Ok(()), Ghost(tr)),
            Some(e) => (Err(e), Ghost(tr)),
        }
    }

    /// Host-side cleanup for an exit before any child was created.
    pub fn clean_exit(&mut self) -> (r: Result<(), Errcode>)
        ensures
            r is Ok,
    {
        clean_mount(&self.config.mount_directory)
    }
}

/// Relies on nix::sys::wait::waitpid with no options: blocks until the
/// child with the given pid terminates, and reaps it.
#[verifier::external_body]
fn sys_waitpid(pid: i32) -> (r: Result<(), ()>) {
    match nix::sys::wait::waitpid(nix::unistd::Pid::from_raw(pid), None) {
        Ok(_) => Ok(()),
        Err(_) => Err(()),
    }
}

/// Waits for the child to finish, when there is one.
pub fn wait(pid: Option<i32>) -> (r: Result<(), Errcode>)
    ensures
        pid is None ==> r is Ok,
        r is Err ==> r == Err::<(), Errcode>(Errcode::ContainerError(1)),
{
    match pid {
        Some(p) => match sys_waitpid(p) {
            Ok(()) => Ok(()),
            Err(()) => Err(Errcode::ContainerError(1)),
        },
        None => Ok(()),
    }
}

/// Runs one full container lifecycle: builds the record (socket pair
/// included), spawns and restricts the child — handing it the seccomp
/// sink for its filter step — waits for it, and cleans up; cleanup runs
/// on every path on which the pair was created, and a failure during
/// cleanup wraps the pending error in `CleanupFailure`.
/// The trace carries the two conservation laws: at most one pair is
/// created, each of its two ends is then closed exactly once, and a
/// cgroup the run created gets exactly one removal attempt.
/// The errors one lifecycle can surface: rejection of the arguments,
/// word generation, socket work, the spawn and restriction phases, the
/// wait, cleanup — or a cleanup failure wrapping the error it buried.
pub open spec fn spec_start_error(e: Errcode) -> bool {
    ||| e matches Errcode::InvalidArgument(_)
    ||| e == Errcode::WordError
    ||| e matches Errcode::SocketError(_)
    ||| e == Errcode::ChildProcessError(0)
    ||| e matches Errcode::ResourcesError(_)
    ||| e matches Errcode::NamespaceError(_)
    ||| e == Errcode::ContainerError(1)
    ||| e matches Errcode::CleanupFailure(_)
}

pub fn start<S: SeccompSink>(args: BowlArg, sink: S) -> (r: (
    Result<(), Errcode>,
    Ghost<Seq<IoEvent>>,
))
    ensures
        pair_count(r.1@) <= 1,
        r.0 is Ok ==> pair_count(r.1@) == 1,
        r.0 is Ok ==> exists|p: i32, c: i32| pair_created(r.1@, p, c),
        spec_split_ws(args.command@).len() == 0 ==> r.0 is Err,
        r.0 matches Err(e) ==> spec_start_error(e),
        forall|p: i32, c: i32|
            pair_created(r.1@, p, c) ==> close_count(r.1@, p) == 1 && close_count(r.1@, c) == 1,
        pair_count(r.1@) == 0 ==> (forall|f: i32| close_count(r.1@, f) == 0),
        forall|n: Seq<char>| cgroup_created(r.1@, n) ==> cgroup_remove_count(r.1@, n) == 1,
{
    let ghost mut tr: Seq<IoEvent> = Seq::empty();
    let mut container = match BowlContainer::new(args) {
        Ok(c) => c,
        Err(e) => {
            return (Err(e), Ghost(tr));
        },
    };
    let ghost first = IoEvent::PairCreated {
        parent_fd: container.sockets.0,
        child_fd: container.sockets.1,
    };
    proof {
        tr = tr.push(first);
    }
    let ghost tr0 = tr;
    let (create_res, create_tr) = container.create_process(sink);
    proof {
        tr = tr + create_tr@;
    }
    let out = match create_res {
        Err(e1) => {
            // Cleanup first: closing the parent's socket ends unblocks a
            // child that still waits in the handshake; then reap it.
            let (clean_res, clean_tr) = container.clean();
            proof {
                tr = tr + clean_tr@;
                lemma_start_trace(
                    tr0,
                    create_tr@,
                    clean_tr@,
                    container.sockets.0,
                    container.sockets.1,
                    container.config.hostname@,
                );
            }
            let _reaped = wait(container.child_pid);
            match clean_res {
                Ok(()) => Err(e1),
                Err(_e2) => Err(Errcode::CleanupFailure(Box::new(e1))),
            }
        },
        Ok(()) => {
            let wait_res = wait(container.child_pid);
            let (clean_res, clean_tr) = container.clean();
            proof {
                tr = tr + clean_tr@;
                lemma_start_trace(
                    tr0,
                    create_tr@,
                    clean_tr@,
                    container.sockets.0,
                    container.sockets.1,
                    container.config.hostname@,
                );
                assert(tr[0] == first);
                assert(pair_created(tr, container.sockets.0, container.sockets.1));
            }
            match wait_res {
                Err(we) => match clean_res {
                    Ok(()) => Err(we),
                    Err(_e2) => Err(Errcode::CleanupFailure(Box::new(we))),
                },
                Ok(()) => match clean_res {
                    Ok(()) => Ok(()),
                    Err(e2) => Err(e2),
                },
            }
        },
    };
    (out, Ghost(tr))
}

/// The shape of a full lifecycle trace: one pair creation, then the
/// spawn phase, then cleanup — which yields the two conservation laws.
proof fn lemma_start_trace(
    tr0: Seq<IoEvent>,
    ctr: Seq<IoEvent>,
    ltr: Seq<IoEvent>,
    a: i32,
    b: i32,
    host: Seq<char>,
)
    requires
        a != b,
        tr0 =~= Seq::empty().push(IoEvent::PairCreated { parent_fd: a, child_fd: b }),
        forall|i: int|
            0 <= i < ctr.len() ==> !((#[trigger] ctr[i]) is FdClosed) && !(ctr[i] is PairCreated)
                && !(ctr[i] is CgroupRemoveAttempted),
        forall|i: int|
            0 <= i < ctr.len() ==> ((#[trigger] ctr[i]) is CgroupCreated ==> ctr[i]
                == (IoEvent::CgroupCreated { name: host })),
        forall|f: i32|
            close_count(ltr, f) == (if f == a {
                1nat
            } else if f == b {
                1nat
            } else {
                0nat
            }),
        forall|n: Seq<char>|
            cgroup_remove_count(ltr, n) == (if n == host {
                1nat
            } else {
                0nat
            }),
        pair_count(ltr) == 0,
        forall|i: int|
            0 <= i < ltr.len() ==> !((#[trigger] ltr[i]) is CgroupCreated) && !(ltr[i]
                is PairCreated),
    ensures
        pair_count(tr0 + ctr + ltr) == 1,
        forall|p: i32, c: i32|
            pair_created(tr0 + ctr + ltr, p, c) ==> close_count(tr0 + ctr + ltr, p) == 1
                && close_count(tr0 + ctr + ltr, c) == 1,
        forall|n: Seq<char>|
            cgroup_created(tr0 + ctr + ltr, n) ==> cgroup_remove_count(tr0 + ctr + ltr, n) == 1,
{
    let first = IoEvent::PairCreated { parent_fd: a, child_fd: b };
    let t1 = tr0 + ctr;
    let t2 = t1 + ltr;
    assert(t2 =~= tr0 + ctr + ltr);

    // pair_count
    lemma_counts_push(Seq::empty(), first, 0, Seq::empty());
    lemma_pair_count_zero(ctr);
    lemma_counts_concat(tr0, ctr, 0, Seq::empty());
    lemma_counts_concat(t1, ltr, 0, Seq::empty());
    assert(pair_count(t2) == 1);

    // close counts
    assert forall|p: i32, c: i32| pair_created(t2, p, c) implies close_count(t2, p) == 1
        && close_count(t2, c) == 1 by {
        let ev = IoEvent::PairCreated { parent_fd: p, child_fd: c };
        let i = choose|i: int| 0 <= i < t2.len() && t2[i] == ev;
        assert(t2[i] is PairCreated);
        if i >= t1.len() {
            assert(t2[i] == ltr[i - t1.len()]);
            assert(false);
        } else if i >= tr0.len() {
            assert(t2[i] == t1[i]);
            assert(t1[i] == ctr[i - tr0.len()]);
            assert(false);
        } else {
            assert(t2[i] == t1[i]);
            assert(t1[i] == tr0[i]);
            assert(i == 0);
            assert(p == a && c == b);
        }
        lemma_close_count_zero(tr0, p);
        lemma_close_count_zero(ctr, p);
        lemma_counts_concat(tr0, ctr, p, Seq::empty());
        lemma_counts_concat(t1, ltr, p, Seq::empty());
        lemma_close_count_zero(tr0, c);
        lemma_close_count_zero(ctr, c);
        lemma_counts_concat(tr0, ctr, c, Seq::empty());
        lemma_counts_concat(t1, ltr, c, Seq::empty());
    }

    // cgroup conservation
    assert forall|n: Seq<char>| cgroup_created(t2, n) implies cgroup_remove_count(t2, n) == 1 by {
        let ev = IoEvent::CgroupCreated { name: n };
        let i = choose|i: int| 0 <= i < t2.len() && t2[i] == ev;
        assert(t2[i] is CgroupCreated);
        if i >= t1.len() {
            assert(t2[i] == ltr[i - t1.len()]);
            assert(false);
        } else if i >= tr0.len() {
            assert(t2[i] == t1[i]);
            assert(t1[i] == ctr[i - tr0.len()]);
            assert(n == host);
        } else {
            assert(t2[i] == t1[i]);
            assert(t1[i] == tr0[i]);
            assert(false);
        }
        lemma_cgroup_remove_count_zero(tr0, n);
        lemma_cgroup_remove_count_zero(ctr, n);
        lemma_counts_concat(tr0, ctr, 0, n);
        lemma_counts_concat(t1, ltr, 0, n);
    }
}

} // verus!
