use vstd::prelude::*;
use crate::capa::{set_capa, spec_caps_to_drop};
use crate::config_opts::ContainerOptions;
use crate::errors::Errcode;
use crate::events::{close_count, is_recv_on, is_send_on, lemma_close_count_zero, IoEvent};
use crate::host::set_container_hostname;
use crate::ipc::sys_close;
use crate::mount::{set_mount_point, spec_mount_plan, spec_rand_fragment, MountOp};
use crate::namespace::{child_handshake_complete, user_namespace};
use crate::syscalls::{set_syscalls, spec_deny_rules, DenyRule, SeccompSink};

verus! {

/// Clone stack size: 1 MiB, allocated on the heap and owned by the
/// parent until the child is reaped.
pub const STACK_SIZE: usize = 1024 * 1024;

/// The six namespace flags of the child's clone and the SIGCHLD number,
/// as <linux/sched.h> and <signal.h> fix them: fresh mount, cgroup, UTS,
/// ipc, pid and network namespaces.
pub const CLONE_NEWNS_BITS: u64 = 0x20000;

pub const CLONE_NEWCGROUP_BITS: u64 = 0x2000000;

pub const CLONE_NEWUTS_BITS: u64 = 0x4000000;

pub const CLONE_NEWIPC_BITS: u64 = 0x8000000;

pub const CLONE_NEWPID_BITS: u64 = 0x20000000;

pub const CLONE_NEWNET_BITS: u64 = 0x40000000;

pub const SIGCHLD_NUM: i32 = 17;

/// The or of the six namespace flags a child is cloned under.
pub open spec fn spec_child_clone_flags() -> u64 {
    0x20000u64 | 0x2000000u64 | 0x4000000u64 | 0x8000000u64 | 0x20000000u64 | 0x40000000u64
}

fn child_clone_flags() -> (r: u64)
    ensures
        r == spec_child_clone_flags(),
{
    CLONE_NEWNS_BITS | CLONE_NEWCGROUP_BITS | CLONE_NEWUTS_BITS | CLONE_NEWIPC_BITS
        | CLONE_NEWPID_BITS | CLONE_NEWNET_BITS
}

/// Everything one child run hands over, for the laws: its socket
/// traffic, the mount operations it asked for, the capability names it
/// dropped, and the seccomp rules it fed to the sink.
pub struct ChildTrace {
    pub io: Seq<IoEvent>,
    pub mounts: Seq<MountOp>,
    pub caps: Seq<Seq<char>>,
    pub rules: Seq<DenyRule>,
}

/// The child's environment setup, in order: hostname into the fresh UTS
/// namespace, root pivot in the fresh mount namespace, the user-namespace
/// handshake with the parent, the capability drop, and the seccomp
/// filter.  A run that returns Ok performed the whole mount plan,
/// completed the handshake, dropped exactly the fixed capability list
/// and fed the sink exactly the fixed deny table.
fn init_container_config<S: SeccompSink>(config: &ContainerOptions, sink: &mut S) -> (r: (
    Result<(), Errcode>,
    Ghost<ChildTrace>,
))
    ensures
        forall|i: int|
            0 <= i < r.1@.io.len() ==> is_send_on(#[trigger] r.1@.io[i], config.fd) || is_recv_on(
                r.1@.io[i],
                config.fd,
            ),
        r.0 is Ok ==> child_handshake_complete(r.1@.io, config.fd),
        r.0 is Ok ==> exists|nr_sfx: Seq<char>, tl_sfx: Seq<char>|
            {
                &&& spec_rand_fragment(nr_sfx, 12)
                &&& spec_rand_fragment(tl_sfx, 6)
                &&& r.1@.mounts == spec_mount_plan(
                    config.mount_directory@,
                    config.add_paths.deep_view(),
                    "/tmp/bowl."@ + nr_sfx,
                    "oldroot."@ + tl_sfx,
                )
            },
        r.0 is Ok ==> r.1@.caps == spec_caps_to_drop(),
        r.0 is Ok ==> r.1@.rules == spec_deny_rules(),
        r.0 matches Err(e) ==> {
            ||| e == Errcode::HostnameError(0)
            ||| e matches Errcode::MountError(_)
            ||| e matches Errcode::SocketError(_)
            ||| e matches Errcode::NamespaceError(_)
            ||| e == Errcode::CapaError(0)
            ||| e matches Errcode::SyscallsError(_)
        },
{
    let ghost mut io: Seq<IoEvent> = Seq::empty();
    let ghost mut mounts: Seq<MountOp> = Seq::empty();
    let ghost mut caps: Seq<Seq<char>> = Seq::empty();
    let ghost mut rules: Seq<DenyRule> = Seq::empty();
    match set_container_hostname(&config.hostname) {
        Ok(()) => {},
        Err(e) => {
            return (Err(e), Ghost(ChildTrace { io, mounts, caps, rules }));
        },
    }
    let (mount_res, mount_ops) = set_mount_point(&config.mount_directory, &config.add_paths);
    proof {
        mounts = mount_ops@;
    }
    match mount_res {
        Ok(()) => {},
        Err(e) => {
            return (Err(e), Ghost(ChildTrace { io, mounts, caps, rules }));
        },
    }
    let (userns_res, handshake) = user_namespace(config.fd, config.uid);
    proof {
        io = handshake@;
    }
    match userns_res {
        Ok(()) => {},
        Err(e) => {
            return (Err(e), Ghost(ChildTrace { io, mounts, caps, rules }));
        },
    }
    let (caps_res, dropped) = set_capa();
    proof {
        caps = dropped@;
    }
    match caps_res {
        Ok(()) => {},
        Err(e) => {
            return (Err(e), Ghost(ChildTrace { io, mounts, caps, rules }));
        },
    }
    let (filter_res, fed) = set_syscalls(sink);
    proof {
        rules = fed@;
    }
    match filter_res {
        Ok(()) => {},
        Err(e) => {
            return (Err(e), Ghost(ChildTrace { io, mounts, caps, rules }));
        },
    }
    (Ok(()), Ghost(ChildTrace { io, mounts, caps, rules }))
}

/// The child entry: runs the environment setup (installing the filter
/// through the sink), closes its inherited end of the socket pair, and
/// reports 0, or -1 when any step failed.  The trace shows the child's
/// half of the conservation laws: its end of the pair is closed at most
/// once, and a child that reports success ran exactly the complete
/// handshake, closed its end exactly once, performed the whole mount
/// plan, dropped exactly the fixed capabilities, and fed the sink
/// exactly the fixed deny table.
pub fn child<S: SeccompSink>(config: ContainerOptions, sink: &mut S) -> (r: (
    isize,
    Ghost<ChildTrace>,
))
    ensures
        r.0 == 0 || r.0 == -1,
        close_count(r.1@.io, config.fd) <= 1,
        r.0 == 0 ==> {
            &&& r.1@.io.len() == 3
            &&& child_handshake_complete(r.1@.io.take(2), config.fd)
            &&& r.1@.io[2] == (IoEvent::FdClosed { fd: config.fd })
            &&& close_count(r.1@.io, config.fd) == 1
            &&& r.1@.caps == spec_caps_to_drop()
            &&& r.1@.rules == spec_deny_rules()
            &&& exists|nr_sfx: Seq<char>, tl_sfx: Seq<char>|
                {
                    &&& spec_rand_fragment(nr_sfx, 12)
                    &&& spec_rand_fragment(tl_sfx, 6)
                    &&& r.1@.mounts == spec_mount_plan(
                        config.mount_directory@,
                        config.add_paths.deep_view(),
                        "/tmp/bowl."@ + nr_sfx,
                        "oldroot."@ + tl_sfx,
                    )
                }
        },
{
    let (setup_res, trace) = init_container_config(&config, sink);
    let ghost mut io: Seq<IoEvent> = trace@.io;
    proof {
        lemma_close_count_zero(io, config.fd);
    }
    match setup_res {
        Ok(()) => {},
        Err(_e) => {
            return (
                -1,
                Ghost(
                    ChildTrace {
                        io,
                        mounts: trace@.mounts,
                        caps: trace@.caps,
                        rules: trace@.rules,
                    },
                ),
            );
        },
    }
    proof {
        let e = IoEvent::FdClosed { fd: config.fd };
        crate::events::lemma_counts_push(io, e, config.fd, Seq::empty());
        io = io.push(e);
    }
    let closed = sys_close(config.fd);
    let ghost full = ChildTrace {
        io,
        mounts: trace@.mounts,
        caps: trace@.caps,
        rules: trace@.rules,
    };
    match closed {
        Ok(()) => {
            proof {
                assert(io.take(2) =~= trace@.io);
            }
            (0, Ghost(full))
        },
        Err(()) => (-1, Ghost(full)),
    }
}

/// Relies on nix::sched::clone: allocates a fresh stack of `stack_size`
/// bytes on the heap, starts a child under the given clone flag bits
/// with the given exit signal, and runs the library's child entry on a
/// copy of `config`, with the given seccomp sink, in it.  On success,
/// the child's nonnegative pid and the stack buffer, which must stay
/// alive until the child is reaped.
#[verifier::external_body]
fn sys_clone_child<S: SeccompSink>(
    config: &ContainerOptions,
    sink: S,
    flag_bits: u64,
    signal: i32,
    stack_size: usize,
) -> (r: Result<(i32, Vec<u8>), ()>)
    ensures
        r matches Ok(ps) ==> ps.0 >= 0,
{
    let mut stack: Vec<u8> = vec![0u8; stack_size];
    let cfg = config.clone();
    let mut moved_sink = sink;
    let res = nix::sched::clone(
        Box::new(move || crate::child::child(cfg.clone(), &mut moved_sink).0),
        &mut stack,
        nix::sched::CloneFlags::from_bits_truncate(flag_bits as i32),
        Some(signal),
    );
    match res {
        Ok(pid) => Ok((pid.as_raw(), stack)),
        Err(_) => Err(()),
    }
}

/// Clones the container's child under the six namespace flags, with
/// SIGCHLD delivery and the 1 MiB stack; the sink travels into the
/// child for its seccomp step.  On success, the child's pid and the
/// stack buffer, which the caller keeps until after waitpid.
pub fn create_child_process<S: SeccompSink>(config: &ContainerOptions, sink: S) -> (r: Result<
    (i32, Vec<u8>),
    Errcode,
>)
    ensures
        r matches Ok(ps) ==> ps.0 >= 0,
        r is Err ==> r == Err::<(i32, Vec<u8>), Errcode>(Errcode::ChildProcessError(0)),
{
    let flags = child_clone_flags();
    match sys_clone_child(config, sink, flags, SIGCHLD_NUM, STACK_SIZE) {
        Ok(ps) => Ok(ps),
        Err(()) => Err(Errcode::ChildProcessError(0)),
    }
}

} // verus!
