use vstd::prelude::*;
use crate::config_opts::{sys_stat_mode, S_IFDIR_BITS, S_IFMT_MASK};
use crate::errors::Errcode;
use crate::events::IoEvent;

verus! {

#[verifier::external_type_specification]
#[verifier::external_body]
pub struct ExCgroup(cgroups_rs::fs::Cgroup);

/// Resource bounds applied to one container's cgroup.
pub struct CgroupLimits {
    /// Relative cpu share, a quarter of the default of 1024.
    pub cpu_shares: u64,
    /// Kernel-memory limit in bytes.
    pub kmem_limit: i64,
    /// Memory limit in bytes.
    pub mem_limit: i64,
    /// Largest number of processes the subtree may hold.
    pub max_pids: i64,
    /// Block-io weight, below the default of 100.
    pub io_weight: u16,
}

/// 1 GiB, the memory and kernel-memory bound.
pub const KMEM_LIMIT: i64 = 1024 * 1024 * 1024;

pub const MEM_LIMIT: i64 = 1024 * 1024 * 1024;

pub const MAX_PID: i64 = 64;

/// Open-file limit applied through setrlimit.
pub const NOFILE_RLIMIT: u64 = 64;

/// The fixed limits of a container cgroup: cpu share 256, 1 GiB of
/// memory and of kernel memory, at most 64 processes, io weight 50.
pub open spec fn spec_container_limits() -> CgroupLimits {
    CgroupLimits {
        cpu_shares: 256,
        kmem_limit: 1073741824i64,
        mem_limit: 1073741824i64,
        max_pids: 64,
        io_weight: 50,
    }
}

/// The limits as handed to the cgroup layer: exactly
/// `spec_container_limits`.
pub fn container_limits() -> (r: CgroupLimits)
    ensures
        r == spec_container_limits(),
{
    CgroupLimits {
        cpu_shares: 256,
        kmem_limit: KMEM_LIMIT,
        mem_limit: MEM_LIMIT,
        max_pids: MAX_PID,
        io_weight: 50,
    }
}

/// Relies on cgroups_rs's CgroupBuilder over the v2 hierarchy: creates
/// the cgroup named `name` under /sys/fs/cgroup and applies the given
/// cpu share, memory and kernel-memory limits, pid maximum and io
/// weight to it.
#[verifier::external_body]
fn sys_cgroup_create(name: &String, lim: &CgroupLimits) -> (r: Result<cgroups_rs::fs::Cgroup, ()>) {
    cgroups_rs::fs::cgroup_builder::CgroupBuilder::new(name.as_str())
        .cpu().shares(lim.cpu_shares).done()
        .memory().kernel_memory_limit(lim.kmem_limit).memory_hard_limit(lim.mem_limit).done()
        .pid().maximum_number_of_processes(cgroups_rs::fs::MaxValue::Value(lim.max_pids)).done()
        .blkio().weight(lim.io_weight).done()
        .build(Box::new(cgroups_rs::fs::hierarchies::V2::new()))
        .map_err(|_| ())
}

/// Relies on cgroups_rs's Cgroup::add_task_by_tgid: moves the process
/// with the given thread-group id into the cgroup (cgroup.procs).
#[verifier::external_body]
fn sys_cgroup_attach(cg: &cgroups_rs::fs::Cgroup, pid: u64) -> (r: Result<(), ()>) {
    match cg.add_task_by_tgid(cgroups_rs::CgroupPid::from(pid)) {
        Ok(()) => Ok(()),
        Err(_) => Err(()),
    }
}

/// Relies on rlimit::setrlimit with Resource::NOFILE: sets the calling
/// process's soft and hard open-file limits.
#[verifier::external_body]
fn sys_set_nofile_limit(soft: u64, hard: u64) -> (r: Result<(), ()>) {
    match rlimit::setrlimit(rlimit::Resource::NOFILE, soft, hard) {
        Ok(()) => Ok(()),
        Err(_) => Err(()),
    }
}

/// The cgroup directory of a container: `/sys/fs/cgroup/<hostname>/`.
pub open spec fn spec_cgroup_dir(hostname: Seq<char>) -> Seq<char> {
    "/sys/fs/cgroup/"@ + hostname + "/"@
}

fn cgroup_dir(hostname: &String) -> (r: String)
    ensures
        r@ == spec_cgroup_dir(hostname@),
{
    let mut s = String::from_str("/sys/fs/cgroup/");
    s.append(hostname.as_str());
    s.append("/");
    s
}

/// Creates the cgroup subtree named `hostname` with the fixed container
/// limits, attaches `pid` to it, and lowers the open-file limit to 64.
/// The trace records the creation exactly when it happened, so the
/// caller owes one removal attempt for it.
pub fn restrict_resources(hostname: &String, pid: i32) -> (r: (
    Result<(), Errcode>,
    Ghost<Seq<IoEvent>>,
))
    requires
        pid >= 0,
    ensures
        r.1@.len() <= 1,
        r.1@.len() == 1 ==> r.1@[0] == (IoEvent::CgroupCreated { name: hostname@ }),
        r.0 is Ok ==> r.1@.len() == 1,
        r.0 matches Err(e) ==> {
            ||| e == Errcode::ResourcesError(0)
            ||| e == Errcode::ResourcesError(1)
        },
{
    let ghost mut tr: Seq<IoEvent> = Seq::empty();
    let limits = container_limits();
    let cg = match sys_cgroup_create(hostname, &limits) {
        Ok(cg) => {
            proof {
                tr = tr.push(IoEvent::CgroupCreated { name: hostname@ });
            }
            cg
        },
        Err(()) => {
            return (Err(Errcode::ResourcesError(0)), Ghost(tr));
        },
    };
    if sys_cgroup_attach(&cg, pid as u64).is_err() {
        return (Err(Errcode::ResourcesError(0)), Ghost(tr));
    }
    if sys_set_nofile_limit(NOFILE_RLIMIT, NOFILE_RLIMIT).is_err() {
        return (Err(Errcode::ResourcesError(1)), Ghost(tr));
    }
    (Ok(()), Ghost(tr))
}

/// Attempts to remove the cgroup directory of `hostname`.  A directory
/// that is already gone is `ResourcesError(3)`, a directory that cannot
/// be removed `ResourcesError(2)`; the caller reads the first as
/// success, since the resource no longer exists.  The trace records
/// exactly this one removal attempt.
pub fn clean_cgroups(hostname: &String) -> (r: (Result<(), Errcode>, Ghost<Seq<IoEvent>>))
    ensures
        r.1@ =~= seq![IoEvent::CgroupRemoveAttempted { name: hostname@ }],
        r.0 matches Err(e) ==> {
            ||| e == Errcode::ResourcesError(2)
            ||| e == Errcode::ResourcesError(3)
        },
{
    let ghost tr: Seq<IoEvent> = seq![IoEvent::CgroupRemoveAttempted { name: hostname@ }];
    let dir = cgroup_dir(hostname);
    let mode = match sys_stat_mode(&dir) {
        Ok(m) => m,
        Err(()) => {
            return (Err(Errcode::ResourcesError(3)), Ghost(tr));
        },
    };
    if mode & S_IFMT_MASK != S_IFDIR_BITS {
        return (Err(Errcode::ResourcesError(3)), Ghost(tr));
    }
    match crate::mount::sys_rmdir(&dir) {
        Ok(()) => (Ok(()), Ghost(tr)),
        Err(()) => (Err(Errcode::ResourcesError(2)), Ghost(tr)),
    }
}

} // verus!
