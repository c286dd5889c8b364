use vstd::prelude::*;
use crate::errors::Errcode;

verus! {

/// The errno a denied syscall reports: operation not permitted.
pub const EPERM: u16 = 1;

/// setuid and setgid mode bits of chmod(2), the CLONE_NEWUSER bit of
/// clone(2)/unshare(2), and the TIOCSTI ioctl request, as the kernel
/// headers fix them.
pub const S_ISUID_BITS: u64 = 0o4000;

pub const S_ISGID_BITS: u64 = 0o2000;

pub const CLONE_NEWUSER_BITS: u64 = 0x10000000;

pub const TIOCSTI_BITS: u64 = 0x5412;

/// The nine syscalls denied outright: the key-management, memory-policy,
/// page-migration, userfaultfd and perf interfaces.
pub open spec fn spec_unconditional_denies() -> Seq<Seq<char>> {
    seq![
        "keyctl"@,
        "add_key"@,
        "request_key"@,
        "mbind"@,
        "migrate_pages"@,
        "move_pages"@,
        "set_mempolicy"@,
        "userfaultfd"@,
        "perf_event_open"@,
    ]
}

/// The nine `(syscall, argument index, mask)` triples denied when the
/// argument has all mask bits set: setuid/setgid mode changes, new user
/// namespaces, and terminal input injection.
pub open spec fn spec_conditional_denies() -> Seq<(Seq<char>, u32, u64)> {
    seq![
        ("chmod"@, 1u32, 0o4000u64),
        ("chmod"@, 1u32, 0o2000u64),
        ("fchmod"@, 1u32, 0o4000u64),
        ("fchmod"@, 1u32, 0o2000u64),
        ("fchmodat"@, 2u32, 0o4000u64),
        ("fchmodat"@, 2u32, 0o2000u64),
        ("unshare"@, 0u32, 0x10000000u64),
        ("clone"@, 0u32, 0x10000000u64),
        ("ioctl"@, 1u32, 0x5412u64),
    ]
}

/// The unconditional deny list as handed to the filter: exactly the nine
/// names of `spec_unconditional_denies`, in order.
pub fn unconditional_denies() -> (r: Vec<&'static str>)
    ensures
        r@.len() == spec_unconditional_denies().len(),
        forall|i: int|
            0 <= i < r@.len() ==> (#[trigger] r@[i])@ == spec_unconditional_denies()[i],
{
    let mut v: Vec<&'static str> = Vec::new();
    v.push("keyctl");
    v.push("add_key");
    v.push("request_key");
    v.push("mbind");
    v.push("migrate_pages");
    v.push("move_pages");
    v.push("set_mempolicy");
    v.push("userfaultfd");
    v.push("perf_event_open");
    v
}

/// The conditional deny list as handed to the filter: exactly the nine
/// triples of `spec_conditional_denies`, in order.
pub fn conditional_denies() -> (r: Vec<(&'static str, u32, u64)>)
    ensures
        r@.len() == spec_conditional_denies().len(),
        forall|i: int|
            0 <= i < r@.len() ==> {
                &&& (#[trigger] r@[i]).0@ == spec_conditional_denies()[i].0
                &&& r@[i].1 == spec_conditional_denies()[i].1
                &&& r@[i].2 == spec_conditional_denies()[i].2
            },
{
    let mut v: Vec<(&'static str, u32, u64)> = Vec::new();
    v.push(("chmod", 1, S_ISUID_BITS));
    v.push(("chmod", 1, S_ISGID_BITS));
    v.push(("fchmod", 1, S_ISUID_BITS));
    v.push(("fchmod", 1, S_ISGID_BITS));
    v.push(("fchmodat", 2, S_ISUID_BITS));
    v.push(("fchmodat", 2, S_ISGID_BITS));
    v.push(("unshare", 0, CLONE_NEWUSER_BITS));
    v.push(("clone", 0, CLONE_NEWUSER_BITS));
    v.push(("ioctl", 1, TIOCSTI_BITS));
    v
}

/// The boundary to the seccomp layer: a sink that receives the deny
/// rules and commits the filter.  The library decides what to deny —
/// exactly the rules of the verified tables — and the sink performs it.
/// The seccomp bindings compile here, but every runnable artifact that
/// links this library must also link the seccomp shared library by its
/// linker name, which this system does not provide; so the library
/// cannot reference the bindings itself, and the embedding program —
/// type-checked against the library, never linked here — supplies the
/// implementation.  The methods promise nothing, so every proof here
/// holds whatever the sink does.
pub trait SeccompSink {
    /// Prepares a fresh filter whose default verdict is allow.
    fn init(&mut self) -> Result<(), ()>;

    /// Adds an unconditional deny of the named syscall with errno
    /// `errno`.
    fn deny(&mut self, name: &'static str, errno: u16) -> Result<(), ()>;

    /// Adds a deny of the named syscall, with errno `errno`, for calls
    /// whose argument `arg` has all bits of `mask` set (masked-equality
    /// comparison against the mask itself).
    fn deny_masked(&mut self, name: &'static str, errno: u16, arg: u32, mask: u64) -> Result<
        (),
        (),
    >;

    /// Commits the filter to the kernel, a single transaction.
    fn load(&mut self) -> Result<(), ()>;
}

/// Adds an unconditional EPERM deny of the named syscall to the filter.
fn reject_syscall<S: SeccompSink>(sink: &mut S, name: &'static str) -> (r: Result<(), Errcode>)
    ensures
        r is Err ==> r == Err::<(), Errcode>(Errcode::SyscallsError(3)),
{
    match sink.deny(name, EPERM) {
        Ok(()) => Ok(()),
        Err(()) => Err(Errcode::SyscallsError(3)),
    }
}

/// Adds an EPERM deny of the named syscall for calls whose argument
/// `ind` has all bits of `biteq` set.
fn reject_conditional_syscall<S: SeccompSink>(
    sink: &mut S,
    ind: u32,
    name: &'static str,
    biteq: u64,
) -> (r: Result<(), Errcode>)
    ensures
        r is Err ==> r == Err::<(), Errcode>(Errcode::SyscallsError(2)),
{
    match sink.deny_masked(name, EPERM, ind, biteq) {
        Ok(()) => Ok(()),
        Err(()) => Err(Errcode::SyscallsError(2)),
    }
}

/// One deny rule as it is handed to the filter: a syscall name, refused
/// with `errno`, either outright or only when the argument at the index
/// has all mask bits set.
pub struct DenyRule {
    pub name: Seq<char>,
    pub arg_cond: Option<(u32, u64)>,
    pub errno: u16,
}

pub open spec fn spec_conditional_rule(t: (Seq<char>, u32, u64)) -> DenyRule {
    DenyRule { name: t.0, arg_cond: Some((t.1, t.2)), errno: 1 }
}

pub open spec fn spec_unconditional_rule(n: Seq<char>) -> DenyRule {
    DenyRule { name: n, arg_cond: None, errno: 1 }
}

/// The full deny table of the filter: the nine conditional rules, then
/// the nine unconditional ones, every one with errno EPERM.
pub open spec fn spec_deny_rules() -> Seq<DenyRule> {
    spec_conditional_denies().map_values(|t: (Seq<char>, u32, u64)| spec_conditional_rule(t))
        + spec_unconditional_denies().map_values(|n: Seq<char>| spec_unconditional_rule(n))
}

/// Builds and installs the syscall filter through the sink: default
/// allow, one EPERM deny per entry of the two tables, and one commit at
/// the end.  The returned trace lists every rule handed to the sink, in
/// order: a run that returns Ok handed over exactly the eighteen rules
/// of `spec_deny_rules`, nothing else.
pub fn set_syscalls<S: SeccompSink>(sink: &mut S) -> (r: (
    Result<(), Errcode>,
    Ghost<Seq<DenyRule>>,
))
    ensures
        r.0 is Ok ==> r.1@ == spec_deny_rules(),
        forall|k: int| 0 <= k < r.1@.len() ==> r.1@[k] == spec_deny_rules()[k],
        r.0 matches Err(e) ==> {
            ||| e == Errcode::SyscallsError(0)
            ||| e == Errcode::SyscallsError(1)
            ||| e == Errcode::SyscallsError(2)
            ||| e == Errcode::SyscallsError(3)
        },
{
    let ghost mut rules: Seq<DenyRule> = Seq::empty();
    match sink.init() {
        Ok(()) => {},
        Err(()) => {
            return (Err(Errcode::SyscallsError(1)), Ghost(rules));
        },
    }
    let cond = conditional_denies();
    let ghost cond_rules = spec_conditional_denies().map_values(
        |t: (Seq<char>, u32, u64)| spec_conditional_rule(t),
    );
    let mut i: usize = 0;
    while i < cond.len()
        invariant
            0 <= i <= cond@.len(),
            cond@.len() == spec_conditional_denies().len(),
            forall|k: int|
                0 <= k < cond@.len() ==> {
                    &&& (#[trigger] cond@[k]).0@ == spec_conditional_denies()[k].0
                    &&& cond@[k].1 == spec_conditional_denies()[k].1
                    &&& cond@[k].2 == spec_conditional_denies()[k].2
                },
            rules =~= cond_rules.take(i as int),
            cond_rules == spec_conditional_denies().map_values(
                |t: (Seq<char>, u32, u64)| spec_conditional_rule(t),
            ),
        decreases cond@.len() - i,
    {
        let entry = cond[i];
        match reject_conditional_syscall(sink, entry.1, entry.0, entry.2) {
            Ok(()) => {},
            Err(e) => {
                return (Err(e), Ghost(rules));
            },
        }
        proof {
            rules = rules.push(
                DenyRule {
                    name: cond@[i as int].0@,
                    arg_cond: Some((cond@[i as int].1, cond@[i as int].2)),
                    errno: EPERM,
                },
            );
            assert(rules =~= cond_rules.take(i as int + 1));
        }
        i += 1;
    }
    proof {
        assert(rules =~= cond_rules);
    }
    let uncond = unconditional_denies();
    let ghost uncond_rules = spec_unconditional_denies().map_values(
        |n: Seq<char>| spec_unconditional_rule(n),
    );
    let mut j: usize = 0;
    while j < uncond.len()
        invariant
            0 <= j <= uncond@.len(),
            uncond@.len() == spec_unconditional_denies().len(),
            forall|k: int|
                0 <= k < uncond@.len() ==> (#[trigger] uncond@[k])@
                    == spec_unconditional_denies()[k],
            rules =~= cond_rules + uncond_rules.take(j as int),
            cond_rules == spec_conditional_denies().map_values(
                |t: (Seq<char>, u32, u64)| spec_conditional_rule(t),
            ),
            uncond_rules == spec_unconditional_denies().map_values(
                |n: Seq<char>| spec_unconditional_rule(n),
            ),
        decreases uncond@.len() - j,
    {
        match reject_syscall(sink, uncond[j]) {
            Ok(()) => {},
            Err(e) => {
                return (Err(e), Ghost(rules));
            },
        }
        proof {
            rules = rules.push(
                DenyRule { name: uncond@[j as int]@, arg_cond: None, errno: EPERM },
            );
            assert(rules =~= cond_rules + uncond_rules.take(j as int + 1));
        }
        j += 1;
    }
    proof {
        assert(rules =~= spec_deny_rules());
    }
    if sink.load().is_err() {
        return (Err(Errcode::SyscallsError(0)), Ghost(rules));
    }
    (Ok(()), Ghost(rules))
}

} // verus!
