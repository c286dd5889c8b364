use vstd::prelude::*;
use crate::errors::Errcode;

verus! {

#[verifier::external_type_specification]
#[verifier::external_body]
pub struct ExFullCapState(capctl::caps::FullCapState);

#[verifier::external_type_specification]
#[verifier::external_body]
pub struct ExCap(capctl::caps::Cap);

/// The capabilities cleared from a child, by their kernel names: the
/// audit, mandatory-access-control, raw-device and clock authorities,
/// and the namespace-administration bits a container must not keep.
pub open spec fn spec_caps_to_drop() -> Seq<Seq<char>> {
    seq![
        "CAP_AUDIT_CONTROL"@,
        "CAP_AUDIT_READ"@,
        "CAP_AUDIT_WRITE"@,
        "CAP_BLOCK_SUSPEND"@,
        "CAP_DAC_READ_SEARCH"@,
        "CAP_DAC_OVERRIDE"@,
        "CAP_FSETID"@,
        "CAP_IPC_LOCK"@,
        "CAP_MAC_ADMIN"@,
        "CAP_MAC_OVERRIDE"@,
        "CAP_MKNOD"@,
        "CAP_SETFCAP"@,
        "CAP_SYSLOG"@,
        "CAP_SYS_ADMIN"@,
        "CAP_SYS_BOOT"@,
        "CAP_SYS_MODULE"@,
        "CAP_SYS_NICE"@,
        "CAP_SYS_RAWIO"@,
        "CAP_SYS_RESOURCE"@,
        "CAP_SYS_TIME"@,
        "CAP_WAKE_ALARM"@,
    ]
}

/// The drop list as it is handed to the capability calls: exactly the 21
/// names of `spec_caps_to_drop`, in order.
pub fn caps_to_drop() -> (r: Vec<&'static str>)
    ensures
        r.deep_view() == spec_caps_to_drop(),
        r@.len() == 21,
{
    let mut v: Vec<&'static str> = Vec::new();
    v.push("CAP_AUDIT_CONTROL");
    v.push("CAP_AUDIT_READ");
    v.push("CAP_AUDIT_WRITE");
    v.push("CAP_BLOCK_SUSPEND");
    v.push("CAP_DAC_READ_SEARCH");
    v.push("CAP_DAC_OVERRIDE");
    v.push("CAP_FSETID");
    v.push("CAP_IPC_LOCK");
    v.push("CAP_MAC_ADMIN");
    v.push("CAP_MAC_OVERRIDE");
    v.push("CAP_MKNOD");
    v.push("CAP_SETFCAP");
    v.push("CAP_SYSLOG");
    v.push("CAP_SYS_ADMIN");
    v.push("CAP_SYS_BOOT");
    v.push("CAP_SYS_MODULE");
    v.push("CAP_SYS_NICE");
    v.push("CAP_SYS_RAWIO");
    v.push("CAP_SYS_RESOURCE");
    v.push("CAP_SYS_TIME");
    v.push("CAP_WAKE_ALARM");
    proof {
        assert(v.deep_view() =~~= spec_caps_to_drop());
    }
    v
}

/// Relies on capctl::caps::FullCapState::get_current: reads the calling
/// thread's capability sets from the kernel into memory.
#[verifier::external_body]
fn sys_cap_state_current() -> (r: Result<capctl::caps::FullCapState, ()>) {
    match capctl::caps::FullCapState::get_current() {
        Ok(st) => Ok(st),
        Err(_) => Err(()),
    }
}

/// Relies on capctl's FromStr for Cap: the capability a `CAP_`-prefixed
/// name denotes, when the name is known.
#[verifier::external_body]
fn cap_from_name(name: &str) -> (r: Option<capctl::caps::Cap>) {
    name.parse::<capctl::caps::Cap>().ok()
}

/// Relies on capctl::caps::CapSet::drop on the state's bounding set:
/// removes the capability from the in-memory set.
#[verifier::external_body]
fn capset_drop_bounding(st: &mut capctl::caps::FullCapState, cap: &capctl::caps::Cap) {
    st.bounding.drop(*cap);
}

/// Relies on capctl::caps::CapSet::drop on the state's inheritable set:
/// removes the capability from the in-memory set.
#[verifier::external_body]
fn capset_drop_inheritable(st: &mut capctl::caps::FullCapState, cap: &capctl::caps::Cap) {
    st.inheritable.drop(*cap);
}

/// Reads the current capability state and clears every capability of the
/// fixed drop list from its bounding and inheritable sets (and only
/// those); failure to read the state, or a name the capability layer does
/// not know, is a `CapaError`.
pub fn set_capa() -> (r: (Result<(), Errcode>, Ghost<Seq<Seq<char>>>))
    ensures
        r.0 is Ok ==> r.1@ == spec_caps_to_drop(),
        forall|k: int| 0 <= k < r.1@.len() ==> r.1@[k] == spec_caps_to_drop()[k],
        r.0 is Err ==> r.0 == Err::<(), Errcode>(Errcode::CapaError(0)),
{
    let ghost mut dropped: Seq<Seq<char>> = Seq::empty();
    let mut st = match sys_cap_state_current() {
        Ok(st) => st,
        Err(()) => {
            return (Err(Errcode::CapaError(0)), Ghost(dropped));
        },
    };
    let names = caps_to_drop();
    let mut i: usize = 0;
    while i < names.len()
        invariant
            0 <= i <= names@.len(),
            names@.len() == spec_caps_to_drop().len(),
            forall|k: int|
                0 <= k < names@.len() ==> (#[trigger] names@[k])@ == spec_caps_to_drop()[k],
            dropped =~= spec_caps_to_drop().take(i as int),
        decreases names@.len() - i,
    {
        match cap_from_name(names[i]) {
            Some(cap) => {
                capset_drop_bounding(&mut st, &cap);
                capset_drop_inheritable(&mut st, &cap);
            },
            None => {
                return (Err(Errcode::CapaError(0)), Ghost(dropped));
            },
        }
        proof {
            dropped = dropped.push(names@[i as int]@);
            assert(dropped =~= spec_caps_to_drop().take(i as int + 1));
        }
        i += 1;
    }
    proof {
        assert(dropped =~= spec_caps_to_drop());
    }
    (Ok(()), Ghost(dropped))
}

} // verus!
