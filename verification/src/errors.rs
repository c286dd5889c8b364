use vstd::prelude::*;

verus! {

/// Closed error taxonomy of the runtime.  Each variant carries a small
/// discriminant that locates the failure site; `CleanupFailure` wraps the
/// error that was pending when cleanup itself failed.
#[derive(Debug, PartialEq, Eq)]
pub enum Errcode {
    InvalidArgument(&'static str),
    CleanupFailure(Box<Errcode>),
    SocketError(u32),
    ContainerError(u8),
    ChildProcessError(u8),
    HostnameError(u8),
    WordError,
    MountError(u8),
    NamespaceError(u8),
    CapaError(u8),
    SyscallsError(u8),
    ResourcesError(u8),
}

} // verus!
