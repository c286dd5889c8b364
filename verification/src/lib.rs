//! A minimal Linux application container runtime.
//!
//! Given a command, a target UID and a host directory to serve as the new
//! root filesystem, the runtime launches the command as an isolated child
//! with its own mount, PID, IPC, network, UTS, cgroup and user namespaces,
//! a pivoted root, dropped capabilities, a seccomp filter and
//! cgroup-enforced resource limits.
//!
//! The heart of the library is the container lifecycle: clone with
//! namespace flags, socket-pair synchronization for the deferred
//! user-namespace setup, UID/GID map installation by the parent, mount
//! preparation and root pivot in the child, capability and seccomp
//! lockdown, and guaranteed cleanup of every acquired resource on every
//! failure path.  The conservation laws of that lifecycle are stated over
//! a ghost trace of kernel-resource events and proved for every control
//! path.

pub mod errors;
pub mod text;
pub mod events;
pub mod ipc;
pub mod host;
pub mod config_opts;
pub mod mount;
pub mod namespace;
pub mod capa;
pub mod syscalls;
pub mod resource;
pub mod child;
pub mod container;
