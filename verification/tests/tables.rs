use bowl::capa::{caps_to_drop, set_capa};
use bowl::container::{wait, BowlArg};
use bowl::errors::Errcode;
use bowl::resource::container_limits;
use bowl::syscalls::{conditional_denies, unconditional_denies, SeccompSink};

/// A sink that accepts everything; `start` never reaches it when it
/// fails before cloning.
struct AcceptAll;

impl SeccompSink for AcceptAll {
    fn init(&mut self) -> Result<(), ()> {
        Ok(())
    }
    fn deny(&mut self, _name: &'static str, _errno: u16) -> Result<(), ()> {
        Ok(())
    }
    fn deny_masked(&mut self, _name: &'static str, _errno: u16, _arg: u32, _mask: u64) -> Result<(), ()> {
        Ok(())
    }
    fn load(&mut self) -> Result<(), ()> {
        Ok(())
    }
}

#[test]
fn seccomp_unconditional_table() {
    let t = unconditional_denies();
    assert_eq!(
        t,
        vec![
            "keyctl",
            "add_key",
            "request_key",
            "mbind",
            "migrate_pages",
            "move_pages",
            "set_mempolicy",
            "userfaultfd",
            "perf_event_open",
        ]
    );
}

#[test]
fn seccomp_conditional_table() {
    let t = conditional_denies();
    assert_eq!(
        t,
        vec![
            ("chmod", 1, 0o4000u64),
            ("chmod", 1, 0o2000),
            ("fchmod", 1, 0o4000),
            ("fchmod", 1, 0o2000),
            ("fchmodat", 2, 0o4000),
            ("fchmodat", 2, 0o2000),
            ("unshare", 0, 0x10000000),
            ("clone", 0, 0x10000000),
            ("ioctl", 1, 0x5412),
        ]
    );
}

#[test]
fn capability_drop_list() {
    let caps = caps_to_drop();
    assert_eq!(caps.len(), 21);
    assert!(caps.contains(&"CAP_SYS_ADMIN"));
    assert!(caps.contains(&"CAP_SYS_TIME"));
    assert!(caps.contains(&"CAP_AUDIT_CONTROL"));
    assert!(!caps.contains(&"CAP_CHOWN"));
    for name in caps {
        assert!(name.starts_with("CAP_"));
    }
}

#[test]
fn set_capa_reads_and_drops_in_memory() {
    let (res, _dropped) = set_capa();
    assert!(res.is_ok());
}

#[test]
fn cgroup_limits_values() {
    let lim = container_limits();
    assert_eq!(lim.cpu_shares, 256);
    assert_eq!(lim.kmem_limit, 1073741824);
    assert_eq!(lim.mem_limit, 1073741824);
    assert_eq!(lim.max_pids, 64);
    assert_eq!(lim.io_weight, 50);
}

#[test]
fn wait_without_child_is_ok() {
    assert!(wait(None).is_ok());
}

#[test]
fn wait_on_missing_pid_reports_container_error() {
    match wait(Some(-2)) {
        Err(Errcode::ContainerError(1)) => {}
        other => panic!("expected ContainerError(1), got {:?}", other),
    }
}

#[test]
fn start_rejects_missing_mount_dir_before_any_clone() {
    let args = BowlArg {
        debug: None,
        command: String::from("/bin/sh -c true"),
        uid: 0,
        mount_directory: String::from("/does/not/exist"),
        add_paths: vec![],
    };
    let (r, _trace) = bowl::container::start(args, AcceptAll);
    match r {
        Err(Errcode::InvalidArgument(field)) => assert_eq!(field, "mount_directory"),
        other => panic!("expected InvalidArgument, got {:?}", other),
    }
}

#[test]
fn container_new_rejects_malformed_add_path() {
    let args = BowlArg {
        debug: None,
        command: String::from("sh"),
        uid: 0,
        mount_directory: String::from("/tmp"),
        add_paths: vec![String::from("no-colon-here")],
    };
    match bowl::container::BowlContainer::new(args) {
        Err(Errcode::InvalidArgument(field)) => assert_eq!(field, "add_paths"),
        other => panic!("expected InvalidArgument, got {:?}", other),
    }
}

#[test]
fn errcode_debug_output() {
    let e = Errcode::CleanupFailure(Box::new(Errcode::SocketError(3)));
    let text = format!("{:?}", e);
    assert!(text.contains("CleanupFailure"));
    assert!(text.contains("SocketError"));
}
