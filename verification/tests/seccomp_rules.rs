use bowl::errors::Errcode;
use bowl::syscalls::{set_syscalls, SeccompSink};

struct Recorder {
    inited: bool,
    loaded: bool,
    rules: Vec<(String, Option<(u32, u64)>, u16)>,
}

impl Recorder {
    fn new() -> Recorder {
        Recorder {
            inited: false,
            loaded: false,
            rules: vec![],
        }
    }
}

impl SeccompSink for Recorder {
    fn init(&mut self) -> Result<(), ()> {
        self.inited = true;
        Ok(())
    }
    fn deny(&mut self, name: &'static str, errno: u16) -> Result<(), ()> {
        self.rules.push((name.to_string(), None, errno));
        Ok(())
    }
    fn deny_masked(&mut self, name: &'static str, errno: u16, arg: u32, mask: u64) -> Result<(), ()> {
        self.rules.push((name.to_string(), Some((arg, mask)), errno));
        Ok(())
    }
    fn load(&mut self) -> Result<(), ()> {
        self.loaded = true;
        Ok(())
    }
}

/// A sink that fails at one chosen step, to drive each error path.
struct FailAt {
    init: bool,
    masked: bool,
    plain: bool,
    load: bool,
}

impl SeccompSink for FailAt {
    fn init(&mut self) -> Result<(), ()> {
        if self.init { Err(()) } else { Ok(()) }
    }
    fn deny(&mut self, _name: &'static str, _errno: u16) -> Result<(), ()> {
        if self.plain { Err(()) } else { Ok(()) }
    }
    fn deny_masked(&mut self, _name: &'static str, _errno: u16, _arg: u32, _mask: u64) -> Result<(), ()> {
        if self.masked { Err(()) } else { Ok(()) }
    }
    fn load(&mut self) -> Result<(), ()> {
        if self.load { Err(()) } else { Ok(()) }
    }
}

#[test]
fn filter_feed_is_exactly_the_tables() {
    let mut sink = Recorder::new();
    let (res, _rules) = set_syscalls(&mut sink);
    assert!(res.is_ok());
    assert!(sink.inited);
    assert!(sink.loaded);
    let expected: Vec<(String, Option<(u32, u64)>, u16)> = vec![
        ("chmod".to_string(), Some((1, 0o4000)), 1),
        ("chmod".to_string(), Some((1, 0o2000)), 1),
        ("fchmod".to_string(), Some((1, 0o4000)), 1),
        ("fchmod".to_string(), Some((1, 0o2000)), 1),
        ("fchmodat".to_string(), Some((2, 0o4000)), 1),
        ("fchmodat".to_string(), Some((2, 0o2000)), 1),
        ("unshare".to_string(), Some((0, 0x10000000)), 1),
        ("clone".to_string(), Some((0, 0x10000000)), 1),
        ("ioctl".to_string(), Some((1, 0x5412)), 1),
        ("keyctl".to_string(), None, 1),
        ("add_key".to_string(), None, 1),
        ("request_key".to_string(), None, 1),
        ("mbind".to_string(), None, 1),
        ("migrate_pages".to_string(), None, 1),
        ("move_pages".to_string(), None, 1),
        ("set_mempolicy".to_string(), None, 1),
        ("userfaultfd".to_string(), None, 1),
        ("perf_event_open".to_string(), None, 1),
    ];
    assert_eq!(sink.rules, expected);
}

#[test]
fn filter_init_failure_is_error_one() {
    let mut sink = FailAt { init: true, masked: false, plain: false, load: false };
    let (res, _rules) = set_syscalls(&mut sink);
    assert_eq!(res, Err(Errcode::SyscallsError(1)));
}

#[test]
fn filter_masked_deny_failure_is_error_two() {
    let mut sink = FailAt { init: false, masked: true, plain: false, load: false };
    let (res, _rules) = set_syscalls(&mut sink);
    assert_eq!(res, Err(Errcode::SyscallsError(2)));
}

#[test]
fn filter_plain_deny_failure_is_error_three() {
    let mut sink = FailAt { init: false, masked: false, plain: true, load: false };
    let (res, _rules) = set_syscalls(&mut sink);
    assert_eq!(res, Err(Errcode::SyscallsError(3)));
}

#[test]
fn filter_load_failure_is_error_zero() {
    let mut sink = FailAt { init: false, masked: false, plain: false, load: true };
    let (res, _rules) = set_syscalls(&mut sink);
    assert_eq!(res, Err(Errcode::SyscallsError(0)));
}
