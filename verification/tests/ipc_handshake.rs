use bowl::errors::Errcode;
use bowl::ipc::{byte_to_bool, create_sockets, recv_boolean, send_boolean};
use bowl::namespace::{handle_child_uid_map, uid_map_line};

#[test]
fn socket_pair_is_distinct() {
    let (a, b) = create_sockets().expect("socketpair");
    assert!(a > 0);
    assert!(b > 0);
    assert_ne!(a, b);
}

#[test]
fn boolean_roundtrip_true() {
    let (a, b) = create_sockets().expect("socketpair");
    send_boolean(a, true).expect("send");
    assert_eq!(recv_boolean(b).expect("recv"), true);
}

#[test]
fn boolean_roundtrip_false() {
    let (a, b) = create_sockets().expect("socketpair");
    send_boolean(b, false).expect("send");
    assert_eq!(recv_boolean(a).expect("recv"), false);
}

#[test]
fn byte_decoding_is_exactly_one() {
    assert_eq!(byte_to_bool(0), false);
    assert_eq!(byte_to_bool(1), true);
    assert_eq!(byte_to_bool(2), false);
    assert_eq!(byte_to_bool(255), false);
}

#[test]
fn send_on_closed_socket_fails() {
    let (a, b) = create_sockets().expect("socketpair");
    // receiving from an empty, closed peer is an error or end-of-stream;
    // sending on a bad descriptor must report SocketError(1)
    drop((a, b));
    match send_boolean(-1, true) {
        Err(Errcode::SocketError(1)) => {}
        other => panic!("expected SocketError(1), got {:?}", other),
    }
    match recv_boolean(-1) {
        Err(Errcode::SocketError(2)) => {}
        other => panic!("expected SocketError(2), got {:?}", other),
    }
}

#[test]
fn uid_map_line_bytes() {
    assert_eq!(uid_map_line(), "0 10000 2000");
}

#[test]
fn parent_handshake_without_userns_skips_maps() {
    // The child reports `false` (no user namespace); the parent must
    // skip the map writes and release the child with `false`.
    let (parent_fd, child_fd) = create_sockets().expect("socketpair");
    send_boolean(child_fd, false).expect("child report");
    let (res, _trace) = handle_child_uid_map(1, parent_fd);
    assert!(res.is_ok());
    assert_eq!(recv_boolean(child_fd).expect("release"), false);
}

#[test]
fn parent_handshake_write_failure_is_distinct() {
    // Our own uid_map file opens fine, but the kernel refuses to rewrite
    // the initial namespace's mapping, so the write itself must fail and
    // the child must be signalled `true`.
    let (parent_fd, child_fd) = create_sockets().expect("socketpair");
    send_boolean(child_fd, true).expect("child report");
    let pid = nix::unistd::getpid().as_raw();
    let (res, _trace) = handle_child_uid_map(pid, parent_fd);
    match res {
        Err(Errcode::NamespaceError(4)) => {}
        other => panic!("expected NamespaceError(4), got {:?}", other),
    }
    assert_eq!(recv_boolean(child_fd).expect("signal"), true);
}

#[test]
fn parent_handshake_signals_map_failure() {
    // The child claims a user namespace, but pid 0's map files cannot be
    // written from here (/proc/0 does not exist), so the parent must
    // report a NamespaceError and signal `true` to the child.
    let (parent_fd, child_fd) = create_sockets().expect("socketpair");
    send_boolean(child_fd, true).expect("child report");
    let (res, _trace) = handle_child_uid_map(0, parent_fd);
    match res {
        Err(Errcode::NamespaceError(code)) => assert!(code == 4 || code == 5),
        other => panic!("expected NamespaceError, got {:?}", other),
    }
    assert_eq!(recv_boolean(child_fd).expect("signal"), true);
}
