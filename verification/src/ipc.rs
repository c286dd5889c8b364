use vstd::prelude::*;
use crate::errors::Errcode;

verus! {

/// The single-byte wire encoding of a boolean.
pub open spec fn spec_bool_byte(b: bool) -> u8 {
    if b {
        1
    } else {
        0
    }
}

/// Relies on nix::sys::socket::socketpair with AF_UNIX, SOCK_SEQPACKET and
/// SOCK_CLOEXEC: on success the kernel fills two fresh descriptors, one per
/// end of the pair; they are nonnegative and occupy two distinct slots of
/// the descriptor table.
#[verifier::external_body]
fn sys_socketpair() -> (r: Result<(i32, i32), ()>)
    ensures
        r matches Ok(fds) ==> fds.0 >= 0 && fds.1 >= 0 && fds.0 != fds.1,
{
    match nix::sys::socket::socketpair(
        nix::sys::socket::AddressFamily::Unix,
        nix::sys::socket::SockType::SeqPacket,
        None,
        nix::sys::socket::SockFlag::SOCK_CLOEXEC,
    ) {
        Ok(fds) => Ok(fds),
        Err(_) => Err(()),
    }
}

/// Relies on nix::sys::socket::send with no flags: hands the kernel one
/// byte to transmit as one record.  Whether the kernel accepts it depends
/// on the state of the socket, so nothing is promised of the outcome.
#[verifier::external_body]
fn sys_send_byte(fd: i32, byte: u8) -> (r: Result<(), ()>) {
    let data: [u8; 1] = [byte];
    match nix::sys::socket::send(fd, &data, nix::sys::socket::MsgFlags::empty()) {
        Ok(_) => Ok(()),
        Err(_) => Err(()),
    }
}

/// Relies on nix::sys::socket::recv with no flags: blocks until one record
/// arrives and returns its first byte (0 when the peer closed the socket).
#[verifier::external_body]
fn sys_recv_byte(fd: i32) -> (r: Result<u8, ()>) {
    let mut data: [u8; 1] = [0];
    match nix::sys::socket::recv(fd, &mut data, nix::sys::socket::MsgFlags::empty()) {
        Ok(_) => Ok(data[0]),
        Err(_) => Err(()),
    }
}

/// Relies on nix::unistd::close: releases the descriptor.  Closing fails on
/// a slot that is not open, so the callers track ownership and close each
/// end exactly once.
#[verifier::external_body]
pub(crate) fn sys_close(fd: i32) -> (r: Result<(), ()>) {
    match nix::unistd::close(fd) {
        Ok(()) => Ok(()),
        Err(_) => Err(()),
    }
}

/// Creates the synchronization socket pair, both ends close-on-exec.
pub fn create_sockets() -> (r: Result<(i32, i32), Errcode>)
    ensures
        r matches Ok(fds) ==> fds.0 >= 0 && fds.1 >= 0 && fds.0 != fds.1,
        r is Err ==> r == Err::<(i32, i32), Errcode>(Errcode::SocketError(0)),
{
    match sys_socketpair() {
        Ok(fds) => Ok(fds),
        Err(()) => Err(Errcode::SocketError(0)),
    }
}

fn bool_to_byte(b: bool) -> (r: u8)
    ensures
        r == spec_bool_byte(b),
{
    if b {
        1
    } else {
        0
    }
}

/// How a received byte reads as a boolean: true exactly for 0x01.
pub fn byte_to_bool(byte: u8) -> (r: bool)
    ensures
        r == (byte == 1),
{
    byte == 1
}

/// Sends one boolean over `fd`, encoded as the single byte
/// `spec_bool_byte(boolean)`.
pub fn send_boolean(fd: i32, boolean: bool) -> (r: Result<(), Errcode>)
    ensures
        r is Err ==> r == Err::<(), Errcode>(Errcode::SocketError(1)),
{
    let byte = bool_to_byte(boolean);
    match sys_send_byte(fd, byte) {
        Ok(()) => Ok(()),
        Err(()) => Err(Errcode::SocketError(1)),
    }
}

/// Receives one boolean from `fd`: true exactly when the received byte is
/// 0x01.
pub fn recv_boolean(fd: i32) -> (r: Result<bool, Errcode>)
    ensures
        r is Err ==> r == Err::<bool, Errcode>(Errcode::SocketError(2)),
{
    match sys_recv_byte(fd) {
        Ok(byte) => Ok(byte_to_bool(byte)),
        Err(()) => Err(Errcode::SocketError(2)),
    }
}

} // verus!
