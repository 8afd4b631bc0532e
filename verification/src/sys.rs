//! The platform syscall surface: thin typed access to the operating
//! system's raw primitives, each call behind one trusted wrapper.  Every
//! wrapper turns the OS error into its raw `errno` value and promises no
//! more than the call's own documentation.

use vstd::prelude::*;

verus! {

/// Relies on nix::sys::socket::socket: opens a raw, non-blocking
/// link-layer socket; on success the returned descriptor is non-negative.
#[verifier::external_body]
pub(crate) fn sys_socket_packet() -> (r: Result<i32, i32>)
    ensures
        r matches Ok(fd) ==> fd >= 0,
{
    match nix::sys::socket::socket(
        nix::sys::socket::AddressFamily::Packet,
        nix::sys::socket::SockType::Raw,
        nix::sys::socket::SockFlag::SOCK_NONBLOCK,
        None,
    ) {
        Ok(fd) => Ok(fd),
        Err(e) => Err(e as i32),
    }
}

/// Relies on nix::net::if_::if_nametoindex: resolves an interface name to
/// its kernel index.
#[verifier::external_body]
pub(crate) fn sys_if_nametoindex(name: &str) -> (r: Result<u32, i32>) {
    match nix::net::if_::if_nametoindex(name) {
        Ok(i) => Ok(i),
        Err(e) => Err(e as i32),
    }
}

/// Relies on nix::sys::socket::bind: binds the descriptor to the interface
/// with the given index, filtering on the given network-order protocol.
#[verifier::external_body]
pub(crate) fn sys_bind_packet(fd: i32, protocol_be: u16, ifindex: u32) -> (r: Result<(), i32>) {
    let sll = libc::sockaddr_ll {
        sll_family: libc::AF_PACKET as u16,
        sll_protocol: protocol_be,
        sll_ifindex: ifindex as i32,
        sll_hatype: 1,
        sll_pkttype: 0,
        sll_halen: 6,
        sll_addr: [0; 8],
    };
    let addr = nix::sys::socket::SockAddr::Link(nix::sys::socket::LinkAddr(sll));
    match nix::sys::socket::bind(fd, &addr) {
        Ok(()) => Ok(()),
        Err(e) => Err(e as i32),
    }
}

/// Relies on nix::sys::socket::send: writes one frame and returns the
/// number of bytes the kernel took from the buffer, at most its length.
#[verifier::external_body]
pub(crate) fn sys_send(fd: i32, buf: &[u8]) -> (r: Result<usize, i32>)
    ensures
        r matches Ok(n) ==> n <= buf@.len(),
{
    match nix::sys::socket::send(fd, buf, nix::sys::socket::MsgFlags::empty()) {
        Ok(n) => Ok(n),
        Err(e) => Err(e as i32),
    }
}

/// Relies on nix::sys::socket::recv: fills the buffer with one kernel read
/// and returns how many bytes were read, at most the buffer's length; the
/// buffer keeps its length, and only the returned count of leading bytes
/// is written — everything behind them is unchanged.
#[verifier::external_body]
pub(crate) fn sys_recv(fd: i32, buf: &mut Vec<u8>) -> (r: Result<usize, i32>)
    ensures
        final(buf)@.len() == old(buf)@.len(),
        r matches Ok(n) ==> n <= old(buf)@.len() && final(buf)@.skip(n as int) == old(
            buf,
        )@.skip(n as int),
{
    match nix::sys::socket::recv(fd, buf.as_mut_slice(), nix::sys::socket::MsgFlags::empty()) {
        Ok(n) => Ok(n),
        Err(e) => Err(e as i32),
    }
}

/// Relies on nix::sys::select::select: blocks until the descriptor is
/// readable or the timeout elapses.  The descriptor must fit the fixed
/// descriptor-set size, and the timeout must convert to microseconds.
#[verifier::external_body]
pub(crate) fn sys_select_readable_timeout(fd: i32, millis: u64) -> (r: Result<(), i32>)
    requires
        0 <= fd < 1024,
        millis <= 9_223_372_036_852_000,
{
    let mut readfds = nix::sys::select::FdSet::new();
    readfds.insert(fd);
    let mut tv = <nix::sys::time::TimeVal as nix::sys::time::TimeValLike>::milliseconds(
        millis as i64,
    );
    match nix::sys::select::select(fd + 1, Some(&mut readfds), None, None, Some(&mut tv)) {
        Ok(_) => Ok(()),
        Err(e) => Err(e as i32),
    }
}

/// Relies on nix::sys::select::select: blocks until the descriptor is
/// readable, with no timeout.  The descriptor must fit the fixed
/// descriptor-set size.
#[verifier::external_body]
pub(crate) fn sys_select_readable(fd: i32) -> (r: Result<(), i32>)
    requires
        0 <= fd < 1024,
{
    let mut readfds = nix::sys::select::FdSet::new();
    readfds.insert(fd);
    match nix::sys::select::select(fd + 1, Some(&mut readfds), None, None, None) {
        Ok(_) => Ok(()),
        Err(e) => Err(e as i32),
    }
}

/// Relies on nix::unistd::close: releases the descriptor.
#[verifier::external_body]
pub(crate) fn sys_close(fd: i32) -> (r: Result<(), i32>) {
    match nix::unistd::close(fd) {
        Ok(()) => Ok(()),
        Err(e) => Err(e as i32),
    }
}

/// Relies on nix::fcntl::open: opens the capture device node with the
/// given number for reading and writing; on success the returned
/// descriptor is non-negative.
#[verifier::external_body]
pub(crate) fn sys_open_device_node(idx: u64) -> (r: Result<i32, i32>)
    ensures
        r matches Ok(fd) ==> fd >= 0,
{
    let path = format!("/dev/bpf{}", idx);
    match nix::fcntl::open(path.as_str(), nix::fcntl::OFlag::O_RDWR, nix::sys::stat::Mode::empty())
    {
        Ok(fd) => Ok(fd),
        Err(e) => Err(e as i32),
    }
}

} // verus!
