//! A raw link-layer packet socket bound to one named network interface.
//!
//! Opening classifies the interface's link layer from its flags, creates a
//! raw socket, and binds it to the interface; any failure after the handle
//! exists releases the handle before the error is returned.  Send writes
//! one frame, recv fills a caller buffer with one kernel read, and wait
//! blocks until the handle is readable or a timeout elapses.

use vstd::prelude::*;
use crate::sys;

verus! {

/// Interface flag: the interface is a loopback device.
pub const IFF_LOOPBACK: u32 = 0x8;

/// Interface flag: the interface is broadcast-capable.
pub const IFF_BROADCAST: u32 = 0x2;

/// Interface flag: the interface is a point-to-point link.
pub const IFF_POINTOPOINT: u32 = 0x10;

/// Tunnel flag: frames carry no packet-information pseudo-header.
pub const IFF_NO_PI: u32 = 0x1000;

/// Link-layer protocol selector for all protocols, in network byte order
/// (the host-order value is 0x0003).
pub const ETH_P_ALL_BE: u16 = 0x0300;

/// Link-layer protocol selector for IP only, in network byte order (the
/// host-order value is 0x0800).
pub const ETH_P_IP_BE: u16 = 0x0008;

/// Kernel datalink type: null encapsulation with a 4-byte pseudo-header.
pub const DLT_NULL: u32 = 0;

/// Kernel datalink type: Ethernet.
pub const DLT_EN10MB: u32 = 1;

/// Kernel datalink type: raw IP.
pub const DLT_RAW: u32 = 12;

/// How many numbered capture device nodes the open probe tries.
pub const BPF_DEVICE_PROBE_LIMIT: u64 = 50;

/// The probed open call was denied: stop probing, the caller lacks
/// privilege.
pub const EPERM: i32 = 1;

/// The probed device node does not exist: try the next candidate.
pub const ENOENT: i32 = 2;

/// The probed open call was denied: stop probing, the caller lacks
/// privilege.
pub const EACCES: i32 = 13;

/// The descriptor cannot be watched: it does not fit the fixed
/// descriptor-set size of the readiness wait.
pub const EINVAL: i32 = 22;

/// Descriptors at or beyond this value cannot be watched by the readiness
/// wait's fixed-size descriptor set.
pub const FD_SET_LIMIT: i32 = 1024;

/// Largest wait timeout that still converts to a valid kernel time value.
pub const MAX_WAIT_MILLIS: u64 = 9_223_372_036_852_000;

/// The link layer an opened socket speaks: Ethernet framing, bare IP, or
/// IP behind a fixed-size pseudo-header.
#[derive(Clone, Copy, Debug, Hash, PartialEq, Eq, Structural)]
pub enum LinkLayer {
    Eth,
    Ip,
    IpWithPI(usize),
}

/// The link layer an interface with the given flags speaks: loopback and
/// broadcast-capable interfaces speak Ethernet; a point-to-point link
/// carries bare IP, or IP behind a 4-byte pseudo-header when frames keep
/// their packet information; anything else is unsupported.
pub open spec fn link_layer_for_flags(flags: u32) -> Option<LinkLayer> {
    if flags & IFF_LOOPBACK != 0 {
        Some(LinkLayer::Eth)
    } else if flags & IFF_BROADCAST != 0 {
        Some(LinkLayer::Eth)
    } else if flags & IFF_POINTOPOINT != 0 {
        if flags & IFF_NO_PI != 0 {
            Some(LinkLayer::Ip)
        } else {
            Some(LinkLayer::IpWithPI(4))
        }
    } else {
        None
    }
}

/// Classifies an interface's link layer from its flag bitset.
pub fn classify_flags(flags: u32) -> (r: Option<LinkLayer>)
    ensures
        r == link_layer_for_flags(flags),
{
    if flags & IFF_LOOPBACK != 0 {
        Some(LinkLayer::Eth)
    } else if flags & IFF_BROADCAST != 0 {
        Some(LinkLayer::Eth)
    } else if flags & IFF_POINTOPOINT != 0 {
        if flags & IFF_NO_PI != 0 {
            Some(LinkLayer::Ip)
        } else {
            Some(LinkLayer::IpWithPI(4))
        }
    } else {
        None
    }
}

/// The link layer behind a kernel-reported datalink type, as the
/// packet-filter device family reports it.  Both classification paths
/// converge on the same taxonomy.
pub open spec fn link_layer_for_datalink(dlt: u32) -> Option<LinkLayer> {
    if dlt == DLT_NULL {
        Some(LinkLayer::IpWithPI(4))
    } else if dlt == DLT_EN10MB {
        Some(LinkLayer::Eth)
    } else if dlt == DLT_RAW {
        Some(LinkLayer::Ip)
    } else {
        None
    }
}

/// Classifies a link layer from a kernel-reported datalink type.
pub fn classify_datalink(dlt: u32) -> (r: Option<LinkLayer>)
    ensures
        r == link_layer_for_datalink(dlt),
{
    if dlt == DLT_NULL {
        Some(LinkLayer::IpWithPI(4))
    } else if dlt == DLT_EN10MB {
        Some(LinkLayer::Eth)
    } else if dlt == DLT_RAW {
        Some(LinkLayer::Ip)
    } else {
        None
    }
}

/// The protocol selector, in network byte order, that a socket for the
/// given link layer is bound with: all protocols for Ethernet and
/// pseudo-header framing, IP only for bare IP.
pub open spec fn protocol_be_for(ll: LinkLayer) -> u16 {
    match ll {
        LinkLayer::Eth => ETH_P_ALL_BE,
        LinkLayer::IpWithPI(_) => ETH_P_ALL_BE,
        LinkLayer::Ip => ETH_P_IP_BE,
    }
}

/// Picks the network-order protocol selector for a link layer.
pub fn protocol_be(ll: LinkLayer) -> (r: u16)
    ensures
        r == protocol_be_for(ll),
{
    match ll {
        LinkLayer::Eth => ETH_P_ALL_BE,
        LinkLayer::IpWithPI(_) => ETH_P_ALL_BE,
        LinkLayer::Ip => ETH_P_IP_BE,
    }
}

/// Why a socket operation failed.
#[derive(Clone, Copy, Debug, PartialEq, Eq, Structural)]
pub enum SockError {
    /// The interface's flags match no supported link layer.
    UnknownLinkLayer,
    /// The operating system refused a call, with its raw error value.
    Os { errno: i32 },
}

/// Exclusive owner of one OS handle bound to one interface, with the
/// link layer resolved at open time and the negotiated read-buffer length.
/// The handle is valid from a successful open until `close` releases it,
/// exactly once: `close` demands an open socket and leaves a released one.
#[derive(Clone, Debug, PartialEq, Eq, Structural)]
pub struct RawSocket {
    pub fd: i32,
    pub dt: LinkLayer,
    pub blen: usize,
    pub closed: bool,
}

/// `s` with its handle released.
pub open spec fn released(s: RawSocket) -> RawSocket {
    RawSocket { closed: true, ..s }
}

impl RawSocket {
    /// The handle has been acquired and not yet released.
    pub open spec fn is_open(self) -> bool {
        !self.closed
    }

    /// Opens a raw packet socket on the named interface.  The interface's
    /// current flag bitset and maximum transmission unit come from the
    /// platform's interface-lookup collaborator.  The link layer is
    /// classified from the flags before the handle is created, and any
    /// failure after creation releases the handle before returning.
    pub fn with_ifname(ifname: &str, flags: u32, mtu: usize) -> (r: Result<RawSocket, SockError>)
        ensures
            match r {
                Ok(s) => {
                    &&& link_layer_for_flags(flags) == Some(s.dt)
                    &&& s.blen == mtu
                    &&& s.is_open()
                    &&& s.fd >= 0
                },
                Err(e) => true,
            },
            r == Err::<RawSocket, SockError>(SockError::UnknownLinkLayer) <==> link_layer_for_flags(
                flags,
            ) is None,
    {
        let link_layer = match classify_flags(flags) {
            None => { return Err(SockError::UnknownLinkLayer) },
            Some(ll) => ll,
        };
        let protocol = protocol_be(link_layer);
        let fd = match sys::sys_socket_packet() {
            Err(e) => { return Err(SockError::Os { errno: e }) },
            Ok(fd) => fd,
        };
        let ifindex = match sys::sys_if_nametoindex(ifname) {
            Err(e) => {
                let _ = sys::sys_close(fd);
                return Err(SockError::Os { errno: e });
            },
            Ok(i) => i,
        };
        match sys::sys_bind_packet(fd, protocol, ifindex) {
            Err(e) => {
                let _ = sys::sys_close(fd);
                Err(SockError::Os { errno: e })
            },
            Ok(()) => Ok(RawSocket { fd, dt: link_layer, blen: mtu, closed: false }),
        }
    }

    /// The link layer this socket speaks, resolved at open time.
    pub fn link_layer(&self) -> (r: LinkLayer)
        ensures
            r == self.dt,
    {
        self.dt
    }

    /// The negotiated maximum read-buffer length.
    pub fn blen(&self) -> (r: usize)
        ensures
            r == self.blen,
    {
        self.blen
    }

    /// Writes exactly one frame; a partial kernel write surfaces as the
    /// OS-reported count, never more than the frame's length, and is not
    /// retried here.  Every failure carries the OS error.
    pub fn send(&mut self, buf: &[u8]) -> (r: Result<usize, SockError>)
        requires
            old(self).is_open(),
        ensures
            *final(self) == *old(self),
            r matches Ok(n) ==> n <= buf@.len(),
            r matches Err(e) ==> e matches SockError::Os { .. },
    {
        match sys::sys_send(self.fd, buf) {
            Ok(n) => Ok(n),
            Err(e) => Err(SockError::Os { errno: e }),
        }
    }

    /// Fills the caller's buffer with one kernel read, up to its length,
    /// and returns how many bytes arrived.  On the packet-filter family
    /// one read may hold several framed records; on the link-socket
    /// family it is exactly one frame.  A read that would block surfaces
    /// as the OS error, never retried here; every failure carries the OS
    /// error.  Only the returned count of leading bytes is written: the
    /// buffer keeps its length and everything behind the count unchanged.
    pub fn recv(&mut self, buf: &mut Vec<u8>) -> (r: Result<usize, SockError>)
        requires
            old(self).is_open(),
        ensures
            *final(self) == *old(self),
            final(buf)@.len() == old(buf)@.len(),
            r matches Ok(n) ==> n <= old(buf)@.len() && final(buf)@.skip(n as int) == old(
                buf,
            )@.skip(n as int),
            r matches Err(e) ==> e matches SockError::Os { .. },
    {
        match sys::sys_recv(self.fd, buf) {
            Ok(n) => Ok(n),
            Err(e) => Err(SockError::Os { errno: e }),
        }
    }

    /// Blocks the caller until the handle is readable or the timeout
    /// elapses; no timeout blocks indefinitely.  A handle that cannot be
    /// watched by the fixed-size descriptor set is refused outright,
    /// before any OS call; every failure carries the OS error.
    pub fn wait(&self, millis: Option<u64>) -> (r: Result<(), SockError>)
        requires
            self.is_open(),
            millis matches Some(m) ==> m <= MAX_WAIT_MILLIS,
        ensures
            r matches Err(e) ==> e matches SockError::Os { .. },
            self.fd < 0 || self.fd >= FD_SET_LIMIT ==> r == Err::<(), SockError>(
                SockError::Os { errno: EINVAL },
            ),
    {
        if self.fd < 0 || self.fd >= FD_SET_LIMIT {
            return Err(SockError::Os { errno: EINVAL });
        }
        let res = match millis {
            Some(m) => sys::sys_select_readable_timeout(self.fd, m),
            None => sys::sys_select_readable(self.fd),
        };
        match res {
            Ok(()) => Ok(()),
            Err(e) => Err(SockError::Os { errno: e }),
        }
    }

    /// Releases the handle.  An open socket is required, and the socket
    /// comes back released, so each handle is released exactly once.
    pub fn close(&mut self)
        requires
            old(self).is_open(),
        ensures
            *final(self) == released(*old(self)),
            !final(self).is_open(),
    {
        let _ = sys::sys_close(self.fd);
        self.closed = true;
    }
}

/// A socket as `with_ifname` hands it out is open; releasing it leaves a
/// socket that is no longer open and keeps the same handle, and `close`
/// demands an open socket, so open-then-close releases the handle exactly
/// once and a second release is impossible.
pub proof fn lemma_open_then_close_releases(s: RawSocket)
    requires
        s.is_open(),
    ensures
        !released(s).is_open(),
        released(s).fd == s.fd,
        released(released(s)) == released(s),
{
}

/// Probes the numbered capture device nodes in order until one opens: a
/// permission failure stops the probe at once, a missing node moves on to
/// the next candidate, and running out of candidates fails with the last
/// error seen.
pub fn open_bpf() -> (r: Result<i32, SockError>)
    ensures
        r matches Ok(fd) ==> fd >= 0,
        r matches Err(e) ==> e matches SockError::Os { .. },
{
    let mut i: u64 = 0;
    let mut last_err: i32 = ENOENT;
    while i < BPF_DEVICE_PROBE_LIMIT
        invariant
            i <= BPF_DEVICE_PROBE_LIMIT,
        decreases BPF_DEVICE_PROBE_LIMIT - i,
    {
        match sys::sys_open_device_node(i) {
            Ok(fd) => { return Ok(fd) },
            Err(e) => {
                if e == EACCES || e == EPERM {
                    return Err(SockError::Os { errno: e });
                }
                last_err = e;
            },
        }
        i = i + 1;
    }
    Err(SockError::Os { errno: last_err })
}

} // verus!
