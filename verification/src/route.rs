//! Decoding kernel routing-table snapshots.
//!
//! The kernel routing subsystem answers a dump request with one flat buffer
//! of variable-length routing messages.  Each message starts with a
//! fixed-size header whose declared total length alone drives the framing;
//! the destination address follows the header and the gateway address
//! follows the destination's encoded length.  Addresses are a length- and
//! family-prefixed union, decoded by address family.

use vstd::prelude::*;
use crate::framing::le16;

verus! {

/// Size in bytes of the routing-message header (the length, version, type
/// and index fields, the flag words, and the metric block).
pub const RT_MSGHDR_LEN: usize = 92;

/// Address family of a domain-socket address, as the routing socket
/// reports it.
pub const AF_UNIX: u8 = 1;

/// Address family of an IPv4 socket address.
pub const AF_INET: u8 = 2;

/// Address family of a link-layer address.
pub const AF_LINK: u8 = 18;

/// Address family of an IPv6 socket address.
pub const AF_INET6: u8 = 30;

/// Bytes a decodable IPv4 socket address must carry: length, family, port
/// and the four address bytes.
pub const SOCKADDR_IN_MIN: usize = 8;

/// Bytes a decodable IPv6 socket address must carry: length, family, port,
/// flow information, the sixteen address bytes and the scope identifier.
pub const SOCKADDR_IN6_MIN: usize = 28;

/// One endpoint of a routing message, tagged by address family.  Link-layer
/// and domain-socket addresses are recognized but left opaque: the kernel
/// structures behind them are not decoded here.
#[derive(Clone, Copy, Debug, PartialEq, Eq, Structural)]
pub enum RouteAddr {
    /// An IPv4 socket address: the address bytes in textual order and the
    /// port as carried, usually zero in routing context.
    V4 { addr: u32, port: u16 },
    /// An IPv6 socket address with its flow information and scope.
    V6 { addr0: u64, addr1: u64, port: u16, flowinfo: u32, scope_id: u32 },
    /// A domain-socket address; recognized, not decoded.
    Unix,
    /// A link-layer address; recognized, not decoded.
    Link,
}

/// Why a routing buffer failed to decode.
#[derive(Clone, Copy, Debug, PartialEq, Eq, Structural)]
pub enum DecodeError {
    /// A header or address runs past the bytes that are actually there.
    Truncated,
    /// An address family this decoder has no layout for: the kernel and
    /// this decoder disagree about the binary contract.
    UnrecognizedFamily { family: u8 },
}

/// The decoded routing-message header: the kernel's declared total message
/// length, protocol version, message type and interface index.
#[derive(Clone, Copy, Debug, PartialEq, Eq, Structural)]
pub struct RtMsgHdr {
    pub msglen: u16,
    pub version: u8,
    pub msgtype: u8,
    pub index: u16,
}

/// One decoded routing entry: its header plus the destination and gateway
/// endpoints.
#[derive(Clone, Copy, Debug, PartialEq, Eq, Structural)]
pub struct RouteTableMessage {
    pub hdr: RtMsgHdr,
    pub dest: RouteAddr,
    pub gateway: RouteAddr,
}

/// A 16-bit big-endian (network order) field read from a byte sequence.
pub open spec fn be16(b: Seq<u8>, i: int) -> int {
    256 * (b[i] as int) + b[i + 1] as int
}

/// A 32-bit big-endian field read from a byte sequence.
pub open spec fn be32(b: Seq<u8>, i: int) -> int {
    16777216 * (b[i] as int) + 65536 * (b[i + 1] as int) + 256 * (b[i + 2] as int) + b[i
        + 3] as int
}

/// A 64-bit big-endian field read from a byte sequence.
pub open spec fn be64(b: Seq<u8>, i: int) -> int {
    0x1_0000_0000 * be32(b, i) + be32(b, i + 4)
}

/// What decoding one socket address at `off`, bounded by `limit`, yields.
pub enum AddrDecode {
    Decoded { addr: RouteAddr, next: int },
    Fail { err: DecodeError },
}

/// Decodes the length- and family-prefixed socket address at `off`.  The
/// address's own length byte gives where the next address starts; a length
/// that is shorter than the family's layout or runs past `limit` is a
/// truncation, and an unknown family is a fatal mismatch.
pub open spec fn decode_addr_spec(b: Seq<u8>, off: int, limit: int) -> AddrDecode {
    if off + 2 > limit {
        AddrDecode::Fail { err: DecodeError::Truncated }
    } else {
        let sa_len = b[off] as int;
        let fam = b[off + 1];
        if fam == AF_INET {
            if sa_len < SOCKADDR_IN_MIN || off + sa_len > limit {
                AddrDecode::Fail { err: DecodeError::Truncated }
            } else {
                AddrDecode::Decoded {
                    addr: RouteAddr::V4 {
                        addr: be32(b, off + 4) as u32,
                        port: be16(b, off + 2) as u16,
                    },
                    next: off + sa_len,
                }
            }
        } else if fam == AF_INET6 {
            if sa_len < SOCKADDR_IN6_MIN || off + sa_len > limit {
                AddrDecode::Fail { err: DecodeError::Truncated }
            } else {
                AddrDecode::Decoded {
                    addr: RouteAddr::V6 {
                        addr0: be64(b, off + 8) as u64,
                        addr1: be64(b, off + 16) as u64,
                        port: be16(b, off + 2) as u16,
                        flowinfo: be32(b, off + 4) as u32,
                        scope_id: be32(b, off + 24) as u32,
                    },
                    next: off + sa_len,
                }
            }
        } else if fam == AF_UNIX || fam == AF_LINK {
            if sa_len < 2 || off + sa_len > limit {
                AddrDecode::Fail { err: DecodeError::Truncated }
            } else {
                AddrDecode::Decoded {
                    addr: if fam == AF_UNIX {
                        RouteAddr::Unix
                    } else {
                        RouteAddr::Link
                    },
                    next: off + sa_len,
                }
            }
        } else {
            AddrDecode::Fail { err: DecodeError::UnrecognizedFamily { family: fam } }
        }
    }
}

/// What one iteration step at cursor `off` yields.
pub enum RouteStep {
    /// The cursor has reached the end of the buffer.
    Done,
    /// One decoded message, and the cursor after it: the start plus the
    /// header's declared total length, which alone is trusted for framing.
    Msg { msg: RouteTableMessage, next: int },
    /// The buffer is malformed at `off`.
    Fail { err: DecodeError },
}

/// Decodes the routing message at `off`: the fixed-size header, then the
/// destination address right behind it, then the gateway address right
/// behind the destination, all read within the header's declared length.
pub open spec fn route_step(b: Seq<u8>, off: int) -> RouteStep {
    let len = b.len() as int;
    if off >= len {
        RouteStep::Done
    } else if off + RT_MSGHDR_LEN > len {
        RouteStep::Fail { err: DecodeError::Truncated }
    } else {
        let msglen = le16(b, off);
        if msglen < RT_MSGHDR_LEN || off + msglen > len {
            RouteStep::Fail { err: DecodeError::Truncated }
        } else {
            let limit = off + msglen;
            match decode_addr_spec(b, off + RT_MSGHDR_LEN, limit) {
                AddrDecode::Fail { err } => RouteStep::Fail { err },
                AddrDecode::Decoded { addr: dest, next: gw_off } => match decode_addr_spec(
                    b,
                    gw_off,
                    limit,
                ) {
                    AddrDecode::Fail { err } => RouteStep::Fail { err },
                    AddrDecode::Decoded { addr: gateway, next: _ } => RouteStep::Msg {
                        msg: RouteTableMessage {
                            hdr: RtMsgHdr {
                                msglen: msglen as u16,
                                version: b[off + 2],
                                msgtype: b[off + 3],
                                index: le16(b, off + 4) as u16,
                            },
                            dest,
                            gateway,
                        },
                        next: off + msglen,
                    },
                },
            }
        }
    }
}

/// Every message the iteration yields from `off` on, up to the end of the
/// buffer or the first malformed record.
pub open spec fn route_messages(b: Seq<u8>, off: int) -> Seq<RouteTableMessage>
    decreases b.len() - off when 0 <= off
{
    match route_step(b, off) {
        RouteStep::Msg { msg, next } => seq![msg] + route_messages(b, next),
        _ => seq![],
    }
}

/// Whether the iteration from `off` reaches the end of the buffer cleanly.
pub open spec fn route_ok(b: Seq<u8>, off: int) -> bool
    decreases b.len() - off when 0 <= off
{
    match route_step(b, off) {
        RouteStep::Done => true,
        RouteStep::Fail { .. } => false,
        RouteStep::Msg { next, .. } => route_ok(b, next),
    }
}

/// The first error the iteration from `off` runs into, if any.
pub open spec fn route_err(b: Seq<u8>, off: int) -> DecodeError
    decreases b.len() - off when 0 <= off
{
    match route_step(b, off) {
        RouteStep::Fail { err } => err,
        RouteStep::Msg { next, .. } => route_err(b, next),
        RouteStep::Done => DecodeError::Truncated,
    }
}

/// Eagerly collecting the walk from `off`: all messages up to the end of
/// the buffer, or the first decoding failure.
pub open spec fn route_collect(b: Seq<u8>, off: int) -> Result<Seq<RouteTableMessage>, DecodeError>
    decreases b.len() - off when 0 <= off
{
    match route_step(b, off) {
        RouteStep::Done => Ok(seq![]),
        RouteStep::Fail { err } => Err(err),
        RouteStep::Msg { msg, next } => match route_collect(b, next) {
            Ok(s) => Ok(seq![msg] + s),
            Err(e) => Err(e),
        },
    }
}

/// Eagerly collecting the walk into one sequence (what `list` returns)
/// gives exactly the messages the lazy walk yields one by one (what
/// repeated `next` calls return), and fails exactly when the walk fails,
/// with the same error.
pub proof fn lemma_collect_matches_iteration(b: Seq<u8>, off: int)
    requires
        0 <= off,
    ensures
        route_collect(b, off) matches Ok(s) ==> route_ok(b, off) && s == route_messages(b, off),
        route_collect(b, off) matches Err(e) ==> !route_ok(b, off) && e == route_err(b, off),
    decreases b.len() - off,
{
    match route_step(b, off) {
        RouteStep::Done => {},
        RouteStep::Fail { err } => {},
        RouteStep::Msg { msg, next } => {
            lemma_collect_matches_iteration(b, next);
        },
    }
}

/// Route addition is acknowledged by the interface but intentionally not
/// implemented.
pub fn add() {
}

/// Route removal is acknowledged by the interface but intentionally not
/// implemented.
pub fn remove() {
}

/// Decodes the socket address at `off`, bounded by `limit`: the address
/// and the offset right after its encoded length.
pub fn decode_route_addr(b: &[u8], off: usize, limit: usize) -> (r: Result<
    (RouteAddr, usize),
    DecodeError,
>)
    requires
        limit <= b@.len(),
    ensures
        match decode_addr_spec(b@, off as int, limit as int) {
            AddrDecode::Decoded { addr, next } => r matches Ok((a, n)) && a == addr && n as int
                == next,
            AddrDecode::Fail { err } => r == Err::<(RouteAddr, usize), DecodeError>(err),
        },
{
    if off >= limit || limit - off < 2 {
        return Err(DecodeError::Truncated);
    }
    let sa_len = b[off] as usize;
    let fam = b[off + 1];
    if fam == AF_INET {
        if sa_len < SOCKADDR_IN_MIN || sa_len > limit - off {
            return Err(DecodeError::Truncated);
        }
        let port = 256u16 * (b[off + 2] as u16) + b[off + 3] as u16;
        let addr = read_be32(b, off + 4);
        Ok((RouteAddr::V4 { addr, port }, off + sa_len))
    } else if fam == AF_INET6 {
        if sa_len < SOCKADDR_IN6_MIN || sa_len > limit - off {
            return Err(DecodeError::Truncated);
        }
        let port = 256u16 * (b[off + 2] as u16) + b[off + 3] as u16;
        let flowinfo = read_be32(b, off + 4);
        let addr0 = read_be64(b, off + 8);
        let addr1 = read_be64(b, off + 16);
        let scope_id = read_be32(b, off + 24);
        Ok((RouteAddr::V6 { addr0, addr1, port, flowinfo, scope_id }, off + sa_len))
    } else if fam == AF_UNIX || fam == AF_LINK {
        if sa_len < 2 || sa_len > limit - off {
            return Err(DecodeError::Truncated);
        }
        let addr = if fam == AF_UNIX {
            RouteAddr::Unix
        } else {
            RouteAddr::Link
        };
        Ok((addr, off + sa_len))
    } else {
        Err(DecodeError::UnrecognizedFamily { family: fam })
    }
}

/// Reads the 32-bit big-endian field at `i`.
fn read_be32(b: &[u8], i: usize) -> (r: u32)
    requires
        i + 4 <= b@.len(),
    ensures
        r == be32(b@, i as int),
{
    16777216u32 * (b[i] as u32) + 65536u32 * (b[i + 1] as u32) + 256u32 * (b[i + 2] as u32) + b[i
        + 3] as u32
}

/// Reads the 64-bit big-endian field at `i`.
fn read_be64(b: &[u8], i: usize) -> (r: u64)
    requires
        i + 8 <= b@.len(),
    ensures
        r == be64(b@, i as int),
{
    let n = b.len();
    assert(i + 8 <= n);
    0x1_0000_0000u64 * (read_be32(b, i) as u64) + read_be32(b, i + 4) as u64
}

/// A lazy, finite, non-restartable walk over one kernel routing buffer.
/// The iterator owns the buffer; its cursor never regresses, and the
/// cursor plus the current record's declared length never passes the end
/// of the buffer without the iterator signalling completion or an error.
pub struct RouteTableMessageIter {
    pub buf: Vec<u8>,
    pub offset: usize,
}

impl RouteTableMessageIter {
    /// The messages this iterator has yet to yield.
    pub open spec fn remaining(self) -> Seq<RouteTableMessage> {
        route_messages(self.buf@, self.offset as int)
    }

    /// The next decoded routing message; `Ok(None)` once the cursor has
    /// reached the end of the buffer, an error on a malformed record.
    pub fn next(&mut self) -> (r: Result<Option<RouteTableMessage>, DecodeError>)
        ensures
            final(self).buf == old(self).buf,
            match route_step(old(self).buf@, old(self).offset as int) {
                RouteStep::Done => r == Ok::<Option<RouteTableMessage>, DecodeError>(None)
                    && final(self).offset == old(self).offset,
                RouteStep::Msg { msg, next } => r == Ok::<Option<RouteTableMessage>, DecodeError>(
                    Some(msg),
                ) && final(self).offset as int == next,
                RouteStep::Fail { err } => r == Err::<Option<RouteTableMessage>, DecodeError>(err)
                    && final(self).offset == old(self).offset,
            },
    {
        let len = self.buf.len();
        let offset = self.offset;
        if offset >= len {
            return Ok(None);
        }
        if len - offset < RT_MSGHDR_LEN {
            return Err(DecodeError::Truncated);
        }
        let msglen = crate::framing::read_le16(self.buf.as_slice(), offset);
        if msglen < RT_MSGHDR_LEN || msglen > len - offset {
            return Err(DecodeError::Truncated);
        }
        let limit = offset + msglen;
        let (dest, gw_off) = match decode_route_addr(
            self.buf.as_slice(),
            offset + RT_MSGHDR_LEN,
            limit,
        ) {
            Ok(x) => x,
            Err(e) => return Err(e),
        };
        let (gateway, _) = match decode_route_addr(self.buf.as_slice(), gw_off, limit) {
            Ok(x) => x,
            Err(e) => return Err(e),
        };
        let version = self.buf[offset + 2];
        let msgtype = self.buf[offset + 3];
        let index = crate::framing::read_le16(self.buf.as_slice(), offset + 4) as u16;
        self.offset = offset + msglen;
        Ok(
            Some(
                RouteTableMessage {
                    hdr: RtMsgHdr { msglen: msglen as u16, version, msgtype, index },
                    dest,
                    gateway,
                },
            ),
        )
    }
}

/// A lazy walk over a routing buffer as the kernel's dump query returns
/// it.  The two-phase sized-then-filled query itself is an operating-system
/// call made by the embedding program; this walk owns its result.
pub fn iter(buf: Vec<u8>) -> (r: RouteTableMessageIter)
    ensures
        r.buf == buf,
        r.offset == 0,
{
    RouteTableMessageIter { buf, offset: 0 }
}

/// Eagerly drains a routing buffer into one ordered sequence of decoded
/// messages: exactly the messages the lazy walk yields, with the same
/// failure modes.
#[verifier::loop_isolation(false)]
pub fn list(buf: Vec<u8>) -> (r: Result<Vec<RouteTableMessage>, DecodeError>)
    ensures
        match r {
            Ok(v) => route_ok(buf@, 0) && v@ == route_messages(buf@, 0),
            Err(e) => !route_ok(buf@, 0) && e == route_err(buf@, 0),
        },
{
    let ghost b = buf@;
    let mut it = iter(buf);
    let mut out: Vec<RouteTableMessage> = Vec::new();
    loop
        invariant
            it.buf@ == b,
            route_messages(b, 0) == out@ + route_messages(b, it.offset as int),
            route_ok(b, 0) == route_ok(b, it.offset as int),
            !route_ok(b, 0) ==> route_err(b, 0) == route_err(b, it.offset as int),
        decreases b.len() - it.offset,
    {
        let ghost prev = out@;
        let ghost off0 = it.offset as int;
        match it.next() {
            Ok(Some(m)) => {
                out.push(m);
                proof {
                    assert(route_messages(b, off0) == seq![m] + route_messages(
                        b,
                        it.offset as int,
                    ));
                    assert(prev + (seq![m] + route_messages(b, it.offset as int)) =~= out@
                        + route_messages(b, it.offset as int));
                }
            },
            Ok(None) => {
                proof {
                    assert(route_messages(b, off0) =~= Seq::<RouteTableMessage>::empty());
                    assert(out@ =~= route_messages(b, 0));
                }
                return Ok(out);
            },
            Err(e) => {
                return Err(e);
            },
        }
    }
}

} // verus!

