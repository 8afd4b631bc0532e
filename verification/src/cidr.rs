//! Turning netmasks into prefix lengths.
//!
//! A netmask stands for a prefix length only when its one bits form a
//! single leading run.  These conversions find that run's length, and
//! reject any mask whose ones are not contiguous, exactly.

use vstd::prelude::*;
use vstd::arithmetic::power2::{pow2, lemma2_to64};
use vstd::bits::{lemma_u32_shl_is_mul, lemma_u64_shl_is_mul};

verus! {

/// Why an address/netmask pair cannot be written as a prefix range.
#[derive(Clone, Copy, Debug, PartialEq, Eq, Structural)]
pub enum CidrError {
    /// The netmask's one bits are not one contiguous leading run, or the
    /// address families do not agree.
    Illegal,
}

/// An IPv4 range: the address and the number of leading netmask bits.
#[derive(Clone, Copy, Debug, PartialEq, Eq, Structural)]
pub struct Ipv4Cidr {
    pub address: u32,
    pub prefix_len: u8,
}

/// An IPv6 range: the address as its eight 16-bit segments, and the
/// number of leading netmask bits.
#[derive(Clone, Copy, Debug, PartialEq, Eq)]
pub struct Ipv6Cidr {
    pub segments: [u16; 8],
    pub prefix_len: u8,
}

/// An address of either family: IPv4 as one 32-bit value, IPv6 as eight
/// 16-bit segments.
#[derive(Clone, Copy, Debug, PartialEq, Eq)]
pub enum IpAddress {
    V4(u32),
    V6([u16; 8]),
}

/// A range of either family.
#[derive(Clone, Copy, Debug, PartialEq, Eq)]
pub enum IpCidr {
    V4(Ipv4Cidr),
    V6(Ipv6Cidr),
}

/// `x` held to the range of bits one 16-bit segment can contribute.
pub open spec fn clamp16(x: int) -> int {
    if x < 0 {
        0
    } else if x > 16 {
        16
    } else {
        x
    }
}

/// The 16-bit netmask segment whose `k` leading bits are one.
pub open spec fn seg_mask(k: int) -> int {
    0x10000 - pow2((16 - k) as nat)
}

/// The 32-bit netmask whose `p` leading bits are one.
pub open spec fn v4_mask(p: int) -> int {
    0x1_0000_0000 - pow2((32 - p) as nat)
}

/// Whether the eight segments are exactly the IPv6 netmask with `p`
/// leading one bits.
pub open spec fn is_v6_mask(mask: Seq<u16>, p: int) -> bool {
    forall|i: int| 0 <= i < 8 ==> (#[trigger] mask[i]) as int == seg_mask(clamp16(p - 16 * i))
}

/// The netmask segment with `k` leading one bits, as a value.
fn seg_mask16(k: u8) -> (r: u16)
    requires
        k <= 16,
    ensures
        r as int == seg_mask(k as int),
{
    let sh = (16 - k) as u32;
    let pw: u32 = 1u32 << sh;
    proof {
        lemma2_to64();
        lemma_u32_shl_is_mul(1u32, sh);
    }
    (0x10000u32 - pw) as u16
}

/// The 32-bit netmask with `p` leading one bits, as a value.
fn v4_mask32(p: u8) -> (r: u32)
    requires
        p <= 32,
    ensures
        r as int == v4_mask(p as int),
{
    let sh = (32 - p) as u64;
    let pw: u64 = 1u64 << sh;
    proof {
        lemma2_to64();
        lemma_u64_shl_is_mul(1u64, sh);
    }
    (0x1_0000_0000u64 - pw) as u32
}

/// Whether `netmask` is exactly the IPv6 netmask with `p` leading ones.
fn v6_matches(netmask: &[u16; 8], p: u8) -> (r: bool)
    requires
        p <= 128,
    ensures
        r == is_v6_mask(netmask@, p as int),
{
    let mut i: usize = 0;
    while i < 8
        invariant
            i <= 8,
            p <= 128,
            forall|j: int|
                0 <= j < i ==> (#[trigger] netmask@[j]) as int == seg_mask(
                    clamp16(p as int - 16 * j),
                ),
        decreases 8 - i,
    {
        let lo = 16 * (i as u16);
        let k: u8 = if (p as u16) <= lo {
            0
        } else if (p as u16) >= lo + 16 {
            16
        } else {
            ((p as u16) - lo) as u8
        };
        assert(k as int == clamp16(p as int - 16 * i as int));
        if netmask[i] != seg_mask16(k) {
            return false;
        }
        i = i + 1;
    }
    true
}

/// The prefix length that an IPv6 netmask stands for: the count of its
/// leading one bits, accepted exactly when the mask is one contiguous
/// leading run of ones.
#[verifier::loop_isolation(false)]
pub fn ipv6_cidr_from_ipv6_mask(address: [u16; 8], netmask: [u16; 8]) -> (r: Result<
    Ipv6Cidr,
    CidrError,
>)
    ensures
        match r {
            Ok(c) => c.segments@ == address@ && c.prefix_len <= 128 && is_v6_mask(
                netmask@,
                c.prefix_len as int,
            ),
            Err(e) => e == CidrError::Illegal && forall|p: int|
                0 <= p <= 128 ==> !is_v6_mask(netmask@, p),
        },
{
    let mut p: u16 = 0;
    while p <= 128
        invariant
            p <= 129,
            forall|q: int| 0 <= q < p ==> !is_v6_mask(netmask@, q),
        decreases 129 - p,
    {
        if v6_matches(&netmask, p as u8) {
            return Ok(Ipv6Cidr { segments: address, prefix_len: p as u8 });
        }
        p = p + 1;
    }
    Err(CidrError::Illegal)
}

/// The prefix range that an address and netmask of one family stand for.
/// Families must agree, and the netmask's one bits must form a single
/// leading run; every other pair is rejected.
#[verifier::loop_isolation(false)]
pub fn ip_cidr_from_netmask(addr: IpAddress, netmask: IpAddress) -> (r: Result<IpCidr, CidrError>)
    ensures
        match (addr, netmask) {
            (IpAddress::V4(a), IpAddress::V4(m)) => match r {
                Ok(c) => c matches IpCidr::V4(c4) && c4.address == a && c4.prefix_len <= 32
                    && m as int == v4_mask(c4.prefix_len as int),
                Err(e) => e == CidrError::Illegal && forall|p: int|
                    0 <= p <= 32 ==> m as int != v4_mask(p),
            },
            (IpAddress::V6(a), IpAddress::V6(m)) => match r {
                Ok(c) => c matches IpCidr::V6(c6) && c6.segments@ == a@ && c6.prefix_len <= 128
                    && is_v6_mask(m@, c6.prefix_len as int),
                Err(e) => e == CidrError::Illegal && forall|p: int|
                    0 <= p <= 128 ==> !is_v6_mask(m@, p),
            },
            _ => r == Err::<IpCidr, CidrError>(CidrError::Illegal),
        },
{
    match (addr, netmask) {
        (IpAddress::V4(a), IpAddress::V4(m)) => {
            let mut p: u8 = 0;
            while p <= 32
                invariant
                    p <= 33,
                    forall|q: int| 0 <= q < p ==> m as int != v4_mask(q),
                decreases 33 - p,
            {
                if m == v4_mask32(p) {
                    return Ok(IpCidr::V4(Ipv4Cidr { address: a, prefix_len: p }));
                }
                p = p + 1;
            }
            Err(CidrError::Illegal)
        },
        (IpAddress::V6(a), IpAddress::V6(m)) => match ipv6_cidr_from_ipv6_mask(a, m) {
            Ok(c) => Ok(IpCidr::V6(c)),
            Err(e) => Err(e),
        },
        _ => Err(CidrError::Illegal),
    }
}

} // verus!
