//! Plain-value model of IP addresses.
//!
//! The engine keys every host by its address.  An address is held as raw
//! bits so that contracts can speak about it directly: a 32-bit value for
//! IPv4, a 128-bit value for IPv6.

use vstd::prelude::*;

verus! {

/// An IP address: the unique key of a host in the topology graph.
#[derive(Clone, Copy, PartialEq, Eq, Structural, Debug, Hash)]
pub enum IpAddress {
    V4 { bits: u32 },
    V6 { bits: u128 },
}

impl IpAddress {
    /// The 128-bit value used when a range of addresses is walked: an IPv4
    /// address stands at its IPv4-mapped IPv6 position (`::ffff:a.b.c.d`).
    pub open spec fn spec_mapped_bits(self) -> u128 {
        match self {
            IpAddress::V4 { bits } => (0xFFFF_0000_0000u128 + bits as u128) as u128,
            IpAddress::V6 { bits } => bits,
        }
    }

    /// The address a 128-bit value stands for: values in the IPv4-mapped
    /// block (`::ffff:0:0/96`) and the IPv4-compatible block (`::/96`)
    /// come back as IPv4 addresses, all others as IPv6.
    pub open spec fn spec_from_mapped_bits(bits: u128) -> IpAddress {
        if bits / 0x1_0000_0000 == 0xFFFF || bits / 0x1_0000_0000 == 0 {
            IpAddress::V4 { bits: (bits % 0x1_0000_0000) as u32 }
        } else {
            IpAddress::V6 { bits }
        }
    }

    /// See [`Self::spec_mapped_bits`].
    pub fn mapped_bits(self) -> (r: u128)
        ensures
            r == self.spec_mapped_bits(),
    {
        match self {
            IpAddress::V4 { bits } => 0xFFFF_0000_0000u128 + bits as u128,
            IpAddress::V6 { bits } => bits,
        }
    }

    /// See [`Self::spec_from_mapped_bits`].
    pub fn from_mapped_bits(bits: u128) -> (r: IpAddress)
        ensures
            r == Self::spec_from_mapped_bits(bits),
    {
        if bits / 0x1_0000_0000 == 0xFFFF || bits / 0x1_0000_0000 == 0 {
            IpAddress::V4 { bits: (bits % 0x1_0000_0000) as u32 }
        } else {
            IpAddress::V6 { bits }
        }
    }
}

/// Every address of the inclusive range `from ..= to`, walked at the
/// 128-bit level, mapped values coming back as IPv4 addresses.  An empty
/// range gives an empty list.
pub fn expand_ip_range(from: IpAddress, to: IpAddress) -> (r: Vec<IpAddress>)
    requires
        to.spec_mapped_bits() < u128::MAX,
        to.spec_mapped_bits() - from.spec_mapped_bits() < usize::MAX,
    ensures
        from.spec_mapped_bits() > to.spec_mapped_bits() ==> r@.len() == 0,
        from.spec_mapped_bits() <= to.spec_mapped_bits() ==> r@.len()
            == to.spec_mapped_bits() - from.spec_mapped_bits() + 1,
        forall|i: int| 0 <= i < r@.len() ==> r@[i]
            == IpAddress::spec_from_mapped_bits((from.spec_mapped_bits() + i) as u128),
{
    let lo: u128 = from.mapped_bits();
    let hi: u128 = to.mapped_bits();
    let mut out: Vec<IpAddress> = Vec::new();
    if lo > hi {
        return out;
    }
    let mut cur: u128 = lo;
    while cur <= hi
        invariant
            lo <= cur <= hi + 1,
            hi < u128::MAX,
            hi - lo < usize::MAX,
            out@.len() == cur - lo,
            forall|i: int| 0 <= i < out@.len() ==> out@[i]
                == IpAddress::spec_from_mapped_bits((lo + i) as u128),
        decreases hi + 1 - cur,
    {
        out.push(IpAddress::from_mapped_bits(cur));
        cur = cur + 1;
    }
    out
}

} // verus!
