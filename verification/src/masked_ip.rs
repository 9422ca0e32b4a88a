//! Prefix masks over addresses: reducing an address to its network
//! prefix so that a whole subnet shares one identity.

use vstd::prelude::*;

use crate::ip_addr::IpAddr;
use crate::ip_family::{ByIpFamily, IpFamily};

verus! {

/// A pair of prefix masks, one per family.
#[derive(Debug, Clone)]
pub struct Mask {
    prefix_bits: ByIpFamily<u8>,
    ipv4_mask: u32,
    ipv6_mask: u128,
}

/// An address reduced to its network prefix, with the prefix width kept
/// for display and conversion.
#[derive(Debug, Copy, Clone, Eq, PartialEq, Hash, Structural)]
pub struct MaskedIpAddr {
    pub ip: IpAddr,
    pub prefix_bits: u8,
}

impl MaskedIpAddr {
    pub fn family(&self) -> (r: IpFamily)
        ensures
            r == (if self.ip is V4 {
                IpFamily::V4
            } else {
                IpFamily::V6
            }),
    {
        IpFamily::from_ipv4(self.ip.is_ipv4())
    }
}

impl Mask {
    pub closed spec fn spec_prefix_bits(&self) -> ByIpFamily<u8> {
        self.prefix_bits
    }

    pub closed spec fn spec_ipv4_mask(&self) -> u32 {
        self.ipv4_mask
    }

    pub closed spec fn spec_ipv6_mask(&self) -> u128 {
        self.ipv6_mask
    }

    /// Builds the bit masks for the given prefix widths: the top
    /// `prefix_bits` bits of each family's address survive.
    pub fn new(prefix_bits: ByIpFamily<u8>) -> (r: Mask)
        requires
            1 <= prefix_bits.ipv4 <= 32,
            1 <= prefix_bits.ipv6 <= 128,
        ensures
            r.spec_prefix_bits() == prefix_bits,
            r.spec_ipv4_mask() == 0xFFFF_FFFFu32 << ((32 - prefix_bits.ipv4) as u32),
            r.spec_ipv6_mask() == 0xFFFF_FFFF_FFFF_FFFF_FFFF_FFFF_FFFF_FFFFu128 << ((128
                - prefix_bits.ipv6) as u128),
    {
        let ipv4_mask: u32 = 0xFFFF_FFFFu32 << ((32 - prefix_bits.ipv4) as u32);
        let ipv6_mask: u128 = 0xFFFF_FFFF_FFFF_FFFF_FFFF_FFFF_FFFF_FFFFu128 << ((128
            - prefix_bits.ipv6) as u128);
        Mask { prefix_bits, ipv4_mask, ipv6_mask }
    }

    /// Reduces `ip` to its network prefix under this mask.
    pub fn apply(&self, ip: &IpAddr) -> (r: MaskedIpAddr)
        ensures
            match *ip {
                IpAddr::V4(a) => r.ip == IpAddr::V4(a & self.spec_ipv4_mask()) && r.prefix_bits
                    == self.spec_prefix_bits().ipv4,
                IpAddr::V6(a) => r.ip == IpAddr::V6(a & self.spec_ipv6_mask()) && r.prefix_bits
                    == self.spec_prefix_bits().ipv6,
            },
    {
        match ip {
            IpAddr::V4(a) => MaskedIpAddr {
                ip: IpAddr::V4(*a & self.ipv4_mask),
                prefix_bits: self.prefix_bits.ipv4,
            },
            IpAddr::V6(a) => MaskedIpAddr {
                ip: IpAddr::V6(*a & self.ipv6_mask),
                prefix_bits: self.prefix_bits.ipv6,
            },
        }
    }
}

} // verus!
