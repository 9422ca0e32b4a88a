//! The address type the pipeline bans: a v4 address as its 32-bit value or
//! a v6 address as its 128-bit value, most significant octet first.

use vstd::prelude::*;

use crate::bytes::{push_u128_be, push_u32_be, u128_be, u32_be};
use crate::ip_family::IpFamily;

verus! {

#[derive(Debug, Copy, Clone, PartialEq, Eq, Hash, Structural)]
pub enum IpAddr {
    V4(u32),
    V6(u128),
}

/// The raw octets of the address as they appear on the wire: four for a v4
/// address, sixteen for a v6 address, in network (big-endian) order.
pub open spec fn ip_octets(ip: IpAddr) -> Seq<u8> {
    match ip {
        IpAddr::V4(a) => u32_be(a),
        IpAddr::V6(a) => u128_be(a),
    }
}

impl IpAddr {
    pub open spec fn spec_is_ipv4(&self) -> bool {
        self is V4
    }

    #[verifier::when_used_as_spec(spec_is_ipv4)]
    pub fn is_ipv4(&self) -> (r: bool)
        ensures
            r == self.spec_is_ipv4(),
    {
        match self {
            IpAddr::V4(_) => true,
            IpAddr::V6(_) => false,
        }
    }

    pub fn family(&self) -> (r: IpFamily)
        ensures
            r == (if self is V4 { IpFamily::V4 } else { IpFamily::V6 }),
    {
        IpFamily::from_ipv4(self.is_ipv4())
    }

    /// The network-order octets of the address.
    pub fn octets(&self) -> (r: Vec<u8>)
        ensures
            r@ == ip_octets(*self),
            r@.len() == (if self is V4 { 4int } else { 16int }),
    {
        let mut buf: Vec<u8> = Vec::new();
        match self {
            IpAddr::V4(a) => {
                push_u32_be(&mut buf, *a);
            },
            IpAddr::V6(a) => {
                push_u128_be(&mut buf, *a);
            },
        }
        buf
    }
}

} // verus!
