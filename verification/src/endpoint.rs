//! Network endpoints: an IP address together with a port.

use vstd::prelude::*;

verus! {

/// An IPv4 or IPv6 address, held as the big-endian integer of its octets.
#[derive(Clone, Copy, Debug, PartialEq, Eq, Hash, Structural)]
pub enum IpAddress {
    V4(u32),
    V6(u128),
}

impl IpAddress {
    /// Position of the address in the total order of addresses: every
    /// IPv4 address comes before every IPv6 address, and within a family
    /// addresses are ordered numerically.
    pub open spec fn rank(self) -> int {
        match self {
            IpAddress::V4(a) => a as int,
            IpAddress::V6(a) => 0x1_0000_0000 + a as int,
        }
    }

    /// Whether `self` comes strictly before `other`.
    pub fn precedes(&self, other: &IpAddress) -> (b: bool)
        ensures
            b == (self.rank() < other.rank()),
    {
        match (*self, *other) {
            (IpAddress::V4(a), IpAddress::V4(b)) => a < b,
            (IpAddress::V4(_), IpAddress::V6(_)) => true,
            (IpAddress::V6(_), IpAddress::V4(_)) => false,
            (IpAddress::V6(a), IpAddress::V6(b)) => a < b,
        }
    }
}

/// One side of a flow.
#[derive(Clone, Copy, Debug, PartialEq, Eq, Hash, Structural)]
pub struct Endpoint {
    pub ip: IpAddress,
    pub port: u16,
}

impl Endpoint {
    /// Position of the endpoint in the total order of endpoints: by
    /// address first, by port among equal addresses.
    pub open spec fn rank(self) -> int {
        self.ip.rank() * 0x1_0000 + self.port as int
    }

    /// Whether `self` comes strictly before `other`.
    pub fn precedes(&self, other: &Endpoint) -> (b: bool)
        ensures
            b == (self.rank() < other.rank()),
    {
        if self.ip == other.ip {
            self.port < other.port
        } else {
            self.ip.precedes(&other.ip)
        }
    }
}

} // verus!
