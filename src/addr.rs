//! Addresses of the overlay network, as plain integers.
use vstd::arithmetic::power2::pow2;
use vstd::prelude::*;

verus! {

/// An IPv4 or IPv6 address, in the network byte order read as one integer.
#[derive(Clone, Copy, PartialEq, Eq, Structural, Hash, Debug)]
pub enum IpAddr {
    V4(u32),
    V6(u128),
}

/// The pair of addresses that a peer holds inside the tunnel.
#[derive(Clone, Copy, PartialEq, Eq, Structural, Hash, Debug)]
pub struct IpConfig {
    pub v4: u32,
    pub v6: u128,
}

impl IpConfig {
    pub open spec fn spec_is_ip(self, ip: IpAddr) -> bool {
        ip == IpAddr::V4(self.v4) || ip == IpAddr::V6(self.v6)
    }

    /// Whether `ip` is one of the two tunnel addresses.
    pub fn is_ip(&self, ip: IpAddr) -> (r: bool)
        ensures
            r == self.spec_is_ip(ip),
    {
        match ip {
            IpAddr::V4(a) => a == self.v4,
            IpAddr::V6(a) => a == self.v6,
        }
    }
}

/// An address together with a port.
#[derive(Clone, Copy, PartialEq, Eq, Structural, Hash, Debug)]
pub struct SocketAddr {
    pub ip: IpAddr,
    pub port: u16,
}

/// A network: an address whose low bits past the prefix length are clear.
#[derive(Clone, Copy, PartialEq, Eq, Structural, Hash, Debug)]
#[allow(inconsistent_fields)]
pub enum NetworkPrefix {
    V4 { addr: u32, len: u8 },
    V6 { addr: u128, len: u8 },
}

/// The first `len` bits of a `width`-bit address.
pub open spec fn prefix_bits(a: int, width: nat, len: nat) -> int {
    a / pow2((width - len) as nat) as int
}

impl NetworkPrefix {
    /// The prefix length fits the family and no host bit is set.
    pub open spec fn wf(self) -> bool {
        match self {
            NetworkPrefix::V4 { addr, len } => len <= 32 && addr as int % pow2((32 - len) as nat) as int
                == 0,
            NetworkPrefix::V6 { addr, len } => len <= 128 && addr as int % pow2((128 - len) as nat) as int
                == 0,
        }
    }

    /// `ip` lies inside the network: same family, same leading `len` bits.
    pub open spec fn contains(self, ip: IpAddr) -> bool {
        match (self, ip) {
            (NetworkPrefix::V4 { addr, len }, IpAddr::V4(a)) => prefix_bits(a as int, 32, len as nat)
                == prefix_bits(addr as int, 32, len as nat),
            (NetworkPrefix::V6 { addr, len }, IpAddr::V6(a)) => prefix_bits(a as int, 128, len as nat)
                == prefix_bits(addr as int, 128, len as nat),
            _ => false,
        }
    }

    /// The IPv4 network `addr/len`, or `None` where the length exceeds 32 or a host
    /// bit is set.
    pub fn new_v4(addr: u32, len: u8) -> (r: Option<NetworkPrefix>)
        ensures
            r is Some <==> (NetworkPrefix::V4 { addr, len }).wf(),
            r is Some ==> r == Some(NetworkPrefix::V4 { addr, len }),
    {
        if is_valid_ipv4_network(addr, len) {
            Some(NetworkPrefix::V4 { addr, len })
        } else {
            None
        }
    }

    /// The IPv6 network `addr/len`, or `None` where the length exceeds 128 or a host
    /// bit is set.
    pub fn new_v6(addr: u128, len: u8) -> (r: Option<NetworkPrefix>)
        ensures
            r is Some <==> (NetworkPrefix::V6 { addr, len }).wf(),
            r is Some ==> r == Some(NetworkPrefix::V6 { addr, len }),
    {
        if is_valid_ipv6_network(addr, len) {
            Some(NetworkPrefix::V6 { addr, len })
        } else {
            None
        }
    }
}

/// Relies on ip_network::Ipv4Network::new, which refuses a netmask over 32 and an
/// address with fewer trailing zeros than the host part has bits.
#[verifier::external_body]
fn is_valid_ipv4_network(addr: u32, len: u8) -> (r: bool)
    ensures
        r == (NetworkPrefix::V4 { addr, len }).wf(),
{
    ip_network::Ipv4Network::new(addr.into(), len).is_ok()
}

/// Relies on ip_network::Ipv6Network::new, which refuses a netmask over 128 and an
/// address with fewer trailing zeros than the host part has bits.
#[verifier::external_body]
fn is_valid_ipv6_network(addr: u128, len: u8) -> (r: bool)
    ensures
        r == (NetworkPrefix::V6 { addr, len }).wf(),
{
    ip_network::Ipv6Network::new(addr.into(), len).is_ok()
}

} // verus!
