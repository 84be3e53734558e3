//! Addresses as the rest of the library reads them.

use vstd::prelude::*;

verus! {

/// An IP address, as the number that its octets stand for in network order.
#[derive(Clone, Copy, Debug, PartialEq, Eq, Hash, Structural)]
pub enum IpAddr {
    V4(u32),
    V6(u128),
}

#[derive(Clone, Copy, Debug, PartialEq, Eq, Structural)]
pub struct SocketAddrV4 {
    pub ip: u32,
    pub port: u16,
}

#[derive(Clone, Copy, Debug, PartialEq, Eq, Structural)]
pub struct SocketAddrV6 {
    pub ip: u128,
    pub port: u16,
    /// In network order.
    pub flowinfo: u32,
    pub scope_id: u32,
}

/// A socket address.
#[derive(Clone, Copy, Debug, PartialEq, Eq, Structural)]
pub enum SocketAddr {
    V4(SocketAddrV4),
    V6(SocketAddrV6),
}

impl SocketAddr {
    pub open spec fn spec_ip(self) -> IpAddr {
        match self {
            SocketAddr::V4(addr) => IpAddr::V4(addr.ip),
            SocketAddr::V6(addr) => IpAddr::V6(addr.ip),
        }
    }

    pub open spec fn spec_port(self) -> u16 {
        match self {
            SocketAddr::V4(addr) => addr.port,
            SocketAddr::V6(addr) => addr.port,
        }
    }

    /// The same address with another port.
    pub open spec fn with_port(self, port: u16) -> SocketAddr {
        match self {
            SocketAddr::V4(addr) => SocketAddr::V4(SocketAddrV4 { port, ..addr }),
            SocketAddr::V6(addr) => SocketAddr::V6(SocketAddrV6 { port, ..addr }),
        }
    }

    pub fn ip(&self) -> (res: IpAddr)
        ensures
            res == self.spec_ip(),
    {
        match self {
            SocketAddr::V4(addr) => IpAddr::V4(addr.ip),
            SocketAddr::V6(addr) => IpAddr::V6(addr.ip),
        }
    }

    pub fn port(&self) -> (res: u16)
        ensures
            res == self.spec_port(),
    {
        match self {
            SocketAddr::V4(addr) => addr.port,
            SocketAddr::V6(addr) => addr.port,
        }
    }

    pub fn set_port(&mut self, port: u16)
        ensures
            *final(self) == old(self).with_port(port),
    {
        match *self {
            SocketAddr::V4(addr) => {
                *self = SocketAddr::V4(SocketAddrV4 { port, ..addr });
            },
            SocketAddr::V6(addr) => {
                *self = SocketAddr::V6(SocketAddrV6 { port, ..addr });
            },
        }
    }
}

/// Another port changes nothing else of an address, and is the one that is read
/// afterwards.
pub proof fn law_other_port(addr: SocketAddr, port: u16)
    ensures
        addr.with_port(port).spec_port() == port,
        addr.with_port(port).spec_ip() == addr.spec_ip(),
        addr.with_port(addr.spec_port()) == addr,
        addr.with_port(port).with_port(addr.spec_port()) == addr,
        addr matches SocketAddr::V6(first) ==> {
            &&& addr.with_port(port) matches SocketAddr::V6(second)
            &&& second.flowinfo == first.flowinfo
            &&& second.scope_id == first.scope_id
        },
{
}

/// An address has the IP address and the port that it was made of.
pub proof fn law_parts_of_an_address(v4: SocketAddrV4, v6: SocketAddrV6)
    ensures
        SocketAddr::V4(v4).spec_ip() == IpAddr::V4(v4.ip),
        SocketAddr::V4(v4).spec_port() == v4.port,
        SocketAddr::V6(v6).spec_ip() == IpAddr::V6(v6.ip),
        SocketAddr::V6(v6).spec_port() == v6.port,
{
}

} // verus!
