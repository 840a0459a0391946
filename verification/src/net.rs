//! Socket addresses as plain values: what a server list holds.
use vstd::prelude::*;

verus! {

/// An IPv4 address: four octets in network order.
#[derive(Debug, PartialEq, Eq, Hash, Clone, Copy)]
pub struct Ipv4Addr {
    pub a: u8,
    pub b: u8,
    pub c: u8,
    pub d: u8,
}

impl Ipv4Addr {
    /// The address `a.b.c.d`.
    pub fn new(a: u8, b: u8, c: u8, d: u8) -> (ip: Self)
        ensures
            ip == (Ipv4Addr { a, b, c, d }),
    {
        Ipv4Addr { a, b, c, d }
    }

    /// The four octets, first to last.
    pub fn octets(&self) -> (octets: [u8; 4])
        ensures
            octets@ == seq![self.a, self.b, self.c, self.d],
    {
        let octets = [self.a, self.b, self.c, self.d];
        assert(octets@ =~= seq![self.a, self.b, self.c, self.d]);
        octets
    }
}

/// An IPv4 address with a port.
#[derive(Debug, PartialEq, Eq, Hash, Clone, Copy)]
pub struct SocketAddrV4 {
    pub ip: Ipv4Addr,
    pub port: u16,
}

impl SocketAddrV4 {
    /// The socket address `ip:port`.
    pub fn new(ip: Ipv4Addr, port: u16) -> (addr: Self)
        ensures
            addr == (SocketAddrV4 { ip, port }),
    {
        SocketAddrV4 { ip, port }
    }

    /// The address.
    pub fn ip(&self) -> (ip: &Ipv4Addr)
        ensures
            *ip == self.ip,
    {
        &self.ip
    }

    /// The port.
    pub fn port(&self) -> (port: u16)
        ensures
            port == self.port,
    {
        self.port
    }
}

/// An IPv6 address: eight 16-bit segments in network order.
#[derive(Debug, PartialEq, Eq, Hash, Clone, Copy)]
pub struct Ipv6Addr {
    pub segments: [u16; 8],
}

impl Ipv6Addr {
    /// The address made of `segments`.
    pub fn new(segments: [u16; 8]) -> (ip: Self)
        ensures
            ip.segments == segments,
    {
        Ipv6Addr { segments }
    }

    /// The eight segments, first to last.
    pub fn segments(&self) -> (segments: [u16; 8])
        ensures
            segments == self.segments,
    {
        self.segments
    }
}

/// An IPv6 address with a port.
#[derive(Debug, PartialEq, Eq, Hash, Clone, Copy)]
pub struct SocketAddrV6 {
    pub ip: Ipv6Addr,
    pub port: u16,
}

impl SocketAddrV6 {
    /// The socket address `[ip]:port`.
    pub fn new(ip: Ipv6Addr, port: u16) -> (addr: Self)
        ensures
            addr == (SocketAddrV6 { ip, port }),
    {
        SocketAddrV6 { ip, port }
    }

    /// The address.
    pub fn ip(&self) -> (ip: &Ipv6Addr)
        ensures
            *ip == self.ip,
    {
        &self.ip
    }

    /// The port.
    pub fn port(&self) -> (port: u16)
        ensures
            port == self.port,
    {
        self.port
    }
}

/// A socket address of either family.
#[derive(Debug, PartialEq, Eq, Hash, Clone, Copy)]
pub enum SocketAddr {
    /// An IPv4 socket address.
    V4(SocketAddrV4),
    /// An IPv6 socket address.
    V6(SocketAddrV6),
}

impl SocketAddr {
    /// The port, whatever the family.
    pub fn port(&self) -> (port: u16)
        ensures
            port == match *self {
                SocketAddr::V4(addr) => addr.port,
                SocketAddr::V6(addr) => addr.port,
            },
    {
        match self {
            SocketAddr::V4(addr) => addr.port,
            SocketAddr::V6(addr) => addr.port,
        }
    }
}

} // verus!
