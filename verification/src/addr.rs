//! Socket addresses as plain numbers.

use vstd::prelude::*;

verus! {

/// An IPv6 address with its port, flow information and scope.
#[derive(Debug, Clone, Copy, PartialEq, Eq, Structural)]
pub struct SocketAddrV6 {
    /// The address as a number: the first of its eight segments holds the highest bits.
    pub ip: u128,
    pub port: u16,
    pub flowinfo: u32,
    /// The index of the interface that a link-local or multicast address belongs to.
    pub scope_id: u32,
}

/// An IPv4 address with its port.
#[derive(Debug, Clone, Copy, PartialEq, Eq, Structural)]
pub struct SocketAddrV4 {
    /// The address as a number: the first of its four octets holds the highest bits.
    pub ip: u32,
    pub port: u16,
}

/// The address that a datagram came from.
#[derive(Debug, Clone, Copy, PartialEq, Eq, Structural)]
pub enum SocketAddr {
    V4(SocketAddrV4),
    V6(SocketAddrV6),
}

/// The IPv6 address of the machine itself, `::1`.
pub const LOOPBACK: u128 = 1;

/// The IPv6 address that stands for none, `::`.
pub const UNSPECIFIED: u128 = 0;

impl SocketAddrV6 {
    /// The same address, with another port.
    pub open spec fn at_port(self, port: u16) -> SocketAddrV6 {
        SocketAddrV6 { port, ..self }
    }

    /// The same address, with another port.
    pub fn with_port(self, port: u16) -> (addr: SocketAddrV6)
        ensures
            addr == self.at_port(port),
            addr.ip == self.ip,
            addr.port == port,
            addr.flowinfo == self.flowinfo,
            addr.scope_id == self.scope_id,
    {
        SocketAddrV6 { port, ..self }
    }
}

} // verus!
