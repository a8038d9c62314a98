//! Socket addresses as plain values.

use vstd::prelude::*;

verus! {

/// An IP address: four octets for IPv4, eight 16-bit segments for IPv6.
#[derive(Debug, Clone, Copy, PartialEq, Eq, Hash)]
pub enum IpAddress {
    V4([u8; 4]),
    V6([u16; 8]),
}

/// An IP address and port, such as a resolved service's endpoint.
#[derive(Debug, Clone, Copy, PartialEq, Eq, Hash)]
pub struct SocketAddress {
    pub ip: IpAddress,
    pub port: u16,
}

} // verus!
