//! Network addresses as plain values.
use vstd::prelude::*;

verus! {

/// An IP address: IPv4 as its 32-bit big-endian number, IPv6 as its 128-bit number.
#[derive(Clone, Copy, Debug, PartialEq, Eq, Structural)]
pub enum IpAddress {
    V4(u32),
    V6(u128),
}

/// An IP address with a port.
#[derive(Clone, Copy, Debug, PartialEq, Eq, Structural)]
pub struct SocketAddress {
    pub ip: IpAddress,
    pub port: u16,
}

impl SocketAddress {
    /// The IPv4 address `a.b.c.d` with `port`.
    pub fn v4(a: u8, b: u8, c: u8, d: u8, port: u16) -> (res: SocketAddress)
        ensures
            res.ip == IpAddress::V4((a * 0x100_0000 + b * 0x1_0000 + c * 0x100 + d) as u32),
            res.port == port,
    {
        SocketAddress {
            ip: IpAddress::V4((a as u32) * 0x100_0000 + (b as u32) * 0x1_0000 + (c as u32) * 0x100
                + (d as u32)),
            port,
        }
    }
}

} // verus!
