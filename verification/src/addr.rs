//! Plain network addresses.

use vstd::prelude::*;

verus! {

/// An IP address, held as the number its octets spell in network order.
#[derive(Clone, Copy, Debug, PartialEq, Eq, Structural, Hash)]
pub enum IpAddress {
    V4(u32),
    V6(u128),
}

/// A transport endpoint.
#[derive(Clone, Copy, Debug, PartialEq, Eq, Structural, Hash)]
pub struct Endpoint {
    pub ip: IpAddress,
    pub port: u16,
}

/// An interface address with the length of its network prefix.
#[derive(Clone, Copy, Debug, PartialEq, Eq, Structural)]
pub enum Cidr {
    V4(u32, u8),
    V6(u128, u8),
}

/// The all-zero address of either family.
pub open spec fn is_unspecified(ip: IpAddress) -> bool {
    ip == IpAddress::V4(0) || ip == IpAddress::V6(0)
}

/// Whether an interface may own the IPv4 address: it is neither the broadcast
/// address nor in `224.0.0.0/4`.
pub open spec fn assignable_v4(ip: u32) -> bool {
    ip != 0xffff_ffff && !(0xe000_0000 <= ip < 0xf000_0000)
}

/// Whether an interface may own the IPv6 address: it is not in `ff00::/8`.
pub open spec fn assignable_v6(ip: u128) -> bool {
    ip < 0xff00_0000_0000_0000_0000_0000_0000_0000
}

pub fn is_assignable_v4(ip: u32) -> (r: bool)
    ensures
        r == assignable_v4(ip),
{
    ip != 0xffff_ffff && !(0xe000_0000 <= ip && ip < 0xf000_0000)
}

pub fn is_assignable_v6(ip: u128) -> (r: bool)
    ensures
        r == assignable_v6(ip),
{
    ip < 0xff00_0000_0000_0000_0000_0000_0000_0000
}

} // verus!
