//! Addresses, prefixes and next hops.
use vstd::prelude::*;

use crate::table::Key;

verus! {

/// An IPv4 address, as the number that its four octets spell.
#[derive(Clone, Copy, Debug, PartialEq, Eq, Hash, Structural)]
pub struct Ipv4Addr {
    pub bits: u32,
}

/// An IPv6 address, as the number that its sixteen octets spell.
#[derive(Clone, Copy, Debug, PartialEq, Eq, Hash, Structural)]
pub struct Ipv6Addr {
    pub bits: u128,
}

/// The address of a host of either family.
#[derive(Clone, Copy, Debug, PartialEq, Eq, Hash, Structural)]
pub enum IpAddr {
    V4(Ipv4Addr),
    V6(Ipv6Addr),
}

/// A prefix of a destination address: the address and the number of leading bits that count.
#[derive(Debug, PartialEq, Eq, Hash, Structural)]
pub struct Nlri<A> {
    pub addr: A,
    pub len: u8,
}

impl<A: Copy> Clone for Nlri<A> {
    fn clone(&self) -> (r: Self)
        ensures
            r == *self,
    {
        *self
    }
}

impl<A: Copy> Copy for Nlri<A> {

}

/// A prefix of either family, as multi-protocol attributes carry it.
#[derive(Clone, Copy, Debug, PartialEq, Eq, Hash, Structural)]
pub enum Prefix {
    V4(Nlri<Ipv4Addr>),
    V6(Nlri<Ipv6Addr>),
}

/// An address family and its subsequent family, by their assigned numbers.
#[derive(Clone, Copy, Debug, PartialEq, Eq, Hash, Structural)]
pub struct AfiSafi {
    pub afi: u16,
    pub safi: u8,
}

/// Where packets for a prefix go next.
#[derive(Clone, Copy, Debug, PartialEq, Eq, Hash, Structural)]
pub enum NextHop {
    V4(Ipv4Addr),
    V6(Ipv6Addr),
    /// A global address together with the link-local one of the same interface.
    V6WithLinkLocal { global: Ipv6Addr, link_local: Ipv6Addr },
}

impl Ipv4Addr {
    /// The number spelled by four octets, most significant first.
    pub open spec fn of_octets(a: u8, b: u8, c: u8, d: u8) -> int {
        a * 0x100_0000 + b * 0x1_0000 + c * 0x100 + d
    }

    /// The address `a.b.c.d`.
    pub fn new(a: u8, b: u8, c: u8, d: u8) -> (r: Self)
        ensures
            r.bits == Self::of_octets(a, b, c, d),
    {
        Ipv4Addr {
            bits: (a as u32) * 0x100_0000 + (b as u32) * 0x1_0000 + (c as u32) * 0x100 + (d as u32),
        }
    }

    /// `0.0.0.0`.
    pub open spec fn unspecified() -> Self {
        Ipv4Addr { bits: 0 }
    }

    /// Whether this is `0.0.0.0`.
    pub fn is_unspecified(&self) -> (r: bool)
        ensures
            r == (self.bits == 0),
    {
        self.bits == 0
    }

    /// Whether this lies in `127.0.0.0/8`.
    pub fn is_loopback(&self) -> (r: bool)
        ensures
            r == (self.bits / 0x100_0000 == 127),
    {
        self.bits / 0x100_0000 == 127
    }

    /// Whether this lies in `224.0.0.0/4`.
    pub fn is_multicast(&self) -> (r: bool)
        ensures
            r == (self.bits / 0x1000_0000 == 14),
    {
        self.bits / 0x1000_0000 == 14
    }

    /// Whether this is `255.255.255.255`.
    pub fn is_broadcast(&self) -> (r: bool)
        ensures
            r == (self.bits == 0xffff_ffff),
    {
        self.bits == 0xffff_ffff
    }
}

impl Ipv6Addr {
    /// The number spelled by eight groups of sixteen bits, most significant first.
    pub open spec fn of_groups(
        a: u16,
        b: u16,
        c: u16,
        d: u16,
        e: u16,
        f: u16,
        g: u16,
        h: u16,
    ) -> int {
        a * 0x1_0000_0000_0000_0000_0000_0000_0000 + b * 0x1_0000_0000_0000_0000_0000_0000 + c
            * 0x1_0000_0000_0000_0000_0000 + d * 0x1_0000_0000_0000_0000 + e * 0x1_0000_0000_0000
            + f * 0x1_0000_0000 + g * 0x1_0000 + h
    }

    /// The address `a:b:c:d:e:f:g:h`.
    pub fn new(a: u16, b: u16, c: u16, d: u16, e: u16, f: u16, g: u16, h: u16) -> (r: Self)
        ensures
            r.bits == Self::of_groups(a, b, c, d, e, f, g, h),
    {
        Ipv6Addr {
            bits: (a as u128) * 0x1_0000_0000_0000_0000_0000_0000_0000 + (b as u128)
                * 0x1_0000_0000_0000_0000_0000_0000 + (c as u128) * 0x1_0000_0000_0000_0000_0000 + (
            d as u128) * 0x1_0000_0000_0000_0000 + (e as u128) * 0x1_0000_0000_0000 + (f as u128)
                * 0x1_0000_0000 + (g as u128) * 0x1_0000 + (h as u128),
        }
    }

    /// Whether this is `::`.
    pub fn is_unspecified(&self) -> (r: bool)
        ensures
            r == (self.bits == 0),
    {
        self.bits == 0
    }

    /// Whether this lies in `ff00::/8`.
    pub fn is_multicast(&self) -> (r: bool)
        ensures
            r == (self.bits / 0x100_0000_0000_0000_0000_0000_0000_0000 == 0xff),
    {
        self.bits / 0x100_0000_0000_0000_0000_0000_0000_0000 == 0xff
    }
}

impl AfiSafi {
    /// IPv4 unicast.
    pub open spec fn spec_ipv4_unicast() -> Self {
        AfiSafi { afi: 1, safi: 1 }
    }

    /// IPv6 unicast.
    pub open spec fn spec_ipv6_unicast() -> Self {
        AfiSafi { afi: 2, safi: 1 }
    }

    /// IPv4 unicast.
    #[verifier::when_used_as_spec(spec_ipv4_unicast)]
    pub fn ipv4_unicast() -> (r: Self)
        ensures
            r == Self::spec_ipv4_unicast(),
    {
        AfiSafi { afi: 1, safi: 1 }
    }

    /// IPv6 unicast.
    #[verifier::when_used_as_spec(spec_ipv6_unicast)]
    pub fn ipv6_unicast() -> (r: Self)
        ensures
            r == Self::spec_ipv6_unicast(),
    {
        AfiSafi { afi: 2, safi: 1 }
    }
}


impl Key for Ipv4Addr {
    fn same(&self, other: &Self) -> (r: bool) {
        self.bits == other.bits
    }
}

impl Key for Ipv6Addr {
    fn same(&self, other: &Self) -> (r: bool) {
        self.bits == other.bits
    }
}

impl Key for IpAddr {
    fn same(&self, other: &Self) -> (r: bool) {
        *self == *other
    }
}

impl<A: Key> Key for Nlri<A> {
    fn same(&self, other: &Self) -> (r: bool) {
        self.addr.same(&other.addr) && self.len == other.len
    }
}

impl View for Ipv4Addr {
    type V = Ipv4Addr;

    open spec fn view(&self) -> Ipv4Addr {
        *self
    }
}

impl View for IpAddr {
    type V = IpAddr;

    open spec fn view(&self) -> IpAddr {
        *self
    }
}

/// The IPv4 address of a host, if it has one.
pub open spec fn v4_part(a: IpAddr) -> Option<Ipv4Addr> {
    match a {
        IpAddr::V4(v4) => Some(v4),
        IpAddr::V6(_) => None,
    }
}

} // verus!
