use vstd::prelude::*;

verus! {

/// An IP address, stored as its raw bits: 32 for IPv4, 128 for IPv6.
#[derive(Debug, Clone, Copy, PartialEq, Eq, Hash, Structural)]
pub enum IpAddress {
    V4(u32),
    V6(u128),
}

impl IpAddress {
    /// Injective key used to index caches by address.
    pub open spec fn key_spec(self) -> (bool, u128) {
        match self {
            IpAddress::V4(bits) => (false, bits as u128),
            IpAddress::V6(bits) => (true, bits),
        }
    }

    pub fn from_v4_octets(a: u8, b: u8, c: u8, d: u8) -> (r: IpAddress)
        ensures
            r == IpAddress::V4(
                ((a as u32) << 24) | ((b as u32) << 16) | ((c as u32) << 8) | (d as u32),
            ),
    {
        IpAddress::V4(((a as u32) << 24) | ((b as u32) << 16) | ((c as u32) << 8) | (d as u32))
    }

    pub fn is_v6(&self) -> (r: bool)
        ensures
            r == (*self is V6),
    {
        match self {
            IpAddress::V4(_) => false,
            IpAddress::V6(_) => true,
        }
    }
}

pub open spec fn v4_is_private(bits: u32) -> bool {
    (bits >> 24) == 10u32 || (bits >> 20) == 0xAC1u32 || (bits >> 16) == 0xC0A8u32
}

pub open spec fn v4_is_loopback(bits: u32) -> bool {
    (bits >> 24) == 127u32
}

pub open spec fn v4_is_broadcast(bits: u32) -> bool {
    bits == 0xFFFF_FFFFu32
}

pub open spec fn v4_is_multicast(bits: u32) -> bool {
    (bits >> 28) == 0xEu32
}

pub open spec fn v4_is_link_local(bits: u32) -> bool {
    (bits >> 16) == 0xA9FEu32
}

pub open spec fn v4_is_unspecified(bits: u32) -> bool {
    bits == 0u32
}

pub open spec fn v4_is_documentation(bits: u32) -> bool {
    (bits >> 8) == 0xC00002u32 || (bits >> 8) == 0xC63364u32 || (bits >> 8) == 0xCB0071u32
}

pub open spec fn v6_is_loopback(bits: u128) -> bool {
    bits == 1u128
}

pub open spec fn v6_is_multicast(bits: u128) -> bool {
    (bits >> 120) == 0xFFu128
}

pub open spec fn v6_is_unspecified(bits: u128) -> bool {
    bits == 0u128
}

/// An address is public when it lies in none of the reserved ranges: for IPv4
/// these are private, loopback, broadcast, multicast, link-local, unspecified
/// and documentation; for IPv6 they are loopback, multicast and unspecified.
pub open spec fn is_public_spec(ip: IpAddress) -> bool {
    match ip {
        IpAddress::V4(bits) => !(v4_is_private(bits) || v4_is_loopback(bits) || v4_is_broadcast(
            bits,
        ) || v4_is_multicast(bits) || v4_is_link_local(bits) || v4_is_unspecified(bits)
            || v4_is_documentation(bits)),
        IpAddress::V6(bits) => !(v6_is_loopback(bits) || v6_is_multicast(bits)
            || v6_is_unspecified(bits)),
    }
}

/// Decides whether an address is public, i.e. routable on the open Internet.
pub fn is_public(ip: &IpAddress) -> (r: bool)
    ensures
        r == is_public_spec(*ip),
{
    match ip {
        IpAddress::V4(bits) => {
            let b = *bits;
            let private = (b >> 24) == 10 || (b >> 20) == 0xAC1 || (b >> 16) == 0xC0A8;
            let loopback = (b >> 24) == 127;
            let broadcast = b == 0xFFFF_FFFF;
            let multicast = (b >> 28) == 0xE;
            let link_local = (b >> 16) == 0xA9FE;
            let unspecified = b == 0;
            let documentation = (b >> 8) == 0xC00002 || (b >> 8) == 0xC63364 || (b >> 8)
                == 0xCB0071;
            !(private || loopback || broadcast || multicast || link_local || unspecified
                || documentation)
        },
        IpAddress::V6(bits) => {
            let b = *bits;
            !(b == 1 || (b >> 120) == 0xFF || b == 0)
        },
    }
}

} // verus!
