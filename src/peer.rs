//! Peer addresses, and the 16-byte form that a version payload carries.
use vstd::prelude::*;

verus! {

/// The default port of the main network.
pub const DEFAULT_PORT: u16 = 8333;

/// An IP address as its numeric value, most significant byte first, as
/// `u32::from(Ipv4Addr)` and `u128::from(Ipv6Addr)` give it.
#[derive(Clone, Copy, Debug, PartialEq, Eq, Structural)]
pub enum IpAddress {
    V4(u32),
    V6(u128),
}

#[derive(Clone, Copy, Debug, PartialEq, Eq, Structural)]
pub struct PeerAddress {
    pub ip: IpAddress,
    pub port: u16,
}

/// The sixteen bytes of an address: an IPv6 address as it stands, an IPv4
/// address mapped into IPv6 (`::ffff:a.b.c.d`).
pub open spec fn ip_bytes(ip: IpAddress) -> Seq<u8> {
    match ip {
        IpAddress::V4(v) => seq![
            0u8, 0u8, 0u8, 0u8, 0u8, 0u8, 0u8, 0u8, 0u8, 0u8, 0xffu8, 0xffu8,
            (v >> 24u32) as u8, (v >> 16u32) as u8, (v >> 8u32) as u8, v as u8,
        ],
        IpAddress::V6(v) => seq![
            (v >> 120u128) as u8, (v >> 112u128) as u8, (v >> 104u128) as u8, (v >> 96u128) as u8,
            (v >> 88u128) as u8, (v >> 80u128) as u8, (v >> 72u128) as u8, (v >> 64u128) as u8,
            (v >> 56u128) as u8, (v >> 48u128) as u8, (v >> 40u128) as u8, (v >> 32u128) as u8,
            (v >> 24u128) as u8, (v >> 16u128) as u8, (v >> 8u128) as u8, v as u8,
        ],
    }
}

/// The sixteen-byte form of an address.
pub fn ip_to_bytes(ip: IpAddress) -> (r: [u8; 16])
    ensures
        r@ == ip_bytes(ip),
{
    let r: [u8; 16] = match ip {
        IpAddress::V4(v) => [
            0, 0, 0, 0, 0, 0, 0, 0, 0, 0, 0xff, 0xff,
            (v >> 24u32) as u8, (v >> 16u32) as u8, (v >> 8u32) as u8, v as u8,
        ],
        IpAddress::V6(v) => [
            (v >> 120u128) as u8, (v >> 112u128) as u8, (v >> 104u128) as u8, (v >> 96u128) as u8,
            (v >> 88u128) as u8, (v >> 80u128) as u8, (v >> 72u128) as u8, (v >> 64u128) as u8,
            (v >> 56u128) as u8, (v >> 48u128) as u8, (v >> 40u128) as u8, (v >> 32u128) as u8,
            (v >> 24u128) as u8, (v >> 16u128) as u8, (v >> 8u128) as u8, v as u8,
        ],
    };
    assert(r@ =~= ip_bytes(ip));
    r
}

} // verus!
