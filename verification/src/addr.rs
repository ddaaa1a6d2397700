//! Network addresses as plain integers.
//!
//! An address is either a 32-bit IPv4 address or a 128-bit IPv6 address, each
//! held as the big-endian number its octets spell. Every address that is
//! stored or emitted by the collector is first brought into its 128-bit form:
//! an IPv4 address `a.b.c.d` becomes the IPv4-mapped IPv6 address
//! `::ffff:a.b.c.d`, an IPv6 address stays as it is.

use vstd::prelude::*;

verus! {

/// The 96 leading bits of every IPv4-mapped IPv6 address, `::ffff:0:0`.
pub const V4_MAPPED_PREFIX: u128 = 0xffff_0000_0000u128;

/// An IPv4 or IPv6 address.
#[derive(Clone, Copy, Debug, PartialEq, Eq, Hash, Structural)]
pub enum IpAddress {
    /// An IPv4 address; `a.b.c.d` is `a * 2^24 + b * 2^16 + c * 2^8 + d`.
    V4(u32),
    /// An IPv6 address as the number its sixteen octets spell.
    V6(u128),
}

/// A socket address: an address and a port.
#[derive(Clone, Copy, Debug, PartialEq, Eq, Hash, Structural)]
pub struct SocketAddress {
    pub ip: IpAddress,
    pub port: u16,
}

/// The number that the four octets `a.b.c.d` spell.
pub open spec fn v4_bits(a: u8, b: u8, c: u8, d: u8) -> int {
    a as int * 0x100_0000 + b as int * 0x1_0000 + c as int * 0x100 + d as int
}

/// Octet `i` (0 is the most significant) of a 128-bit address.
pub open spec fn octet_of(bits: u128, i: int) -> u8 {
    ((bits >> (((15 - i) * 8) as u128)) & 0xffu128) as u8
}

/// The sixteen octets of a 128-bit address, most significant first.
pub open spec fn octets_of(bits: u128) -> Seq<u8> {
    Seq::new(16, |i: int| octet_of(bits, i))
}

impl IpAddress {
    /// The address in its 128-bit form: IPv4 addresses are IPv4-mapped.
    pub open spec fn mapped_bits(self) -> u128 {
        match self {
            IpAddress::V4(a) => (V4_MAPPED_PREFIX + a) as u128,
            IpAddress::V6(b) => b,
        }
    }

    /// The address with IPv4 mapped into IPv6.
    pub open spec fn mapped(self) -> IpAddress {
        IpAddress::V6(self.mapped_bits())
    }

    /// Builds the IPv4 address `a.b.c.d`.
    pub fn v4(a: u8, b: u8, c: u8, d: u8) -> (r: IpAddress)
        ensures
            r == IpAddress::V4(v4_bits(a, b, c, d) as u32),
            v4_bits(a, b, c, d) <= u32::MAX,
    {
        let bits: u32 = (a as u32) * 0x100_0000 + (b as u32) * 0x1_0000 + (c as u32) * 0x100 + (
        d as u32);
        IpAddress::V4(bits)
    }

    /// Whether the address is an IPv4 address.
    pub fn is_ipv4(&self) -> (r: bool)
        ensures
            r == (*self is V4),
    {
        match self {
            IpAddress::V4(_) => true,
            IpAddress::V6(_) => false,
        }
    }

    /// The address in its 128-bit form.
    pub fn to_bits(&self) -> (r: u128)
        ensures
            r == self.mapped_bits(),
    {
        match self {
            IpAddress::V4(a) => V4_MAPPED_PREFIX + (*a as u128),
            IpAddress::V6(b) => *b,
        }
    }
}

/// Maps an IPv4 address to its IPv4-mapped IPv6 form and leaves an IPv6
/// address unchanged.
pub fn map_to_ipv6(ip: IpAddress) -> (r: IpAddress)
    ensures
        r == ip.mapped(),
        ip is V6 ==> r == ip,
        r is V6,
{
    IpAddress::V6(ip.to_bits())
}

/// The sixteen octets of the address in its 128-bit form, most significant
/// first.
pub fn serialize_ip_addr(ip: IpAddress) -> (r: Vec<u8>)
    ensures
        r@ == octets_of(ip.mapped_bits()),
{
    let bits: u128 = ip.to_bits();
    let mut out: Vec<u8> = Vec::with_capacity(16);
    let mut i: usize = 0;
    while i < 16
        invariant
            i <= 16,
            out@.len() == i,
            forall|j: int| 0 <= j < i ==> out@[j] == octet_of(bits, j),
        decreases 16 - i,
    {
        let shift: u128 = ((15 - i) * 8) as u128;
        let byte: u8 = ((bits >> shift) & 0xffu128) as u8;
        out.push(byte);
        i += 1;
    }
    assert(out@ =~= octets_of(bits));
    out
}

} // verus!
