//! Numbers as bytes.
use vstd::prelude::*;

verus! {

/// The 16-bit number whose bytes are `hi` and `lo`.
pub open spec fn be16_of(hi: u8, lo: u8) -> u16 {
    (hi * 256 + lo) as u16
}

/// The 32-bit number with these bytes, the most significant first.
pub open spec fn be32_of(a: u8, b: u8, c: u8, d: u8) -> u32 {
    (a * 0x100_0000 + b * 0x1_0000 + c * 0x100 + d) as u32
}

/// The 16-bit number whose bytes are `hi` and `lo`.
pub fn be16(hi: u8, lo: u8) -> (r: u16)
    ensures
        r == be16_of(hi, lo),
        r == hi * 256 + lo,
{
    hi as u16 * 256 + lo as u16
}

/// The 32-bit number with these bytes, the most significant first.
pub fn be32(a: u8, b: u8, c: u8, d: u8) -> (r: u32)
    ensures
        r == be32_of(a, b, c, d),
        r == a * 0x100_0000 + b * 0x1_0000 + c * 0x100 + d,
{
    a as u32 * 0x100_0000 + b as u32 * 0x1_0000 + c as u32 * 0x100 + d as u32
}

/// Byte `i` of a 16-bit number, 0 being the most significant.
pub open spec fn u16_byte(x: u16, i: int) -> u8 {
    if i == 0 {
        (x / 256) as u8
    } else {
        (x % 256) as u8
    }
}

/// Byte `i` of a 32-bit number, 0 being the most significant.
pub open spec fn u32_byte(x: u32, i: int) -> u8 {
    if i == 0 {
        (x / 0x100_0000) as u8
    } else if i == 1 {
        (x / 0x1_0000 % 256) as u8
    } else if i == 2 {
        (x / 0x100 % 256) as u8
    } else {
        (x % 256) as u8
    }
}

/// The bytes of a 16-bit number, the most significant first.
pub fn u16_bytes(x: u16) -> (r: [u8; 2])
    ensures
        r[0] == u16_byte(x, 0),
        r[1] == u16_byte(x, 1),
{
    [(x / 256) as u8, (x % 256) as u8]
}

/// The bytes of a 32-bit number, the most significant first.
pub fn u32_bytes(x: u32) -> (r: [u8; 4])
    ensures
        r[0] == u32_byte(x, 0),
        r[1] == u32_byte(x, 1),
        r[2] == u32_byte(x, 2),
        r[3] == u32_byte(x, 3),
{
    [
        (x / 0x100_0000) as u8,
        (x / 0x1_0000 % 256) as u8,
        (x / 0x100 % 256) as u8,
        (x % 256) as u8,
    ]
}

/// A number is made of its bytes.
pub proof fn law_bytes_round_trip(x: u16, y: u32)
    ensures
        be16_of(u16_byte(x, 0), u16_byte(x, 1)) == x,
        be32_of(u32_byte(y, 0), u32_byte(y, 1), u32_byte(y, 2), u32_byte(y, 3)) == y,
{
}

/// Whether two hardware addresses are the same.
pub fn mac_eq(a: &[u8; 6], b: &[u8; 6]) -> (r: bool)
    ensures
        r == (*a == *b),
{
    if a[0] == b[0] && a[1] == b[1] && a[2] == b[2] && a[3] == b[3] && a[4] == b[4] && a[5]
        == b[5] {
        assert(*a =~= *b);
        true
    } else {
        false
    }
}

/// Whether a hardware address is all zeros.
pub open spec fn is_zero_mac(a: [u8; 6]) -> bool {
    a[0] == 0 && a[1] == 0 && a[2] == 0 && a[3] == 0 && a[4] == 0 && a[5] == 0
}

/// Whether a hardware address is all zeros.
pub fn mac_is_zero(a: &[u8; 6]) -> (r: bool)
    ensures
        r == is_zero_mac(*a),
{
    a[0] == 0 && a[1] == 0 && a[2] == 0 && a[3] == 0 && a[4] == 0 && a[5] == 0
}

} // verus!
