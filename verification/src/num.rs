//! Narrowing of integers.
use vstd::prelude::*;

verus! {

/// The low 32 bits.
pub open spec fn low32_of(x: int) -> u32 {
    (x % 0x1_0000_0000) as u32
}

/// The low 32 bits.
pub fn low32(x: u64) -> (r: u32)
    ensures
        r == low32_of(x as int),
{
    let r: u32 = #[verifier::truncate]
    (x as u32);
    assert(x as u32 == x % 0x1_0000_0000) by (bit_vector);
    r
}

/// The low 32 bits of a size.
pub fn low32_usize(x: usize) -> (r: u32)
    ensures
        r == low32_of(x as int),
        x <= u32::MAX ==> r == x,
{
    low32(x as u64)
}

/// The smaller of two numbers.
pub open spec fn min_int(a: int, b: int) -> int {
    if a <= b {
        a
    } else {
        b
    }
}

/// The larger of two numbers.
pub open spec fn max_int(a: int, b: int) -> int {
    if a >= b {
        a
    } else {
        b
    }
}

/// The smaller of two words.
pub fn min_u32(a: u32, b: u32) -> (r: u32)
    ensures
        r == min_int(a as int, b as int),
{
    if a <= b {
        a
    } else {
        b
    }
}

/// The larger of two words.
pub fn max_u32(a: u32, b: u32) -> (r: u32)
    ensures
        r == max_int(a as int, b as int),
{
    if a >= b {
        a
    } else {
        b
    }
}

} // verus!
