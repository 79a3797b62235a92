//! Comparison of sequence numbers on the 32-bit circle.
use vstd::prelude::*;

verus! {

/// How far `b` lies ahead of `a` on the circle.
pub open spec fn seq_distance(a: u32, b: u32) -> int {
    if a <= b {
        b - a
    } else {
        b - a + 0x1_0000_0000
    }
}

/// `a` precedes `b`: `b` lies ahead of it by less than half the circle.
pub open spec fn precedes(a: u32, b: u32) -> bool {
    0 < seq_distance(a, b) < 0x8000_0000
}

/// `a` precedes `b` or is `b`.
pub open spec fn precedes_or_is(a: u32, b: u32) -> bool {
    a == b || precedes(a, b)
}

/// Whether `a` precedes `b`.
pub fn seq_lt(a: u32, b: u32) -> (r: bool)
    ensures
        r == precedes(a, b),
{
    let d: u32 = b.wrapping_sub(a);
    0 < d && d < 0x8000_0000
}

/// Whether `a` precedes `b` or is `b`.
pub fn seq_le(a: u32, b: u32) -> (r: bool)
    ensures
        r == precedes_or_is(a, b),
{
    a == b || seq_lt(a, b)
}

/// No two sequence numbers precede each other.
pub proof fn law_seq_asymmetric(a: u32, b: u32)
    ensures
        !(precedes(a, b) && precedes(b, a)),
{
}

/// What precedes also precedes-or-is; nothing precedes itself, everything
/// precedes-or-is itself.
pub proof fn law_seq_reflexive(a: u32, b: u32)
    ensures
        precedes(a, b) ==> precedes_or_is(a, b),
        precedes_or_is(a, a),
        !precedes(a, a),
{
}

/// The comparison does not depend on where on the circle the numbers lie.
pub proof fn law_seq_shift(a: u32, b: u32, k: u32)
    ensures
        precedes(a.wrapping_add(k), b.wrapping_add(k)) == precedes(a, b),
        precedes_or_is(a.wrapping_add(k), b.wrapping_add(k)) == precedes_or_is(a, b),
{
}

} // verus!
