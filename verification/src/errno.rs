//! Error numbers that events carry, negated.
use vstd::prelude::*;

verus! {

/// Operation not permitted.
pub const EPERM: i32 = 1;

/// Out of memory.
pub const ENOMEM: i32 = 12;

/// Connection timed out.
pub const ETIMEDOUT: i32 = 110;

} // verus!
