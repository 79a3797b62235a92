//! Time from the processor's cycle counter.
use vstd::prelude::*;

use crate::error::Error;

verus! {

/// A calibration: the cycle count and the time at which it began, and the
/// length of a cycle in nanoseconds, scaled by two to the power of 32.
#[derive(Debug, Clone, Copy, PartialEq, Eq, Structural)]
pub struct TscEpoch {
    pub tsc0: u64,
    pub t0_ns: u64,
    pub ns_per_tsc_scaled: u64,
}

/// The processor's counter runs at a constant rate, as bit 8 of the feature
/// word says.
pub open spec fn tsc_is_invariant(edx: u32) -> bool {
    (edx / 0x100) % 2 == 1
}

/// Checks the feature word of the extended power-management leaf.
pub fn check_invariant_tsc(edx: u32) -> (r: Result<(), Error>)
    ensures
        r is Ok <==> tsc_is_invariant(edx),
        r is Err ==> r->Err_0 == Error::NoInvariantTsc,
{
    if (edx / 0x100) % 2 == 1 {
        Ok(())
    } else {
        Err(Error::NoInvariantTsc)
    }
}

/// The calibration that a measurement yields: `elapsed_ns` passed while the
/// counter went from `start_tsc` to `end_tsc`. The count begins at time zero.
pub fn tsc_epoch(start_tsc: u64, end_tsc: u64, elapsed_ns: u64) -> (r: TscEpoch)
    requires
        start_tsc != end_tsc,
    ensures
        r == (TscEpoch {
            tsc0: start_tsc,
            t0_ns: 0,
            ns_per_tsc_scaled: ((elapsed_ns * 0x1_0000_0000) / (end_tsc.wrapping_sub(
                start_tsc,
            ) as int) % 0x1_0000_0000_0000_0000) as u64,
        }),
{
    let delta: u64 = end_tsc.wrapping_sub(start_tsc);
    let scaled: u128 = (elapsed_ns as u128 * 0x1_0000_0000) / delta as u128;
    let low: u128 = scaled % 0x1_0000_0000_0000_0000;
    TscEpoch { tsc0: start_tsc, t0_ns: 0, ns_per_tsc_scaled: low as u64 }
}

/// Checks the processor and calibrates; one measurement serves the process.
pub fn init(edx: u32, start_tsc: u64, end_tsc: u64, elapsed_ns: u64) -> (r: Result<TscEpoch, Error>)
    requires
        start_tsc != end_tsc,
    ensures
        r is Ok <==> tsc_is_invariant(edx),
        r is Err ==> r->Err_0 == Error::NoInvariantTsc,
        r is Ok ==> r->Ok_0.tsc0 == start_tsc && r->Ok_0.t0_ns == 0
            && r->Ok_0.ns_per_tsc_scaled == ((elapsed_ns * 0x1_0000_0000) / (end_tsc.wrapping_sub(
            start_tsc,
        ) as int) % 0x1_0000_0000_0000_0000) as u64,
{
    match check_invariant_tsc(edx) {
        Ok(()) => Ok(tsc_epoch(start_tsc, end_tsc, elapsed_ns)),
        Err(e) => Err(e),
    }
}

impl TscEpoch {
    /// Nanoseconds that `cycles` take, rounded down.
    pub open spec fn span_ns(self, cycles: u64) -> int {
        (cycles * self.ns_per_tsc_scaled) / 0x1_0000_0000
    }

    /// Nanoseconds since the calibration began, on the 64-bit circle.
    pub open spec fn since_start_ns(self, tsc: u64) -> int {
        self.span_ns(tsc.wrapping_sub(self.tsc0)) % 0x1_0000_0000_0000_0000
    }
}

/// The time at which the counter reads `tsc`.
pub fn now_ns(e: &TscEpoch, tsc: u64) -> (r: u64)
    requires
        e.t0_ns + e.since_start_ns(tsc) <= u64::MAX,
    ensures
        r == e.t0_ns + e.since_start_ns(tsc),
{
    let delta: u64 = tsc.wrapping_sub(e.tsc0);
    assert(0 <= delta * e.ns_per_tsc_scaled <= 0xffff_ffff_ffff_ffff * 0xffff_ffff_ffff_ffff)
        by (nonlinear_arith)
        requires
            0 <= delta <= 0xffff_ffff_ffff_ffff,
            0 <= e.ns_per_tsc_scaled <= 0xffff_ffff_ffff_ffff,
    ;
    let product: u128 = delta as u128 * e.ns_per_tsc_scaled as u128;
    let scaled: u128 = product / 0x1_0000_0000;
    let low: u128 = scaled % 0x1_0000_0000_0000_0000;
    e.t0_ns + low as u64
}

/// Time does not go backwards: a later reading of the counter gives no earlier
/// time, as long as the time itself fits 64 bits.
pub proof fn law_time_is_monotone(e: TscEpoch, earlier: u64, later: u64)
    requires
        earlier.wrapping_sub(e.tsc0) <= later.wrapping_sub(e.tsc0),
        e.span_ns(later.wrapping_sub(e.tsc0)) <= u64::MAX,
    ensures
        e.since_start_ns(earlier) <= e.since_start_ns(later),
{
    let a = earlier.wrapping_sub(e.tsc0) as int;
    let b = later.wrapping_sub(e.tsc0) as int;
    let k = e.ns_per_tsc_scaled as int;
    assert(0 <= a * k <= b * k) by (nonlinear_arith)
        requires
            0 <= a <= b,
            0 <= k,
    ;
    assert((a * k) / 0x1_0000_0000 <= (b * k) / 0x1_0000_0000);
}

/// Calibration and reading agree: after the measured number of cycles the time
/// is the measured one, but for less than a nanosecond and the rounding of the
/// scale.
pub proof fn law_calibration_reads_back(elapsed_ns: u64, delta: u64)
    requires
        delta > 0,
        (elapsed_ns * 0x1_0000_0000) / (delta as int) <= u64::MAX,
    ensures
        ({
            let k = (elapsed_ns * 0x1_0000_0000) / (delta as int);
            let t = (delta * k) / 0x1_0000_0000;
            &&& t <= elapsed_ns
            &&& elapsed_ns * 0x1_0000_0000 < delta * k + delta
        }),
{
    let p = elapsed_ns * 0x1_0000_0000;
    let k = p / (delta as int);
    vstd::arithmetic::div_mod::lemma_fundamental_div_mod(p, delta as int);
    assert(delta * k <= p);
    assert((delta * k) / 0x1_0000_0000 <= elapsed_ns);
}

} // verus!
