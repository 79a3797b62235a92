use std::time::Instant;

use dpdk_net_core::clock::{check_invariant_tsc, init, now_ns, tsc_epoch};
use dpdk_net_core::error::Error;

#[test]
fn now_ns_monotonic_increasing() {
    let start = Instant::now();
    let e = tsc_epoch(0, 50_000_000, 50_000_000);
    let a = now_ns(&e, start.elapsed().as_nanos() as u64);
    let b = now_ns(&e, start.elapsed().as_nanos() as u64);
    assert!(b >= a, "now_ns went backwards: {a} -> {b}");
}

#[test]
fn a_counter_at_a_known_rate_reads_back_as_time() {
    let e = tsc_epoch(1_000, 1_000 + 150_000_000, 50_000_000);
    assert_eq!(now_ns(&e, 1_000), 0);
    let t = now_ns(&e, 1_000 + 300_000_000);
    assert!(t.abs_diff(100_000_000) <= 1, "{t}");
}

#[test]
fn a_counter_that_varies_is_refused() {
    assert!(check_invariant_tsc(1 << 8).is_ok());
    assert!(matches!(check_invariant_tsc(!(1 << 8)), Err(Error::NoInvariantTsc)));
    assert!(matches!(init(0, 0, 10, 10), Err(Error::NoInvariantTsc)));
    assert!(init(1 << 8, 0, 10, 10).is_ok());
}
