use std::time::Instant;

use dpdk_net_core::flow_table::FourTuple;
use dpdk_net_core::iss::{fallback_secret, hex_digit, parse_boot_id, IssGen};
use rand::random;

fn tuple(peer_port: u16) -> FourTuple {
    FourTuple {
        local_ip: 0x0a_00_00_02,
        local_port: 40000,
        peer_ip: 0x0a_00_00_01,
        peer_port,
    }
}

fn now(start: &Instant) -> u64 {
    start.elapsed().as_nanos() as u64
}

#[test]
fn two_engines_produce_different_iss_for_same_tuple() {
    let start = Instant::now();
    let g1 = IssGen::new(random(), [7; 16]);
    let g2 = IssGen::new(random(), [7; 16]);
    let t = tuple(5000);
    assert_ne!(g1.next(&t, now(&start)), g2.next(&t, now(&start)));
}

#[test]
fn sequential_calls_monotonic_for_same_tuple() {
    let start = Instant::now();
    let g = IssGen::new_deterministic_for_test([0; 16], [0; 16]);
    let t = tuple(5000);
    let a = g.next(&t, now(&start));
    for _ in 0..10_000 {
        std::hint::spin_loop();
    }
    let b = g.next(&t, now(&start));
    let delta = b.wrapping_sub(a);
    assert!(delta < 1_000_000, "delta too large: {delta}");
}

#[test]
fn different_tuples_give_different_iss() {
    let start = Instant::now();
    let g = IssGen::new_deterministic_for_test([0; 16], [0; 16]);
    let a = g.next(&tuple(5000), now(&start));
    let b = g.next(&tuple(5001), now(&start));
    assert_ne!(a, b);
}

#[test]
fn a5_uses_4us_clock_ticks_for_monotonic_component() {
    let start = Instant::now();
    let g = IssGen::new_deterministic_for_test([0x11; 16], [0x22; 16]);
    let t = tuple(5000);
    let a = g.next(&t, now(&start));
    let target_ns = now(&start) + 8_000;
    while now(&start) < target_ns {
        std::hint::spin_loop();
    }
    let b = g.next(&t, now(&start));
    let delta = b.wrapping_sub(a);
    assert!(delta >= 1, "delta should reflect at least one tick");
    assert!(delta < 100_000, "delta should not be huge: {delta}");
}

#[test]
fn a5_different_boot_nonces_produce_different_iss_for_same_tuple() {
    let start = Instant::now();
    let g1 = IssGen::new_deterministic_for_test([0xaa; 16], [0x01; 16]);
    let g2 = IssGen::new_deterministic_for_test([0xaa; 16], [0x02; 16]);
    let t = tuple(5000);
    assert_ne!(g1.next(&t, now(&start)), g2.next(&t, now(&start)));
}

#[test]
fn a_tick_is_four_microseconds() {
    let g = IssGen::new_deterministic_for_test([3; 16], [4; 16]);
    let t = tuple(1);
    assert_eq!(g.next(&t, 3_999), g.next(&t, 0));
    assert_eq!(g.next(&t, 4_000), g.next(&t, 0).wrapping_add(1));
}

#[test]
fn a_boot_identifier_is_read() {
    let id = parse_boot_id("550e8400-e29b-41d4-a716-446655440000\n").unwrap();
    assert_eq!(
        id,
        [
            0x55, 0x0e, 0x84, 0x00, 0xe2, 0x9b, 0x41, 0xd4, 0xa7, 0x16, 0x44, 0x66, 0x55, 0x44,
            0x00, 0x00
        ]
    );
    assert_eq!(parse_boot_id("550e8400"), None);
    assert_eq!(parse_boot_id(""), None);
    assert_eq!(parse_boot_id("550e8400-e29b-41d4-a716-44665544000g"), None);
    assert_eq!(parse_boot_id("550e8400-e29b-41d4-a716-44665544000g0"), None);
    assert_eq!(parse_boot_id("550e8400-e29b-41d4-a716-4466554400000"), None);
    assert_eq!(parse_boot_id(" 550E8400E29B41D4A716446655440000 "), Some(id));
    assert_eq!(hex_digit(b'F'), Some(15));
    assert_eq!(hex_digit(b'g'), None);
}

#[test]
fn a_fallback_secret_depends_on_the_time() {
    assert_ne!(fallback_secret(1), fallback_secret(2));
}
