use dpdk_net_core::rtt_histogram::{select_bucket, RttHistogram};

#[test]
fn select_bucket_default_edges() {
    let edges: [u32; 15] = [
        50, 100, 200, 300, 500, 750, 1000, 2000, 3000, 5000,
        10000, 25000, 50000, 100000, 500000,
    ];
    assert_eq!(select_bucket(10, &edges), 0);
    assert_eq!(select_bucket(50, &edges), 0);
    assert_eq!(select_bucket(75, &edges), 1);
    assert_eq!(select_bucket(150, &edges), 2);
    assert_eq!(select_bucket(1000, &edges), 6);
    assert_eq!(select_bucket(2000, &edges), 7);
    assert_eq!(select_bucket(30000, &edges), 12);
    assert_eq!(select_bucket(600000, &edges), 15);
}

#[test]
fn update_increments_selected_bucket() {
    let edges: [u32; 15] = [
        50, 100, 200, 300, 500, 750, 1000, 2000, 3000, 5000,
        10000, 25000, 50000, 100000, 500000,
    ];
    let mut h = RttHistogram::default();
    h.update(150, &edges);
    h.update(150, &edges);
    assert_eq!(h.buckets[2], 2);
    for i in 0..16 {
        if i != 2 {
            assert_eq!(h.buckets[i], 0, "bucket {i}");
        }
    }
}

#[test]
fn wraparound_via_wrapping_add() {
    let edges: [u32; 15] = [
        50, 100, 200, 300, 500, 750, 1000, 2000, 3000, 5000,
        10000, 25000, 50000, 100000, 500000,
    ];
    let mut h = RttHistogram::default();
    h.buckets[0] = u32::MAX - 4;
    for _ in 0..10 {
        h.update(10, &edges);
    }
    assert_eq!(h.buckets[0], 5);
}

#[test]
fn snapshot_returns_bucket_copy() {
    let mut h = RttHistogram::default();
    h.buckets[3] = 100;
    h.buckets[7] = 200;
    let snap = h.snapshot();
    assert_eq!(snap[3], 100);
    assert_eq!(snap[7], 200);
    h.buckets[3] = 999;
    assert_eq!(snap[3], 100);
}

#[test]
fn a_longer_time_never_falls_in_an_earlier_bucket() {
    let edges: [u32; 15] = [9, 3, 7, 1, 50, 2, 8, 60, 4, 70, 5, 6, 80, 10, 90];
    let mut last = 0;
    for rtt in 0..100 {
        let b = select_bucket(rtt, &edges);
        assert!(b >= last);
        last = b;
    }
    assert_eq!(last, 15);
}
