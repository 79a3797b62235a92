use dpdk_net_core::counters::TcpCounters;
use dpdk_net_core::engine_config::{
    align_up_to_tick_ns, build_ack_outcome, build_connect_syn_opts, compute_ws_shift_for,
    pack_timer_id, select_source_ip, unpack_timer_id, validate_and_default_histogram_edges,
    ConnectOpts, EngineConfig,
};
use dpdk_net_core::engine_port::and_offload_with_miss_counter;
use dpdk_net_core::error::Error;
use dpdk_net_core::tcp_input::{apply_tcp_input_counters, Outcome};
use dpdk_net_core::tcp_options::SackBlock;
use dpdk_net_core::tcp_timer_wheel::TimerId;

#[test]
fn default_engine_config_has_a2_fields() {
    let cfg = EngineConfig::default();
    assert_eq!(cfg.local_ip, 0);
    assert_eq!(cfg.gateway_ip, 0);
    assert_eq!(cfg.gateway_mac, [0u8; 6]);
    assert_eq!(cfg.garp_interval_sec, 0);
    assert!(cfg.secondary_local_ips.is_empty());
}

#[test]
fn select_source_ip_zero_uses_primary() {
    let out = select_source_ip(0, 0x0a_00_00_02, &[0x0a_00_00_03])
        .expect("zero must succeed");
    assert_eq!(out, 0x0a_00_00_02);
}

#[test]
fn select_source_ip_matches_primary() {
    let out = select_source_ip(0x0a_00_00_02, 0x0a_00_00_02, &[])
        .expect("primary match must succeed");
    assert_eq!(out, 0x0a_00_00_02);
}

#[test]
fn select_source_ip_matches_secondary() {
    let secondaries = [0x0a_00_00_03, 0x0a_00_00_04];
    let out = select_source_ip(0x0a_00_00_04, 0x0a_00_00_02, &secondaries)
        .expect("secondary match must succeed");
    assert_eq!(out, 0x0a_00_00_04);
}

#[test]
fn select_source_ip_unknown_rejected() {
    let err = select_source_ip(
        0x0a_00_00_99,
        0x0a_00_00_02,
        &[0x0a_00_00_03],
    )
    .expect_err("unknown IP must reject");
    match err {
        Error::InvalidLocalAddr(ip) => assert_eq!(ip, 0x0a_00_00_99),
        other => panic!("expected InvalidLocalAddr, got {other:?}"),
    }
}

#[test]
fn select_source_ip_unknown_with_empty_secondaries() {
    let err = select_source_ip(0x0a_00_00_99, 0x0a_00_00_02, &[])
        .expect_err("unknown IP with empty list must reject");
    assert!(matches!(err, Error::InvalidLocalAddr(_)));
}

#[test]
fn connect_opts_default_local_addr_is_zero() {
    let opts = ConnectOpts::default();
    assert_eq!(opts.local_addr, 0);
}

#[test]
fn default_engine_config_has_a3_fields() {
    let cfg = EngineConfig::default();
    assert_eq!(cfg.max_connections, 16);
    assert_eq!(cfg.recv_buffer_bytes, 256 * 1024);
    assert_eq!(cfg.send_buffer_bytes, 256 * 1024);
    assert_eq!(cfg.tcp_mss, 1460);
    assert_eq!(cfg.tcp_msl_ms, 30_000);
    assert!(!cfg.tcp_nagle);
}

#[test]
fn engine_config_default_rto_values_match_spec() {
    let cfg = EngineConfig::default();
    assert_eq!(cfg.tcp_min_rto_us, 5_000);
    assert_eq!(cfg.tcp_initial_rto_us, 5_000);
    assert_eq!(cfg.tcp_max_rto_us, 1_000_000);
    assert_eq!(cfg.tcp_max_retrans_count, 15);
    assert!(!cfg.tcp_per_packet_events);
}

#[test]
fn engine_config_default_event_queue_soft_cap_matches_spec() {
    let cfg = EngineConfig::default();
    assert_eq!(cfg.event_queue_soft_cap, 4096);
}

#[test]
fn connect_opts_default_is_both_false() {
    let opts = ConnectOpts::default();
    assert!(!opts.rack_aggressive);
    assert!(!opts.rto_no_backoff);
}

#[test]
fn compute_ws_shift_for_below_64kib_returns_zero() {
    assert_eq!(compute_ws_shift_for(65535), 0);
    assert_eq!(compute_ws_shift_for(1), 0);
    assert_eq!(compute_ws_shift_for(0), 0);
}

#[test]
fn compute_ws_shift_for_256kib_returns_three() {
    assert_eq!(compute_ws_shift_for(256 * 1024), 3);
}

#[test]
fn the_window_scale_covers_the_buffer() {
    assert_eq!(compute_ws_shift_for(65_535), 0);
    assert_eq!(compute_ws_shift_for(65_536), 1);
    assert_eq!(compute_ws_shift_for(131_070), 1);
    assert_eq!(compute_ws_shift_for(131_071), 2);
    assert_eq!(compute_ws_shift_for(262_140), 2);
    for bytes in [262_141, 262_142, 262_143, 524_280] {
        assert_eq!(compute_ws_shift_for(bytes), 3);
    }
}

#[test]
fn compute_ws_shift_for_caps_at_fourteen() {
    assert_eq!(compute_ws_shift_for(u32::MAX), 14);
}

#[test]
fn build_connect_syn_opts_has_mss_ws_sack_perm_ts() {
    let our_mss: u16 = 1460;
    let recv_buffer_bytes: u32 = 256 * 1024;
    let now_ns: u64 = 1_234_567_000;
    let opts = build_connect_syn_opts(recv_buffer_bytes, our_mss, now_ns);
    assert_eq!(opts.mss, Some(our_mss));
    assert!(opts.sack_permitted);
    assert_eq!(opts.wscale, Some(3));
    let (tsval, tsecr) = opts.timestamps.expect("timestamps set on SYN");
    assert_eq!(tsval, 1_234_567);
    assert_eq!(tsecr, 0, "SYN has no received TSval to echo");
}

#[test]
fn build_connect_syn_opts_tsval_nonzero_for_nonzero_clock() {
    let opts = build_connect_syn_opts(65_536, 1460, 1_000);
    let (tsval, _) = opts.timestamps.expect("timestamps set");
    assert_eq!(tsval, 1);
}

#[test]
fn build_ack_outcome_ts_and_ws_scaled_window() {
    let out = build_ack_outcome(
        7,
        true,
        0x1122_3344,
        0xaabb_ccdd,
        false,
        &[],
        None,
        256 * 1024,
    );
    assert_eq!(out.window, 2048);
    let (tsval, tsecr) = out.opts.timestamps.expect("TS option present");
    assert_eq!(tsval, 0xaabb_ccdd);
    assert_eq!(tsecr, 0x1122_3344);
    assert!(!out.zero_window);
    assert_eq!(out.sack_blocks_emitted, 0);
    assert_eq!(out.opts.sack_block_count, 0);
}

#[test]
fn build_ack_outcome_ts_disabled_skips_option() {
    let out = build_ack_outcome(0, false, 0, 12345, false, &[], None, 4096);
    assert!(out.opts.timestamps.is_none());
    assert_eq!(out.window, 4096);
}

#[test]
fn build_ack_outcome_ws_shift_zero_passes_free_space_through() {
    let out = build_ack_outcome(0, false, 0, 0, false, &[], None, 50_000);
    assert_eq!(out.window, 50_000);
}

#[test]
fn build_ack_outcome_window_clamps_to_u16_max() {
    let out = build_ack_outcome(0, false, 0, 0, false, &[], None, 2 * 1024 * 1024);
    assert_eq!(out.window, u16::MAX);
}

#[test]
fn build_ack_outcome_scaled_window_clamps_to_u16_max() {
    let out = build_ack_outcome(3, false, 0, 0, false, &[], None, 512 * 1024 * 1024);
    assert_eq!(out.window, u16::MAX);
}

#[test]
fn build_ack_outcome_zero_free_space_signals_zero_window_and_window_zero() {
    let out = build_ack_outcome(7, false, 0, 0, false, &[], None, 0);
    assert_eq!(out.window, 0);
    assert!(out.zero_window);
}

#[test]
fn build_ack_outcome_sack_blocks_emit_in_reverse_seq_order_without_trigger() {
    let reorder = [(1_000u32, 1_100u32), (2_000, 2_100), (3_000, 3_100)];
    let out = build_ack_outcome(0, false, 0, 0, true, &reorder, None, 4096);
    assert_eq!(out.sack_blocks_emitted, 3);
    assert_eq!(out.opts.sack_block_count, 3);
    assert_eq!(
        out.opts.sack_blocks[0],
        SackBlock {
            left: 3_000,
            right: 3_100
        }
    );
    assert_eq!(
        out.opts.sack_blocks[1],
        SackBlock {
            left: 2_000,
            right: 2_100
        }
    );
    assert_eq!(
        out.opts.sack_blocks[2],
        SackBlock {
            left: 1_000,
            right: 1_100
        }
    );
}

#[test]
fn build_ack_outcome_trigger_middle_block_emitted_first() {
    let reorder = [(200u32, 300u32), (400, 500), (600, 700)];
    let out = build_ack_outcome(0, false, 0, 0, true, &reorder, Some((400, 500)), 4096);
    assert_eq!(out.sack_blocks_emitted, 3);
    assert_eq!(out.opts.sack_block_count, 3);
    assert_eq!(
        out.opts.sack_blocks[0],
        SackBlock {
            left: 400,
            right: 500
        }
    );
    assert_eq!(
        out.opts.sack_blocks[1],
        SackBlock {
            left: 600,
            right: 700
        }
    );
    assert_eq!(
        out.opts.sack_blocks[2],
        SackBlock {
            left: 200,
            right: 300
        }
    );
}

#[test]
fn build_ack_outcome_trigger_merged_into_existing_block_emits_merged_first() {
    let reorder = [(200u32, 300u32), (400, 500)];
    let out = build_ack_outcome(0, false, 0, 0, true, &reorder, Some((420, 450)), 4096);
    assert_eq!(out.sack_blocks_emitted, 2);
    assert_eq!(
        out.opts.sack_blocks[0],
        SackBlock {
            left: 400,
            right: 500
        }
    );
    assert_eq!(
        out.opts.sack_blocks[1],
        SackBlock {
            left: 200,
            right: 300
        }
    );
}

#[test]
fn build_ack_outcome_trigger_no_match_falls_back_to_reverse_order() {
    let reorder = [(1_000u32, 1_100u32), (2_000, 2_100)];
    let out = build_ack_outcome(0, false, 0, 0, true, &reorder, Some((500, 600)), 4096);
    assert_eq!(out.sack_blocks_emitted, 2);
    assert_eq!(
        out.opts.sack_blocks[0],
        SackBlock {
            left: 2_000,
            right: 2_100
        }
    );
}

#[test]
fn build_ack_outcome_sack_disabled_skips_blocks_even_with_reorder() {
    let reorder = [(100u32, 200u32)];
    let out = build_ack_outcome(0, false, 0, 0, false, &reorder, None, 4096);
    assert_eq!(out.sack_blocks_emitted, 0);
    assert_eq!(out.opts.sack_block_count, 0);
}

#[test]
fn build_ack_outcome_sack_caps_at_max_blocks_emit() {
    let reorder = [
        (1_000u32, 1_100u32),
        (2_000, 2_100),
        (3_000, 3_100),
        (4_000, 4_100),
        (5_000, 5_100),
    ];
    let out = build_ack_outcome(0, false, 0, 0, true, &reorder, None, 4096);
    assert_eq!(out.sack_blocks_emitted, 3);
    assert_eq!(out.opts.sack_block_count, 3);
    assert_eq!(
        out.opts.sack_blocks[0],
        SackBlock {
            left: 5_000,
            right: 5_100
        }
    );
    assert_eq!(
        out.opts.sack_blocks[1],
        SackBlock {
            left: 4_000,
            right: 4_100
        }
    );
    assert_eq!(
        out.opts.sack_blocks[2],
        SackBlock {
            left: 3_000,
            right: 3_100
        }
    );
}

#[test]
fn build_ack_outcome_full_matrix_ts_plus_ws_plus_sack() {
    let reorder = [(1_000u32, 1_100u32), (2_000, 2_100)];
    let out = build_ack_outcome(
        7,
        true,
        0xdead_beef,
        0x1234_5678,
        true,
        &reorder,
        None,
        256 * 1024,
    );
    assert_eq!(out.window, 2048);
    assert_eq!(out.opts.timestamps, Some((0x1234_5678, 0xdead_beef)));
    assert_eq!(out.sack_blocks_emitted, 2);
    assert_eq!(out.opts.sack_block_count, 2);
    assert_eq!(
        out.opts.sack_blocks[0],
        SackBlock {
            left: 2_000,
            right: 2_100
        }
    );
}

#[test]
fn apply_tcp_input_counters_maps_paws_rejected() {
    let mut c = TcpCounters::default();
    let mut o = Outcome::base();
    o.paws_rejected = true;
    apply_tcp_input_counters(&o, &mut c);
    assert_eq!(c.rx_paws_rejected, 1);
}

#[test]
fn apply_tcp_input_counters_maps_bad_option() {
    let mut c = TcpCounters::default();
    let mut o = Outcome::base();
    o.bad_option = true;
    apply_tcp_input_counters(&o, &mut c);
    assert_eq!(c.rx_bad_option, 1);
}

#[test]
fn apply_tcp_input_counters_reassembly_queued_increments_once() {
    let mut c = TcpCounters::default();
    let mut o = Outcome::base();
    o.reassembly_queued_bytes = 42;
    apply_tcp_input_counters(&o, &mut c);
    assert_eq!(c.rx_reassembly_queued, 1);
}

#[test]
fn apply_tcp_input_counters_reassembly_hole_filled_adds_count() {
    let mut c = TcpCounters::default();
    let mut o = Outcome::base();
    o.reassembly_hole_filled = 3;
    apply_tcp_input_counters(&o, &mut c);
    assert_eq!(c.rx_reassembly_hole_filled, 3);
}

#[test]
fn apply_tcp_input_counters_sack_blocks_decoded_adds_count() {
    let mut c = TcpCounters::default();
    let mut o = Outcome::base();
    o.sack_blocks_decoded = 2;
    apply_tcp_input_counters(&o, &mut c);
    assert_eq!(c.rx_sack_blocks, 2);
}

#[test]
fn apply_tcp_input_counters_rx_dsack_adds_count() {
    let mut c = TcpCounters::default();
    let mut o = Outcome::base();
    o.rx_dsack_count = 2;
    apply_tcp_input_counters(&o, &mut c);
    assert_eq!(c.rx_dsack, 2);
}

#[test]
fn apply_tcp_input_counters_backfill_flags_each_bump_once() {
    let mut c = TcpCounters::default();
    let mut o = Outcome::base();
    o.bad_seq = true;
    o.bad_ack = true;
    o.dup_ack = true;
    o.urgent_dropped = true;
    o.rx_zero_window = true;
    apply_tcp_input_counters(&o, &mut c);
    assert_eq!(c.rx_bad_seq, 1);
    assert_eq!(c.rx_bad_ack, 1);
    assert_eq!(c.rx_dup_ack, 1);
    assert_eq!(c.rx_urgent_dropped, 1);
    assert_eq!(c.rx_zero_window, 1);
}

#[test]
fn apply_tcp_input_counters_maps_ws_shift_clamped() {
    let mut c = TcpCounters::default();
    let mut o = Outcome::base();
    o.ws_shift_clamped = true;
    apply_tcp_input_counters(&o, &mut c);
    assert_eq!(c.rx_ws_shift_clamped, 1);
}

#[test]
fn apply_tcp_input_counters_bumps_rtt_samples_when_flag_set() {
    let mut c = TcpCounters::default();
    let mut o = Outcome::base();
    o.rtt_sample_taken = true;
    apply_tcp_input_counters(&o, &mut c);
    assert_eq!(c.rtt_samples, 1);
}

#[test]
fn apply_tcp_input_counters_base_outcome_no_bumps() {
    let mut c = TcpCounters::default();
    let o = Outcome::base();
    apply_tcp_input_counters(&o, &mut c);
    assert_eq!(c.rx_paws_rejected, 0);
    assert_eq!(c.rx_bad_option, 0);
    assert_eq!(c.rx_reassembly_queued, 0);
    assert_eq!(c.rx_reassembly_hole_filled, 0);
    assert_eq!(c.rx_sack_blocks, 0);
    assert_eq!(c.rx_bad_seq, 0);
    assert_eq!(c.rx_bad_ack, 0);
    assert_eq!(c.rx_dup_ack, 0);
    assert_eq!(c.rx_urgent_dropped, 0);
    assert_eq!(c.rx_zero_window, 0);
    assert_eq!(c.rx_dsack, 0);
    assert_eq!(c.rx_ws_shift_clamped, 0);
    assert_eq!(c.rtt_samples, 0);
}

#[test]
fn rtt_histogram_edges_defaults_applied_on_all_zero() {
    let validated = validate_and_default_histogram_edges(&[0u32; 15])
        .expect("all-zero must validate and substitute defaults");
    let expected: [u32; 15] = [
        50, 100, 200, 300, 500, 750, 1000, 2000, 3000, 5000,
        10000, 25000, 50000, 100000, 500000,
    ];
    assert_eq!(validated, expected);
}

#[test]
fn rtt_histogram_edges_non_monotonic_rejected() {
    let bad: [u32; 15] = [
        50, 100, 200, 150, 500, 750, 1000, 2000, 3000, 5000,
        10000, 25000, 50000, 100000, 500000,
    ];
    assert!(validate_and_default_histogram_edges(&bad).is_err());
}

#[test]
fn rtt_histogram_edges_monotonic_passes_through() {
    let good: [u32; 15] = [
        10, 20, 30, 40, 50, 60, 70, 80, 90, 100, 200, 300, 400, 500, 1000,
    ];
    let out = validate_and_default_histogram_edges(&good).unwrap();
    assert_eq!(out, good);
}

#[test]
fn public_timer_id_packing_roundtrip() {
    let id = TimerId { slot: 0xAABB_CCDD, generation: 0x1122_3344 };
    let packed = pack_timer_id(id);
    assert_eq!(packed, 0xAABB_CCDD_1122_3344);
    let unpacked = unpack_timer_id(packed);
    assert_eq!(unpacked.slot, 0xAABB_CCDD);
    assert_eq!(unpacked.generation, 0x1122_3344);
}

#[test]
fn align_up_to_tick_zero_and_boundary() {
    assert_eq!(align_up_to_tick_ns(0), 0);
    assert_eq!(align_up_to_tick_ns(1), 10_000);
    assert_eq!(align_up_to_tick_ns(10_000), 10_000);
    assert_eq!(align_up_to_tick_ns(10_001), 20_000);
    assert_eq!(align_up_to_tick_ns(19_999), 20_000);
}

#[test]
fn offload_miss_bumps_counter_returns_zero() {
    let mut ctr: u64 = 0;
    let bit: u64 = 1 << 3;
    let advertised = 0u64;
    let applied = and_offload_with_miss_counter(bit, advertised, &mut ctr);
    assert_eq!(applied, 0);
    assert_eq!(ctr, 1);
}

#[test]
fn offload_present_no_bump_returns_bit() {
    let mut ctr: u64 = 0;
    let bit: u64 = 1 << 3;
    let advertised = bit;
    let applied = and_offload_with_miss_counter(bit, advertised, &mut ctr);
    assert_eq!(applied, bit);
    assert_eq!(ctr, 0);
}

#[test]
fn offload_not_requested_noop() {
    let mut ctr: u64 = 0;
    let applied = and_offload_with_miss_counter(0, u64::MAX, &mut ctr);
    assert_eq!(applied, 0);
    assert_eq!(ctr, 0);
}
