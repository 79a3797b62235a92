use dpdk_net_core::engine_config::DEFAULT_RTT_HISTOGRAM_EDGES_US;
use dpdk_net_core::flow_table::FourTuple;
use dpdk_net_core::mempool::Mbuf;
use dpdk_net_core::tcp_conn::{RecentProbe, RecvQueue, SendQueue, TcpConn};
use dpdk_net_core::tcp_retrans::RetransEntry;
use dpdk_net_core::tcp_rtt::DEFAULT_INITIAL_RTO_US;
use dpdk_net_core::tcp_state::TcpState;
use dpdk_net_core::tcp_timer_wheel::TimerId;
use dpdk_net_core::tcp_tlp::{DEFAULT_MAX_CONSECUTIVE_PROBES, DEFAULT_MULTIPLIER_X100};

fn tuple() -> FourTuple {
    FourTuple {
        local_ip: 0x0a_00_00_02,
        local_port: 40000,
        peer_ip: 0x0a_00_00_01,
        peer_port: 5000,
    }
}

#[test]
fn new_client_sets_iss_both_una_and_nxt() {
    let c = TcpConn::new_client(
        tuple(),
        0xDEAD_BEEF,
        1460,
        1024,
        2048,
        5000,
        5000,
        1_000_000,
    );
    assert_eq!(c.snd_una, 0xDEAD_BEEF);
    assert_eq!(c.snd_nxt, 0xDEAD_BEEF);
    assert_eq!(c.iss, 0xDEAD_BEEF);
    assert_eq!(c.state, TcpState::Closed);
}

#[test]
fn rcv_wnd_clamped_to_u16_max_without_wscale() {
    let c = TcpConn::new_client(tuple(), 0, 1460, 1_000_000, 1024, 5000, 5000, 1_000_000);
    assert_eq!(c.rcv_wnd, u16::MAX as u32);
}

#[test]
fn send_queue_push_respects_cap() {
    let mut sq = SendQueue::new(4);
    assert_eq!(sq.push(b"hello"), 4);
    assert_eq!(sq.pending.len(), 4);
    assert_eq!(sq.free_space(), 0);
}

#[test]
fn recv_queue_buffered_bytes_starts_zero_and_matches_free_space() {
    let rq = RecvQueue::new(3);
    assert_eq!(rq.buffered_bytes(), 0);
    assert_eq!(rq.free_space(), 3);
}

#[test]
fn fin_acked_checks_fin_seq_plus_one() {
    let mut c = TcpConn::new_client(tuple(), 100, 1460, 1024, 2048, 5000, 5000, 1_000_000);
    assert!(!c.fin_has_been_acked(150));
    c.our_fin_seq = Some(200);
    assert!(!c.fin_has_been_acked(200));
    assert!(c.fin_has_been_acked(201));
    assert!(c.fin_has_been_acked(500));
}

#[test]
fn recv_queue_has_reorder_field_and_shares_cap() {
    let rq = RecvQueue::new(1024);
    assert_eq!(rq.cap, 1024);
    assert!(rq.reorder.is_empty());
    assert_eq!(rq.reorder.total_bytes(), 0);
    assert_eq!(rq.free_space_total(), 1024);
}

#[test]
fn a4_options_fields_default_to_not_negotiated() {
    let c = TcpConn::new_client(tuple(), 1000, 1460, 1024, 2048, 5000, 5000, 1_000_000);
    assert_eq!(c.ws_shift_out, 0);
    assert_eq!(c.ws_shift_in, 0);
    assert!(!c.ts_enabled);
    assert_eq!(c.ts_recent, 0);
    assert_eq!(c.ts_recent_age, 0);
    assert!(!c.sack_enabled);
}

#[test]
fn a4_sack_scoreboard_starts_empty() {
    let c = TcpConn::new_client(tuple(), 1000, 1460, 1024, 2048, 5000, 5000, 1_000_000);
    assert!(c.sack_scoreboard.is_empty());
    assert_eq!(c.sack_scoreboard.len(), 0);
}

#[test]
fn a4_last_sack_trigger_starts_none() {
    let c = TcpConn::new_client(tuple(), 1000, 1460, 1024, 2048, 5000, 5000, 1_000_000);
    assert!(c.last_sack_trigger.is_none());
}

#[test]
fn new_client_timer_ids_starts_empty() {
    let c = TcpConn::new_client(tuple(), 1, 1460, 1024, 2048, 5000, 5000, 1_000_000);
    assert!(c.timer_ids.is_empty());
}

#[test]
fn a5_conn_starts_with_empty_snd_retrans_and_default_rtt() {
    let c = TcpConn::new_client(tuple(), 100, 1460, 1024, 2048, 5000, 5000, 1_000_000);
    assert!(c.snd_retrans.is_empty());
    assert_eq!(c.rtt_est.rto_us(), DEFAULT_INITIAL_RTO_US);
    assert!(c.rto_timer_id.is_none());
    assert!(c.tlp_timer_id.is_none());
    assert_eq!(c.syn_retrans_count, 0);
    assert!(c.syn_retrans_timer_id.is_none());
    assert!(!c.rack_aggressive);
    assert!(!c.rto_no_backoff);
}

#[test]
fn a5_conn_has_default_rack_state() {
    let c = TcpConn::new_client(tuple(), 1, 1460, 1024, 2048, 5000, 5000, 1_000_000);
    assert_eq!(c.rack.xmit_ts_ns, 0);
    assert_eq!(c.rack.end_seq, 0);
    assert_eq!(c.rack.min_rtt_us, 0);
    assert!(!c.rack.dsack_seen);
}

#[test]
fn a5_5_tlp_tuning_fields_default_init_on_new_client() {
    let c = TcpConn::new_client(tuple(), 1, 1460, 1024, 2048, 5000, 5000, 1_000_000);
    assert_eq!(c.tlp_pto_min_floor_us, 0);
    assert_eq!(
        c.tlp_pto_srtt_multiplier_x100,
        DEFAULT_MULTIPLIER_X100
    );
    assert!(!c.tlp_skip_flight_size_gate);
    assert_eq!(
        c.tlp_max_consecutive_probes,
        DEFAULT_MAX_CONSECUTIVE_PROBES
    );
    assert!(!c.tlp_skip_rtt_sample_gate);
    assert_eq!(c.tlp_consecutive_probes_fired, 0);
    assert!(!c.tlp_rtt_sample_seen_since_last_tlp);
    assert!(c.tlp_recent_probes.iter().all(|s| s.is_none()));
    assert_eq!(c.tlp_recent_probes_next_slot, 0);
    assert_eq!(c.syn_tx_ts_ns, 0);
}

#[test]
fn a5_5_tlp_config_projects_fields() {
    let mut c = TcpConn::new_client(tuple(), 1, 1460, 1024, 2048, 5000, 5000, 1_000_000);
    c.tlp_pto_min_floor_us = 7_500;
    c.tlp_pto_srtt_multiplier_x100 = 150;
    c.tlp_skip_flight_size_gate = true;
    let cfg = c.tlp_config(5_000);
    assert_eq!(cfg.floor_us, 7_500);
    assert_eq!(cfg.multiplier_x100, 150);
    assert!(cfg.skip_flight_size_gate);
}

#[test]
fn a5_5_tlp_config_u32_max_means_no_floor() {
    let mut c = TcpConn::new_client(tuple(), 1, 1460, 1024, 2048, 5000, 5000, 1_000_000);
    c.tlp_pto_min_floor_us = u32::MAX;
    c.tlp_pto_srtt_multiplier_x100 = 200;
    let cfg = c.tlp_config(5_000);
    assert_eq!(cfg.floor_us, 0, "u32::MAX sentinel must project to 0");
}

#[test]
fn a6_new_fields_zero_init_after_new_client() {
    let c = TcpConn::new_client(
        FourTuple {
            local_ip: 0x0a000002,
            local_port: 40000,
            peer_ip: 0x0a000001,
            peer_port: 5000,
        },
        0, 1460, 1024, 2048, 5_000, 5_000, 1_000_000,
    );
    assert!(!c.send_refused_pending);
    assert!(!c.force_tw_skip);
    for b in c.rtt_histogram.buckets.iter() {
        assert_eq!(*b, 0);
    }
}

fn make_test_conn() -> TcpConn {
    TcpConn::new_client(tuple(), 0, 1460, 1024, 2048, 5000, 5000, 1_000_000)
}

#[test]
fn stats_projects_send_path_fields() {
    let mut c = make_test_conn();
    c.snd_una = 100;
    c.snd_nxt = 200;
    c.snd_wnd = 65535;
    let s = c.stats(1_048_576);
    assert_eq!(s.snd_una, 100);
    assert_eq!(s.snd_nxt, 200);
    assert_eq!(s.snd_wnd, 65535);
}

#[test]
fn stats_before_any_rtt_sample_returns_zero_except_rto() {
    let c = make_test_conn();
    let s = c.stats(1_048_576);
    assert_eq!(s.srtt_us, 0);
    assert_eq!(s.rttvar_us, 0);
    assert_eq!(s.min_rtt_us, 0);
    assert_eq!(s.rto_us, c.rtt_est.rto_us());
}

#[test]
fn stats_send_buf_bytes_free_saturates_at_zero() {
    let mut c = make_test_conn();
    c.snd.pending.extend(std::iter::repeat_n(0u8, 128));
    let s = c.stats(64);
    assert_eq!(s.send_buf_bytes_pending, 128);
    assert_eq!(s.send_buf_bytes_free, 0);
}

fn prime_retrans(c: &mut TcpConn, seq: u32, len: u16) {
    c.snd_retrans.push_after_tx(RetransEntry {
        seq,
        len,
        mbuf: Mbuf::null(),
        first_tx_ts_ns: 0,
        xmit_count: 1,
        sacked: false,
        lost: false,
        xmit_ts_ns: 0,
        hdrs_len: 0,
    });
}

#[test]
fn tlp_arm_gate_rejects_when_retrans_empty() {
    let mut c = make_test_conn();
    c.tlp_max_consecutive_probes = 3;
    c.tlp_rtt_sample_seen_since_last_tlp = true;
    assert!(!c.tlp_arm_gate_passes());
}

#[test]
fn tlp_arm_gate_rejects_when_timer_already_armed() {
    let mut c = make_test_conn();
    prime_retrans(&mut c, 1000, 512);
    c.tlp_max_consecutive_probes = 3;
    c.tlp_rtt_sample_seen_since_last_tlp = true;
    c.tlp_timer_id = Some(TimerId {
        slot: 1,
        generation: 0,
    });
    assert!(!c.tlp_arm_gate_passes());
}

#[test]
fn tlp_arm_gates_reject_when_budget_exhausted() {
    let mut c = make_test_conn();
    prime_retrans(&mut c, 1000, 512);
    c.tlp_max_consecutive_probes = 3;
    c.tlp_consecutive_probes_fired = 3;
    c.tlp_rtt_sample_seen_since_last_tlp = true;
    assert!(!c.tlp_arm_gate_passes());
}

#[test]
fn tlp_arm_gates_pass_when_under_budget_and_sample_seen() {
    let mut c = make_test_conn();
    prime_retrans(&mut c, 1000, 512);
    c.tlp_max_consecutive_probes = 3;
    c.tlp_consecutive_probes_fired = 1;
    c.tlp_rtt_sample_seen_since_last_tlp = true;
    c.rtt_est.sample(5_000);
    assert!(c.tlp_arm_gate_passes());
}

#[test]
fn tlp_arm_gate_rejects_without_rtt_sample_seen_when_not_skipped() {
    let mut c = make_test_conn();
    prime_retrans(&mut c, 1000, 512);
    c.tlp_skip_rtt_sample_gate = false;
    c.tlp_rtt_sample_seen_since_last_tlp = false;
    c.tlp_max_consecutive_probes = 3;
    c.tlp_consecutive_probes_fired = 0;
    assert!(!c.tlp_arm_gate_passes());
}

#[test]
fn tlp_arm_gate_bypasses_rtt_sample_check_when_skip_flag_set() {
    let mut c = make_test_conn();
    prime_retrans(&mut c, 1000, 512);
    c.tlp_skip_rtt_sample_gate = true;
    c.tlp_rtt_sample_seen_since_last_tlp = false;
    c.tlp_max_consecutive_probes = 3;
    c.tlp_consecutive_probes_fired = 0;
    c.rtt_est.sample(5_000);
    assert!(c.tlp_arm_gate_passes());
}

#[test]
fn tlp_arm_gate_rejects_when_srtt_absent() {
    let mut c = make_test_conn();
    prime_retrans(&mut c, 1000, 512);
    c.tlp_max_consecutive_probes = 3;
    c.tlp_consecutive_probes_fired = 0;
    c.tlp_rtt_sample_seen_since_last_tlp = true;
    assert!(c.rtt_est.srtt_us().is_none());
    assert!(!c.tlp_arm_gate_passes());
}

#[test]
fn on_tlp_fire_records_probe_bumps_counter_clears_flag() {
    let mut c = make_test_conn();
    c.tlp_consecutive_probes_fired = 0;
    c.tlp_rtt_sample_seen_since_last_tlp = true;

    c.on_tlp_probe_fired(1000, 512, 12_345);

    assert_eq!(c.tlp_consecutive_probes_fired, 1);
    assert!(!c.tlp_rtt_sample_seen_since_last_tlp);
    assert!(c.tlp_recent_probes[0].is_some());
    let probe = c.tlp_recent_probes[0].unwrap();
    assert_eq!(probe.seq, 1000);
    assert_eq!(probe.len, 512);
    assert_eq!(probe.tx_ts_ns, 12_345);
    assert!(!probe.attributed);
    assert_eq!(c.tlp_recent_probes_next_slot, 1);
}

#[test]
fn on_tlp_fire_wraps_ring_at_slot_5() {
    let mut c = make_test_conn();
    for i in 0..6u32 {
        c.on_tlp_probe_fired(i, 1, i as u64);
    }
    assert_eq!(c.tlp_recent_probes_next_slot, 1);
    assert_eq!(c.tlp_recent_probes[0].unwrap().seq, 5);
    assert_eq!(c.tlp_recent_probes[1].unwrap().seq, 1);
}

#[test]
fn on_tlp_fire_budget_saturates_at_u8_max() {
    let mut c = make_test_conn();
    c.tlp_consecutive_probes_fired = u8::MAX;
    c.on_tlp_probe_fired(0, 1, 0);
    assert_eq!(c.tlp_consecutive_probes_fired, u8::MAX);
}

#[test]
fn on_rtt_sample_tlp_hook_resets_budget_and_sets_sample_seen() {
    let mut c = make_test_conn();
    c.tlp_consecutive_probes_fired = 3;
    c.tlp_rtt_sample_seen_since_last_tlp = false;

    c.on_rtt_sample_tlp_hook();

    assert_eq!(c.tlp_consecutive_probes_fired, 0);
    assert!(c.tlp_rtt_sample_seen_since_last_tlp);
}

#[test]
fn on_new_data_ack_tlp_hook_resets_budget_only() {
    let mut c = make_test_conn();
    c.tlp_consecutive_probes_fired = 3;
    c.tlp_rtt_sample_seen_since_last_tlp = false;

    c.on_new_data_ack_tlp_hook();

    assert_eq!(c.tlp_consecutive_probes_fired, 0);
    assert!(!c.tlp_rtt_sample_seen_since_last_tlp);
}

#[test]
fn attribute_dsack_matches_recent_probe_within_window() {
    let mut c = make_test_conn();
    c.tlp_recent_probes[0] = Some(RecentProbe {
        seq: 1000,
        len: 100,
        tx_ts_ns: 1_000_000,
        attributed: false,
    });
    c.tlp_recent_probes_next_slot = 1;
    c.rtt_est.sample(100_000);
    let now_ns = 1_000_000 + 50_000_000;

    let attributed = c.attribute_dsack_to_recent_tlp_probe(1000, 1100, now_ns);
    assert!(attributed);
    assert!(c.tlp_recent_probes[0].as_ref().unwrap().attributed);
}

#[test]
fn attribute_dsack_outside_window_skips_probe() {
    let mut c = make_test_conn();
    c.tlp_recent_probes[0] = Some(RecentProbe {
        seq: 1000,
        len: 100,
        tx_ts_ns: 1_000_000,
        attributed: false,
    });
    c.rtt_est.sample(100_000);
    let now_ns = 1_000_000 + 500_000_000;

    let attributed = c.attribute_dsack_to_recent_tlp_probe(1000, 1100, now_ns);
    assert!(!attributed);
    assert!(!c.tlp_recent_probes[0].as_ref().unwrap().attributed);
}

#[test]
fn attribute_dsack_waits_one_second_before_any_rtt_sample() {
    let probe = RecentProbe {
        seq: 1000,
        len: 100,
        tx_ts_ns: 1_000_000,
        attributed: false,
    };
    let mut c = make_test_conn();
    c.tlp_recent_probes[0] = Some(probe);
    assert!(!c.attribute_dsack_to_recent_tlp_probe(1000, 1100, 1_000_000 + 1_000_000_000));
    assert!(c.attribute_dsack_to_recent_tlp_probe(1000, 1100, 1_000_000 + 999_999_999));
}

#[test]
fn attribute_dsack_does_not_double_count_same_probe() {
    let mut c = make_test_conn();
    c.tlp_recent_probes[0] = Some(RecentProbe {
        seq: 1000,
        len: 100,
        tx_ts_ns: 1_000_000,
        attributed: false,
    });
    c.rtt_est.sample(100_000);
    let now_ns = 1_000_000 + 50_000_000;

    let first = c.attribute_dsack_to_recent_tlp_probe(1000, 1100, now_ns);
    let second = c.attribute_dsack_to_recent_tlp_probe(1000, 1100, now_ns);
    assert!(first);
    assert!(!second);
}

#[test]
fn attribute_dsack_partial_block_coverage_skips_probe() {
    let mut c = make_test_conn();
    c.tlp_recent_probes[0] = Some(RecentProbe {
        seq: 1000,
        len: 100,
        tx_ts_ns: 1_000_000,
        attributed: false,
    });
    c.rtt_est.sample(100_000);
    let now_ns = 1_000_000 + 50_000_000;

    let attributed = c.attribute_dsack_to_recent_tlp_probe(1050, 1100, now_ns);
    assert!(!attributed);
}

#[test]
fn attribute_dsack_with_no_probes_in_ring_returns_false() {
    let mut c = make_test_conn();
    c.rtt_est.sample(100_000);
    let now_ns = 1_000_000;

    let attributed = c.attribute_dsack_to_recent_tlp_probe(1000, 1100, now_ns);
    assert!(!attributed);
}

#[test]
fn syn_rtt_seed_absorbs_first_sample() {
    let mut c = make_test_conn();
    c.syn_tx_ts_ns = 1_000_000_000;
    c.syn_retrans_count = 0;
    let now_ns = 1_000_000_000 + 50_000_000;

    assert!(c.maybe_seed_srtt_from_syn(now_ns, &DEFAULT_RTT_HISTOGRAM_EDGES_US));
    assert!(c.rtt_est.srtt_us().is_some());
    assert!(c.rack.min_rtt_us > 0);
    assert_eq!(c.rtt_histogram.buckets[12], 1);
}

#[test]
fn a_sample_need_not_be_sorted_into_the_histogram() {
    let mut c = make_test_conn();
    c.syn_tx_ts_ns = 1_000_000_000;
    let now_ns = 1_000_000_000 + 50_000_000;
    assert!(c.seed_srtt_from_syn(now_ns, &DEFAULT_RTT_HISTOGRAM_EDGES_US, false));
    assert_eq!(c.rtt_est.srtt_us(), Some(50_000));
    assert_eq!(c.rack.min_rtt_us, 50_000);
    assert!(c.rtt_histogram.buckets.iter().all(|&b| b == 0));
}

#[test]
fn syn_rtt_seed_karns_rule_skips_retransmits() {
    let mut c = make_test_conn();
    c.syn_tx_ts_ns = 1_000_000_000;
    c.syn_retrans_count = 1;
    let now_ns = 1_000_000_000 + 50_000_000;

    assert!(!c.maybe_seed_srtt_from_syn(now_ns, &DEFAULT_RTT_HISTOGRAM_EDGES_US));
    assert!(c.rtt_est.srtt_us().is_none());
    assert_eq!(c.rack.min_rtt_us, 0);
    assert!(c.rtt_histogram.buckets.iter().all(|&b| b == 0));
}

#[test]
fn syn_rtt_seed_rejects_zero_syn_tx_ts() {
    let mut c = make_test_conn();
    c.syn_tx_ts_ns = 0;
    c.syn_retrans_count = 0;
    let now_ns = 1_000_000_000;

    assert!(!c.maybe_seed_srtt_from_syn(now_ns, &DEFAULT_RTT_HISTOGRAM_EDGES_US));
    assert!(c.rtt_est.srtt_us().is_none());
    assert_eq!(c.rack.min_rtt_us, 0);
    assert!(c.rtt_histogram.buckets.iter().all(|&b| b == 0));
}

#[test]
fn syn_rtt_seed_rejects_out_of_bounds_rtt() {
    let mut c = make_test_conn();
    c.syn_tx_ts_ns = 1_000_000_000;
    c.syn_retrans_count = 0;
    let now_ns = 1_000_000_000 + 61_000_000_000;

    assert!(!c.maybe_seed_srtt_from_syn(now_ns, &DEFAULT_RTT_HISTOGRAM_EDGES_US));
    assert!(c.rtt_est.srtt_us().is_none());
    assert_eq!(c.rack.min_rtt_us, 0);
    assert!(c.rtt_histogram.buckets.iter().all(|&b| b == 0));
}
