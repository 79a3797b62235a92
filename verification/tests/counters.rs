use dpdk_net_core::counters::{
    inc, lookup_counter, Counters, ALL_COUNTER_NAMES, KNOWN_COUNTER_COUNT,
};

#[test]
fn counters_construct() {
    let c = Counters::new();
    assert_eq!(c.eth.rx_pkts, 0);
    assert_eq!(c.tcp.conn_open, 0);
}

#[test]
fn inc_works() {
    let mut c = Counters::new();
    inc(&mut c.eth.rx_pkts);
    inc(&mut c.eth.rx_pkts);
    assert_eq!(c.eth.rx_pkts, 2);
}

#[test]
fn a2_new_counters_exist_and_zero() {
    let c = Counters::new();
    assert_eq!(c.eth.rx_drop_short, 0);
    assert_eq!(c.eth.rx_drop_unknown_ethertype, 0);
    assert_eq!(c.eth.rx_arp, 0);
    assert_eq!(c.eth.tx_arp, 0);
    assert_eq!(c.ip.rx_drop_short, 0);
    assert_eq!(c.ip.rx_drop_bad_version, 0);
    assert_eq!(c.ip.rx_drop_bad_hl, 0);
    assert_eq!(c.ip.rx_drop_not_ours, 0);
    assert_eq!(c.ip.rx_drop_unsupported_proto, 0);
    assert_eq!(c.ip.rx_tcp, 0);
    assert_eq!(c.ip.rx_icmp, 0);
}

#[test]
fn a3_new_tcp_counters_exist_and_zero() {
    let c = Counters::new();
    assert_eq!(c.tcp.tx_syn, 0);
    assert_eq!(c.tcp.tx_ack, 0);
    assert_eq!(c.tcp.tx_data, 0);
    assert_eq!(c.tcp.tx_fin, 0);
    assert_eq!(c.tcp.tx_rst, 0);
    assert_eq!(c.tcp.rx_fin, 0);
    assert_eq!(c.tcp.rx_unmatched, 0);
    assert_eq!(c.tcp.rx_bad_csum, 0);
    assert_eq!(c.tcp.rx_bad_flags, 0);
    assert_eq!(c.tcp.rx_short, 0);
    assert_eq!(c.tcp.recv_buf_drops, 0);
    for row in &c.tcp.state_trans {
        for cell in row {
            assert_eq!(*cell, 0);
        }
    }
}

#[test]
fn all_eth_counters_zero_at_construction() {
    let c = Counters::new();
    assert_eq!(c.eth.rx_pkts, 0);
    assert_eq!(c.eth.rx_bytes, 0);
    assert_eq!(c.eth.rx_drop_miss_mac, 0);
    assert_eq!(c.eth.rx_drop_nomem, 0);
    assert_eq!(c.eth.tx_pkts, 0);
    assert_eq!(c.eth.tx_bytes, 0);
    assert_eq!(c.eth.tx_drop_full_ring, 0);
    assert_eq!(c.eth.tx_drop_nomem, 0);
    assert_eq!(c.eth.rx_drop_short, 0);
    assert_eq!(c.eth.rx_drop_unknown_ethertype, 0);
    assert_eq!(c.eth.rx_arp, 0);
    assert_eq!(c.eth.tx_arp, 0);
}

#[test]
fn all_ip_counters_zero_at_construction() {
    let c = Counters::new();
    assert_eq!(c.ip.rx_csum_bad, 0);
    assert_eq!(c.ip.rx_ttl_zero, 0);
    assert_eq!(c.ip.rx_frag, 0);
    assert_eq!(c.ip.rx_icmp_frag_needed, 0);
    assert_eq!(c.ip.pmtud_updates, 0);
    assert_eq!(c.ip.rx_drop_short, 0);
    assert_eq!(c.ip.rx_drop_bad_version, 0);
    assert_eq!(c.ip.rx_drop_bad_hl, 0);
    assert_eq!(c.ip.rx_drop_not_ours, 0);
    assert_eq!(c.ip.rx_drop_unsupported_proto, 0);
    assert_eq!(c.ip.rx_tcp, 0);
    assert_eq!(c.ip.rx_icmp, 0);
}

#[test]
fn all_poll_counters_zero_at_construction() {
    let c = Counters::new();
    assert_eq!(c.poll.iters, 0);
    assert_eq!(c.poll.iters_with_rx, 0);
    assert_eq!(c.poll.iters_with_tx, 0);
    assert_eq!(c.poll.iters_idle, 0);
}

#[test]
fn tx_retrans_counters_zero_at_construction() {
    let c = Counters::new();
    assert_eq!(c.tcp.tx_retrans, 0);
    assert_eq!(c.tcp.tx_rto, 0);
    assert_eq!(c.tcp.tx_tlp, 0);
}

#[test]
fn a4_hotpath_fields_declared_and_zero() {
    let c = Counters::new();
    assert_eq!(c.tcp.tx_payload_bytes, 0);
    assert_eq!(c.tcp.rx_payload_bytes, 0);
    assert_eq!(c.poll.iters_with_rx_burst_max, 0);
}

#[test]
fn a4_new_tcp_counters_exist_and_zero() {
    let c = Counters::new();
    assert_eq!(c.tcp.rx_paws_rejected, 0);
    assert_eq!(c.tcp.rx_bad_option, 0);
    assert_eq!(c.tcp.rx_reassembly_queued, 0);
    assert_eq!(c.tcp.rx_reassembly_hole_filled, 0);
    assert_eq!(c.tcp.tx_sack_blocks, 0);
    assert_eq!(c.tcp.rx_sack_blocks, 0);
    assert_eq!(c.tcp.rx_bad_seq, 0);
    assert_eq!(c.tcp.rx_bad_ack, 0);
    assert_eq!(c.tcp.rx_dup_ack, 0);
    assert_eq!(c.tcp.rx_zero_window, 0);
    assert_eq!(c.tcp.rx_urgent_dropped, 0);
    assert_eq!(c.tcp.tx_zero_window, 0);
    assert_eq!(c.tcp.tx_window_update, 0);
    assert_eq!(c.tcp.conn_table_full, 0);
    assert_eq!(c.tcp.conn_time_wait_reaped, 0);
}

#[test]
fn fault_injector_counters_zero_at_construction() {
    let c = Counters::new();
    assert_eq!(c.fault_injector.drops, 0);
    assert_eq!(c.fault_injector.dups, 0);
    assert_eq!(c.fault_injector.reorders, 0);
    assert_eq!(c.fault_injector.corrupts, 0);
}

#[test]
fn a5_new_tcp_counters_exist_and_zero() {
    let c = Counters::new();
    assert_eq!(c.tcp.conn_timeout_retrans, 0);
    assert_eq!(c.tcp.conn_timeout_syn_sent, 0);
    assert_eq!(c.tcp.rtt_samples, 0);
    assert_eq!(c.tcp.tx_rack_loss, 0);
    assert_eq!(
        c.tcp.rack_reo_wnd_override_active,
        0
    );
    assert_eq!(c.tcp.rto_no_backoff_active, 0);
    assert_eq!(c.tcp.rx_ws_shift_clamped, 0);
    assert_eq!(c.tcp.rx_dsack, 0);
}

#[test]
fn engine_counters_has_obs_group_zero_initialized() {
    let c = Counters::new();
    assert_eq!(c.obs.events_dropped, 0);
    assert_eq!(c.obs.events_queue_high_water, 0);
}

#[test]
fn tlp_counters_tx_tlp_spurious_exists_and_zero_initialized() {
    let c = Counters::new();
    assert_eq!(c.tcp.tx_tlp_spurious, 0);
}

#[test]
fn a6_new_tcp_counters_exist_and_zero() {
    let c = Counters::new();
    assert_eq!(c.tcp.tx_api_timers_fired, 0);
    assert_eq!(c.tcp.ts_recent_expired, 0);
    assert_eq!(c.tcp.tx_flush_bursts, 0);
    assert_eq!(c.tcp.tx_flush_batched_pkts, 0);
}

#[test]
fn rx_mempool_avail_default_is_zero() {
    let c = Counters::new();
    assert_eq!(c.tcp.rx_mempool_avail, 0);
}

#[test]
fn mbuf_refcnt_drop_unexpected_default_is_zero() {
    let c = Counters::new();
    assert_eq!(c.tcp.mbuf_refcnt_drop_unexpected, 0);
}

#[test]
fn tx_data_mempool_avail_default_is_zero() {
    let c = Counters::new();
    assert_eq!(c.tcp.tx_data_mempool_avail, 0);
}

#[test]
fn all_counter_names_lookup_valid() {
    let c = Counters::new();
    for name in ALL_COUNTER_NAMES {
        let counter = lookup_counter(&c, name)
            .unwrap_or_else(|| panic!("name {name} does not resolve"));
        assert_eq!(*counter, 0);
    }
}

#[test]
fn a_counter_is_found_under_one_name() {
    let mut fields = Vec::new();
    for _ in 0..5 {
        fields.push(Counters::new());
    }
    fields[0].eth.rx_pkts = 1;
    fields[1].ip.rx_csum_bad = 1;
    fields[2].tcp.tx_retrans = 1;
    fields[3].tcp.tx_retrans_rto = 1;
    fields[4].poll.iters = 1;
    for c in &fields {
        let found = ALL_COUNTER_NAMES.iter().filter(|n| lookup_counter(c, n) == Some(&1)).count();
        assert_eq!(found, 1);
    }
}

#[test]
fn all_counter_names_count_pinned() {
    assert_eq!(
        ALL_COUNTER_NAMES.len(),
        KNOWN_COUNTER_COUNT,
        "ALL_COUNTER_NAMES count drifted; update KNOWN_COUNTER_COUNT if intentional"
    );
}

#[test]
fn lookup_counter_unknown_returns_none() {
    let c = Counters::new();
    assert!(lookup_counter(&c, "nonexistent.counter").is_none());
    assert!(lookup_counter(&c, "").is_none());
    assert!(
        lookup_counter(&c, "tcp.state_trans[0][0]").is_none(),
        "state_trans cells are NOT addressable via lookup_counter — see doc comment"
    );
}
