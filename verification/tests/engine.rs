use dpdk_net_core::counters::Counters;
use dpdk_net_core::ena_xstats::XstatMap;
use dpdk_net_core::engine::{BringUp, Engine};
use dpdk_net_core::engine_config::{compute_ws_shift_for, ConnectOpts, EngineConfig};
use dpdk_net_core::engine_port::{no_port_outcome, Features, RxTimestamp};
use dpdk_net_core::engine_poll::TxAttempt;
use dpdk_net_core::engine_timers::{syn_backoff, RtoStep, SynStep};
use dpdk_net_core::errno::{ENOMEM, EPERM, ETIMEDOUT};
use dpdk_net_core::error::Error;
use dpdk_net_core::flow_table::{ConnHandle, FlowTable, FourTuple};
use dpdk_net_core::iss::IssGen;
use dpdk_net_core::mempool::Mbuf;
use dpdk_net_core::tcp_conn::TcpConn;
use dpdk_net_core::tcp_events::{InternalEvent, LossCause};
use dpdk_net_core::tcp_state::TcpState;
use dpdk_net_core::tcp_timer_wheel::{TimerId, TimerKind};

const NOW: u64 = 1_000_000_000;

fn features() -> Features {
    Features {
        hw_offload_mbuf_fast_free: true,
        hw_offload_tx_cksum: true,
        hw_offload_rx_cksum: true,
        hw_offload_rss_hash: true,
        hw_offload_rx_timestamp: true,
        obs_poll_saturation: true,
        obs_byte_counters: true,
        obs_none: false,
        test_server: true,
    }
}

fn config() -> EngineConfig {
    EngineConfig {
        local_ip: 0x0a00_0002,
        gateway_ip: 0x0a00_0001,
        gateway_mac: [2, 0, 0, 0, 0, 1],
        secondary_local_ips: vec![0x0a00_0003],
        ..EngineConfig::default()
    }
}

fn engine_for(cfg: EngineConfig) -> Engine {
    let up = BringUp {
        port: no_port_outcome(),
        counters: Counters::new(),
        rx_timestamp: RxTimestamp { offset: None, flag_mask: None },
        our_mac: [2, 0, 0, 0, 0, 2],
        xstat_map: XstatMap::from_lookup(|_| None),
        iss_gen: IssGen::new_deterministic_for_test([7; 16], [9; 16]),
    };
    match Engine::new(cfg, features(), up) {
        Ok(e) => e,
        Err(e) => panic!("{e:?}"),
    }
}

fn engine() -> Engine {
    engine_for(config())
}

/// An engine with one connection that was opened and answered.
fn established() -> (Engine, ConnHandle) {
    let mut e = engine();
    let h = e.connect(0x0a00_0009, 5000, 0, 1500, NOW).unwrap();
    e.connect_sent(h, NOW, NOW);
    let iss = e.flow_table.get(h).unwrap().iss;
    {
        let c = e.flow_table.get_mut(h).unwrap();
        c.snd_una = iss.wrapping_add(1);
        c.snd_wnd = 10_000;
        c.rcv_nxt = 77;
    }
    let id = e.flow_table.get(h).unwrap().syn_retrans_timer_id.unwrap();
    e.cancel_syn_timer(h, id);
    e.flow_table.get_mut(h).unwrap().syn_retrans_timer_id = None;
    e.transition_conn(h, TcpState::Established, NOW);
    let _ = e.drain_events(100);
    (e, h)
}

fn send_all(e: &mut Engine, h: ConnHandle, bytes: &[u8], first_mbuf: u64, now: u64) -> u32 {
    let mut run = e.send_bytes(h, bytes, now).unwrap();
    let mut id = first_mbuf;
    while run.next < run.segs.len() {
        let len = run.segs[run.next].payload.len() as u16;
        e.segment_built(&mut run, Some((Mbuf::from_id(id), len + 54)), now);
        id += 1;
    }
    e.send_done(&run).unwrap()
}

#[test]
fn engine_exposes_addressing_and_pmtu() {
    let mut e = engine();
    assert_eq!(e.our_mac(), [2, 0, 0, 0, 0, 2]);
    assert_eq!(e.our_ip(), 0x0a00_0002);
    assert_eq!(e.gateway_mac(), [2, 0, 0, 0, 0, 1]);
    assert_eq!(e.gateway_ip(), 0x0a00_0001);
    assert_eq!(e.pmtu_for(0), None);
    assert!(e.pmtu.shrink(5, 1400));
    assert_eq!(e.pmtu_for(5), Some(1400));
    assert_eq!(e.send_buffer_bytes(), 256 * 1024);
    assert_eq!(e.config().tcp_mss, 1460);
    assert_eq!(e.rx_drop_nomem_prev(), 0);
    assert_eq!(e.counters().tcp.tx_syn, 0);
    assert_eq!(e.iss_gen().secret, [7; 16]);
}

#[test]
fn connect_requires_nonzero_local_ip() {
    let mut e = engine_for(EngineConfig { local_ip: 0, ..config() });
    let r = e.connect(0x0a_00_00_01, 5000, 0, 1500, NOW);
    assert!(matches!(r, Err(Error::PeerUnreachable(0x0a_00_00_01))));
    let mut e = engine_for(EngineConfig { gateway_mac: [0; 6], ..config() });
    let r = e.connect(0x0a_00_00_01, 5000, 0, 1500, NOW);
    assert!(matches!(r, Err(Error::PeerUnreachable(0x0a_00_00_01))));
    assert_eq!(e.last_ephemeral_port, 49151);
}

#[test]
fn connect_with_opts_signature_exists() {
    let mut e = engine();
    let opts = ConnectOpts::default();
    let a = e.connect_with_opts(0, 0, 0, opts, 1500, NOW).unwrap();
    let b = e.connect_with_opts(0, 0, 0, opts, 1500, NOW).unwrap();
    assert_ne!(a, b);
    assert_eq!(e.flow_table.get(a).unwrap().four_tuple().local_port, 49152);
    assert_eq!(e.flow_table.get(b).unwrap().four_tuple().local_port, 49153);
}

#[test]
fn connect_applies_its_settings() {
    let mut e = engine();
    let opts = ConnectOpts {
        rack_aggressive: true,
        rto_no_backoff: true,
        tlp_pto_min_floor_us: 7,
        tlp_pto_srtt_multiplier_x100: 150,
        tlp_skip_flight_size_gate: true,
        tlp_max_consecutive_probes: 3,
        tlp_skip_rtt_sample_gate: true,
        local_addr: 0x0a00_0003,
    };
    let h = e.connect_with_opts(1, 2, 60_000, opts, 1400, NOW).unwrap();
    let t = FourTuple { local_ip: 0x0a00_0003, local_port: 60_000, peer_ip: 1, peer_port: 2 };
    let c = e.flow_table.get(h).unwrap();
    assert_eq!(c.four_tuple(), t);
    assert_eq!(c.iss, e.iss_gen.next(&t, NOW));
    assert_eq!(c.peer_mss, 1360);
    assert!(c.rack_aggressive && c.rto_no_backoff && c.tlp_skip_flight_size_gate);
    assert_eq!(c.tlp_pto_min_floor_us, 7);
    assert_eq!(c.tlp_pto_srtt_multiplier_x100, 150);
    assert_eq!(c.tlp_max_consecutive_probes, 3);
    assert_eq!(e.counters.tcp.rack_reo_wnd_override_active, 1);
    assert_eq!(e.counters.tcp.rto_no_backoff_active, 1);
    assert_eq!(e.last_ephemeral_port, 49151);
}

#[test]
fn connect_defaults_stand_for_zero() {
    let mut e = engine();
    let h = e.connect(1, 2, 0, 1500, NOW).unwrap();
    let c = e.flow_table.get(h).unwrap();
    assert_eq!(c.tlp_pto_min_floor_us, e.cfg.tcp_min_rto_us);
    assert_eq!(c.tlp_pto_srtt_multiplier_x100, 200);
    assert_eq!(c.tlp_max_consecutive_probes, 1);
    assert_eq!(c.peer_mss, 1460);
    assert_eq!(e.counters.tcp.rto_no_backoff_active, 0);
}

#[test]
fn refused_connects_add_nothing() {
    let mut e = engine_for(EngineConfig { max_connections: 1, ..config() });
    let bad = ConnectOpts { local_addr: 99, ..ConnectOpts::default() };
    let r = e.connect_with_opts(1, 2, 0, bad, 1500, NOW);
    assert!(matches!(r, Err(Error::InvalidLocalAddr(99))));
    let h = e.connect(1, 2, 0, 1500, NOW).unwrap();
    let r = e.connect(1, 3, 0, 1500, NOW);
    assert!(matches!(r, Err(Error::TooManyConns)));
    assert_eq!(e.counters.tcp.conn_table_full, 1);
    assert_eq!(e.last_ephemeral_port, 49153);
    assert_eq!(e.flow_table.handles(), vec![h]);
    assert!(matches!(e.connect_failed(h, 1), Error::PeerUnreachable(1)));
    assert!(e.flow_table.handles().is_empty());
}

#[test]
fn ephemeral_ports_go_round() {
    let mut e = engine();
    assert_eq!(e.next_ephemeral_port(), 49152);
    e.last_ephemeral_port = u16::MAX;
    assert_eq!(e.next_ephemeral_port(), 49152);
    e.last_ephemeral_port = 65_534;
    assert_eq!(e.next_ephemeral_port(), 65_535);
}

#[test]
fn a_sent_syn_starts_the_handshake() {
    let mut e = engine();
    let h = e.connect(1, 2, 0, 1500, NOW).unwrap();
    let syn = e.emit_syn_with_flags(h, 0x02, NOW).unwrap();
    assert_eq!(syn.flags, 0x02);
    assert_eq!(syn.ack, 0);
    assert_eq!(syn.window, u16::MAX);
    assert_eq!(syn.options.mss, Some(1460));
    e.connect_sent(h, NOW, NOW);
    let c = e.flow_table.get(h).unwrap();
    assert_eq!(c.state, TcpState::SynSent);
    assert_eq!(c.snd_nxt, c.iss.wrapping_add(1));
    assert_eq!(c.syn_tx_ts_ns, NOW);
    assert_eq!(c.ws_shift_out, compute_ws_shift_for(256 * 1024));
    assert!(c.syn_retrans_timer_id.is_some());
    assert_eq!(e.counters.tcp.tx_syn, 1);
    let fired = e.fire_timers_at(NOW + 5_000_000);
    assert_eq!(fired.len(), 1);
    assert_eq!(fired[0].1.kind, TimerKind::SynRetrans);
    assert_eq!(fired[0].1.fire_at_ns, NOW + 5_000_000);
    let evs = e.drain_events(10);
    assert_eq!(
        evs,
        vec![InternalEvent::StateChange {
            conn: h,
            from: TcpState::Closed,
            to: TcpState::SynSent,
            emitted_ts_ns: NOW,
        }]
    );
}

#[test]
fn send_bytes_signature_exists() {
    let e = engine();
    assert!(matches!(e.send_bytes(7, b"x", NOW), Err(Error::InvalidConnHandle(7))));
    let (e, h) = established();
    let run = e.send_bytes(h, b"x", NOW).unwrap();
    assert_eq!(run.segs.len(), 1);
    assert_eq!(run.segs[0].payload, b"x".to_vec());
    assert_eq!(run.segs[0].flags, 0x18);
}

#[test]
fn send_bytes_sets_send_refused_pending_on_short_accept() {
    let (mut e, h) = established();
    e.flow_table.get_mut(h).unwrap().snd_wnd = 4;
    let n = send_all(&mut e, h, b"hello", 1, NOW);
    assert_eq!(n, 4);
    assert!(e.flow_table.get(h).unwrap().send_refused_pending);
    assert_eq!(e.counters.tcp.send_buf_full, 1);
    assert_eq!(e.counters.tcp.tx_payload_bytes, 4);
}

#[test]
fn a_send_is_cut_into_segments() {
    let (mut e, h) = established();
    let bytes: Vec<u8> = (0..4000u32).map(|i| i as u8).collect();
    let start = e.flow_table.get(h).unwrap().snd_nxt;
    let run = e.send_bytes(h, &bytes, NOW).unwrap();
    let sizes: Vec<usize> = run.segs.iter().map(|s| s.payload.len()).collect();
    assert_eq!(sizes, vec![1460, 1460, 1080]);
    assert_eq!(run.segs[2].seq, start.wrapping_add(2920));
    let joined: Vec<u8> = run.segs.iter().flat_map(|s| s.payload.clone()).collect();
    assert_eq!(joined, bytes);
    assert_eq!(send_all(&mut e, h, &bytes, 1, NOW), 4000);
    let c = e.flow_table.get(h).unwrap();
    assert_eq!(c.snd_nxt, start.wrapping_add(4000));
    assert_eq!(c.snd_retrans.len(), 3);
    assert_eq!(c.snd_retrans.get(1).unwrap().hdrs_len, 54);
    assert!(c.rto_timer_id.is_some());
    assert!(!c.send_refused_pending);
    assert_eq!(e.tx_pending_data.len(), 3);
    assert_eq!(e.counters.tcp.tx_data, 3);
    assert_eq!(e.counters.eth.tx_bytes, 4000 + 3 * 54);
}

#[test]
fn a_send_without_a_buffer_fails_or_stops() {
    let (mut e, h) = established();
    let start = e.flow_table.get(h).unwrap().snd_nxt;
    let mut run = e.send_bytes(h, &[0; 3000], NOW).unwrap();
    e.segment_built(&mut run, None, NOW);
    assert!(matches!(e.send_done(&run), Err(Error::SendBufferFull)));
    assert_eq!(e.counters.eth.tx_drop_nomem, 1);
    assert_eq!(e.flow_table.get(h).unwrap().snd_nxt, start);
    let mut run = e.send_bytes(h, &[0; 3000], NOW).unwrap();
    e.segment_built(&mut run, Some((Mbuf::from_id(4), 1514)), NOW);
    e.segment_built(&mut run, None, NOW);
    assert!(matches!(e.send_done(&run), Err(Error::SendBufferFull)));
    assert_eq!(e.counters.eth.tx_drop_nomem, 2);
    let c = e.flow_table.get(h).unwrap();
    assert_eq!(c.snd_nxt, start.wrapping_add(1460));
    assert_eq!(c.snd_nxt, run.segs[1].seq);
    assert_eq!(c.snd_retrans.len(), 1);
    assert_eq!(c.snd_retrans.get(0).unwrap().mbuf, Mbuf::from_id(4));
    assert!(c.send_refused_pending);
}

#[test]
fn a_very_long_send_that_is_cut_short_is_remembered() {
    let (mut e, h) = established();
    let mut run = e.send_bytes(h, &[0; 100], NOW).unwrap();
    run.offered = 1usize << 32;
    e.segment_built(&mut run, Some((Mbuf::from_id(4), 154)), NOW);
    assert_eq!(e.send_done(&run).unwrap(), 100);
    assert_eq!(e.counters.tcp.send_buf_full, 1);
    assert!(e.flow_table.get(h).unwrap().send_refused_pending);
    let (mut e, h) = established();
    assert_eq!(send_all(&mut e, h, &[0; 100], 4, NOW), 100);
    assert_eq!(e.counters.tcp.send_buf_full, 0);
    assert!(!e.flow_table.get(h).unwrap().send_refused_pending);
}

#[test]
fn the_ring_is_full_at_its_size() {
    let mut e = engine_for(EngineConfig { tx_ring_size: 1, ..config() });
    assert!(!e.tx_ring_full());
    e.tx_pending_data.push(Mbuf::from_id(1));
    assert!(e.tx_ring_full());
}

#[test]
fn close_conn_signature_exists() {
    let (mut e, h) = established();
    assert!(matches!(e.close_conn(99, NOW), Err(Error::InvalidConnHandle(99))));
    let seq = e.flow_table.get(h).unwrap().snd_nxt;
    let fin = e.close_conn(h, NOW).unwrap().unwrap();
    assert_eq!(fin.flags, 0x11);
    assert_eq!(fin.seq, seq);
    assert_eq!(fin.ack, 77);
    assert!(matches!(e.close_failed(h), Error::PeerUnreachable(0x0a00_0009)));
    e.fin_sent(h, NOW);
    let c = e.flow_table.get(h).unwrap();
    assert_eq!(c.state, TcpState::FinWait1);
    assert_eq!(c.our_fin_seq, Some(seq));
    assert_eq!(c.snd_nxt, seq.wrapping_add(1));
    assert_eq!(e.counters.tcp.tx_fin, 1);
    assert!(e.close_conn(h, NOW).unwrap().is_none());
}

#[test]
fn close_conn_with_flags_signature_exists() {
    let (mut e, h) = established();
    e.close_conn_with_flags(0, 0, NOW);
    assert!(e.drain_events(10).is_empty());
    e.close_conn_with_flags(0, 1 << 0, NOW);
    e.close_conn_with_flags(h, 1 << 0, NOW);
    let want = |conn: ConnHandle| InternalEvent::Error { conn, err: -EPERM, emitted_ts_ns: NOW };
    assert_eq!(e.drain_events(10), vec![want(0), want(h)]);
    assert!(!e.flow_table.get(h).unwrap().force_tw_skip);
    e.flow_table.get_mut(h).unwrap().ts_enabled = true;
    e.close_conn_with_flags(h, 1 << 0, NOW);
    assert!(e.flow_table.get(h).unwrap().force_tw_skip);
    assert!(e.drain_events(10).is_empty());
}

#[test]
fn drain_events_signature_exists() {
    let mut e = engine();
    assert!(e.drain_events(1).is_empty());
    e.close_conn_with_flags(1, 1, NOW);
    e.close_conn_with_flags(2, 1, NOW);
    e.close_conn_with_flags(3, 1, NOW);
    let two = e.drain_events(2);
    assert_eq!(two.len(), 2);
    assert!(matches!(two[0], InternalEvent::Error { conn: 1, .. }));
    assert!(matches!(e.drain_events(2)[0], InternalEvent::Error { conn: 3, .. }));
}

#[test]
fn the_event_queue_drops_its_oldest() {
    let mut e = engine_for(EngineConfig { event_queue_soft_cap: 2, ..config() });
    for h in 1..=3 {
        e.close_conn_with_flags(h, 1, NOW);
    }
    assert_eq!(e.counters.obs.events_dropped, 1);
    assert_eq!(e.counters.obs.events_queue_high_water, 2);
    assert!(matches!(e.drain_events(1)[0], InternalEvent::Error { conn: 2, .. }));
}

#[test]
fn retransmit_signature_exists() {
    let e = engine();
    assert!(e.retransmit(1, 0, NOW).is_none());
    let (mut e, h) = established();
    assert!(e.retransmit(h, 0, NOW).is_none());
    let start = e.flow_table.get(h).unwrap().snd_nxt;
    let _ = send_all(&mut e, h, &[5; 100], 42, NOW);
    let plan = e.retransmit(h, 0, NOW + 1).unwrap();
    assert_eq!(plan.data, Mbuf::from_id(42));
    assert_eq!(plan.len, 100);
    assert_eq!(plan.seg.seq, start);
    assert!(plan.seg.payload.is_empty());
    e.retransmit_queued(h, 0, LossCause::Rack, Mbuf::from_id(50), 66, NOW + 1);
    let entry = e.flow_table.get(h).unwrap().snd_retrans.get(0).unwrap();
    assert_eq!(entry.xmit_count, 2);
    assert_eq!(entry.xmit_ts_ns, NOW + 1);
    assert_eq!(entry.first_tx_ts_ns, NOW);
    assert_eq!(e.counters.tcp.tx_retrans, 1);
    assert_eq!(e.counters.tcp.tx_retrans_rack, 1);
    e.retransmit_queued(h, 0, LossCause::Tlp, Mbuf::from_id(51), 66, NOW + 1);
    assert_eq!(e.counters.tcp.tx_retrans, 2);
    assert_eq!(e.counters.tcp.tx_retrans_tlp, 1);
    assert_eq!(e.counters.tcp.tx_retrans_rto, 0);
    assert_eq!(e.tx_pending_data.pop(), Some(Mbuf::from_id(51)));
    assert_eq!(e.tx_pending_data, vec![Mbuf::from_id(42), Mbuf::from_id(50)]);
    e.retransmit_failed(h, NOW + 2);
    assert_eq!(e.counters.eth.tx_drop_nomem, 1);
    assert_eq!(
        e.drain_events(1),
        vec![InternalEvent::Error { conn: h, err: -ENOMEM, emitted_ts_ns: NOW + 2 }]
    );
}

#[test]
fn on_rto_fire_signature_exists() {
    let (mut e, h) = established();
    let stale = TimerId { slot: 9, generation: 9 };
    assert_eq!(e.on_rto_fire(h, stale), RtoStep::Stale);
    let _ = send_all(&mut e, h, &[5; 100], 42, NOW);
    let id = e.flow_table.get(h).unwrap().rto_timer_id.unwrap();
    let rto = e.flow_table.get(h).unwrap().rtt_est.rto_us();
    assert_eq!(e.on_rto_fire(h, id), RtoStep::Retransmit);
    assert!(e.flow_table.get(h).unwrap().rto_timer_id.is_none());
    e.mark_lost(h, &[0]);
    assert!(e.flow_table.get(h).unwrap().snd_retrans.get(0).unwrap().lost);
    assert_eq!(Engine::rto_retransmits(&[]), vec![0]);
    assert!(e.rto_retransmitted(h, &[0], NOW + 1).is_none());
    let c = e.flow_table.get(h).unwrap();
    assert_eq!(c.rtt_est.rto_us(), 2 * rto);
    assert!(c.rto_timer_id.is_some());
    assert_eq!(e.counters.tcp.tx_rto, 1);
}

#[test]
fn a_segment_sent_too_often_ends_the_connection() {
    let mut e = engine_for(EngineConfig {
        tcp_max_retrans_count: 1,
        tcp_per_packet_events: true,
        ..config()
    });
    let h = e.connect(1, 2, 0, 1500, NOW).unwrap();
    e.transition_conn(h, TcpState::Established, NOW);
    e.flow_table.get_mut(h).unwrap().snd_wnd = 1000;
    let _ = send_all(&mut e, h, &[5; 10], 42, NOW);
    let _ = e.drain_events(10);
    let id = e.flow_table.get(h).unwrap().rto_timer_id.unwrap();
    assert_eq!(e.on_rto_fire(h, id), RtoStep::Retransmit);
    e.retransmit_queued(h, 0, LossCause::Rto, Mbuf::from_id(50), 54, NOW + 1);
    let released = e.rto_retransmitted(h, &[], NOW + 1).unwrap();
    assert_eq!(released.freed, vec![Mbuf::from_id(42)]);
    assert!(e.flow_table.get(h).is_none());
    assert_eq!(e.counters.tcp.conn_timeout_retrans, 1);
    let evs = e.drain_events(10);
    assert!(evs.contains(&InternalEvent::TcpLossDetected {
        conn: h,
        cause: LossCause::Rto,
        emitted_ts_ns: NOW + 1,
    }));
    assert!(evs.contains(&InternalEvent::Error {
        conn: h,
        err: -ETIMEDOUT,
        emitted_ts_ns: NOW + 1,
    }));
}

#[test]
fn force_close_etimedout_signature_exists() {
    let (mut e, h) = established();
    let _ = send_all(&mut e, h, &[5; 10], 42, NOW);
    let released = e.force_close_etimedout(h, NOW);
    assert_eq!(released.freed, vec![Mbuf::from_id(42)]);
    assert!(e.flow_table.get(h).is_none());
    assert!(e.fire_timers_at(u64::MAX).is_empty());
    let released = e.force_close_etimedout(h, NOW);
    assert!(released.freed.is_empty());
}

#[test]
fn on_tlp_fire_signature_exists() {
    let (mut e, h) = established();
    let id = TimerId { slot: 3, generation: 3 };
    assert_eq!(e.on_tlp_fire(h, id), None);
    let _ = send_all(&mut e, h, &[5; 2000], 42, NOW);
    e.flow_table.get_mut(h).unwrap().tlp_timer_id = Some(id);
    assert_eq!(e.on_tlp_fire(h, id), Some(1));
    assert!(e.flow_table.get(h).unwrap().tlp_timer_id.is_none());
    e.tlp_probed(h, 1, NOW + 5);
    let probe = e.flow_table.get(h).unwrap().tlp_recent_probes[0].unwrap();
    assert_eq!(probe.len, 540);
    assert_eq!(probe.tx_ts_ns, NOW + 5);
    assert_eq!(e.counters.tcp.tx_tlp, 1);
}

#[test]
fn on_syn_retrans_fire_signature_exists() {
    let mut e = engine();
    let h = e.connect(1, 2, 0, 1500, NOW).unwrap();
    e.connect_sent(h, NOW, NOW);
    assert!(matches!(
        e.on_syn_retrans_fire(h, TimerId { slot: 8, generation: 8 }, NOW),
        SynStep::Nothing
    ));
    for n in 1..=3u64 {
        let id = e.flow_table.get(h).unwrap().syn_retrans_timer_id.unwrap();
        assert!(matches!(
            e.on_syn_retrans_fire(h, id, NOW + n),
            SynStep::Resend { flags: 0x02 }
        ));
        e.syn_retransmitted(h, true, NOW + n);
    }
    let id = e.flow_table.get(h).unwrap().syn_retrans_timer_id.unwrap();
    assert!(matches!(e.on_syn_retrans_fire(h, id, NOW + 9), SynStep::GaveUp(_)));
    assert!(e.flow_table.get(h).is_none());
    assert_eq!(e.counters.tcp.conn_timeout_syn_sent, 1);
}

#[test]
fn syn_timeouts_double() {
    let first = syn_backoff(5_000, 1_000, 1);
    assert_eq!(first, 10_000);
    assert_eq!(syn_backoff(5_000, 1_000, 2), 20_000);
    assert_eq!(syn_backoff(5_000, 9_000, 1), 18_000);
    assert_eq!(syn_backoff(5_000, 1_000, 6), 320_000);
    assert_eq!(syn_backoff(5_000, 1_000, 200), 320_000);
    assert_eq!(syn_backoff(1 << 26, 0, 5), 1 << 31);
    assert_eq!(syn_backoff(1 << 26, 0, 6), u32::MAX);
    assert_eq!(syn_backoff(u32::MAX, 0, 1), u32::MAX);
    assert_eq!(syn_backoff(0x8000_0001, 0, 1), u32::MAX);
}

#[test]
fn arm_tlp_pto_signature_exists() {
    let (mut e, h) = established();
    e.arm_tlp_pto(h, 700, NOW);
    assert!(e.flow_table.get(h).unwrap().tlp_timer_id.is_none());
    let _ = send_all(&mut e, h, &[5; 10], 42, NOW);
    {
        let c = e.flow_table.get_mut(h).unwrap();
        c.rtt_est.sample(5_000);
        c.tlp_rtt_sample_seen_since_last_tlp = true;
    }
    e.arm_tlp_pto(h, 700, NOW);
    assert!(e.flow_table.get(h).unwrap().tlp_timer_id.is_some());
    let fired = e.fire_timers_at(NOW + 700_000);
    assert_eq!(fired.len(), 1);
    assert_eq!(fired[0].1.kind, TimerKind::Tlp);
}

#[test]
fn flush_tx_pending_data_signature_exists() {
    let mut e = engine();
    let none = e.take_tx_pending_data();
    assert!(e.drain_tx_pending_data(&none, 0).is_empty());
    assert_eq!(e.counters.tcp.tx_flush_bursts, 0);
    e.tx_pending_data = vec![Mbuf::from_id(1), Mbuf::from_id(2), Mbuf::from_id(3)];
    let burst = e.take_tx_pending_data();
    assert!(e.tx_pending_data.is_empty());
    assert_eq!(e.drain_tx_pending_data(&burst, 2), vec![Mbuf::from_id(3)]);
    assert_eq!(e.counters.eth.tx_drop_full_ring, 1);
    assert_eq!(e.counters.eth.tx_pkts, 2);
    assert_eq!(e.counters.tcp.tx_flush_batched_pkts, 2);
    assert_eq!(e.counters.tcp.tx_flush_bursts, 1);
}

#[test]
fn rx_enomem_edge_trigger_signature_exists() {
    let mut e = engine();
    assert_eq!(e.rx_drop_nomem_prev(), 0);
    e.check_and_emit_rx_enomem(NOW);
    assert!(e.drain_events(1).is_empty());
    e.counters.eth.rx_drop_nomem = 5;
    e.check_and_emit_rx_enomem(NOW);
    e.check_and_emit_rx_enomem(NOW);
    assert_eq!(
        e.drain_events(9),
        vec![InternalEvent::Error { conn: 0, err: -ENOMEM, emitted_ts_ns: NOW }]
    );
    assert_eq!(e.rx_drop_nomem_prev(), 5);
}

#[test]
fn public_timer_add_cancel_signature_exists() {
    let mut e = engine();
    let id = e.public_timer_add(0, 0);
    assert!(e.public_timer_cancel(id));
    assert!(!e.public_timer_cancel(id));
    let id = e.public_timer_add(10_001, 77);
    assert!(e.fire_timers_at(19_999).is_empty());
    let fired = e.fire_timers_at(20_000);
    assert_eq!(fired.len(), 1);
    assert_eq!(fired[0].0, id);
    e.on_api_timer_fire(fired[0].0, fired[0].1.user_data, 20_000);
    assert_eq!(
        e.drain_events(1),
        vec![InternalEvent::ApiTimer { timer_id: id, user_data: 77, emitted_ts_ns: 20_000 }]
    );
}

#[test]
fn a_fired_timer_is_not_cancelled_for_its_successor() {
    let mut e = engine();
    let old = e.public_timer_add(10_000, 1);
    assert_eq!(e.fire_timers_at(10_000).len(), 1);
    let new = e.public_timer_add(20_000, 2);
    assert_eq!(new.slot, old.slot);
    assert_eq!(new.generation, old.generation.wrapping_add(1));
    assert!(!e.public_timer_cancel(old));
    assert_eq!(e.fire_timers_at(20_000).len(), 1);
}

#[test]
fn force_tw_skip_short_circuits_reap() {
    let mut ft = FlowTable::new(8);
    let tuple_a = FourTuple {
        local_ip: 1,
        local_port: 40000,
        peer_ip: 2,
        peer_port: 5000,
    };
    let tuple_b = FourTuple {
        local_ip: 1,
        local_port: 40001,
        peer_ip: 2,
        peer_port: 5001,
    };
    let h_a = ft
        .insert(TcpConn::new_client(
            tuple_a, 0, 1460, 1024, 2048, 5_000, 5_000, 1_000_000,
        ))
        .unwrap();
    let h_b = ft
        .insert(TcpConn::new_client(
            tuple_b, 0, 1460, 1024, 2048, 5_000, 5_000, 1_000_000,
        ))
        .unwrap();
    let now: u64 = 1_000_000_000;
    if let Some(c) = ft.get_mut(h_a) {
        c.state = TcpState::TimeWait;
        c.force_tw_skip = true;
        c.time_wait_deadline_ns = Some(now + 60_000_000_000);
    }
    if let Some(c) = ft.get_mut(h_b) {
        c.state = TcpState::TimeWait;
        c.force_tw_skip = false;
        c.time_wait_deadline_ns = Some(now + 60_000_000_000);
    }
    let mut e = engine();
    e.flow_table = ft;
    let reaped = e.reap_time_wait(now);
    assert_eq!(reaped.handles.len(), 1, "only A reaps under short-circuit");
    assert_eq!(reaped.handles[0], h_a);
    assert!(e.flow_table.get(h_a).is_none());
    assert!(e.flow_table.get(h_b).is_some());
    assert_eq!(e.counters.tcp.conn_time_wait_reaped, 1);
    assert_eq!(e.counters.tcp.state_trans[10][0], 1);
}

#[test]
fn a_wait_ends_after_two_lifetimes() {
    let (mut e, h) = established();
    e.transition_conn(h, TcpState::TimeWait, NOW);
    assert_eq!(
        e.flow_table.get(h).unwrap().time_wait_deadline_ns,
        Some(NOW + 60_000_000_000)
    );
    assert!(e.reap_time_wait(NOW + 59_999_999_999).handles.is_empty());
    assert_eq!(e.reap_time_wait(NOW + 60_000_000_000).handles, vec![h]);
}

#[test]
fn frames_sent_are_counted_by_what_became_of_them() {
    let mut e = engine();
    assert!(e.tx_frame(60, TxAttempt::Sent));
    assert!(!e.tx_frame(60, TxAttempt::NoBuffer));
    assert!(!e.tx_frame(60, TxAttempt::RingFull));
    assert!(!e.tx_frame(70_000, TxAttempt::Sent));
    assert_eq!(e.counters.eth.tx_pkts, 1);
    assert_eq!(e.counters.eth.tx_bytes, 60);
    assert_eq!(e.counters.eth.tx_drop_nomem, 2);
    assert_eq!(e.counters.eth.tx_drop_full_ring, 1);
}

#[test]
fn edges_out_of_order_are_refused() {
    let mut cfg = config();
    cfg.rtt_histogram_bucket_edges_us = [9; 15];
    let up = BringUp {
        port: no_port_outcome(),
        counters: Counters::new(),
        rx_timestamp: RxTimestamp { offset: None, flag_mask: None },
        our_mac: [0; 6],
        xstat_map: XstatMap::from_lookup(|_| None),
        iss_gen: IssGen::new([0; 16], [0; 16]),
    };
    assert!(matches!(
        Engine::new(cfg, features(), up),
        Err(Error::InvalidHistogramEdges)
    ));
}

#[test]
fn local_addresses_are_added_once() {
    let mut e = engine();
    assert!(!e.add_local_ip(0));
    assert!(!e.add_local_ip(0x0a00_0002));
    assert!(!e.add_local_ip(0x0a00_0003));
    assert!(e.add_local_ip(0x0a00_0004));
    assert!(!e.add_local_ip(0x0a00_0004));
    assert_eq!(e.secondary_local_ips(), vec![0x0a00_0003, 0x0a00_0004]);
    let opts = ConnectOpts { local_addr: 0x0a00_0004, ..ConnectOpts::default() };
    assert!(e.connect_with_opts(1, 2, 0, opts, 1500, NOW).is_ok());
}

#[test]
fn a_receive_time_needs_offset_and_flag() {
    let mut e = engine();
    assert_eq!(e.hw_rx_ts_ns(u64::MAX, 5), 0);
    e.rx_timestamp = RxTimestamp { offset: Some(8), flag_mask: Some(4) };
    assert_eq!(e.hw_rx_ts_ns(4, 5), 5);
    assert_eq!(e.hw_rx_ts_ns(3, 5), 0);
}

#[test]
fn an_injected_frame_is_counted_or_refused() {
    let mut e = engine();
    assert!(matches!(e.inject_rx_frame(65_536, true), Err(Error::InvalidArgument)));
    assert!(matches!(e.inject_rx_frame(60, false), Err(Error::InvalidArgument)));
    assert!(e.inject_rx_frame(60, true).is_ok());
    assert_eq!(e.counters.eth.rx_pkts, 1);
    assert_eq!(e.counters.eth.rx_bytes, 60);
}
