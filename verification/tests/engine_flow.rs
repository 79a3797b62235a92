use dpdk_net_core::arp::{build_arp_request, ARP_FRAME_LEN};
use dpdk_net_core::counters::Counters;
use dpdk_net_core::ena_xstats::XstatMap;
use dpdk_net_core::engine::{BringUp, Engine};
use dpdk_net_core::engine_config::EngineConfig;
use dpdk_net_core::engine_input::Delivered;
use dpdk_net_core::engine_listen::SynDecision;
use dpdk_net_core::engine_loop::{PollAction, PollReply, PollRun, PollStage};
use dpdk_net_core::engine_port::{no_port_outcome, Features, RxTimestamp};
use dpdk_net_core::engine_rx::{mbuf_insert_ctx, ChecksumGate, RxStep, SegmentTarget};
use dpdk_net_core::engine_segment::{InputAction, InputStage, SegmentRun};
use dpdk_net_core::error::Error;
use dpdk_net_core::flow_table::{ConnHandle, FourTuple};
use dpdk_net_core::icmp::IcmpResult;
use dpdk_net_core::iss::IssGen;
use dpdk_net_core::l3_ip::internet_checksum;
use dpdk_net_core::mempool::Mbuf;
use dpdk_net_core::tcp_conn::{InOrderSegment, TcpConn};
use dpdk_net_core::tcp_events::{InternalEvent, LossCause};
use dpdk_net_core::tcp_input::{MbufInsertCtx, Outcome, ParsedSegment, TcpParseError, TxAction};
use dpdk_net_core::tcp_state::TcpState;

const NOW: u64 = 1_000_000_000;
const OUR_MAC: [u8; 6] = [2, 0, 0, 0, 0, 2];
const OUR_IP: u32 = 0x0a00_0002;
const PEER_IP: u32 = 0x0a00_0009;

fn engine() -> Engine {
    let cfg = EngineConfig {
        local_ip: OUR_IP,
        gateway_ip: 0x0a00_0001,
        gateway_mac: [2, 0, 0, 0, 0, 1],
        ..EngineConfig::default()
    };
    let features = Features {
        hw_offload_mbuf_fast_free: true,
        hw_offload_tx_cksum: true,
        hw_offload_rx_cksum: true,
        hw_offload_rss_hash: true,
        hw_offload_rx_timestamp: true,
        obs_poll_saturation: true,
        obs_byte_counters: true,
        obs_none: false,
        test_server: true,
    };
    let up = BringUp {
        port: no_port_outcome(),
        counters: Counters::new(),
        rx_timestamp: RxTimestamp { offset: None, flag_mask: None },
        our_mac: OUR_MAC,
        xstat_map: XstatMap::from_lookup(|_| None),
        iss_gen: IssGen::new_deterministic_for_test([7; 16], [9; 16]),
    };
    match Engine::new(cfg, features, up) {
        Ok(e) => e,
        Err(e) => panic!("{e:?}"),
    }
}

fn tuple() -> FourTuple {
    FourTuple { local_ip: OUR_IP, local_port: 40_000, peer_ip: PEER_IP, peer_port: 5_000 }
}

fn with_conn(state: TcpState) -> (Engine, ConnHandle) {
    let mut e = engine();
    let mut c = TcpConn::new_client(tuple(), 100, 1460, 4096, 4096, 5_000, 5_000, 1_000_000);
    c.state = state;
    let h = e.flow_table.insert(c).unwrap();
    (e, h)
}

fn seg(flags: u8, payload_len: u16) -> ParsedSegment {
    ParsedSegment {
        src_port: 5_000,
        dst_port: 40_000,
        seq: 900,
        ack: 101,
        flags,
        window: 1000,
        header_len: 20,
        payload_len,
    }
}

fn packet(proto: u8, dst: u32, body: &[u8]) -> Vec<u8> {
    let total = 20 + body.len();
    let mut p = vec![0x45, 0, (total >> 8) as u8, total as u8, 0, 1, 0, 0, 64, proto, 0, 0];
    p.extend_from_slice(&PEER_IP.to_be_bytes());
    p.extend_from_slice(&dst.to_be_bytes());
    let sum = internet_checksum(&[&p]);
    p[10] = (sum >> 8) as u8;
    p[11] = sum as u8;
    p.extend_from_slice(body);
    p
}

fn frame(dst: [u8; 6], ethertype: u16, body: &[u8]) -> Vec<u8> {
    let mut f = dst.to_vec();
    f.extend_from_slice(&[2, 0, 0, 0, 0, 9]);
    f.extend_from_slice(&ethertype.to_be_bytes());
    f.extend_from_slice(body);
    f
}

/// Runs a segment to its end; every segment handed out counts as sent.
fn run_to_end(e: &mut Engine, run: &mut SegmentRun) -> Vec<InputAction> {
    let mut out = Vec::new();
    while run.stage != InputStage::Over {
        match e.tcp_input(run, true, 1_000, NOW) {
            InputAction::Nothing => {}
            a => out.push(a),
        }
    }
    out
}

fn refs_of(actions: &[InputAction]) -> Vec<Mbuf> {
    let mut out = Vec::new();
    for a in actions {
        if let InputAction::Release(Delivered { refs, .. }) = a {
            out.extend_from_slice(refs);
        }
    }
    out
}

#[test]
fn frames_are_dropped_and_counted() {
    let mut e = engine();
    assert!(matches!(e.rx_frame(&[0; 5], 0), RxStep::Done));
    assert!(matches!(e.rx_frame(&frame([9; 6], 0x0800, &[0; 40]), 0), RxStep::Done));
    assert!(matches!(e.rx_frame(&frame(OUR_MAC, 0x1234, &[0; 40]), 0), RxStep::Done));
    assert_eq!(e.counters.eth.rx_drop_short, 1);
    assert_eq!(e.counters.eth.rx_drop_miss_mac, 1);
    assert_eq!(e.counters.eth.rx_drop_unknown_ethertype, 1);
}

#[test]
fn a_request_for_our_address_is_answered() {
    let mut e = engine();
    let mut f = vec![0u8; ARP_FRAME_LEN];
    let _ = build_arp_request([2, 0, 0, 0, 0, 9], PEER_IP, OUR_IP, &mut f);
    match e.rx_frame(&f, 0) {
        RxStep::ArpReply(r) => {
            assert_eq!(&r[0..6], &[2, 0, 0, 0, 0, 9]);
            assert_eq!(&r[6..12], &OUR_MAC);
            assert_eq!(r[21], 2);
        }
        other => panic!("{other:?}"),
    }
    e.arp_reply_sent();
    assert_eq!(e.counters.eth.rx_arp, 1);
    assert_eq!(e.counters.eth.tx_arp, 1);
    let _ = build_arp_request([2, 0, 0, 0, 0, 9], PEER_IP, 77, &mut f);
    assert!(matches!(e.rx_frame(&f, 0), RxStep::Done));
}

#[test]
fn packets_go_by_their_protocol() {
    let mut e = engine();
    match e.rx_frame(&frame(OUR_MAC, 0x0800, &packet(6, OUR_IP, &[1; 20])), 0) {
        RxStep::Tcp { ip, tcp_start, tcp_end } => {
            assert_eq!(ip.src_ip, PEER_IP);
            assert_eq!((tcp_start, tcp_end), (34, 54));
        }
        other => panic!("{other:?}"),
    }
    match e.rx_frame(&frame(OUR_MAC, 0x0800, &packet(1, OUR_IP, &[1; 8])), 0) {
        RxStep::Icmp { start, end } => assert_eq!((start, end), (34, 42)),
        other => panic!("{other:?}"),
    }
    assert!(matches!(
        e.rx_frame(&frame(OUR_MAC, 0x0800, &packet(17, OUR_IP, &[1; 8])), 0),
        RxStep::Done
    ));
    assert!(matches!(
        e.rx_frame(&frame(OUR_MAC, 0x0800, &packet(6, 1, &[1; 20])), 0),
        RxStep::Done
    ));
    let mut bad = packet(6, OUR_IP, &[1; 20]);
    bad[8] = 63;
    assert!(matches!(e.rx_frame(&frame(OUR_MAC, 0x0800, &bad), 0), RxStep::Done));
    assert_eq!(e.counters.ip.rx_tcp, 1);
    assert_eq!(e.counters.ip.rx_icmp, 1);
    assert_eq!(e.counters.ip.rx_drop_unsupported_proto, 1);
    assert_eq!(e.counters.ip.rx_drop_not_ours, 1);
    assert_eq!(e.counters.ip.rx_csum_bad, 1);
}

#[test]
fn messages_about_paths_are_counted() {
    let mut e = engine();
    e.icmp_done(IcmpResult::FragNeededPmtuUpdated);
    e.icmp_done(IcmpResult::FragNeededNoShrink);
    e.icmp_done(IcmpResult::OtherDropped);
    e.icmp_done(IcmpResult::Malformed);
    assert_eq!(e.counters.ip.rx_icmp_frag_needed, 2);
    assert_eq!(e.counters.ip.pmtud_updates, 1);
}

#[test]
fn the_port_may_judge_checksums() {
    let mut e = engine();
    let good = 1u64 << 8;
    let bad = 1u64 << 3;
    assert_eq!(e.checksum_gate(good), ChecksumGate::Verify);
    e.rx_cksum_offload_active = true;
    assert_eq!(e.checksum_gate(good), ChecksumGate::Trust);
    assert_eq!(e.checksum_gate(0), ChecksumGate::Verify);
    assert_eq!(e.checksum_gate(bad), ChecksumGate::Drop);
    assert_eq!(e.counters.eth.rx_drop_cksum_bad, 1);
    assert_eq!(e.counters.tcp.rx_bad_csum, 1);
}

#[test]
fn a_packet_with_a_bad_checksum_is_counted_once() {
    let bad = 1u64 << 4;
    let f = frame(OUR_MAC, 0x0800, &packet(6, OUR_IP, &[0; 20]));
    let mut e = engine();
    e.rx_cksum_offload_active = true;
    assert!(matches!(e.rx_frame(&f, bad), RxStep::Done));
    assert_eq!(e.counters.ip.rx_csum_bad, 1);
    assert_eq!(e.counters.eth.rx_drop_cksum_bad, 1);
    let mut spoiled = f.clone();
    spoiled[24] ^= 1;
    let mut e = engine();
    assert!(matches!(e.rx_frame(&spoiled, 0), RxStep::Done));
    assert_eq!(e.counters.ip.rx_csum_bad, 1);
}

#[test]
fn unreadable_segments_are_counted() {
    let mut e = engine();
    e.segment_unreadable(TcpParseError::Short);
    e.segment_unreadable(TcpParseError::BadDataOffset);
    e.segment_unreadable(TcpParseError::BadFlags);
    e.segment_unreadable(TcpParseError::Csum);
    assert_eq!(e.counters.tcp.rx_short, 2);
    assert_eq!(e.counters.tcp.rx_bad_flags, 1);
    assert_eq!(e.counters.tcp.rx_bad_csum, 1);
}

#[test]
fn a_segment_finds_its_connection_or_nobody() {
    let (mut e, h) = with_conn(TcpState::Established);
    assert_eq!(e.match_segment(PEER_IP, OUR_IP, &seg(0x11, 5)), SegmentTarget::Conn(h));
    assert_eq!(e.counters.tcp.rx_ack, 1);
    assert_eq!(e.counters.tcp.rx_fin, 1);
    assert_eq!(e.counters.tcp.rx_data, 1);
    assert_eq!(e.match_segment(1, OUR_IP, &seg(0x02, 0)), SegmentTarget::Nobody);
    let l = e.listen(OUR_IP, 40_000).unwrap();
    assert_eq!(e.match_segment(1, OUR_IP, &seg(0x02, 0)), SegmentTarget::Listener(l));
    assert_eq!(e.match_segment(1, OUR_IP, &seg(0x12, 0)), SegmentTarget::Nobody);
    assert_eq!(e.counters.tcp.rx_unmatched, 2);
}

#[test]
fn a_segment_of_nobody_is_reset() {
    let e = engine();
    assert!(e.send_rst_unmatched(&tuple(), &seg(0x04, 0)).is_none());
    let r = e.send_rst_unmatched(&tuple(), &seg(0x10, 7)).unwrap();
    assert_eq!((r.seq, r.ack, r.flags), (101, 0, 0x04));
    let r = e.send_rst_unmatched(&tuple(), &seg(0x03, 7)).unwrap();
    assert_eq!((r.seq, r.ack, r.flags), (0, 909, 0x14));
}

#[test]
fn a_buffer_is_kept_for_payload_only() {
    let m = Some(Mbuf::from_id(3));
    assert_eq!(mbuf_insert_ctx(m, 34, &seg(0x10, 0)), None);
    assert_eq!(mbuf_insert_ctx(None, 34, &seg(0x10, 4)), None);
    assert_eq!(
        mbuf_insert_ctx(m, 34, &seg(0x10, 4)),
        Some(MbufInsertCtx { mbuf: Mbuf::from_id(3), payload_offset: 54 })
    );
}

#[test]
fn payload_is_delivered_in_one_event() {
    let (mut e, h) = with_conn(TcpState::Established);
    {
        let c = e.flow_table.get_mut(h).unwrap();
        for (id, len) in [(11u64, 100u16), (12, 200)] {
            c.recv.bytes.push_back(InOrderSegment { mbuf: Mbuf::from_id(id), offset: 54, len });
        }
    }
    let mut o = Outcome::base();
    o.delivered = 150;
    o.tx = TxAction::Ack;
    let mut run = SegmentRun::new(h, tuple(), seg(0x18, 150), o, None, 33);
    let actions = run_to_end(&mut e, &mut run);
    assert!(actions.iter().any(|a| matches!(a, InputAction::Send(s) if s.flags == 0x10)));
    let split = actions.iter().any(|a| {
        matches!(a, InputAction::Release(d) if d.retain == Some(Mbuf::from_id(12)))
    });
    assert!(split);
    assert_eq!(
        e.drain_events(9),
        vec![InternalEvent::Readable {
            conn: h,
            seg_idx_start: 0,
            seg_count: 2,
            total_len: 150,
            rx_hw_ts_ns: 33,
            emitted_ts_ns: NOW,
        }]
    );
    let c = e.flow_table.get(h).unwrap();
    assert_eq!(c.delivered_mbufs(), vec![Mbuf::from_id(11), Mbuf::from_id(12)]);
    assert_eq!(c.recv.bytes.len(), 1);
    assert_eq!(c.recv.bytes[0].len, 150);
    assert_eq!(c.recv.bytes[0].offset, 104);
    let lens: Vec<u32> = c.readable_scratch_iovecs.iter().map(|v| v.len).collect();
    assert_eq!(lens, vec![100, 50]);
    assert_eq!(e.counters.tcp.rx_partial_read_splits, 1);
    assert_eq!(e.counters.tcp.rx_multi_seg_events, 1);
    assert_eq!(e.counters.tcp.rx_iovec_segs_total, 2);
    assert_eq!(e.counters.tcp.recv_buf_delivered, 150);
    assert_eq!(e.counters.tcp.tx_ack, 1);
    let dropped = e.poll_begin();
    assert_eq!(dropped, vec![Mbuf::from_id(11), Mbuf::from_id(12)]);
    assert!(e.flow_table.get(h).unwrap().delivered_mbufs().is_empty());
}

#[test]
fn a_reference_that_is_not_kept_is_dropped() {
    let (mut e, h) = with_conn(TcpState::Established);
    let ctx = Some(MbufInsertCtx { mbuf: Mbuf::from_id(5), payload_offset: 54 });
    let mut run = SegmentRun::new(h, tuple(), seg(0x10, 9), Outcome::base(), ctx, 0);
    assert_eq!(refs_of(&run_to_end(&mut e, &mut run)), vec![Mbuf::from_id(5)]);
    let mut o = Outcome::base();
    o.mbuf_ref_retained = true;
    let mut run = SegmentRun::new(h, tuple(), seg(0x10, 9), o, ctx, 0);
    assert!(refs_of(&run_to_end(&mut e, &mut run)).is_empty());
}

#[test]
fn an_acknowledgement_frees_and_cancels() {
    let (mut e, h) = with_conn(TcpState::Established);
    e.flow_table.get_mut(h).unwrap().snd_wnd = 1000;
    let mut send = e.send_bytes(h, &[1; 10], NOW).unwrap();
    e.segment_built(&mut send, Some((Mbuf::from_id(21), 64)), NOW);
    let _ = e.send_done(&send);
    e.flow_table.get_mut(h).unwrap().snd_una = 110;
    let mut o = Outcome::base();
    o.snd_una_advanced_to = Some(110);
    let mut run = SegmentRun::new(h, tuple(), seg(0x10, 0), o, None, 0);
    let actions = run_to_end(&mut e, &mut run);
    assert!(actions.iter().any(
        |a| matches!(a, InputAction::Free(f) if f == &vec![Mbuf::from_id(21)])
    ));
    assert!(e.flow_table.get(h).unwrap().rto_timer_id.is_none());
    assert!(e.fire_timers_at(u64::MAX).is_empty());
}

#[test]
fn a_partial_acknowledgement_starts_the_timer_over() {
    let (mut e, h) = with_conn(TcpState::Established);
    e.flow_table.get_mut(h).unwrap().snd_wnd = 1000;
    for id in [21u64, 22] {
        let mut send = e.send_bytes(h, &[1; 10], NOW).unwrap();
        e.segment_built(&mut send, Some((Mbuf::from_id(id), 64)), NOW);
        let _ = e.send_done(&send);
    }
    e.flow_table.get_mut(h).unwrap().snd_una = 110;
    let first = e.flow_table.get(h).unwrap().rto_timer_id;
    assert_eq!(e.settle_ack(h, 110, NOW + 7), vec![Mbuf::from_id(21)]);
    let c = e.flow_table.get(h).unwrap();
    assert_ne!(c.rto_timer_id, first);
    assert_eq!(c.timer_ids, vec![c.rto_timer_id.unwrap()]);
    let fired = e.fire_timers_at(u64::MAX);
    assert_eq!(fired.len(), 1);
    assert_eq!(fired[0].1.fire_at_ns, NOW + 7 + 5_000_000);
}

#[test]
fn lost_segments_are_sent_again_first() {
    let (mut e, h) = with_conn(TcpState::Established);
    let mut o = Outcome::base();
    o.rack_lost_indexes = vec![3, 1];
    let mut run = SegmentRun::new(h, tuple(), seg(0x10, 0), o, None, 0);
    let idxs: Vec<usize> = run_to_end(&mut e, &mut run)
        .iter()
        .filter_map(|a| match a {
            InputAction::Retransmit(r) => {
                assert_eq!(r.handle, h);
                assert_eq!(r.cause, LossCause::Rack);
                Some(r.index)
            }
            _ => None,
        })
        .collect();
    assert_eq!(idxs, vec![3, 1]);
    assert_eq!(e.counters.tcp.tx_rack_loss, 2);
}

#[test]
fn a_refused_segment_is_reset_and_closed() {
    let (mut e, h) = with_conn(TcpState::SynReceived);
    let mut o = Outcome::base();
    o.tx = TxAction::Rst;
    o.closed = true;
    let mut run = SegmentRun::new(h, tuple(), seg(0x10, 3), o, None, 0);
    let actions = run_to_end(&mut e, &mut run);
    let rst = actions.iter().find_map(|a| match a {
        InputAction::Send(s) => Some((s.seq, s.ack, s.flags)),
        _ => None,
    });
    assert_eq!(rst, Some((100, 903, 0x14)));
    assert!(e.flow_table.get(h).is_none());
    assert_eq!(e.counters.tcp.tx_rst, 1);
    assert_eq!(e.counters.tcp.conn_rst, 1);
    assert_eq!(e.counters.tcp.conn_close, 1);
    assert_eq!(e.counters.tcp.state_trans[3][0], 1);
}

#[test]
fn a_bad_answer_to_a_syn_is_reset_without_acknowledgement() {
    let (mut e, h) = with_conn(TcpState::SynSent);
    let mut o = Outcome::base();
    o.tx = TxAction::RstForSynSentBadAck;
    o.closed = true;
    let mut run = SegmentRun::new(h, tuple(), seg(0x12, 0), o, None, 0);
    let actions = run_to_end(&mut e, &mut run);
    assert!(actions.iter().any(
        |a| matches!(a, InputAction::Send(s) if s.seq == 101 && s.ack == 0 && s.flags == 0x04)
    ));
    assert!(e.flow_table.get(h).is_none());
}

#[test]
fn room_to_send_is_reported() {
    let (mut e, h) = with_conn(TcpState::Established);
    let mut o = Outcome::base();
    o.writable_hysteresis_fired = true;
    o.buf_full_drop = 9;
    let mut run = SegmentRun::new(h, tuple(), seg(0x10, 0), o, None, 0);
    let _ = run_to_end(&mut e, &mut run);
    assert_eq!(
        e.drain_events(9),
        vec![InternalEvent::Writable { conn: h, emitted_ts_ns: NOW }]
    );
    assert_eq!(e.counters.tcp.recv_buf_drops, 9);
}

#[test]
fn a_segment_in_time_wait_starts_it_over() {
    let (mut e, h) = with_conn(TcpState::TimeWait);
    let mut o = Outcome::base();
    o.tx = TxAction::Ack;
    let mut run = SegmentRun::new(h, tuple(), seg(0x10, 0), o, None, 0);
    let _ = run_to_end(&mut e, &mut run);
    assert_eq!(
        e.flow_table.get(h).unwrap().time_wait_deadline_ns,
        Some(NOW + 60_000_000_000)
    );
}

fn passive(e: &mut Engine, l: u32) -> ConnHandle {
    match e.handle_inbound_syn_listen(l, PEER_IP, 5_000, 900, NOW) {
        SynDecision::Open { tuple, iss } => {
            let mut c =
                TcpConn::new_client(tuple, iss, 1460, 4096, 4096, 5_000, 5_000, 1_000_000);
            c.state = TcpState::SynReceived;
            c.is_passive_open = true;
            c.rcv_nxt = 901;
            let h = e.admit_passive(l, c).unwrap();
            e.passive_opened(h);
            e.emit_syn_ack_for_passive(h, NOW);
            h
        }
        other => panic!("{other:?}"),
    }
}

#[test]
fn a_slot_serves_one_handshake_at_a_time() {
    let mut e = engine();
    let l = e.listen(OUR_IP, 40_000).unwrap();
    assert!(matches!(e.listen(OUR_IP, 40_000), Err(Error::InvalidArgument)));
    assert!(matches!(
        e.handle_inbound_syn_listen(l + 5, PEER_IP, 5_000, 900, NOW),
        SynDecision::NoSlot
    ));
    let h = passive(&mut e, l);
    assert_eq!(e.counters.tcp.tx_syn, 1);
    assert_eq!(e.state_of(h), Some(TcpState::SynReceived));
    assert_eq!(e.conn_peer_mss(h), Some(1460));
    match e.handle_inbound_syn_listen(l, PEER_IP, 5_001, 55, NOW) {
        SynDecision::Refuse(s) => assert_eq!((s.seq, s.ack, s.flags), (0, 56, 0x14)),
        other => panic!("{other:?}"),
    }
    assert_eq!(e.accept_next(l), None);
    let mut o = Outcome::base();
    o.connected = true;
    o.new_state = Some(TcpState::Established);
    let mut run = SegmentRun::new(h, tuple(), seg(0x10, 0), o, None, 8);
    let _ = run_to_end(&mut e, &mut run);
    assert_eq!(e.counters.tcp.conn_open, 1);
    assert_eq!(e.accept_next(l), Some(h));
    assert_eq!(e.accept_next(l), None);
    assert_eq!(e.state_of(h), Some(TcpState::Established));
    assert_eq!(e.state_of(99), None);
}

#[test]
fn a_reset_handshake_listens_again() {
    let mut e = engine();
    let l = e.listen(OUR_IP, 40_000).unwrap();
    let h = passive(&mut e, l);
    let mut o = Outcome::base();
    o.re_listen_if_passive = true;
    let mut run = SegmentRun::new(h, tuple(), seg(0x04, 0), o, None, 0);
    let _ = run_to_end(&mut e, &mut run);
    assert!(e.flow_table.get(h).is_none());
    assert!(e.fire_timers_at(u64::MAX).is_empty());
    assert_eq!(e.counters.tcp.state_trans[3][1], 1);
    let _ = passive(&mut e, l);
}

#[test]
fn a_failed_handshake_frees_its_slot() {
    let mut e = engine();
    let l = e.listen(OUR_IP, 40_000).unwrap();
    let h = passive(&mut e, l);
    let mut o = Outcome::base();
    o.clear_listen_slot_on_close = true;
    o.tx = TxAction::Rst;
    o.closed = true;
    let mut run = SegmentRun::new(h, tuple(), seg(0x10, 0), o, None, 0);
    let _ = run_to_end(&mut e, &mut run);
    let _ = passive(&mut e, l);
}

#[test]
fn a_repeated_syn_is_answered_again() {
    let mut e = engine();
    let l = e.listen(OUR_IP, 40_000).unwrap();
    let h = passive(&mut e, l);
    let mut o = Outcome::base();
    o.retransmit_syn_ack_for_passive = true;
    let mut run = SegmentRun::new(h, tuple(), seg(0x02, 0), o, None, 0);
    let actions = run_to_end(&mut e, &mut run);
    assert!(actions.iter().any(
        |a| matches!(a, InputAction::Send(s) if s.flags == 0x12 && s.ack == 901)
    ));
    assert_eq!(e.counters.tcp.tx_retrans, 1);
    assert_eq!(e.counters.tcp.tx_syn, 1);
    assert_eq!(e.flow_table.get(h).unwrap().syn_tx_ts_ns, 0);
}

fn reply(frames: usize) -> PollReply {
    PollReply { frames, accepted: 40, sent: true }
}

#[test]
fn a_poll_runs_its_steps_in_order() {
    let mut e = engine();
    e.cfg.garp_interval_sec = 1;
    e.tx_pending_data = vec![Mbuf::from_id(1), Mbuf::from_id(2)];
    let id = e.public_timer_add(0, 0);
    let mut run = PollRun::new();
    assert!(matches!(e.poll_once(&mut run, reply(0), NOW), PollAction::Receive(_)));
    assert!(matches!(e.poll_once(&mut run, reply(32), NOW), PollAction::Frames));
    assert!(matches!(e.poll_once(&mut run, reply(0), NOW), PollAction::Nothing));
    match e.poll_once(&mut run, reply(0), NOW) {
        PollAction::Fire(f) => assert_eq!(f[0].0, id),
        other => panic!("{other:?}"),
    }
    assert!(matches!(e.poll_once(&mut run, reply(0), NOW), PollAction::Reaped(_)));
    match e.poll_once(&mut run, reply(0), NOW) {
        PollAction::SendFrame(f) => assert_eq!(&f[0..6], &[0xff; 6]),
        other => panic!("{other:?}"),
    }
    assert!(matches!(e.poll_once(&mut run, reply(0), NOW), PollAction::Nothing));
    assert!(matches!(e.poll_once(&mut run, reply(0), NOW), PollAction::Transmit));
    match e.poll_once(&mut run, reply(1), NOW) {
        PollAction::Free(f) => assert_eq!(f, vec![Mbuf::from_id(2)]),
        other => panic!("{other:?}"),
    }
    assert!(matches!(e.poll_once(&mut run, reply(0), NOW), PollAction::Nothing));
    assert_eq!(run.stage, PollStage::Over);
    assert_eq!(e.last_garp_ns, NOW);
    assert_eq!(e.counters.eth.tx_arp, 1);
    assert_eq!(e.counters.eth.rx_pkts, 32);
    assert_eq!(e.counters.tcp.rx_payload_bytes, 40);
    assert_eq!(e.counters.poll.iters, 1);
    assert_eq!(e.counters.poll.iters_with_rx, 1);
    assert_eq!(e.counters.poll.iters_with_rx_burst_max, 1);
    assert_eq!(e.counters.poll.iters_with_tx, 1);
    assert_eq!(e.counters.poll.iters_idle, 0);
}

#[test]
fn an_idle_poll_skips_the_frames() {
    let mut e = engine();
    let mut run = PollRun::new();
    let mut steps = 0;
    while run.stage != PollStage::Over {
        let a = e.poll_once(&mut run, reply(0), NOW);
        assert!(!matches!(a, PollAction::Frames | PollAction::Transmit));
        steps += 1;
    }
    assert_eq!(steps, 7);
    assert_eq!(e.counters.poll.iters_idle, 1);
    assert_eq!(e.counters.poll.iters_with_rx, 0);
    assert_eq!(e.counters.tcp.rx_payload_bytes, 0);
}

#[test]
fn pinned_buffers_are_let_go_of() {
    let (mut e, h) = with_conn(TcpState::Established);
    e.flow_table
        .get_mut(h)
        .unwrap()
        .recv
        .bytes
        .push_back(InOrderSegment { mbuf: Mbuf::from_id(8), offset: 0, len: 4 });
    assert_eq!(e.test_clear_pinned_rx_mbufs(), vec![Mbuf::from_id(8)]);
    assert!(e.flow_table.get(h).unwrap().recv.bytes.is_empty());
}
