use dpdk_net_core::counters::Counters;
use dpdk_net_core::ena_xstats::XstatMap;
use dpdk_net_core::engine::{BringUp, Engine};
use dpdk_net_core::engine_accept::{AcceptAction, AcceptReply, AcceptRun, AcceptStage};
use dpdk_net_core::engine_config::{ConnectOpts, EngineConfig};
use dpdk_net_core::engine_fire::{FireAction, FireReply, FireRun, FireStage};
use dpdk_net_core::engine_port::{no_port_outcome, Features, RxTimestamp};
use dpdk_net_core::engine_request::{
    CloseAction, CloseRun, CloseStage, ConnectAction, ConnectRun, ConnectStage, SendAction,
    SendFlow, SendReply, SendStage,
};
use dpdk_net_core::engine_resend::{ResendAction, ResendReply, ResendRun, ResendStage};
use dpdk_net_core::error::Error;
use dpdk_net_core::flow_table::ConnHandle;
use dpdk_net_core::iss::IssGen;
use dpdk_net_core::mempool::Mbuf;
use dpdk_net_core::tcp_conn::TcpConn;
use dpdk_net_core::tcp_events::{InternalEvent, LossCause};
use dpdk_net_core::tcp_state::TcpState;
use dpdk_net_core::tcp_timer_wheel::{TimerId, TimerKind, TimerNode};

const NOW: u64 = 1_000_000_000;
const PEER: u32 = 0x0a00_0009;

fn engine_for(cfg: EngineConfig) -> Engine {
    let features = Features {
        hw_offload_mbuf_fast_free: true,
        hw_offload_tx_cksum: true,
        hw_offload_rx_cksum: true,
        hw_offload_rss_hash: true,
        hw_offload_rx_timestamp: true,
        obs_poll_saturation: true,
        obs_byte_counters: true,
        obs_none: false,
        test_server: true,
    };
    let up = BringUp {
        port: no_port_outcome(),
        counters: Counters::new(),
        rx_timestamp: RxTimestamp { offset: None, flag_mask: None },
        our_mac: [2, 0, 0, 0, 0, 2],
        xstat_map: XstatMap::from_lookup(|_| None),
        iss_gen: IssGen::new_deterministic_for_test([7; 16], [9; 16]),
    };
    match Engine::new(cfg, features, up) {
        Ok(e) => e,
        Err(e) => panic!("{e:?}"),
    }
}

fn config() -> EngineConfig {
    EngineConfig {
        local_ip: 0x0a00_0002,
        gateway_ip: 0x0a00_0001,
        gateway_mac: [2, 0, 0, 0, 0, 1],
        ..EngineConfig::default()
    }
}

fn established_in(cfg: EngineConfig) -> (Engine, ConnHandle) {
    let mut e = engine_for(cfg);
    let h = e.connect(PEER, 5000, 0, 1500, NOW).unwrap();
    e.connect_sent(h, NOW, NOW);
    let id = e.flow_table.get(h).unwrap().syn_retrans_timer_id.unwrap();
    e.cancel_syn_timer(h, id);
    {
        let c = e.flow_table.get_mut(h).unwrap();
        c.syn_retrans_timer_id = None;
        c.snd_una = c.iss.wrapping_add(1);
        c.snd_wnd = 10_000;
    }
    e.transition_conn(h, TcpState::Established, NOW);
    (e, h)
}

fn established() -> (Engine, ConnHandle) {
    established_in(config())
}

/// Runs a send to its end. Buffers are handed out as long as there are any;
/// the driver takes every frame. Says what came out and how many bursts went.
fn send(
    e: &mut Engine,
    h: ConnHandle,
    bytes: &[u8],
    buffers: u64,
) -> (Result<u32, Error>, usize) {
    let mut flow = SendFlow::new(e.send_bytes(h, bytes, NOW).unwrap());
    let mut reply = SendReply { built: None, frames: 0, pto_us: 700 };
    let mut next = 1;
    let mut bursts = 0;
    loop {
        match e.send_step(&mut flow, reply, NOW) {
            SendAction::Nothing => {}
            SendAction::Build => {
                assert_eq!(flow.stage, SendStage::Built);
                let len = flow.run.segs[flow.run.next].payload.len() as u16;
                reply.built =
                    if next <= buffers { Some((Mbuf::from_id(next), len + 54)) } else { None };
                next += 1;
            }
            SendAction::Transmit => {
                reply.frames = flow.burst.len();
                bursts += 1;
            }
            SendAction::Free(rest) => assert!(rest.is_empty()),
            SendAction::Done(r) => {
                assert_eq!(flow.stage, SendStage::Over);
                assert!(matches!(e.send_step(&mut flow, reply, NOW), SendAction::Nothing));
                return (r, bursts);
            }
        }
    }
}

/// Runs a fired timer to its end. Every frame is taken, `lost` is what is
/// found lost, and retransmissions get a buffer where `build` says so.
fn fire(
    e: &mut Engine,
    id: TimerId,
    node: TimerNode,
    lost: &[u16],
    build: &[bool],
    sent: bool,
) -> FireRun {
    let mut run = FireRun::new(id, node);
    let mut frames = 0;
    let mut built = None;
    let mut builds = 0;
    while run.stage != FireStage::Over {
        let reply = FireReply { lost: lost.to_vec(), frames, built, sent };
        match e.fire(&mut run, reply, NOW + 5) {
            FireAction::Resend(ResendAction::Transmit) => frames = run.resend.burst.len(),
            FireAction::Resend(ResendAction::Build(plan)) => {
                assert_eq!(plan.data, Mbuf::from_id(1 + run.resend.index as u64));
                built = if build[builds] { Some((Mbuf::from_id(90), 54)) } else { None };
                builds += 1;
            }
            _ => {}
        }
    }
    run
}

fn due(e: &mut Engine, kind: TimerKind) -> (TimerId, TimerNode) {
    let fired = e.fire_timers_at(NOW + 3_600_000_000_000);
    *fired.iter().find(|f| f.1.kind == kind).unwrap()
}

#[test]
fn a_timeout_counts_once_and_each_retransmission_counts() {
    let (mut e, h) = established();
    assert_eq!(send(&mut e, h, &[1; 4000], 9).0.unwrap(), 4000);
    let (id, node) = due(&mut e, TimerKind::Rto);
    let run = fire(&mut e, id, node, &[0, 1, 2], &[true, true, true], true);
    assert_eq!(run.resent, 3);
    assert_eq!(e.counters.tcp.tx_rto, 1);
    assert_eq!(e.counters.tcp.tx_retrans, 3);
    assert_eq!(e.counters.tcp.tx_retrans_rto, 3);
    assert_eq!(e.counters.tcp.tx_retrans_tlp, 0);
    assert_eq!(e.counters.tcp.tx_retrans_rack, 0);
    let c = e.flow_table.get(h).unwrap();
    assert!(c.rto_timer_id.is_some());
    assert_eq!(c.snd_retrans.get(2).unwrap().xmit_count, 2);
}

#[test]
fn a_retransmission_without_a_buffer_is_not_counted() {
    let (mut e, h) = established();
    assert_eq!(send(&mut e, h, &[1; 4000], 9).0.unwrap(), 4000);
    let (id, node) = due(&mut e, TimerKind::Rto);
    let run = fire(&mut e, id, node, &[0, 1, 2], &[true, false, true], true);
    assert_eq!(run.resent, 2);
    assert_eq!(e.counters.tcp.tx_rto, 1);
    assert_eq!(e.counters.tcp.tx_retrans, 2);
    assert_eq!(e.counters.tcp.tx_retrans_rto, 2);
    assert_eq!(e.counters.eth.tx_drop_nomem, 1);
}

#[test]
fn a_timeout_without_a_known_loss_sends_the_oldest_again() {
    let (mut e, h) = established();
    assert_eq!(send(&mut e, h, &[1; 4000], 9).0.unwrap(), 4000);
    let (id, node) = due(&mut e, TimerKind::Rto);
    let run = fire(&mut e, id, node, &[], &[true], true);
    assert_eq!(run.resent, 1);
    let c = e.flow_table.get(h).unwrap();
    assert_eq!(c.snd_retrans.get(0).unwrap().xmit_count, 2);
    assert_eq!(c.snd_retrans.get(1).unwrap().xmit_count, 1);
}

#[test]
fn a_timer_that_was_replaced_does_nothing() {
    let (mut e, h) = established();
    assert_eq!(send(&mut e, h, &[1; 100], 9).0.unwrap(), 100);
    let (id, node) = due(&mut e, TimerKind::Rto);
    e.flow_table.get_mut(h).unwrap().rto_timer_id = Some(TimerId { slot: 7, generation: 7 });
    let run = fire(&mut e, id, node, &[0], &[true], true);
    assert_eq!(run.resent, 0);
    assert_eq!(e.counters.tcp.tx_rto, 0);
    assert_eq!(e.counters.tcp.tx_retrans, 0);
}

#[test]
fn a_probe_is_counted_as_a_probe() {
    let (mut e, h) = established();
    {
        let c = e.flow_table.get_mut(h).unwrap();
        c.rtt_est.sample(5_000);
        c.tlp_rtt_sample_seen_since_last_tlp = true;
    }
    assert_eq!(send(&mut e, h, &[1; 2000], 9).0.unwrap(), 2000);
    assert!(e.flow_table.get(h).unwrap().tlp_timer_id.is_some());
    let (id, node) = due(&mut e, TimerKind::Tlp);
    let run = fire(&mut e, id, node, &[], &[true], true);
    assert_eq!(run.probe, 1);
    assert_eq!(run.resent, 1);
    assert_eq!(e.counters.tcp.tx_tlp, 1);
    assert_eq!(e.counters.tcp.tx_retrans, 1);
    assert_eq!(e.counters.tcp.tx_retrans_tlp, 1);
    assert_eq!(e.counters.tcp.tx_retrans_rto, 0);
    assert_eq!(e.counters.tcp.tx_rto, 0);
    assert_eq!(e.flow_table.get(h).unwrap().tlp_recent_probes[0].unwrap().len, 540);
}

#[test]
fn a_handshake_is_repeated_and_then_given_up() {
    let mut e = engine_for(config());
    let h = e.connect(PEER, 5000, 0, 1500, NOW).unwrap();
    e.connect_sent(h, NOW, NOW);
    for _ in 0..3 {
        let (id, node) = due(&mut e, TimerKind::SynRetrans);
        let mut run = FireRun::new(id, node);
        let empty = || FireReply { lost: Vec::new(), frames: 0, built: None, sent: true };
        let syn = match e.fire(&mut run, empty(), NOW + 1) {
            FireAction::Send(s) => s,
            a => panic!("{a:?}"),
        };
        assert_eq!(syn.flags, 0x02);
        assert!(matches!(e.fire(&mut run, empty(), NOW + 1), FireAction::Nothing));
        assert_eq!(run.stage, FireStage::Over);
    }
    let (id, node) = due(&mut e, TimerKind::SynRetrans);
    let mut run = FireRun::new(id, node);
    let reply = FireReply { lost: Vec::new(), frames: 0, built: None, sent: false };
    assert!(matches!(e.fire(&mut run, reply, NOW + 1), FireAction::LetGo(_)));
    assert!(e.flow_table.get(h).is_none());
}

#[test]
fn waiting_frames_leave_before_a_retransmission() {
    let (mut e, h) = established();
    assert_eq!(send(&mut e, h, &[1; 100], 9).0.unwrap(), 100);
    assert_eq!(e.tx_pending_data.len(), 1);
    let mut run = ResendRun::new(h, 0, LossCause::Rack);
    let none = ResendReply { frames: 0, built: None };
    assert!(matches!(e.resend(&mut run, none, NOW), ResendAction::Transmit));
    assert_eq!(run.burst, vec![Mbuf::from_id(1)]);
    let none_taken = e.resend(&mut run, none, NOW);
    assert!(matches!(none_taken, ResendAction::Free(rest) if rest == vec![Mbuf::from_id(1)]));
    assert!(matches!(e.resend(&mut run, none, NOW), ResendAction::Build(_)));
    let built = ResendReply { frames: 0, built: Some((Mbuf::from_id(8), 54)) };
    assert!(matches!(e.resend(&mut run, built, NOW), ResendAction::Nothing));
    assert!(run.queued);
    assert_eq!(run.stage, ResendStage::Over);
    assert_eq!(e.tx_pending_data, vec![Mbuf::from_id(8)]);
    assert_eq!(e.counters.tcp.tx_retrans_rack, 1);
    let mut run = ResendRun::new(h, 5, LossCause::Rack);
    while run.stage != ResendStage::Over {
        let _ = e.resend(&mut run, none, NOW);
    }
    assert!(!run.queued);
    assert_eq!(e.counters.tcp.tx_retrans, 1);
}

#[test]
fn a_connection_remembers_when_its_syn_was_built() {
    let mut e = engine_for(config());
    let mut run = ConnectRun::new(PEER, 5000, 0, ConnectOpts::default(), 1500);
    let syn = match e.connect_step(&mut run, false, NOW) {
        ConnectAction::Send(s) => s,
        a => panic!("{a:?}"),
    };
    assert_eq!(syn.flags, 0x02);
    assert_eq!(run.stage, ConnectStage::SynSent);
    let h = match e.connect_step(&mut run, true, NOW + 500) {
        ConnectAction::Opened(h) => h,
        a => panic!("{a:?}"),
    };
    let c = e.flow_table.get(h).unwrap();
    assert_eq!(c.state, TcpState::SynSent);
    assert_eq!(c.syn_tx_ts_ns, NOW);
    assert_eq!(c.snd_nxt, syn.seq.wrapping_add(1));
    assert!(c.syn_retrans_timer_id.is_some());
    assert_eq!(e.counters.tcp.tx_syn, 1);
    assert!(matches!(e.connect_step(&mut run, true, NOW), ConnectAction::Nothing));
}

#[test]
fn a_connection_whose_syn_was_not_sent_is_refused() {
    let mut e = engine_for(config());
    let mut run = ConnectRun::new(PEER, 5000, 0, ConnectOpts::default(), 1500);
    assert!(matches!(e.connect_step(&mut run, false, NOW), ConnectAction::Send(_)));
    let h = run.handle;
    assert!(e.flow_table.get(h).is_some());
    let r = e.connect_step(&mut run, false, NOW);
    assert!(matches!(r, ConnectAction::Refused(Error::PeerUnreachable(PEER))));
    assert!(e.flow_table.get(h).is_none());
    assert_eq!(run.stage, ConnectStage::Over);
    let mut e = engine_for(EngineConfig { local_ip: 0, ..config() });
    let mut run = ConnectRun::new(PEER, 5000, 0, ConnectOpts::default(), 1500);
    let r = e.connect_step(&mut run, false, NOW);
    assert!(matches!(r, ConnectAction::Refused(Error::PeerUnreachable(PEER))));
}

#[test]
fn a_send_makes_room_in_a_full_ring() {
    let (mut e, h) = established_in(EngineConfig { tx_ring_size: 2, ..config() });
    let (r, bursts) = send(&mut e, h, &[1; 7000], 9);
    assert_eq!(r.unwrap(), 7000);
    assert_eq!(bursts, 2);
    assert_eq!(e.tx_pending_data, vec![Mbuf::from_id(5)]);
    assert_eq!(e.flow_table.get(h).unwrap().snd_retrans.len(), 5);
}

#[test]
fn a_send_that_runs_out_of_buffers_keeps_what_was_queued() {
    let (mut e, h) = established();
    {
        let c = e.flow_table.get_mut(h).unwrap();
        c.rtt_est.sample(5_000);
        c.tlp_rtt_sample_seen_since_last_tlp = true;
    }
    let start = e.flow_table.get(h).unwrap().snd_nxt;
    let (r, _) = send(&mut e, h, &[1; 4000], 0);
    assert!(matches!(r, Err(Error::SendBufferFull)));
    assert!(e.flow_table.get(h).unwrap().tlp_timer_id.is_none());
    assert_eq!(e.flow_table.get(h).unwrap().snd_nxt, start);
    let (r, _) = send(&mut e, h, &[1; 4000], 2);
    assert!(matches!(r, Err(Error::SendBufferFull)));
    let c = e.flow_table.get(h).unwrap();
    assert_eq!(c.snd_nxt, start.wrapping_add(2920));
    assert_eq!(c.snd_retrans.len(), 2);
    assert!(c.tlp_timer_id.is_some());
    assert_eq!(e.counters.eth.tx_drop_nomem, 2);
}

#[test]
fn an_empty_send_is_accepted() {
    let (mut e, h) = established();
    let (r, bursts) = send(&mut e, h, &[], 0);
    assert_eq!(r.unwrap(), 0);
    assert_eq!(bursts, 0);
    assert!(matches!(e.send_bytes(99, &[1], NOW), Err(Error::InvalidConnHandle(99))));
}

#[test]
fn a_connection_that_breaks_its_invariant_is_noticed() {
    let (mut e, h) = established();
    let c = e.flow_table.get_mut(h).unwrap();
    assert!(c.is_valid());
    c.ws_shift_out = 15;
    assert!(!c.is_valid());
    c.ws_shift_out = 14;
    c.tlp_recent_probes_next_slot = 5;
    assert!(!c.is_valid());
}

#[test]
fn a_close_sends_a_fin() {
    let (mut e, h) = established();
    let seq = e.flow_table.get(h).unwrap().snd_nxt;
    let mut run = CloseRun::new(h, 0);
    let fin = match e.close_step(&mut run, false, NOW) {
        CloseAction::Send(s) => s,
        a => panic!("{a:?}"),
    };
    assert_eq!((fin.seq, fin.flags), (seq, 0x11));
    let refused = e.close_step(&mut run, false, NOW);
    assert!(matches!(refused, CloseAction::Refused(Error::PeerUnreachable(PEER))));
    assert_eq!(e.flow_table.get(h).unwrap().state, TcpState::Established);
    let mut run = CloseRun::new(h, 0);
    assert!(matches!(e.close_step(&mut run, false, NOW), CloseAction::Send(_)));
    assert!(matches!(e.close_step(&mut run, true, NOW), CloseAction::Closed));
    assert_eq!(run.stage, CloseStage::Over);
    assert!(matches!(e.close_step(&mut run, true, NOW), CloseAction::Nothing));
    let c = e.flow_table.get(h).unwrap();
    assert_eq!(c.state, TcpState::FinWait1);
    assert_eq!(c.our_fin_seq, Some(seq));
    assert_eq!(e.counters.tcp.tx_fin, 1);
    let mut run = CloseRun::new(h, 0);
    assert!(matches!(e.close_step(&mut run, false, NOW), CloseAction::Closed));
    let mut run = CloseRun::new(77, 0);
    let refused = e.close_step(&mut run, false, NOW);
    assert!(matches!(refused, CloseAction::Refused(Error::InvalidConnHandle(77))));
}

#[test]
fn a_close_takes_its_flags_in_first() {
    let (mut e, h) = established();
    let _ = e.drain_events(100);
    let mut run = CloseRun::new(h, 1);
    assert!(matches!(e.close_step(&mut run, false, NOW), CloseAction::Send(_)));
    assert!(!e.flow_table.get(h).unwrap().force_tw_skip);
    assert_eq!(
        e.drain_events(100),
        vec![InternalEvent::Error { conn: h, err: -1, emitted_ts_ns: NOW }]
    );
    e.flow_table.get_mut(h).unwrap().ts_enabled = true;
    let mut run = CloseRun::new(h, 1);
    assert!(matches!(e.close_step(&mut run, false, NOW), CloseAction::Send(_)));
    assert!(e.flow_table.get(h).unwrap().force_tw_skip);
}

fn step(
    e: &mut Engine,
    run: &mut AcceptRun,
    conn: Option<TcpConn>,
    sent: bool,
) -> AcceptAction {
    e.accept_step(run, AcceptReply { conn, sent }, NOW)
}

#[test]
fn a_slot_takes_one_connection_and_refuses_the_next() {
    let mut e = engine_for(config());
    let l = e.listen(0x0a00_0002, 80).unwrap();
    let mut run = AcceptRun::new(l, PEER, 5000, 900);
    let (tuple, iss) = match step(&mut e, &mut run, None, false) {
        AcceptAction::Make { tuple, iss } => (tuple, iss),
        a => panic!("{a:?}"),
    };
    assert_eq!((tuple.local_port, tuple.peer_ip, tuple.peer_port), (80, PEER, 5000));
    let mut c = TcpConn::new_client(tuple, iss, 1460, 4096, 4096, 5_000, 5_000, 1_000_000);
    c.state = TcpState::SynReceived;
    c.is_passive_open = true;
    c.rcv_nxt = 901;
    let answer = match step(&mut e, &mut run, Some(c), false) {
        AcceptAction::Send(s) => s,
        a => panic!("{a:?}"),
    };
    assert_eq!((answer.seq, answer.ack, answer.flags), (iss, 901, 0x12));
    let h = run.handle;
    assert!(matches!(step(&mut e, &mut run, None, true), AcceptAction::Opened(x) if x == h));
    let c = e.flow_table.get(h).unwrap();
    assert_eq!(c.snd_nxt, iss.wrapping_add(1));
    assert!(c.syn_retrans_timer_id.is_some());
    assert_eq!(e.counters.tcp.tx_syn, 1);
    let mut run = AcceptRun::new(l, PEER, 5001, 7);
    let rst = match step(&mut e, &mut run, None, false) {
        AcceptAction::Send(s) => s,
        a => panic!("{a:?}"),
    };
    assert_eq!((rst.seq, rst.ack, rst.flags), (0, 8, 0x14));
    assert!(matches!(step(&mut e, &mut run, None, true), AcceptAction::Nothing));
    assert_eq!(run.stage, AcceptStage::Over);
    assert_eq!(e.counters.tcp.tx_rst, 1);
}

#[test]
fn a_syn_without_a_slot_or_room_is_refused() {
    let mut e = engine_for(EngineConfig { max_connections: 1, ..config() });
    let l = e.listen(0x0a00_0002, 80).unwrap();
    let mut run = AcceptRun::new(l + 5, PEER, 5000, 900);
    let refused = step(&mut e, &mut run, None, false);
    assert!(matches!(refused, AcceptAction::Refused(Error::InvalidArgument)));
    let h = e.connect(PEER, 5000, 0, 1500, NOW).unwrap();
    let mut run = AcceptRun::new(l, PEER, 5000, 900);
    let (tuple, iss) = match step(&mut e, &mut run, None, false) {
        AcceptAction::Make { tuple, iss } => (tuple, iss),
        a => panic!("{a:?}"),
    };
    let c = TcpConn::new_client(tuple, iss, 1460, 4096, 4096, 5_000, 5_000, 1_000_000);
    let refused = step(&mut e, &mut run, Some(c), false);
    assert!(matches!(refused, AcceptAction::Refused(Error::TooManyConns)));
    assert!(e.flow_table.get(h).is_some());
}

#[test]
fn an_answer_that_was_not_sent_still_takes_its_number() {
    let mut e = engine_for(config());
    let l = e.listen(0x0a00_0002, 80).unwrap();
    let mut run = AcceptRun::new(l, PEER, 5000, 900);
    let (tuple, iss) = match step(&mut e, &mut run, None, false) {
        AcceptAction::Make { tuple, iss } => (tuple, iss),
        a => panic!("{a:?}"),
    };
    let c = TcpConn::new_client(tuple, iss, 1460, 4096, 4096, 5_000, 5_000, 1_000_000);
    assert!(matches!(step(&mut e, &mut run, Some(c), false), AcceptAction::Send(_)));
    assert!(matches!(step(&mut e, &mut run, None, false), AcceptAction::Opened(_)));
    let c = e.flow_table.get(run.handle).unwrap();
    assert_eq!(c.snd_nxt, iss.wrapping_add(1));
    assert!(c.syn_retrans_timer_id.is_none());
    assert_eq!(e.counters.tcp.tx_syn, 0);
}
