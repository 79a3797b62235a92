//! What the engine's operations do to a connection and tell the application.
use vstd::prelude::*;

use crate::conn_laws::{goes_to_peer, law_resend_where_it_was, stamped, tells_window};
use crate::engine::{BringUp, Engine, Released, LATEST_NS};
use crate::engine_conn::{data_opts, RetransPlan};
use crate::engine_config::EngineConfig;
use crate::engine_port::Features;
use crate::error::Error;
use crate::flow_table::{ConnHandle, FourTuple};
use crate::mempool::Mbuf;
use crate::tcp_conn::TcpConn;
use crate::tcp_events::{InternalEvent, LossCause};
use crate::tcp_input::Outcome;
use crate::tcp_laws::once;
use crate::tcp_options::TcpOpts;
use crate::tcp_state::TcpState;
use crate::tcp_timer_wheel::{TimerId, TimerKind};
use crate::timer_laws::{law_timeout_backs_off, law_timeout_gives_up};

verus! {

/// All connections but one are as they were.
pub open spec fn others_kept(a: Engine, b: Engine, h: ConnHandle) -> bool {
    &&& forall|o: ConnHandle| o != h ==> (#[trigger] b.has(o) <==> a.has(o))
    &&& forall|o: ConnHandle| o != h && a.has(o) ==> #[trigger] b.conn(o) == a.conn(o)
}

/// After a timeout the connection is given up, or its timer runs again: it is
/// due a thousand nanoseconds later for every microsecond of the timeout, which
/// was doubled unless the connection does without.
pub proof fn law_timeout_runs_again(
    e: &mut Engine,
    h: ConnHandle,
    lost: &[u16],
    now_ns: u64,
    r: Option<Released>,
)
    requires
        old(e).has(h),
        now_ns <= LATEST_NS,
        call_ensures(Engine::rto_retransmitted, (e, h, lost, now_ns), r),
    ensures
        r is Some <==> old(e).conn(h).snd_retrans@.len() > 0 && old(e).conn(
            h,
        ).snd_retrans@[0].xmit_count > old(e).cfg.tcp_max_retrans_count,
        r is Some ==> !final(e).has(h),
        r is None ==> {
            let c = old(e).conn(h);
            let d = final(e).conn(h);
            let node = final(e).timer_wheel@[d.rto_timer_id->0];
            &&& final(e).has(h)
            &&& c.rto_no_backoff ==> d.rtt_est.rto == c.rtt_est.rto
            &&& !c.rto_no_backoff && 2 * c.rtt_est.rto <= c.rtt_est.max_rto ==> d.rtt_est.rto == 2
                * c.rtt_est.rto
            &&& !c.rto_no_backoff && 2 * c.rtt_est.rto > c.rtt_est.max_rto ==> d.rtt_est.rto
                == c.rtt_est.max_rto
            &&& d.rtt_est.rto > 0 ==> {
                &&& d.rto_timer_id is Some
                &&& final(e).timer_wheel@.contains_key(d.rto_timer_id->0)
                &&& node.fire_at_ns - now_ns == 1_000 * d.rtt_est.rto
                &&& node.owner_handle == h
                &&& node.kind == TimerKind::Rto
            }
        },
{
    if r is None {
        law_timeout_backs_off(*old(e), *final(e), h, lost@, now_ns);
    } else {
        law_timeout_gives_up(*old(e), *final(e), h, lost@, now_ns, r);
    }
}

/// What is sent again keeps its number, its length and its buffer.
pub proof fn law_resend_keeps_the_number(
    e: Engine,
    h: ConnHandle,
    index: usize,
    now_ns: u64,
    r: Option<RetransPlan>,
)
    requires
        e.has(h),
        e.conn(h).wf(),
        index < e.conn(h).snd_retrans@.len(),
        call_ensures(Engine::retransmit, (&e, h, index, now_ns), r),
    ensures
        r matches Some(p) ==> {
            let c = e.conn(h);
            let entry = c.snd_retrans@[index as int];
            &&& p.seg.seq == entry.seq
            &&& p.len == entry.len
            &&& p.data == entry.mbuf
            &&& p.seg.ack == c.rcv_nxt
            &&& p.seg.flags == 0x18
            &&& goes_to_peer(p.seg, e, c.four_tuple)
            &&& stamped(p.seg, c, now_ns)
            &&& tells_window(p.seg.window, c)
        },
{
    if let Some(p) = r {
        law_resend_where_it_was(e, h, index, now_ns, p);
    }
}

/// A connection that moves to a state is in it, the application hears of the
/// move once, and the move is counted; where it stands already nothing
/// happens.
pub proof fn law_moves_are_told(e: &mut Engine, h: ConnHandle, to: TcpState, now_ns: u64)
    requires
        old(e).wf(),
        call_ensures(Engine::transition_conn, (e, h, to, now_ns), ()),
    ensures
        old(e).has(h) ==> final(e).has(h) && final(e).conn(h).state == to,
        old(e).has(h) && old(e).conn(h).state != to ==> {
            &&& final(e).log() == old(e).log().with(
                InternalEvent::StateChange {
                    conn: h,
                    from: old(e).conn(h).state,
                    to,
                    emitted_ts_ns: now_ns,
                },
            )
            &&& to == TcpState::TimeWait && now_ns <= LATEST_NS && old(e).cfg.tcp_msl_ms <= 2_000
                ==> final(e).conn(h).time_wait_deadline_ns == Some(
                (now_ns + 2_000_000 * old(e).cfg.tcp_msl_ms) as u64,
            )
            &&& to != TcpState::TimeWait ==> final(e).conn(h).time_wait_deadline_ns
                == old(e).conn(h).time_wait_deadline_ns
            &&& final(e).conn(h).snd_nxt == old(e).conn(h).snd_nxt
            &&& final(e).conn(h).four_tuple == old(e).conn(h).four_tuple
        },
        !old(e).has(h) || old(e).conn(h).state == to ==> *final(e) == *old(e),
        others_kept(*old(e), *final(e), h),
{
}

/// A connection that ends is gone with its timers, and all the buffers that it
/// held are handed back; nothing else changes.
pub proof fn law_end(e: &mut Engine, h: ConnHandle, r: Vec<Mbuf>, id: TimerId)
    requires
        old(e).wf(),
        old(e).has(h),
        call_ensures(Engine::end_conn, (e, h), r),
    ensures
        !final(e).has(h),
        others_kept(*old(e), *final(e), h),
        ({
            let c = old(e).conn(h);
            let mine = c.rto_timer_id == Some(id) || c.tlp_timer_id == Some(id)
                || c.syn_retrans_timer_id == Some(id) || c.timer_ids@.contains(id);
            &&& mine ==> !final(e).timer_wheel@.contains_key(id)
            &&& !mine ==> (final(e).timer_wheel@.contains_key(id)
                <==> old(e).timer_wheel@.contains_key(id))
            &&& !mine && old(e).timer_wheel@.contains_key(id) ==> final(e).timer_wheel@[id]
                == old(e).timer_wheel@[id]
        }),
        r@ == old(e).conn(h).held(),
        final(e).events == old(e).events,
        final(e).counters == old(e).counters,
        final(e).listen_slots@ == old(e).listen_slots@,
{
    let c = old(e).conn(h);
    lemma_own_timers(c, id);
    let ids = crate::engine::timers_of(c);
    assert(ids.to_set().contains(id) <==> ids.contains(id));
}

proof fn lemma_own_timers(c: TcpConn, id: TimerId)
    ensures
        crate::engine::timers_of(c).contains(id) <==> c.rto_timer_id == Some(id)
            || c.tlp_timer_id == Some(id) || c.syn_retrans_timer_id == Some(id)
            || c.timer_ids@.contains(id),
{
    let a = c.timer_ids@;
    let b = crate::engine::opt_id(c.rto_timer_id);
    let d = crate::engine::opt_id(c.tlp_timer_id);
    let f = crate::engine::opt_id(c.syn_retrans_timer_id);
    let all = a + b + d + f;
    if a.contains(id) {
        let k = a.index_of(id);
        assert(all[k] == id);
    }
    if c.rto_timer_id == Some(id) {
        assert(all[a.len() as int] == id);
    }
    if c.tlp_timer_id == Some(id) {
        assert(all[(a.len() + b.len()) as int] == id);
    }
    if c.syn_retrans_timer_id == Some(id) {
        assert(all[(a.len() + b.len() + d.len()) as int] == id);
    }
    if all.contains(id) {
        let k = all.index_of(id);
        if k < a.len() {
            assert(a[k] == id);
        }
    }
}

/// A connection that is given up is gone, and the application hears, in this
/// order, that it moved to CLOSED, that it timed out, and that it is closed.
pub proof fn law_giving_up(e: &mut Engine, h: ConnHandle, now_ns: u64, r: Released)
    requires
        old(e).wf(),
        old(e).has(h),
        call_ensures(Engine::force_close_etimedout, (e, h, now_ns), r),
    ensures
        !final(e).has(h),
        others_kept(*old(e), *final(e), h),
        final(e).counters.tcp.conn_close == old(e).counters.tcp.conn_close.wrapping_add(1),
        final(e).counters.tcp.conn_rst == old(e).counters.tcp.conn_rst,
        r.refs@ == old(e).conn(h).held(),
        r.freed@.len() == old(e).conn(h).snd_retrans@.len(),
        forall|i: int|
            0 <= i < r.freed@.len() ==> #[trigger] r.freed@[i] == old(e).conn(
                h,
            ).snd_retrans@[i].mbuf,
        old(e).conn(h).state != TcpState::Closed ==> final(e).log() == old(e).log().with(
            InternalEvent::StateChange {
                conn: h,
                from: old(e).conn(h).state,
                to: TcpState::Closed,
                emitted_ts_ns: now_ns,
            },
        ).with(
            InternalEvent::Error { conn: h, err: (-110) as i32, emitted_ts_ns: now_ns },
        ).with(
            InternalEvent::Closed { conn: h, err: (-110) as i32, emitted_ts_ns: now_ns },
        ),
{
}

/// A loss that acknowledgements show is counted once, and told with the number
/// of the segment and how often it was sent, where such events are asked for.
pub proof fn law_shown_loss(e: &mut Engine, h: ConnHandle, idx: u16, now_ns: u64)
    requires
        old(e).wf(),
        old(e).has(h),
        idx < old(e).conn(h).snd_retrans@.len(),
        call_ensures(Engine::note_rack_loss, (e, h, idx, now_ns), ()),
    ensures
        final(e).counters.tcp.tx_rack_loss == old(e).counters.tcp.tx_rack_loss.wrapping_add(1),
        final(e).counters.tcp.tx_tlp == old(e).counters.tcp.tx_tlp,
        final(e).counters.tcp.tx_rto == old(e).counters.tcp.tx_rto,
        !old(e).cfg.tcp_per_packet_events ==> final(e).log() == old(e).log(),
        old(e).cfg.tcp_per_packet_events ==> final(e).log() == old(e).log().with(
            InternalEvent::TcpRetrans {
                conn: h,
                seq: old(e).conn(h).snd_retrans@[idx as int].seq,
                rtx_count: old(e).conn(h).snd_retrans@[idx as int].xmit_count as u32,
                emitted_ts_ns: now_ns,
            },
        ).with(
            InternalEvent::TcpLossDetected {
                conn: h,
                cause: LossCause::Rack,
                emitted_ts_ns: now_ns,
            },
        ),
        final(e).flow_table == old(e).flow_table,
{
}

/// A probe is counted once, told like a loss, and remembered with the number
/// and the length of the segment that it repeated.
pub proof fn law_probe_is_noted(e: &mut Engine, h: ConnHandle, idx: usize, now_ns: u64)
    requires
        old(e).wf(),
        old(e).has(h),
        old(e).conn(h).wf(),
        idx < old(e).conn(h).snd_retrans@.len(),
        call_ensures(Engine::tlp_probed, (e, h, idx, now_ns), ()),
    ensures
        ({
            let c = old(e).conn(h);
            let d = final(e).conn(h);
            let entry = c.snd_retrans@[idx as int];
            let p = d.tlp_recent_probes@[c.tlp_recent_probes_next_slot as int];
            &&& final(e).has(h)
            &&& p is Some
            &&& p->0.seq == entry.seq
            &&& p->0.len == entry.len
            &&& p->0.tx_ts_ns == now_ns
            &&& !p->0.attributed
            &&& c.tlp_consecutive_probes_fired < 255 ==> d.tlp_consecutive_probes_fired
                == c.tlp_consecutive_probes_fired + 1
            &&& !d.tlp_rtt_sample_seen_since_last_tlp
            &&& d.snd_retrans@ == c.snd_retrans@
            &&& final(e).counters.tcp.tx_tlp == old(e).counters.tcp.tx_tlp.wrapping_add(1)
            &&& old(e).cfg.tcp_per_packet_events ==> final(e).log() == old(e).log().with(
                InternalEvent::TcpRetrans {
                    conn: h,
                    seq: entry.seq,
                    rtx_count: entry.xmit_count as u32,
                    emitted_ts_ns: now_ns,
                },
            ).with(
                InternalEvent::TcpLossDetected {
                    conn: h,
                    cause: LossCause::Tlp,
                    emitted_ts_ns: now_ns,
                },
            )
            &&& !old(e).cfg.tcp_per_packet_events ==> final(e).log() == old(e).log()
        }),
        others_kept(*old(e), *final(e), h),
{
}

/// A probe waits only where something is in flight, none waits yet, the budget
/// is not used up, a round-trip time is known, and one was seen since the last
/// probe or need not be.
pub proof fn law_probe_gate(c: TcpConn, r: bool)
    requires
        call_ensures(TcpConn::tlp_arm_gate_passes, (&c,), r),
    ensures
        c.snd_retrans@.len() == 0 ==> !r,
        c.tlp_timer_id is Some ==> !r,
        c.tlp_consecutive_probes_fired >= c.tlp_max_consecutive_probes ==> !r,
        !c.tlp_skip_rtt_sample_gate && !c.tlp_rtt_sample_seen_since_last_tlp ==> !r,
        c.rtt_est.srtt is None ==> !r,
        c.snd_retrans@.len() > 0 && c.tlp_timer_id is None && c.tlp_consecutive_probes_fired
            < c.tlp_max_consecutive_probes && c.tlp_rtt_sample_seen_since_last_tlp
            && c.rtt_est.srtt is Some ==> r,
{
}

/// The application hears that a connection can be written to exactly where its
/// queue fell below the mark.
pub proof fn law_writable(e: &mut Engine, h: ConnHandle, o: Outcome, now_ns: u64)
    requires
        call_ensures(Engine::note_outcome, (e, h, &o, now_ns), ()),
    ensures
        !o.writable_hysteresis_fired ==> final(e).log() == old(e).log(),
        o.writable_hysteresis_fired ==> final(e).log() == old(e).log().with(
            InternalEvent::Writable { conn: h, emitted_ts_ns: now_ns },
        ),
        final(e).flow_table == old(e).flow_table,
        final(e).timer_wheel == old(e).timer_wheel,
        final(e).counters.tcp.rx_dup_ack == old(e).counters.tcp.rx_dup_ack.wrapping_add(
            once(o.dup_ack),
        ),
{
}

/// The application hears once, at the end of an iteration, that frames were
/// dropped for want of buffers, and not again for the same drops.
pub proof fn law_drops_are_told(e: &mut Engine, f: &mut Engine, now_ns: u64, later_ns: u64)
    requires
        call_ensures(Engine::check_and_emit_rx_enomem, (e, now_ns), ()),
        call_ensures(Engine::check_and_emit_rx_enomem, (f, later_ns), ()),
        *old(f) == *final(e),
    ensures
        old(e).counters.eth.rx_drop_nomem > old(e).rx_drop_nomem_prev ==> final(e).log()
            == old(e).log().with(
            InternalEvent::Error { conn: 0, err: (-12) as i32, emitted_ts_ns: now_ns },
        ),
        old(e).counters.eth.rx_drop_nomem <= old(e).rx_drop_nomem_prev ==> *final(e) == *old(e),
        *final(f) == *old(f),
{
}

/// A frame that is put in by hand is counted as a received one, with its bytes.
pub proof fn law_frame_put_in(e: &mut Engine, len: usize, buffered: bool, r: Result<(), Error>)
    requires
        call_ensures(Engine::inject_rx_frame, (e, len, buffered), r),
    ensures
        r is Ok <==> len <= 65_535 && buffered,
        r is Err ==> *final(e) == *old(e) && r->Err_0 == Error::InvalidArgument,
        r is Ok ==> {
            &&& final(e).counters.eth.rx_pkts == old(e).counters.eth.rx_pkts.wrapping_add(1)
            &&& final(e).counters.eth.rx_bytes == old(e).counters.eth.rx_bytes.wrapping_add(
                len as u64,
            )
            &&& final(e).counters.tcp == old(e).counters.tcp
        },
{
}

/// Bytes are counted where they arrive: frames with all their bytes, payload
/// with those that were taken, where such counting is asked for.
pub proof fn law_bytes_counted(e: &mut Engine, f: &mut Engine, len: usize, o: Outcome, n: u64)
    requires
        call_ensures(Engine::note_rx_bytes, (e, len), ()),
        call_ensures(Engine::accepted_bytes, (&o,), n),
        call_ensures(Engine::note_rx_payload, (f, n), ()),
    ensures
        final(e).counters.eth.rx_bytes == old(e).counters.eth.rx_bytes.wrapping_add(len as u64),
        final(e).counters.eth.rx_pkts == old(e).counters.eth.rx_pkts,
        n == o.delivered + o.reassembly_queued_bytes,
        old(f).features.obs_byte_counters ==> final(f).counters.tcp.rx_payload_bytes
            == old(f).counters.tcp.rx_payload_bytes.wrapping_add(n),
        !old(f).features.obs_byte_counters ==> *final(f) == *old(f),
{
}

/// An address is added where it is one, is not ours yet and is not the primary
/// one; no address is there twice.
pub proof fn law_address_added(e: &mut Engine, ip: u32, r: bool)
    requires
        call_ensures(Engine::add_local_ip, (e, ip), r),
        old(e).secondary_local_ips@.no_duplicates(),
    ensures
        final(e).secondary_local_ips@.no_duplicates(),
        r ==> final(e).secondary_local_ips@ == old(e).secondary_local_ips@.push(ip),
        !r ==> final(e).secondary_local_ips@ == old(e).secondary_local_ips@,
        r <==> ip != 0 && ip != old(e).cfg.local_ip && !old(e).secondary_local_ips@.contains(ip),
{
    if r {
        let s = old(e).secondary_local_ips@;
        assert forall|i: int, j: int|
            0 <= i < s.len() + 1 && 0 <= j < s.len() + 1 && i != j implies s.push(ip)[i] != s.push(
            ip,
        )[j] by {
            if i == s.len() {
                assert(s.contains(s[j]));
            } else if j == s.len() {
                assert(s.contains(s[i]));
            }
        }
    }
}

/// A port's time is told where the port gave one, and zero stands for none.
pub proof fn law_port_time(e: Engine, flags: u64, field: u64, r: u64)
    requires
        call_ensures(Engine::hw_rx_ts_ns, (&e, flags, field), r),
    ensures
        r == field || r == 0,
        e.rx_timestamp.offset is None || e.rx_timestamp.flag_mask is None ==> r == 0,
        e.rx_timestamp.offset is Some && e.rx_timestamp.flag_mask is Some ==> r == if flags
            & e.rx_timestamp.flag_mask->0 == 0 {
            0
        } else {
            field
        },
{
}

/// Ports to connect from follow one another from 49152 to 65535, and then from
/// the start.
pub proof fn law_next_port(e: &mut Engine, r: u16)
    requires
        call_ensures(Engine::next_ephemeral_port, (e,), r),
    ensures
        r >= 49_152,
        49_151 <= old(e).last_ephemeral_port < 65_535 ==> r == old(e).last_ephemeral_port + 1,
        old(e).last_ephemeral_port == 65_535 ==> r == 49_152,
        final(e).last_ephemeral_port == r,
        final(e).flow_table == old(e).flow_table,
{
}

/// A data segment carries nothing but the time in microseconds and the echo of
/// the peer's, and these only where the two ends agreed on them.
pub proof fn law_data_options(ts: bool, echo: u32, now_ns: u64, r: TcpOpts)
    requires
        call_ensures(data_opts, (ts, echo, now_ns), r),
        now_ns / 1_000 <= u32::MAX,
    ensures
        ts ==> r.timestamps == Some(((now_ns / 1_000) as u32, echo)),
        !ts ==> r.timestamps is None,
        r.mss is None && r.wscale is None && !r.sack_permitted && r.sack_block_count == 0,
{
}

/// No more frames are queued than the ring holds.
pub proof fn law_ring_room(e: Engine, r: bool)
    requires
        call_ensures(Engine::tx_ring_full, (&e,), r),
    ensures
        r <==> e.tx_pending_data@.len() >= e.cfg.tx_ring_size,
{
}

/// A new engine has no connection, no timer, no event and no listener, and what
/// it was set up with.
pub proof fn law_new_engine(
    cfg: EngineConfig,
    f: Features,
    up: BringUp,
    r: Result<Engine, Error>,
    h: ConnHandle,
    id: TimerId,
)
    requires
        up.xstat_map.wf(),
        call_ensures(Engine::new, (cfg, f, up), r),
    ensures
        r matches Ok(e) ==> {
            &&& !e.has(h)
            &&& !e.timer_wheel@.contains_key(id)
            &&& e.events.q@.len() == 0
            &&& e.events.cap == cfg.event_queue_soft_cap
            &&& e.flow_table.max == cfg.max_connections
            &&& e.listen_slots@.len() == 0
            &&& e.tx_pending_data@.len() == 0
            &&& e.cfg == cfg
            &&& e.features == f
            &&& e.our_mac == up.our_mac
            &&& e.iss_gen == up.iss_gen
            &&& e.counters == up.counters
            &&& e.secondary_local_ips@ == cfg.secondary_local_ips@
            &&& e.last_ephemeral_port == 49_151
            &&& e.last_garp_ns == 0
            &&& e.rx_drop_nomem_prev == 0
            &&& e.tx_cksum_offload_active == up.port.tx_cksum_offload_active
            &&& e.rx_cksum_offload_active == up.port.rx_cksum_offload_active
            &&& e.rss_hash_offload_active == up.port.rss_hash_offload_active
        },
        r is Err ==> r->Err_0 == Error::InvalidHistogramEdges,
{
}

/// A new connection is closed, has nothing sent and nothing received, tells no
/// window larger than its buffer or the field, and counts from its first
/// number.
pub proof fn law_new_connection(
    tuple: FourTuple,
    iss: u32,
    mss: u16,
    recv: u32,
    send: u32,
    min_rto: u32,
    first_rto: u32,
    max_rto: u32,
    r: TcpConn,
)
    requires
        call_ensures(
            TcpConn::new_client,
            (tuple, iss, mss, recv, send, min_rto, first_rto, max_rto),
            r,
        ),
        min_rto <= max_rto,
    ensures
        r.four_tuple == tuple,
        r.state == TcpState::Closed,
        r.iss == iss && r.snd_una == iss && r.snd_nxt == iss,
        r.snd_wnd == 0 && r.rcv_nxt == 0,
        r.rcv_wnd <= recv && r.rcv_wnd <= 65_535,
        r.rcv_wnd == recv || r.rcv_wnd == 65_535,
        r.peer_mss == mss,
        r.ws_shift_out == 0 && r.ws_shift_in == 0,
        !r.ts_enabled && !r.sack_enabled,
        r.snd.cap == send && r.snd.pending@.len() == 0,
        r.recv.cap == recv && r.recv.bytes@.len() == 0,
        r.snd_retrans@.len() == 0,
        r.our_fin_seq is None,
        r.rto_timer_id is None && r.tlp_timer_id is None && r.syn_retrans_timer_id is None,
        r.timer_ids@.len() == 0,
        r.rtt_est.srtt is None,
        r.rtt_est.min_rto == min_rto && r.rtt_est.max_rto == max_rto,
        min_rto <= first_rto <= max_rto ==> r.rtt_est.rto == first_rto,
        r.tlp_max_consecutive_probes == 1,
        r.tlp_pto_srtt_multiplier_x100 == 200,
        !r.is_passive_open && !r.force_tw_skip && !r.rto_no_backoff && !r.rack_aggressive,
{
}

} // verus!
