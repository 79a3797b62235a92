//! What an iteration of the loop does: time waits, events, announcements,
//! frames handed to the driver, and the timers of the application.
use vstd::prelude::*;

use crate::engine::Engine;
use crate::engine_conn::moved_to;
use crate::engine_input::{
    connected_noted, readable_delivered, reset_settled, segment_finished, state_settled, Delivered,
};
use crate::engine_listen::{
    passive_admitted, re_listened, syn_decided, syn_numbered, SynDecision,
};
use crate::engine_loop::{poll_stepped, PollAction, PollReply, PollRun, PollStage};
use crate::engine_poll::{
    burst_counted, burst_drained, poll_begun, poll_ended, waits_reaped, Reaped, TxAttempt,
};
use crate::error::Error;
use crate::flow_table::ConnHandle;
use crate::mempool::Mbuf;
use crate::tcp_conn::{seg_bytes, seg_places, TcpConn};
use crate::tcp_events::{EventQueue, InternalEvent};
use crate::tcp_input::{Outcome, TxAction};
use crate::tcp_state::TcpState;
use crate::tcp_timer_wheel::{TimerId, TimerKind, TimerNode, TimerWheel};
use crate::test_server::ListenHandle;

verus! {

/// A connection that enters TIME_WAIT stays for two segment lifetimes, which
/// are in milliseconds: a million nanoseconds each. Entering another state
/// changes nothing about that. The move is reported and counted under the two
/// states.
pub proof fn law_time_wait_lasts(a: Engine, b: Engine, h: ConnHandle, to: TcpState, now_ns: u64)
    requires
        a.has(h),
        moved_to(a, b, h, to, now_ns),
    ensures
        b.conn(h).state == to,
        to == TcpState::TimeWait && now_ns + 2 * a.cfg.tcp_msl_ms * 1_000_000 <= u64::MAX
            ==> b.conn(h).time_wait_deadline_ns == Some(
            (now_ns + 2 * a.cfg.tcp_msl_ms * 1_000_000) as u64,
        ),
        to != TcpState::TimeWait ==> b.conn(h).time_wait_deadline_ns == a.conn(
            h,
        ).time_wait_deadline_ns,
        b.conn(h).snd_nxt == a.conn(h).snd_nxt,
        b.conn(h).snd_una == a.conn(h).snd_una,
        b.conn(h).rcv_nxt == a.conn(h).rcv_nxt,
        b.conn(h).four_tuple == a.conn(h).four_tuple,
        b.events.q@.len() > 0,
        b.events.q@.last() == (InternalEvent::StateChange {
            conn: h,
            from: a.conn(h).state,
            to,
            emitted_ts_ns: now_ns,
        }),
        a.conn(h).state == TcpState::Established && to == TcpState::FinWait1
            ==> b.counters.tcp.state_trans[4][5] == a.counters.tcp.state_trans[4][5].wrapping_add(
            1,
        ),
        b.timer_wheel == a.timer_wheel,
{
    assert(b.events.q@ == b.log().events);
}

/// Exactly the connections in TIME_WAIT whose wait is over, or is to be
/// skipped, are reaped: they are gone, and counted as closed. Every other
/// connection is left as it was.
pub proof fn law_reaping_is_exact(
    a: Engine,
    b: Engine,
    now_ns: u64,
    r: Reaped,
    h: ConnHandle,
)
    requires
        waits_reaped(a, b, now_ns, r),
        a.has(h),
    ensures
        ({
            let c = a.conn(h);
            let over = c.state == TcpState::TimeWait && (c.force_tw_skip || (
            c.time_wait_deadline_ns is Some && c.time_wait_deadline_ns->0 <= now_ns));
            &&& over ==> !b.has(h) && r.handles@.contains(h)
            &&& !over ==> b.has(h) && b.conn(h) == c && !r.handles@.contains(h)
        }),
        forall|k: ConnHandle| #[trigger] b.has(k) ==> a.has(k),
        b.counters.tcp.conn_close == a.counters.tcp.conn_close.wrapping_add(
            r.handles@.len() as u64,
        ),
        b.counters.tcp.conn_time_wait_reaped == a.counters.tcp.conn_time_wait_reaped.wrapping_add(
            r.handles@.len() as u64,
        ),
        b.counters.tcp.state_trans[10][0] == a.counters.tcp.state_trans[10][0].wrapping_add(
            r.handles@.len() as u64,
        ),
{
    assert(r.handles@.to_set().contains(h) <==> r.handles@.contains(h));
    assert(a.flow_table@.contains_key(h));
}

/// An ACK in TIME_WAIT starts the wait over, for two lifetimes from then.
pub proof fn law_time_wait_starts_over(
    a: Engine,
    b: Engine,
    h: ConnHandle,
    tx: TxAction,
    new_state: Option<TcpState>,
    now_ns: u64,
)
    requires
        a.has(h),
        state_settled(a, b, h, tx, new_state, now_ns),
    ensures
        new_state matches Some(s) ==> b.conn(h).state == s,
        new_state is None ==> b.conn(h).state == a.conn(h).state,
        a.conn(h).state == TcpState::TimeWait && tx == TxAction::Ack && new_state is None && now_ns
            + 2 * a.cfg.tcp_msl_ms * 1_000_000 <= u64::MAX ==> b.conn(h).time_wait_deadline_ns
            == Some((now_ns + 2 * a.cfg.tcp_msl_ms * 1_000_000) as u64),
        a.conn(h).state != TcpState::TimeWait && new_state != Some(TcpState::TimeWait)
            ==> b.conn(h).time_wait_deadline_ns == a.conn(h).time_wait_deadline_ns,
        a.conn(h).state != TcpState::TimeWait && new_state == Some(TcpState::TimeWait) && now_ns
            + 2 * a.cfg.tcp_msl_ms * 1_000_000 <= u64::MAX ==> b.conn(h).time_wait_deadline_ns
            == Some((now_ns + 2 * a.cfg.tcp_msl_ms * 1_000_000) as u64),
        b.conn(h).snd_nxt == a.conn(h).snd_nxt,
        b.conn(h).rcv_nxt == a.conn(h).rcv_nxt,
        b.timer_wheel == a.timer_wheel,
{
}

/// A timer fires once it is due and not before, and just once: of the timers
/// that are pending, those whose time has come are handed out, each with what
/// it was armed with, and the others stay.
pub proof fn law_timers_fire_when_due(
    w: &mut TimerWheel,
    now_ns: u64,
    r: Vec<(TimerId, TimerNode)>,
    id: TimerId,
)
    requires
        call_ensures(TimerWheel::advance, (w, now_ns), r),
        old(w)@.contains_key(id),
    ensures
        ({
            let node = old(w)@[id];
            let fired = exists|k: int| 0 <= k < r@.len() && #[trigger] r@[k] == (id, node);
            &&& fired <==> node.fire_at_ns <= now_ns
            &&& node.fire_at_ns <= now_ns ==> !final(w)@.contains_key(id)
            &&& node.fire_at_ns > now_ns ==> final(w)@.contains_key(id) && final(w)@[id] == node
        }),
        forall|k: int, l: int|
            0 <= k < l < r@.len() ==> (#[trigger] r@[k]).0 != (#[trigger] r@[l]).0,
{
    let node = old(w)@[id];
    if node.fire_at_ns <= now_ns {
        let k = choose|k: int| 0 <= k < r@.len() && (#[trigger] r@[k]).0 == id;
        assert(r@[k] == (id, node));
    }
    assert(crate::tcp_timer_wheel::still_pending(old(w)@, now_ns, final(w)@));
    assert(final(w)@.contains_key(id) <==> node.fire_at_ns > now_ns);
    if exists|k: int| 0 <= k < r@.len() && #[trigger] r@[k] == (id, node) {
        let k = choose|k: int| 0 <= k < r@.len() && #[trigger] r@[k] == (id, node);
        assert(r@[k].1.fire_at_ns <= now_ns);
    }
}

/// A timer of the application is armed for the first tick of ten microseconds
/// at or behind its deadline, and carries what it was given.
pub proof fn law_application_timer(
    e: &mut Engine,
    deadline_ns: u64,
    user_data: u64,
    r: TimerId,
)
    requires
        call_ensures(Engine::public_timer_add, (e, deadline_ns, user_data), r),
    ensures
        final(e).timer_wheel@.contains_key(r),
        !old(e).timer_wheel@.contains_key(r),
        ({
            let n = final(e).timer_wheel@[r];
            &&& n.kind == TimerKind::ApiPublic
            &&& n.user_data == user_data
            &&& n.fire_at_ns >= deadline_ns
            &&& n.fire_at_ns - deadline_ns < 10_000
            &&& n.fire_at_ns % 10_000 == 0 || n.fire_at_ns == u64::MAX
        }),
        final(e).flow_table == old(e).flow_table,
{
    crate::engine_config::law_tick_alignment(deadline_ns);
}

/// Cancelling takes one timer out and says whether it was there.
pub proof fn law_application_timer_cancelled(e: &mut Engine, id: TimerId, r: bool, other: TimerId)
    requires
        call_ensures(Engine::public_timer_cancel, (e, id), r),
    ensures
        r <==> old(e).timer_wheel@.contains_key(id),
        !final(e).timer_wheel@.contains_key(id),
        other != id && old(e).timer_wheel@.contains_key(other)
            ==> final(e).timer_wheel@.contains_key(other) && final(e).timer_wheel@[other]
                == old(e).timer_wheel@[other],
{
}

/// A timer of the application that fired is reported with what it was given.
pub proof fn law_application_timer_reported(
    e: &mut Engine,
    id: TimerId,
    user_data: u64,
    now_ns: u64,
)
    requires
        call_ensures(Engine::on_api_timer_fire, (e, id, user_data, now_ns), ()),
    ensures
        final(e).events.q@.len() > 0,
        final(e).events.q@.last() == (InternalEvent::ApiTimer {
            timer_id: id,
            user_data,
            emitted_ts_ns: now_ns,
        }),
        final(e).counters.tcp.tx_api_timers_fired
            == old(e).counters.tcp.tx_api_timers_fired.wrapping_add(1),
        final(e).timer_wheel == old(e).timer_wheel,
{
    assert(final(e).events.q@ == final(e).log().events);
}

/// An event goes behind those that wait. Where there is no room the oldest one
/// gives way, and is counted as dropped; the others keep their order.
pub proof fn law_events_queue(
    q: &mut EventQueue,
    ev: InternalEvent,
    obs: &mut crate::counters::ObsCounters,
)
    requires
        call_ensures(EventQueue::push, (q, ev, obs), ()),
    ensures
        ({
            let full = old(q).q@.len() >= old(q).cap && old(q).q@.len() > 0;
            &&& final(q).cap == old(q).cap
            &&& final(q).q@.last() == ev
            &&& !full ==> final(q).q@.len() == old(q).q@.len() + 1 && (forall|i: int|
                0 <= i < old(q).q@.len() ==> #[trigger] final(q).q@[i] == old(q).q@[i])
                && final(obs).events_dropped == old(obs).events_dropped
            &&& full ==> final(q).q@.len() == old(q).q@.len() && (forall|i: int|
                0 <= i < old(q).q@.len() - 1 ==> #[trigger] final(q).q@[i] == old(q).q@[i + 1])
                && final(obs).events_dropped == old(obs).events_dropped.wrapping_add(1)
            &&& final(obs).events_queue_high_water >= final(q).q@.len() || final(q).q@.len()
                > u64::MAX
            &&& final(obs).events_queue_high_water >= old(obs).events_queue_high_water
        }),
{
    let a = old(q).log(*old(obs));
    let b = final(q).log(*final(obs));
    assert(b == a.with(ev));
    assert(final(q).q@ == b.events);
    assert(final(q).cap == b.cap);
    assert(*final(obs) == b.obs);
    assert(old(q).q.len() == old(q).q@.len());
    assert(final(q).q.len() == final(q).q@.len());
}

/// Events are handed out oldest first, as many as were asked for or there are,
/// and none of them twice.
pub proof fn law_events_drained(e: &mut Engine, max: u32, r: Vec<InternalEvent>)
    requires
        call_ensures(Engine::drain_events, (e, max), r),
    ensures
        r@ + final(e).events.q@ == old(e).events.q@,
        r@.len() <= max,
        r@.len() < max ==> final(e).events.q@.len() == 0,
        final(e).flow_table == old(e).flow_table,
        final(e).counters == old(e).counters,
{
    assert(r@ + final(e).events.q@ =~= old(e).events.q@);
}

/// A frame counts as sent, with its bytes, exactly where the driver took it;
/// any other is a drop, for want of a buffer or for a full ring.
pub proof fn law_frames_sent_or_dropped(e: &mut Engine, len: usize, attempt: TxAttempt, r: bool)
    requires
        call_ensures(Engine::tx_frame, (e, len, attempt), r),
    ensures
        ({
            let a = old(e).counters.eth;
            let b = final(e).counters.eth;
            &&& r <==> len <= 65535 && attempt == TxAttempt::Sent
            &&& r ==> b.tx_pkts == a.tx_pkts.wrapping_add(1) && b.tx_bytes
                == a.tx_bytes.wrapping_add(len as u64) && b.tx_drop_nomem == a.tx_drop_nomem
                && b.tx_drop_full_ring == a.tx_drop_full_ring
            &&& !r ==> b.tx_pkts == a.tx_pkts && b.tx_bytes == a.tx_bytes
            &&& len <= 65535 && attempt == TxAttempt::RingFull ==> b.tx_drop_full_ring
                == a.tx_drop_full_ring.wrapping_add(1) && b.tx_drop_nomem == a.tx_drop_nomem
            &&& len > 65535 || attempt == TxAttempt::NoBuffer ==> b.tx_drop_nomem
                == a.tx_drop_nomem.wrapping_add(1) && b.tx_drop_full_ring == a.tx_drop_full_ring
        }),
{
}

/// Of the frames that were handed to the driver those that it took count as
/// sent; the others, which are the last ones, count as dropped and are freed.
pub proof fn law_bursts_accounted(
    a: Engine,
    b: Engine,
    burst: Seq<Mbuf>,
    sent: usize,
    freed: Seq<Mbuf>,
)
    requires
        sent <= burst.len(),
        burst_drained(a, b, burst, sent, freed),
    ensures
        freed.len() + sent == burst.len(),
        forall|i: int| 0 <= i < freed.len() ==> #[trigger] freed[i] == burst[sent + i],
        b.counters.eth.tx_pkts == a.counters.eth.tx_pkts.wrapping_add(sent as u64),
        b.counters.eth.tx_drop_full_ring == a.counters.eth.tx_drop_full_ring.wrapping_add(
            freed.len() as u64,
        ),
        b.counters.tcp.tx_flush_batched_pkts == a.counters.tcp.tx_flush_batched_pkts.wrapping_add(
            sent as u64,
        ),
        burst.len() > 0 ==> b.counters.tcp.tx_flush_bursts
            == a.counters.tcp.tx_flush_bursts.wrapping_add(1),
        b.tx_pending_data == a.tx_pending_data,
        b.flow_table == a.flow_table,
{
}

/// The frames that wait are taken all at once, in order; none is left behind.
pub proof fn law_pending_taken(e: &mut Engine, r: Vec<Mbuf>)
    requires
        call_ensures(Engine::take_tx_pending_data, (e,), r),
    ensures
        r@ == old(e).tx_pending_data@,
        final(e).tx_pending_data@.len() == 0,
        final(e).flow_table == old(e).flow_table,
        final(e).counters == old(e).counters,
{
}

/// Every iteration is counted as idle or as one with frames; one that filled
/// its burst is counted as such where that is observed.
pub proof fn law_iterations_counted(a: Engine, b: Engine, n: usize)
    requires
        burst_counted(a, b, n),
    ensures
        n == 0 ==> b.counters.poll.iters_idle == a.counters.poll.iters_idle.wrapping_add(1)
            && b.counters.poll.iters_with_rx == a.counters.poll.iters_with_rx,
        n > 0 ==> b.counters.poll.iters_with_rx == a.counters.poll.iters_with_rx.wrapping_add(1)
            && b.counters.poll.iters_idle == a.counters.poll.iters_idle,
        b.counters.eth.rx_pkts == a.counters.eth.rx_pkts.wrapping_add(n as u64),
        n == 32 && a.features.obs_poll_saturation ==> b.counters.poll.iters_with_rx_burst_max
            == a.counters.poll.iters_with_rx_burst_max.wrapping_add(1),
        n != 32 ==> b.counters.poll.iters_with_rx_burst_max
            == a.counters.poll.iters_with_rx_burst_max,
{
}

/// An iteration begins by letting go of what was delivered in the one before,
/// of every connection, and of nothing else that a connection holds; it ends
/// by counting whether something was sent, and by telling of receive drops
/// since its beginning.
pub proof fn law_iteration_frame(
    a: Engine,
    b: Engine,
    refs: Seq<Mbuf>,
    c: Engine,
    d: Engine,
    now_ns: u64,
    h: ConnHandle,
)
    requires
        poll_begun(a, b, refs),
        poll_ended(c, d, now_ns),
        a.has(h),
    ensures
        b.has(h),
        crate::tcp_conn::delivered_contents(b.conn(h).delivered_segments).len() == 0,
        b.conn(h).readable_scratch_iovecs@.len() == 0,
        b.conn(h).recv == a.conn(h).recv,
        b.conn(h).snd_retrans == a.conn(h).snd_retrans,
        b.conn(h).state == a.conn(h).state,
        b.counters.poll.iters == a.counters.poll.iters.wrapping_add(1),
        b.rx_drop_nomem_prev == a.counters.eth.rx_drop_nomem,
        b.tx_pkts_prev == a.counters.eth.tx_pkts,
        c.counters.eth.tx_pkts > c.tx_pkts_prev ==> d.counters.poll.iters_with_tx
            == c.counters.poll.iters_with_tx.wrapping_add(1),
        c.counters.eth.tx_pkts <= c.tx_pkts_prev ==> d.counters.poll.iters_with_tx
            == c.counters.poll.iters_with_tx,
        c.counters.eth.rx_drop_nomem > c.rx_drop_nomem_prev ==> d.events.q@.len() > 0
            && d.events.q@.last() == (InternalEvent::Error {
            conn: 0,
            err: (-12) as i32,
            emitted_ts_ns: now_ns,
        }),
        c.counters.eth.rx_drop_nomem <= c.rx_drop_nomem_prev ==> d.events.q@ == c.events.q@,
{
    assert(d.events.q@ == d.log().events);
    assert(c.events.q@ == c.log().events);
    assert(a.flow_table@.dom().contains(h));
}

/// Our address is announced once the interval, in seconds, has passed since the
/// last time, where there is an interval and an address; the announcement goes
/// to everyone and asks for, and tells, our own address.
pub proof fn law_announcements(e: Engine, now_ns: u64, r: Option<Vec<u8>>)
    requires
        call_ensures(Engine::maybe_emit_gratuitous_arp, (&e, now_ns), r),
    ensures
        r is Some <==> e.cfg.garp_interval_sec > 0 && e.cfg.local_ip != 0 && (now_ns
            - e.last_garp_ns >= e.cfg.garp_interval_sec * 1_000_000_000),
        r matches Some(f) ==> {
            &&& f@.len() == 60
            &&& forall|i: int| 0 <= i < 6 ==> #[trigger] f@[i] == 0xff
            &&& f@.subrange(6, 12) == e.our_mac@
            &&& crate::rx_laws::word_at(f@, 20) == 1
            &&& f@.subrange(22, 28) == e.our_mac@
            &&& crate::rx_laws::dword_at(f@, 28) == e.cfg.local_ip
            &&& crate::rx_laws::dword_at(f@, 38) == e.cfg.local_ip
        },
{
    if r is Some {
        let f = (r->0)@;
        let p = choose|p: crate::arp::ArpPacket| #[trigger]
            crate::arp::is_request_packet(p, e.our_mac, e.cfg.local_ip, e.cfg.local_ip) && f
                == crate::arp::arp_frame(crate::l2::BROADCAST_MAC, e.our_mac, p);
        crate::rx_laws::law_address_frame_layout(crate::l2::BROADCAST_MAC, e.our_mac, p);
        assert forall|i: int| 0 <= i < 6 implies #[trigger] f[i] == 0xff by {
            assert(f.subrange(0, 6)[i] == crate::l2::BROADCAST_MAC@[i]);
        }
    }
}

/// What is delivered to the application is the oldest bytes that were received
/// in order, as many as were asked for or there are, and they leave the
/// receive queue; the event tells how many there are.
pub proof fn law_delivery(
    a: Engine,
    b: Engine,
    h: ConnHandle,
    total: u32,
    hw_ns: u64,
    now_ns: u64,
    r: Delivered,
)
    requires
        a.has(h),
        a.conn(h).wf(),
        forall|i: int|
            0 <= i < a.conn(h).recv.bytes@.len() ==> (
            #[trigger] a.conn(h).recv.bytes@[i]).in_range(),
        readable_delivered(a, b, h, total, hw_ns, now_ns, r),
    ensures
        ({
            let was = a.conn(h).recv.bytes@;
            let is = b.conn(h).recv.bytes@;
            let given = crate::tcp_conn::delivered_contents(b.conn(h).delivered_segments);
            let v = b.conn(h).readable_scratch_iovecs@;
            &&& seg_places(given) + seg_places(is) == seg_places(was)
            &&& seg_bytes(given) == (if total <= seg_bytes(was) {
                total as nat
            } else {
                seg_bytes(was)
            })
            &&& v.len() == given.len()
            &&& forall|i: int|
                0 <= i < v.len() ==> (#[trigger] v[i]).base == given[i].mbuf && v[i].offset
                    == given[i].offset && v[i].len == given[i].len
            &&& r.refs@.len() == crate::tcp_conn::delivered_contents(
                a.conn(h).delivered_segments,
            ).len()
            &&& b.counters.tcp.recv_buf_delivered == a.counters.tcp.recv_buf_delivered.wrapping_add(
                total as u64,
            )
            &&& b.conn(h).rcv_nxt == a.conn(h).rcv_nxt
            &&& b.conn(h).recv.reorder == a.conn(h).recv.reorder
            &&& 0 < given.len() <= u32::MAX ==> b.events.q@.len() > 0 && b.events.q@.last() == (
            InternalEvent::Readable {
                conn: h,
                seg_idx_start: 0,
                seg_count: given.len() as u32,
                total_len: seg_bytes(given) as u32,
                rx_hw_ts_ns: hw_ns,
                emitted_ts_ns: now_ns,
            })
        }),
{
    crate::tcp_conn::law_split_conserves(a.conn(h).recv.bytes@, total as nat);
    assert(b.events.q@ == b.log().events);
}

/// A connection whose end a segment brought is gone with its timers, and the
/// application is told; one that goes on is left as it was. A reset, ours or
/// the peer's, is counted as one.
pub proof fn law_segment_ends_connection(
    a: Engine,
    b: Engine,
    h: ConnHandle,
    o: Outcome,
    rst_received: bool,
    now_ns: u64,
    r: Seq<Mbuf>,
)
    requires
        a.has(h),
        segment_finished(a, b, h, o, rst_received, now_ns, r),
    ensures
        b.has(h) <==> !(o.closed && a.conn(h).state == TcpState::Closed),
        b.has(h) ==> b.conn(h) == a.conn(h) && r.len() == 0,
        o.closed ==> b.counters.tcp.conn_close == a.counters.tcp.conn_close.wrapping_add(1)
            && b.events.q@.len() > 0 && b.events.q@.last() == (InternalEvent::Closed {
            conn: h,
            err: 0,
            emitted_ts_ns: now_ns,
        }),
        !o.closed ==> b.counters.tcp.conn_close == a.counters.tcp.conn_close
            && b.counters.tcp.conn_rst == a.counters.tcp.conn_rst && b.events.q@ == a.events.q@,
        o.closed ==> b.counters.tcp.conn_rst == (if rst_received || o.tx == TxAction::Rst || o.tx
            == TxAction::RstForSynSentBadAck {
            a.counters.tcp.conn_rst.wrapping_add(1)
        } else {
            a.counters.tcp.conn_rst
        }),
        b.counters.tcp.recv_buf_drops == a.counters.tcp.recv_buf_drops.wrapping_add(
            o.buf_full_drop as u64,
        ),
{
    assert(b.events.q@ == b.log().events);
    assert(a.events.q@ == a.log().events);
}

/// A connection that we reset is closed from then on; the reset is counted if
/// it was sent.
pub proof fn law_reset_closes(a: Engine, b: Engine, h: ConnHandle, sent: bool, now_ns: u64)
    requires
        a.has(h),
        reset_settled(a, b, h, sent, now_ns),
    ensures
        b.conn(h).state == TcpState::Closed,
        b.counters.tcp.tx_rst == (if sent {
            a.counters.tcp.tx_rst.wrapping_add(1)
        } else {
            a.counters.tcp.tx_rst
        }),
        b.conn(h).snd_nxt == a.conn(h).snd_nxt,
{
}

/// A complete handshake is reported and counted; where we listen, a connection
/// whose handshake a slot was waiting for moves to that slot's accept queue.
pub proof fn law_handshake_complete(a: Engine, b: Engine, h: ConnHandle, hw_ns: u64, now_ns: u64)
    requires
        connected_noted(a, b, h, hw_ns, now_ns),
    ensures
        b.events.q@.len() > 0,
        b.events.q@.last() == (InternalEvent::Connected {
            conn: h,
            rx_hw_ts_ns: hw_ns,
            emitted_ts_ns: now_ns,
        }),
        b.counters.tcp.conn_open == a.counters.tcp.conn_open.wrapping_add(1),
        b.flow_table == a.flow_table,
        a.features.test_server && (exists|i: int|
            0 <= i < a.listen_slots@.len() && (#[trigger] a.listen_slots@[i]).1.in_progress
                == Some(h)) ==> exists|i: int|
            0 <= i < b.listen_slots@.len() && (#[trigger] b.listen_slots@[i]).1.accept_queue
                == Some(h) && b.listen_slots@[i].1.in_progress is None,
{
    assert(b.events.q@ == b.log().events);
    if a.features.test_server && (exists|i: int|
        0 <= i < a.listen_slots@.len() && (#[trigger] a.listen_slots@[i]).1.in_progress == Some(
            h,
        )) {
        let i = choose|i: int|
            0 <= i < a.listen_slots@.len() && (#[trigger] a.listen_slots@[i]).1.in_progress
                == Some(h);
        lemma_slot_found(a.listen_slots@, h, i);
        let k = crate::engine_listen::slot_opening(a.listen_slots@, h);
        assert(b.listen_slots@[k].1.accept_queue == Some(h));
    }
}

proof fn lemma_slot_found(
    slots: Seq<(ListenHandle, crate::test_server::ListenSlot)>,
    h: ConnHandle,
    i: int,
)
    requires
        0 <= i < slots.len(),
        slots[i].1.in_progress == Some(h),
    ensures
        0 <= crate::engine_listen::slot_opening(slots, h) <= i,
    decreases i,
{
    if slots[0].1.in_progress != Some(h) {
        lemma_slot_found(slots.subrange(1, slots.len() as int), h, i - 1);
    }
}

/// A slot is made for an address and port that no slot is for yet, under a
/// handle of its own, and has nothing in it.
pub proof fn law_listen(e: &mut Engine, ip: u32, port: u16, r: Result<ListenHandle, Error>)
    requires
        call_ensures(Engine::listen, (e, ip, port), r),
    ensures
        ({
            let was = old(e).listen_slots@;
            let is = final(e).listen_slots@;
            let taken = exists|i: int|
                0 <= i < was.len() && (#[trigger] was[i]).1.local_ip == ip && was[i].1.local_port
                    == port;
            &&& taken ==> r == Err::<ListenHandle, Error>(Error::InvalidArgument) && is == was
            &&& r matches Ok(l) ==> {
                &&& is.len() == was.len() + 1
                &&& forall|i: int| 0 <= i < was.len() ==> #[trigger] is[i] == was[i]
                &&& is.last().0 == l
                &&& is.last().1.local_ip == ip
                &&& is.last().1.local_port == port
                &&& is.last().1.accept_queue is None
                &&& is.last().1.in_progress is None
                &&& final(e).next_listen_id == l + 1
            }
        }),
        final(e).flow_table == old(e).flow_table,
{
}

/// A connection that waits to be accepted is handed out once: its slot is
/// free afterwards, and the other slots are left alone.
pub proof fn law_accept_once(
    e: &mut Engine,
    l: ListenHandle,
    r: Option<ConnHandle>,
    i: int,
)
    requires
        call_ensures(Engine::accept_next, (e, l), r),
        0 <= i < old(e).listen_slots@.len(),
        forall|k: int| 0 <= k < i ==> (#[trigger] old(e).listen_slots@[k]).0 != l,
        old(e).listen_slots@[i].0 == l,
    ensures
        r == old(e).listen_slots@[i].1.accept_queue,
        final(e).listen_slots@.len() == old(e).listen_slots@.len(),
        final(e).listen_slots@[i].1.accept_queue is None,
        final(e).listen_slots@[i].1.in_progress == old(e).listen_slots@[i].1.in_progress,
        final(e).listen_slots@[i].0 == l,
        forall|k: int|
            0 <= k < old(e).listen_slots@.len() && k != i ==> #[trigger] final(e).listen_slots@[k]
                == old(e).listen_slots@[k],
{
    lemma_slot_at(old(e).listen_slots@, l, i);
}

proof fn lemma_slot_at(
    slots: Seq<(ListenHandle, crate::test_server::ListenSlot)>,
    l: ListenHandle,
    i: int,
)
    requires
        0 <= i < slots.len(),
        slots[i].0 == l,
        forall|k: int| 0 <= k < i ==> (#[trigger] slots[k]).0 != l,
    ensures
        crate::engine_listen::slot_of(slots, l) == i,
    decreases i,
{
    if i > 0 {
        let rest = slots.subrange(1, slots.len() as int);
        assert(slots[0].0 != l);
        assert forall|k: int| 0 <= k < i - 1 implies (#[trigger] rest[k]).0 != l by {
            assert(rest[k] == slots[k + 1]);
        }
        lemma_slot_at(rest, l, i - 1);
    }
}

/// A SYN on a slot opens a connection from the slot's address to the sender,
/// with a number of ours, exactly where the slot is free; a busy slot answers
/// it with a reset that acknowledges the SYN.
pub proof fn law_slot_decides(
    e: Engine,
    l: ListenHandle,
    peer_ip: u32,
    peer_port: u16,
    iss_peer: u32,
    now_ns: u64,
    r: SynDecision,
    i: int,
)
    requires
        syn_decided(e, l, peer_ip, peer_port, iss_peer, now_ns, r),
        0 <= i < e.listen_slots@.len(),
        forall|k: int| 0 <= k < i ==> (#[trigger] e.listen_slots@[k]).0 != l,
        e.listen_slots@[i].0 == l,
    ensures
        ({
            let s = e.listen_slots@[i].1;
            let free = s.accept_queue is None && s.in_progress is None;
            &&& r is Open <==> free
            &&& r is Refuse <==> !free
            &&& r matches SynDecision::Open { tuple, iss } ==> {
                &&& tuple.local_ip == s.local_ip && tuple.local_port == s.local_port
                &&& tuple.peer_ip == peer_ip && tuple.peer_port == peer_port
                &&& iss == e.iss_gen.iss_at(tuple, now_ns)
            }
            &&& r matches SynDecision::Refuse(rst) ==> {
                &&& rst.flags == 0x14
                &&& rst.seq == 0
                &&& rst.ack == (iss_peer + 1) % 0x1_0000_0000
                &&& rst.dst_ip == peer_ip && rst.dst_port == peer_port
                &&& rst.src_ip == s.local_ip && rst.src_port == s.local_port
            }
        }),
{
    lemma_slot_at(e.listen_slots@, l, i);
}

/// A connection that the peer opens takes a free handle and occupies its slot;
/// it is refused exactly where the table is full. Its SYN-ACK takes one number.
pub proof fn law_passive_connection(
    a: Engine,
    b: Engine,
    l: ListenHandle,
    conn: TcpConn,
    r: Result<ConnHandle, Error>,
    i: int,
    c: Engine,
)
    requires
        passive_admitted(a, b, l, conn, r),
        0 <= i < a.listen_slots@.len(),
        forall|k: int| 0 <= k < i ==> (#[trigger] a.listen_slots@[k]).0 != l,
        a.listen_slots@[i].0 == l,
    ensures
        r is Ok <==> exists|h: ConnHandle| 1 <= h <= a.flow_table.max && !#[trigger] a.has(h),
        r matches Err(e) ==> e == Error::TooManyConns && b == a,
        r matches Ok(h) ==> {
            &&& !a.has(h)
            &&& b.has(h)
            &&& b.conn(h) == conn
            &&& b.listen_slots@[i].1.in_progress == Some(h)
            &&& b.listen_slots@[i].1.accept_queue == a.listen_slots@[i].1.accept_queue
            &&& syn_numbered(b, c, h) ==> c.conn(h).snd_nxt == conn.snd_nxt.wrapping_add(1)
                && c.conn(h).snd_una == conn.snd_una
        },
{
    lemma_slot_at(a.listen_slots@, l, i);
    if a.flow_table.is_full() {
        assert forall|h: ConnHandle| 1 <= h <= a.flow_table.max implies #[trigger] a.has(h) by {
            assert(a.flow_table@.contains_key(h));
        }
    } else {
        let h = choose|h: ConnHandle|
            1 <= h <= a.flow_table.max && !#[trigger] a.flow_table@.contains_key(h);
        assert(!a.has(h));
    }
}

/// A connection that the peer opened and reset during its handshake is gone,
/// with the timer of its handshake; a slot that waited for it is free again.
pub proof fn law_reset_handshake_forgotten(a: Engine, b: Engine, h: ConnHandle, r: Seq<Mbuf>)
    requires
        re_listened(a, b, h, r),
        a.has(h),
    ensures
        b.has(h) <==> !a.conn(h).is_passive_open,
        !a.conn(h).is_passive_open ==> b == a,
        a.conn(h).is_passive_open ==> (a.conn(h).syn_retrans_timer_id matches Some(
            id,
        ) ==> !b.timer_wheel@.contains_key(id)),
        forall|o: ConnHandle| o != h && a.has(o) ==> b.has(o) && #[trigger] b.conn(o) == a.conn(o),
{
}

/// The steps of an iteration come in order: frames before timers, timers before
/// reaping, reaping before the frames that wait are handed over.
pub proof fn law_iteration_order(
    a: Engine,
    s: PollRun,
    b: Engine,
    t: PollRun,
    reply: PollReply,
    now_ns: u64,
    r: PollAction,
)
    requires
        poll_stepped(a, s, b, t, reply, now_ns, r),
    ensures
        r is Receive <==> s.stage == PollStage::Begin,
        r is Frames <==> s.stage == PollStage::Burst && reply.frames > 0,
        r is Fire <==> s.stage == PollStage::Timers,
        r is Reaped <==> s.stage == PollStage::Reap,
        r is SendFrame ==> s.stage == PollStage::Announce,
        r is Transmit <==> s.stage == PollStage::Drain && a.tx_pending_data@.len() > 0,
        r is Free <==> s.stage == PollStage::Drained,
        s.stage == PollStage::Burst && reply.frames == 0 ==> t.stage == PollStage::Timers,
        s.stage == PollStage::Payload ==> t.stage == PollStage::Timers,
        s.stage == PollStage::Timers ==> t.stage == PollStage::Reap,
        s.stage == PollStage::Reap ==> t.stage == PollStage::Announce,
        s.stage == PollStage::Announced ==> t.stage == PollStage::Drain,
        s.stage == PollStage::Drained ==> t.stage == PollStage::End,
        s.stage == PollStage::End ==> t.stage == PollStage::Over,
        r is Transmit ==> t.burst@ == a.tx_pending_data@ && b.tx_pending_data@.len() == 0,
{
}

/// What an iteration announces is a request for our own address, sent to
/// everyone, in which we are the sender.
pub proof fn law_iteration_announces(
    e: &mut Engine,
    run: &mut PollRun,
    reply: PollReply,
    now_ns: u64,
    r: PollAction,
)
    requires
        old(e).wf(),
        call_ensures(Engine::poll_once, (e, run, reply, now_ns), r),
        r is SendFrame,
        old(run).stage == PollStage::Announce,
    ensures
        ({
            let f = r->SendFrame_0@;
            &&& f.len() == 60
            &&& forall|i: int| 0 <= i < 6 ==> #[trigger] f[i] == 0xff
            &&& f.subrange(6, 12) == old(e).our_mac@
            &&& crate::rx_laws::word_at(f, 12) == 0x0806
            &&& crate::rx_laws::word_at(f, 20) == 1
            &&& f.subrange(22, 28) == old(e).our_mac@
            &&& crate::rx_laws::dword_at(f, 28) == old(e).cfg.local_ip
            &&& crate::rx_laws::dword_at(f, 38) == old(e).cfg.local_ip
        }),
        *final(e) == *old(e),
        old(e).cfg.garp_interval_sec > 0,
        old(e).cfg.local_ip != 0,
{
    let f = r->SendFrame_0@;
    let p = choose|p: crate::arp::ArpPacket| #[trigger]
        crate::arp::is_request_packet(
            p,
            old(e).our_mac,
            old(e).cfg.local_ip,
            old(e).cfg.local_ip,
        ) && f == crate::arp::arp_frame(crate::l2::BROADCAST_MAC, old(e).our_mac, p);
    crate::rx_laws::law_address_frame_layout(crate::l2::BROADCAST_MAC, old(e).our_mac, p);
    let b = f.subrange(0, 6);
    assert forall|i: int| 0 <= i < 6 implies #[trigger] f[i] == 0xff by {
        assert(f[i] == b[i]);
    }
}

} // verus!
