//! What the application is told of recovery and of ends, and which buffers are
//! let go of.
use vstd::prelude::*;

use crate::engine::{Engine, Released, LATEST_NS};
use crate::engine_input::Delivered;
use crate::engine_poll::{delivered_by, held_by, is_handle_list, reaped_log, Reaped};
use crate::engine_timers::{retrans_log, SynStep};
use crate::flow_table::ConnHandle;
use crate::mempool::Mbuf;
use crate::tcp_conn::{delivered_contents, seg_mbufs, TcpConn};
use crate::tcp_events::{EventLog, InternalEvent, LossCause};
use crate::tcp_retrans::RetransEntry;
use crate::tcp_state::TcpState;
use crate::tcp_timer_wheel::TimerId;

verus! {

/// After a timeout every segment that was to be sent again is told, and the
/// loss behind them, where such events are asked for. Where nothing was found
/// lost that is the oldest segment.
pub proof fn law_timeout_is_told(
    e: &mut Engine,
    h: ConnHandle,
    lost: &[u16],
    now_ns: u64,
    r: Option<Released>,
)
    requires
        old(e).has(h),
        now_ns <= LATEST_NS,
        old(e).conn(h).snd_retrans@.len() > 0,
        call_ensures(Engine::rto_retransmitted, (e, h, lost, now_ns), r),
        r is None,
    ensures
        final(e).counters.tcp.tx_rto == old(e).counters.tcp.tx_rto.wrapping_add(1),
        !old(e).cfg.tcp_per_packet_events ==> final(e).log() == old(e).log(),
        old(e).cfg.tcp_per_packet_events && lost@.len() == 0 ==> final(e).log()
            == old(e).log().with(told(h, old(e).conn(h).snd_retrans@[0], now_ns)).with(
            InternalEvent::TcpLossDetected {
                conn: h,
                cause: LossCause::Rto,
                emitted_ts_ns: now_ns,
            },
        ),
        old(e).cfg.tcp_per_packet_events && lost@.len() > 0 ==> final(e).log() == retrans_log(
            old(e).log(),
            h,
            old(e).conn(h).snd_retrans@,
            lost@,
            now_ns,
        ).with(
            InternalEvent::TcpLossDetected {
                conn: h,
                cause: LossCause::Rto,
                emitted_ts_ns: now_ns,
            },
        ),
{
    let a = old(e).log();
    let s = old(e).conn(h).snd_retrans@;
    law_retransmissions_told(a, h, s, Seq::empty(), 0, now_ns);
    assert(Seq::<u16>::empty().push(0u16) =~= seq![0u16]);
}

/// What is told of a segment that is sent again.
pub open spec fn told(h: ConnHandle, s: RetransEntry, now_ns: u64) -> InternalEvent {
    InternalEvent::TcpRetrans {
        conn: h,
        seq: s.seq,
        rtx_count: s.xmit_count as u32,
        emitted_ts_ns: now_ns,
    }
}

/// Retransmissions are told one by one in order, each with the number of its
/// segment and how often that was sent; one that is no longer in flight is not.
pub proof fn law_retransmissions_told(
    l: EventLog,
    h: ConnHandle,
    s: Seq<RetransEntry>,
    idxs: Seq<u16>,
    i: u16,
    now_ns: u64,
)
    ensures
        retrans_log(l, h, s, Seq::empty(), now_ns) == l,
        i < s.len() ==> retrans_log(l, h, s, idxs.push(i), now_ns) == retrans_log(
            l,
            h,
            s,
            idxs,
            now_ns,
        ).with(told(h, s[i as int], now_ns)),
        i >= s.len() ==> retrans_log(l, h, s, idxs.push(i), now_ns) == retrans_log(
            l,
            h,
            s,
            idxs,
            now_ns,
        ),
{
    assert(idxs.push(i).drop_last() =~= idxs);
}

/// While something that was sent is not acknowledged, the timers stay: with
/// nothing left to send again, because a FIN may still be on its way, and the
/// probe also where only part was acknowledged.
pub proof fn law_timers_stay_for_the_fin(
    e: &mut Engine,
    h: ConnHandle,
    una: u32,
    now_ns: u64,
    r: Vec<Mbuf>,
)
    requires
        old(e).has(h),
        now_ns <= LATEST_NS,
        call_ensures(Engine::settle_ack, (e, h, una, now_ns), r),
    ensures
        final(e).conn(h).snd_retrans@.len() == 0 && old(e).conn(h).snd_una != old(e).conn(
            h,
        ).snd_nxt ==> {
            &&& final(e).conn(h).rto_timer_id == old(e).conn(h).rto_timer_id
            &&& final(e).conn(h).tlp_timer_id == old(e).conn(h).tlp_timer_id
            &&& final(e).timer_wheel@ == old(e).timer_wheel@
        },
        final(e).conn(h).snd_retrans@.len() > 0 ==> final(e).conn(h).tlp_timer_id
            == old(e).conn(h).tlp_timer_id,
        final(e).conn(h).snd_retrans@.len() > 0 && old(e).conn(h).rto_timer_id is Some
            && old(e).conn(h).rtt_est.rto > 0 ==> final(e).conn(h).rto_timer_id is Some,
        final(e).counters == old(e).counters,
        final(e).events == old(e).events,
{
}

/// A handshake that is given up is counted as such. Only that of a peer frees a
/// listener, and it frees its own.
pub proof fn law_handshake_given_up(
    e: &mut Engine,
    h: ConnHandle,
    id: TimerId,
    now_ns: u64,
    r: SynStep,
)
    requires
        old(e).wf(),
        call_ensures(Engine::on_syn_retrans_fire, (e, h, id, now_ns), r),
        r is GaveUp,
    ensures
        old(e).has(h),
        !final(e).has(h),
        final(e).counters.tcp.conn_timeout_syn_sent
            == old(e).counters.tcp.conn_timeout_syn_sent.wrapping_add(1),
        final(e).counters.tcp.conn_close == old(e).counters.tcp.conn_close.wrapping_add(1),
        !old(e).features.test_server || !old(e).conn(h).is_passive_open
            ==> final(e).listen_slots@ == old(e).listen_slots@,
        old(e).features.test_server && old(e).conn(h).is_passive_open
            ==> final(e).listen_slots@ == crate::engine_listen::cleared(old(e).listen_slots@, h),
{
}

/// To skip the wait after closing is refused without timestamps, and the
/// application is told that it may not; the connection is closed all the same.
pub proof fn law_skip_refused(e: &mut Engine, h: ConnHandle, flags: u32, now_ns: u64)
    requires
        call_ensures(Engine::close_conn_with_flags, (e, h, flags, now_ns), ()),
    ensures
        flags & 1 == 0 ==> *final(e) == *old(e),
        flags & 1 != 0 && !(old(e).has(h) && old(e).conn(h).ts_enabled) ==> {
            &&& final(e).log() == old(e).log().with(
                InternalEvent::Error { conn: h, err: (-1) as i32, emitted_ts_ns: now_ns },
            )
            &&& final(e).flow_table == old(e).flow_table
        },
        flags & 1 != 0 && old(e).has(h) && old(e).conn(h).ts_enabled ==> {
            &&& final(e).log() == old(e).log()
            &&& final(e).conn(h).force_tw_skip
            &&& final(e).conn(h).state == old(e).conn(h).state
        },
{
}

/// Of an unknown connection nothing is handed out.
pub proof fn law_unknown_reads_nothing(
    e: &mut Engine,
    h: ConnHandle,
    total: u32,
    hw_ns: u64,
    now_ns: u64,
    r: Delivered,
)
    requires
        old(e).wf(),
        !old(e).has(h),
        call_ensures(Engine::deliver_readable, (e, h, total, hw_ns, now_ns), r),
    ensures
        *final(e) == *old(e),
        r.retain is None,
        r.refs@.len() == 0,
{
}

/// Of every connection whose wait is over the application hears that it left
/// TIME_WAIT, and then that it is closed, without an error.
pub proof fn law_ends_of_waits_told(e: &mut Engine, now_ns: u64, r: Reaped)
    requires
        old(e).wf(),
        call_ensures(Engine::reap_time_wait, (e, now_ns), r),
    ensures
        r.handles@.len() == 0 ==> final(e).log() == old(e).log(),
        r.handles@.len() > 0 ==> final(e).log() == reaped_log(
            old(e).log(),
            r.handles@.drop_last(),
            now_ns,
        ).with(
            InternalEvent::StateChange {
                conn: r.handles@.last(),
                from: TcpState::TimeWait,
                to: TcpState::Closed,
                emitted_ts_ns: now_ns,
            },
        ).with(
            InternalEvent::Closed { conn: r.handles@.last(), err: 0, emitted_ts_ns: now_ns },
        ),
        r.handles@.len() == 1 ==> final(e).log() == old(e).log().with(
            InternalEvent::StateChange {
                conn: r.handles@[0],
                from: TcpState::TimeWait,
                to: TcpState::Closed,
                emitted_ts_ns: now_ns,
            },
        ).with(InternalEvent::Closed { conn: r.handles@[0], err: 0, emitted_ts_ns: now_ns }),
{
    if r.handles@.len() == 1 {
        assert(r.handles@.drop_last() =~= Seq::<ConnHandle>::empty());
        assert(reaped_log(old(e).log(), r.handles@.drop_last(), now_ns) == old(e).log());
    }
}

/// An iteration begins by letting go of every buffer that was handed out in the
/// one before, of every connection, and of no other buffer; the views that the
/// application had are gone.
pub proof fn law_handed_out_is_let_go(e: &mut Engine, r: Vec<Mbuf>, h: ConnHandle, m: Mbuf)
    requires
        old(e).wf(),
        call_ensures(Engine::poll_begin, (e,), r),
    ensures
        old(e).has(h) && seg_mbufs(
            delivered_contents(old(e).conn(h).delivered_segments),
        ).contains(m) ==> r@.contains(m),
        r@.contains(m) ==> exists|o: ConnHandle| #[trigger]
            old(e).has(o) && seg_mbufs(
                delivered_contents(old(e).conn(o).delivered_segments),
            ).contains(m),
        old(e).has(h) ==> {
            &&& final(e).has(h)
            &&& delivered_contents(final(e).conn(h).delivered_segments).len() == 0
            &&& final(e).conn(h).readable_scratch_iovecs@.len() == 0
            &&& final(e).conn(h).recv == old(e).conn(h).recv
        },
{
    let t = old(e).flow_table@;
    let hs = choose|hs: Seq<ConnHandle>| #[trigger]
        is_handle_list(t, hs) && r@ == delivered_by(t, hs);
    lemma_delivered_by(t, hs, m);
    if old(e).has(h) {
        assert(hs.contains(h));
        if seg_mbufs(delivered_contents(old(e).conn(h).delivered_segments)).contains(m) {
            let k = hs.index_of(h);
            assert(seg_mbufs(delivered_contents(t[hs[k]].delivered_segments)).contains(m));
        }
        assert(final(e).flow_table@.dom().contains(h));
        assert(crate::engine_poll::let_go(old(e).conn(h), final(e).conn(h)));
    }
    if r@.contains(m) {
        let k = choose|k: int|
            0 <= k < hs.len() && seg_mbufs(
                delivered_contents(t[#[trigger] hs[k]].delivered_segments),
            ).contains(m);
        assert(hs.contains(hs[k]));
        assert(old(e).has(hs[k]));
    }
}

proof fn lemma_delivered_by(t: Map<ConnHandle, TcpConn>, hs: Seq<ConnHandle>, m: Mbuf)
    ensures
        delivered_by(t, hs).contains(m) <==> exists|k: int|
            0 <= k < hs.len() && seg_mbufs(
                delivered_contents(t[#[trigger] hs[k]].delivered_segments),
            ).contains(m),
    decreases hs.len(),
{
    if hs.len() > 0 {
        let front = hs.drop_last();
        lemma_delivered_by(t, front, m);
        let a = delivered_by(t, front);
        let b = seg_mbufs(delivered_contents(t[hs.last()].delivered_segments));
        lemma_joined_contains(a, b, m);
        if a.contains(m) {
            let k = choose|k: int|
                0 <= k < front.len() && seg_mbufs(
                    delivered_contents(t[#[trigger] front[k]].delivered_segments),
                ).contains(m);
            assert(hs[k] == front[k]);
        }
        if exists|k: int|
            0 <= k < hs.len() && seg_mbufs(
                delivered_contents(t[#[trigger] hs[k]].delivered_segments),
            ).contains(m) {
            let k = choose|k: int|
                0 <= k < hs.len() && seg_mbufs(
                    delivered_contents(t[#[trigger] hs[k]].delivered_segments),
                ).contains(m);
            if k < front.len() {
                assert(front[k] == hs[k]);
            }
        }
        if b.contains(m) {
            assert(hs[hs.len() - 1] == hs.last());
        }
    }
}

proof fn lemma_joined_contains(a: Seq<Mbuf>, b: Seq<Mbuf>, m: Mbuf)
    ensures
        (a + b).contains(m) <==> a.contains(m) || b.contains(m),
{
    let c = a + b;
    if a.contains(m) {
        assert(c[a.index_of(m)] == m);
    }
    if b.contains(m) {
        assert(c[a.len() + b.index_of(m)] == m);
    }
    if c.contains(m) {
        let k = c.index_of(m);
        if k < a.len() {
            assert(a[k] == m);
        } else {
            assert(b[k - a.len()] == m);
        }
    }
}

/// Connections whose waits are over hand back all the buffers that they hold.
pub proof fn law_reaped_buffers(e: &mut Engine, now_ns: u64, r: Reaped, i: int, m: Mbuf)
    requires
        old(e).wf(),
        call_ensures(Engine::reap_time_wait, (e, now_ns), r),
        0 <= i < r.handles@.len(),
        old(e).conn(r.handles@[i]).held().contains(m),
    ensures
        r.refs@.contains(m),
        !final(e).has(r.handles@[i]),
{
    lemma_held_by(old(e).flow_table@, r.handles@, i, m);
    assert(r.handles@.to_set().contains(r.handles@[i]));
}

proof fn lemma_held_by(t: Map<ConnHandle, TcpConn>, hs: Seq<ConnHandle>, i: int, m: Mbuf)
    requires
        0 <= i < hs.len(),
        t[hs[i]].held().contains(m),
    ensures
        held_by(t, hs).contains(m),
    decreases hs.len(),
{
    let front = hs.drop_last();
    if i < front.len() {
        lemma_held_by(t, front, i, m);
    }
    lemma_joined_contains(held_by(t, front), t[hs.last()].held(), m);
}

} // verus!
