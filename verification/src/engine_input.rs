//! What a segment of a connection leads to, once the connection itself has
//! taken it in.
use vstd::prelude::*;

use crate::counters::{bumped, inc, inc_if, Counters, TcpCounters};
use crate::engine::{
    cancelled, conn_replaced, counted_gone_to, drop_id, gone_to, log_gone_to, time_wait_deadline,
    time_wait_end, timers_of, without_id, Engine, LATEST_NS,
};
use crate::engine_listen::promoted;
use crate::engine_timers::{loss_log, rto_armed};
use crate::flow_table::ConnHandle;
use crate::mempool::Mbuf;
use crate::num::{low32_of, min_int};
use crate::tcp_conn::{
    delivered_contents, iovecs_of, seg_bytes, seg_mbufs, split_at_budget, RecvQueue, TcpConn,
};
use crate::tcp_events::{EventLog, InternalEvent, LossCause};
use crate::tcp_input::{apply_tcp_input_counters, with_outcome, Outcome, TxAction};
use crate::tcp_retrans::{acked_prefix, mbufs_of, RetransEntry};
use crate::tcp_state::TcpState;
use crate::tcp_timer_wheel::{TimerId, TimerNode};

verus! {

/// What the delivery of payload does to the buffers' references.
#[derive(Debug)]
pub struct Delivered {
    /// A segment was split: its buffer gets one more reference.
    pub retain: Option<Mbuf>,
    /// References to drop.
    pub refs: Vec<Mbuf>,
}

/// The segments that stay in flight once everything below `una` was
/// acknowledged.
pub open spec fn left_in_flight(c: TcpConn, una: u32) -> Seq<RetransEntry> {
    c.snd_retrans@.subrange(acked_prefix(c.snd_retrans@, una), c.snd_retrans@.len() as int)
}

/// Everything sent was acknowledged: nothing is left to retransmit or probe.
pub open spec fn all_acked(c: TcpConn, una: u32) -> bool {
    left_in_flight(c, una).len() == 0 && c.snd_una == c.snd_nxt
}

/// Something is left in flight while the retransmission timer runs: it starts
/// over.
pub open spec fn rto_restarts(c: TcpConn, una: u32) -> bool {
    left_in_flight(c, una).len() > 0 && c.rto_timer_id is Some
}

/// The list without an optional identifier.
pub open spec fn without_opt(ids: Seq<TimerId>, id: Option<TimerId>) -> Seq<TimerId> {
    match id {
        Some(i) => without_id(ids, i),
        None => ids,
    }
}

/// What is pending without an optional timer.
pub open spec fn cancel_opt(m: Map<TimerId, TimerNode>, id: Option<TimerId>) -> Map<
    TimerId,
    TimerNode,
> {
    match id {
        Some(i) => m.remove(i),
        None => m,
    }
}

fn forget_rto(c: &mut TcpConn, id: Option<TimerId>)
    ensures
        final(c).timer_ids@ == without_opt(old(c).timer_ids@, id),
        id is None ==> *final(c) == *old(c),
        id is Some ==> *final(c) == (TcpConn {
            rto_timer_id: None,
            timer_ids: final(c).timer_ids,
            ..*old(c)
        }),
{
    if let Some(i) = id {
        c.rto_timer_id = None;
        drop_id(&mut c.timer_ids, i);
    }
}

fn forget_tlp(c: &mut TcpConn, id: Option<TimerId>)
    ensures
        final(c).timer_ids@ == without_opt(old(c).timer_ids@, id),
        id is None ==> *final(c) == *old(c),
        id is Some ==> *final(c) == (TcpConn {
            tlp_timer_id: None,
            timer_ids: final(c).timer_ids,
            ..*old(c)
        }),
{
    if let Some(i) = id {
        c.tlp_timer_id = None;
        drop_id(&mut c.timer_ids, i);
    }
}

/// The connection once an acknowledgement up to `una` was taken in.
pub open spec fn acked_conn(c: TcpConn, d: TcpConn, una: u32) -> bool {
    &&& d.snd_retrans@ == left_in_flight(c, una)
    &&& if all_acked(c, una) {
        &&& d.timer_ids@ == without_opt(
            without_opt(c.timer_ids@, c.rto_timer_id),
            c.tlp_timer_id,
        )
        &&& d == (TcpConn {
            snd_retrans: d.snd_retrans,
            rto_timer_id: None,
            tlp_timer_id: None,
            timer_ids: d.timer_ids,
            ..c
        })
    } else if rto_restarts(c, una) {
        &&& d.timer_ids@ == without_opt(c.timer_ids@, c.rto_timer_id)
        &&& d == (TcpConn {
            snd_retrans: d.snd_retrans,
            rto_timer_id: None,
            timer_ids: d.timer_ids,
            ..c
        })
    } else {
        d == (TcpConn { snd_retrans: d.snd_retrans, ..c })
    }
}

fn ack_on_conn(c: &mut TcpConn, una: u32) -> (r: (
    Vec<Mbuf>,
    Option<TimerId>,
    Option<TimerId>,
    bool,
    u32,
))
    ensures
        old(c).wf() ==> final(c).wf(),
        acked_conn(*old(c), *final(c), una),
        r.0@ == mbufs_of(old(c).snd_retrans@.take(acked_prefix(old(c).snd_retrans@, una))),
        r.1 == (if all_acked(*old(c), una) || rto_restarts(*old(c), una) {
            old(c).rto_timer_id
        } else {
            None
        }),
        r.2 == (if all_acked(*old(c), una) {
            old(c).tlp_timer_id
        } else {
            None
        }),
        r.3 == rto_restarts(*old(c), una),
        r.4 == old(c).rtt_est.rto,
{
    let freed: Vec<Mbuf> = c.snd_retrans.prune_below(una);
    let empty: bool = c.snd_retrans.is_empty();
    let done: bool = empty && c.snd_una == c.snd_nxt;
    let restart: bool = !empty && c.rto_timer_id.is_some();
    let rto: Option<TimerId> = if done || restart {
        c.rto_timer_id
    } else {
        None
    };
    let tlp: Option<TimerId> = if done {
        c.tlp_timer_id
    } else {
        None
    };
    forget_rto(c, rto);
    forget_tlp(c, tlp);
    let rto_us: u32 = c.rtt_est.rto_us();
    (freed, rto, tlp, restart, rto_us)
}

/// The engine once an acknowledgement up to `una` was taken in, before the
/// retransmission timer starts over.
pub open spec fn ack_taken(a: Engine, b: Engine, h: ConnHandle, una: u32) -> bool {
    let c = a.conn(h);
    let d = b.conn(h);
    &&& conn_replaced(a.flow_table, b.flow_table, h, d)
    &&& acked_conn(c, d, una)
    &&& b.timer_wheel@ == (if all_acked(c, una) {
        cancel_opt(cancel_opt(a.timer_wheel@, c.rto_timer_id), c.tlp_timer_id)
    } else if rto_restarts(c, una) {
        cancel_opt(a.timer_wheel@, c.rto_timer_id)
    } else {
        a.timer_wheel@
    })
    &&& a.timer_wheel.only_left(&b.timer_wheel)
    &&& b == (Engine { flow_table: b.flow_table, timer_wheel: b.timer_wheel, ..a })
}

/// The connection once a segment in TIME_WAIT was acknowledged: the wait
/// starts over.
pub open spec fn wait_restarted(c: TcpConn, tx: TxAction, msl_ms: u32, now_ns: u64) -> TcpConn {
    if c.state == TcpState::TimeWait && tx == TxAction::Ack {
        TcpConn { time_wait_deadline_ns: Some(time_wait_end(msl_ms, now_ns)), ..c }
    } else {
        c
    }
}

/// The connection once payload was delivered.
pub open spec fn delivered_conn(c: TcpConn, d: TcpConn, total: u32) -> bool {
    let (taken, rest, split) = split_at_budget(c.recv.bytes@, total as nat);
    &&& delivered_contents(d.delivered_segments) == taken
    &&& d.recv.bytes@ == rest
    &&& d.readable_scratch_iovecs@ == iovecs_of(taken)
    &&& d == (TcpConn {
        delivered_segments: d.delivered_segments,
        readable_scratch_iovecs: d.readable_scratch_iovecs,
        recv: RecvQueue { bytes: d.recv.bytes, ..c.recv },
        ..c
    })
}

/// The segments handed out by a delivery of `total` bytes.
pub open spec fn handed_out(c: TcpConn, total: u32) -> Seq<crate::tcp_conn::InOrderSegment> {
    split_at_budget(c.recv.bytes@, total as nat).0
}

/// The counters once payload was delivered.
pub open spec fn counted_delivery(t: TcpCounters, c: TcpConn, total: u32) -> TcpCounters {
    let n = low32_of(handed_out(c, total).len() as int);
    TcpCounters {
        rx_partial_read_splits: bumped(
            t.rx_partial_read_splits,
            split_at_budget(c.recv.bytes@, total as nat).2,
        ),
        rx_iovec_segs_total: t.rx_iovec_segs_total.wrapping_add(n as u64),
        rx_multi_seg_events: bumped(t.rx_multi_seg_events, n > 1),
        recv_buf_delivered: t.recv_buf_delivered.wrapping_add(total as u64),
        ..t
    }
}

/// The log once payload was delivered: one event for all of it, if there was
/// any.
pub open spec fn delivery_log(
    l: EventLog,
    h: ConnHandle,
    c: TcpConn,
    total: u32,
    rx_hw_ts_ns: u64,
    now_ns: u64,
) -> EventLog {
    let n = low32_of(handed_out(c, total).len() as int);
    if n > 0 {
        l.with(
            InternalEvent::Readable {
                conn: h,
                seg_idx_start: 0,
                seg_count: n,
                total_len: min_int(
                    seg_bytes(handed_out(c, total)) as int,
                    u32::MAX as int,
                ) as u32,
                rx_hw_ts_ns,
                emitted_ts_ns: now_ns,
            },
        )
    } else {
        l
    }
}

fn count_delivery(t: &mut TcpCounters, split: bool, n: u32, total: u32)
    ensures
        *final(t) == (TcpCounters {
            rx_partial_read_splits: bumped(old(t).rx_partial_read_splits, split),
            rx_iovec_segs_total: old(t).rx_iovec_segs_total.wrapping_add(n as u64),
            rx_multi_seg_events: bumped(old(t).rx_multi_seg_events, n > 1),
            recv_buf_delivered: old(t).recv_buf_delivered.wrapping_add(total as u64),
            ..*old(t)
        }),
{
    inc_if(&mut t.rx_partial_read_splits, split);
    crate::counters::add(&mut t.rx_iovec_segs_total, n as u64);
    inc_if(&mut t.rx_multi_seg_events, n > 1);
    crate::counters::add(&mut t.recv_buf_delivered, total as u64);
}

impl Engine {
    /// Counts what a segment led to, and reports room to send where there is
    /// some again.
    pub fn note_outcome(&mut self, handle: ConnHandle, outcome: &Outcome, now_ns: u64)
        ensures
            outcome_noted(*old(self), *final(self), handle, *outcome, now_ns),
    {
        apply_tcp_input_counters(outcome, &mut self.counters.tcp);
        if outcome.writable_hysteresis_fired {
            self.push_event(InternalEvent::Writable { conn: handle, emitted_ts_ns: now_ns });
        }
    }

    /// Counts and reports a lost segment that was sent again.
    pub fn note_rack_loss(&mut self, handle: ConnHandle, idx: u16, now_ns: u64)
        requires
            old(self).wf(),
        ensures
            final(self).wf(),
            rack_loss_noted(*old(self), *final(self), handle, idx, now_ns),
    {
        let e: Option<RetransEntry> = match self.flow_table.get(handle) {
            Some(c) => c.snd_retrans.get(idx as usize),
            None => None,
        };
        let (seq, rtx_count) = match e {
            Some(e) => (e.seq, e.xmit_count as u32),
            None => (0u32, 0u32),
        };
        inc(&mut self.counters.tcp.tx_rack_loss);
        self.report_loss(handle, seq, rtx_count, LossCause::Rack, now_ns);
    }

    fn take_ack(&mut self, handle: ConnHandle, una: u32) -> (r: (Vec<Mbuf>, bool, u32))
        requires
            old(self).wf(),
            old(self).has(handle),
        ensures
            final(self).wf(),
            old(self).timer_wheel.has_slot() ==> final(self).timer_wheel.has_slot(),
            ack_taken(*old(self), *final(self), handle, una),
            r.0@ == mbufs_of(
                old(self).conn(handle).snd_retrans@.take(
                    acked_prefix(old(self).conn(handle).snd_retrans@, una),
                ),
            ),
            r.1 == rto_restarts(old(self).conn(handle), una),
            r.2 == old(self).conn(handle).rtt_est.rto,
    {
        let (freed, rto, tlp, restart, rto_us) = self.take_ack_on_conn(handle, una);
        let ghost mid = *self;
        if let Some(id) = rto {
            let _ = self.timer_wheel.cancel(id);
        }
        if let Some(id) = tlp {
            let _ = self.timer_wheel.cancel(id);
        }
        (freed, restart, rto_us)
    }

    fn take_ack_on_conn(&mut self, handle: ConnHandle, una: u32) -> (r: (
        Vec<Mbuf>,
        Option<TimerId>,
        Option<TimerId>,
        bool,
        u32,
    ))
        requires
            old(self).wf(),
            old(self).has(handle),
        ensures
            final(self).wf(),
            ({
                let c = old(self).conn(handle);
                let d = final(self).conn(handle);
                &&& acked_conn(c, d, una)
                &&& r.0@ == mbufs_of(c.snd_retrans@.take(acked_prefix(c.snd_retrans@, una)))
                &&& r.1 == (if all_acked(c, una) || rto_restarts(c, una) {
                    c.rto_timer_id
                } else {
                    None
                })
                &&& r.2 == (if all_acked(c, una) {
                    c.tlp_timer_id
                } else {
                    None
                })
                &&& r.3 == rto_restarts(c, una)
                &&& r.4 == c.rtt_est.rto
            }),
            conn_replaced(
                old(self).flow_table,
                final(self).flow_table,
                handle,
                final(self).conn(handle),
            ),
            *final(self) == (Engine { flow_table: final(self).flow_table, ..*old(self) }),
    {
        let c: &mut TcpConn = self.flow_table.get_mut(handle).unwrap();
        ack_on_conn(c, una)
    }

    /// Takes in that everything below `una` was acknowledged: the buffers of
    /// those segments are returned to be freed. The timers of a connection
    /// with nothing left in flight are cancelled; otherwise a running
    /// retransmission timer starts over.
    pub fn settle_ack(&mut self, handle: ConnHandle, una: u32, now_ns: u64) -> (r: Vec<Mbuf>)
        requires
            old(self).wf(),
            old(self).has(handle),
            old(self).timer_wheel.has_slot(),
            now_ns <= LATEST_NS,
        ensures
            final(self).wf(),
            ack_settled(*old(self), *final(self), handle, una, now_ns, r@),
    {
        let (freed, restart, rto_us) = self.take_ack(handle, una);
        let ghost mid = *self;
        assert(ack_taken(*old(self), mid, handle, una));
        if restart && rto_us > 0 {
            self.arm_rto(handle, now_ns + rto_us as u64 * 1_000);
        }
        freed
    }

    /// Cancels the handshake timer of a connection that was answered.
    pub fn cancel_syn_timer(&mut self, handle: ConnHandle, id: TimerId)
        requires
            old(self).wf(),
        ensures
            final(self).wf(),
            syn_timer_dropped(*old(self), *final(self), handle, id),
    {
        let _ = self.timer_wheel.cancel(id);
        if self.flow_table.get(handle).is_none() {
            return;
        }
        if let Some(c) = self.flow_table.get_mut(handle) {
            drop_id(&mut c.timer_ids, id);
        }
    }

    /// Starts TIME_WAIT over where a segment in it is acknowledged, then takes
    /// the connection to its new state, if it has one.
    pub fn settle_state(&mut self, handle: ConnHandle, outcome: &Outcome, now_ns: u64)
        requires
            old(self).wf(),
            old(self).has(handle),
        ensures
            final(self).wf(),
            state_settled(*old(self), *final(self), handle, outcome.tx, outcome.new_state, now_ns),
    {
        self.restart_wait(handle, outcome.tx, now_ns);
        let ghost mid = *self;
        if let Some(to) = outcome.new_state {
            self.transition_conn(handle, to, now_ns);
            assert(self.flow_table@ =~= old(self).flow_table@.insert(handle, self.conn(handle)));
        }
    }

    fn restart_wait(&mut self, handle: ConnHandle, tx: TxAction, now_ns: u64)
        requires
            old(self).wf(),
            old(self).has(handle),
        ensures
            final(self).wf(),
            conn_replaced(
                old(self).flow_table,
                final(self).flow_table,
                handle,
                wait_restarted(old(self).conn(handle), tx, old(self).cfg.tcp_msl_ms, now_ns),
            ),
            *final(self) == (Engine { flow_table: final(self).flow_table, ..*old(self) }),
    {
        let msl_ms: u32 = self.cfg.tcp_msl_ms;
        let c: &mut TcpConn = self.flow_table.get_mut(handle).unwrap();
        if c.state == TcpState::TimeWait && tx == TxAction::Ack {
            c.time_wait_deadline_ns = Some(time_wait_deadline(msl_ms, now_ns));
        }
    }

    /// Records that a handshake is complete: a connection that the peer opened
    /// waits to be accepted, and the event is raised.
    pub fn note_connected(&mut self, handle: ConnHandle, hw_rx_ts: u64, now_ns: u64)
        ensures
            connected_noted(*old(self), *final(self), handle, hw_rx_ts, now_ns),
    {
        if self.features.test_server {
            self.listen_promote_to_accept_queue(handle);
        }
        self.push_event(
            InternalEvent::Connected {
                conn: handle,
                rx_hw_ts_ns: hw_rx_ts,
                emitted_ts_ns: now_ns,
            },
        );
        inc(&mut self.counters.tcp.conn_open);
    }

    /// Delivers `total_delivered` bytes of payload to the application, as one
    /// event over as many segments as they lie in. What an earlier event
    /// delivered is let go of.
    pub fn deliver_readable(
        &mut self,
        handle: ConnHandle,
        total_delivered: u32,
        rx_hw_ts_ns: u64,
        now_ns: u64,
    ) -> (r: Delivered)
        requires
            old(self).wf(),
        ensures
            final(self).wf(),
            readable_delivered(
                *old(self),
                *final(self),
                handle,
                total_delivered,
                rx_hw_ts_ns,
                now_ns,
                r,
            ),
    {
        if self.flow_table.get(handle).is_none() {
            return Delivered { retain: None, refs: Vec::new() };
        }
        self.deliver_to(handle, total_delivered, rx_hw_ts_ns, now_ns)
    }

    fn deliver_to(
        &mut self,
        handle: ConnHandle,
        total: u32,
        rx_hw_ts_ns: u64,
        now_ns: u64,
    ) -> (r: Delivered)
        requires
            old(self).wf(),
            old(self).has(handle),
        ensures
            final(self).wf(),
            r.retain == (if split_at_budget(
                old(self).conn(handle).recv.bytes@,
                total as nat,
            ).2 {
                Some(handed_out(old(self).conn(handle), total).last().mbuf)
            } else {
                None
            }),
            r.refs@ == seg_mbufs(
                delivered_contents(old(self).conn(handle).delivered_segments),
            ),
            conn_replaced(
                old(self).flow_table,
                final(self).flow_table,
                handle,
                final(self).conn(handle),
            ),
            delivered_conn(old(self).conn(handle), final(self).conn(handle), total),
            final(self).log() == delivery_log(
                old(self).log(),
                handle,
                old(self).conn(handle),
                total,
                rx_hw_ts_ns,
                now_ns,
            ),
            *final(self) == (Engine {
                flow_table: final(self).flow_table,
                events: final(self).events,
                counters: Counters {
                    obs: final(self).counters.obs,
                    tcp: counted_delivery(
                        old(self).counters.tcp,
                        old(self).conn(handle),
                        total,
                    ),
                    ..old(self).counters
                },
                ..*old(self)
            }),
    {
        let (split, refs, retain, seg_count, total_len) = self.pop_readable(handle, total);
        let ghost popped = *self;
        count_delivery(&mut self.counters.tcp, split, seg_count, total);
        assert(self.counters.tcp == counted_delivery(
            old(self).counters.tcp,
            old(self).conn(handle),
            total,
        ));
        if seg_count > 0 {
            self.push_event(
                InternalEvent::Readable {
                    conn: handle,
                    seg_idx_start: 0,
                    seg_count,
                    total_len,
                    rx_hw_ts_ns,
                    emitted_ts_ns: now_ns,
                },
            );
        }
        Delivered { retain, refs }
    }

    fn pop_readable(&mut self, handle: ConnHandle, total: u32) -> (r: (
        bool,
        Vec<Mbuf>,
        Option<Mbuf>,
        u32,
        u32,
    ))
        requires
            old(self).wf(),
            old(self).has(handle),
        ensures
            final(self).wf(),
            ({
                let c = old(self).conn(handle);
                let taken = handed_out(c, total);
                &&& r.0 == split_at_budget(c.recv.bytes@, total as nat).2
                &&& r.1@ == seg_mbufs(delivered_contents(c.delivered_segments))
                &&& r.2 == (if r.0 {
                    Some(taken.last().mbuf)
                } else {
                    None
                })
                &&& r.3 == low32_of(taken.len() as int)
                &&& r.4 == min_int(seg_bytes(taken) as int, u32::MAX as int)
                &&& delivered_conn(c, final(self).conn(handle), total)
            }),
            conn_replaced(
                old(self).flow_table,
                final(self).flow_table,
                handle,
                final(self).conn(handle),
            ),
            *final(self) == (Engine { flow_table: final(self).flow_table, ..*old(self) }),
    {
        let ghost q = self.conn(handle).recv.bytes@;
        let c: &mut TcpConn = self.flow_table.get_mut(handle).unwrap();
        let (split, refs) = c.pop_delivered(total);
        proof {
            lemma_split_hands_out(q, total as nat);
        }
        let n: usize = c.delivered_segments.len();
        let retain: Option<Mbuf> = if split {
            Some(c.delivered_segments.at(n - 1).mbuf)
        } else {
            None
        };
        let (seg_count, total_len) = c.materialize_iovecs();
        (split, refs, retain, seg_count, total_len)
    }

    /// Finishes a segment: bytes dropped for want of room are counted, and a
    /// connection that ended is reported and, unless it stays in TIME_WAIT,
    /// removed. `rst_received` says that the segment was a reset. Returns the
    /// references to drop.
    pub fn finish_segment(
        &mut self,
        handle: ConnHandle,
        outcome: &Outcome,
        rst_received: bool,
        now_ns: u64,
    ) -> (r: Vec<Mbuf>)
        requires
            old(self).wf(),
        ensures
            final(self).wf(),
            segment_finished(*old(self), *final(self), handle, *outcome, rst_received, now_ns, r@),
    {
        crate::counters::add(
            &mut self.counters.tcp.recv_buf_drops,
            outcome.buf_full_drop as u64,
        );
        inc_if(&mut self.counters.tcp.conn_close, outcome.closed);
        let by_rst: bool = rst_received || outcome.tx == TxAction::Rst || outcome.tx
            == TxAction::RstForSynSentBadAck;
        inc_if(&mut self.counters.tcp.conn_rst, outcome.closed && by_rst);
        if !outcome.closed {
            return Vec::new();
        }
        self.push_event(InternalEvent::Closed { conn: handle, err: 0, emitted_ts_ns: now_ns });
        let ends: bool = match self.flow_table.get(handle) {
            Some(c) => c.state == TcpState::Closed,
            None => false,
        };
        if ends {
            self.end_conn(handle)
        } else {
            Vec::new()
        }
    }

    /// Payload bytes of a segment that were taken in, in order or not.
    pub fn accepted_bytes(outcome: &Outcome) -> (r: u64)
        ensures
            r == outcome.delivered + outcome.reassembly_queued_bytes,
    {
        outcome.delivered as u64 + outcome.reassembly_queued_bytes as u64
    }

    /// What an answer to a segment does once it was sent or not: a reset that
    /// was sent is counted, and it closes the connection in any case.
    pub fn rst_answered(&mut self, handle: ConnHandle, sent: bool, now_ns: u64)
        requires
            old(self).wf(),
            old(self).has(handle),
        ensures
            final(self).wf(),
            reset_settled(*old(self), *final(self), handle, sent, now_ns),
    {
        inc_if(&mut self.counters.tcp.tx_rst, sent);
        self.transition_conn(handle, TcpState::Closed, now_ns);
        assert(self.flow_table@ =~= old(self).flow_table@.insert(handle, self.conn(handle)));
    }
}

/// The engine once a connection's state was settled after a segment.
pub open spec fn state_settled(
    a: Engine,
    b: Engine,
    h: ConnHandle,
    tx: TxAction,
    new_state: Option<TcpState>,
    now_ns: u64,
) -> bool {
    let c = wait_restarted(a.conn(h), tx, a.cfg.tcp_msl_ms, now_ns);
    let moves = new_state is Some && new_state->0 != c.state;
    &&& conn_replaced(
        a.flow_table,
        b.flow_table,
        h,
        if moves {
            gone_to(c, new_state->0, a.cfg.tcp_msl_ms, now_ns)
        } else {
            c
        },
    )
    &&& b.log() == (if moves {
        log_gone_to(a.log(), h, c.state, new_state->0, now_ns)
    } else {
        a.log()
    })
    &&& if moves {
        a.counters.tcp.with_transition(c.state, new_state->0, b.counters.tcp.state_trans)
    } else {
        b.counters.tcp.state_trans == a.counters.tcp.state_trans
    }
    &&& b == (Engine {
        flow_table: b.flow_table,
        events: b.events,
        counters: Counters {
            obs: b.counters.obs,
            tcp: TcpCounters {
                state_trans: b.counters.tcp.state_trans,
                ..a.counters.tcp
            },
            ..a.counters
        },
        ..a
    })
}

proof fn lemma_split_hands_out(q: Seq<crate::tcp_conn::InOrderSegment>, budget: nat)
    ensures
        split_at_budget(q, budget).2 ==> split_at_budget(q, budget).0.len() > 0,
    decreases q.len(),
{
    if budget > 0 && q.len() > 0 && q[0].len <= budget {
        lemma_split_hands_out(q.subrange(1, q.len() as int), (budget - q[0].len) as nat);
    }
}

/// An acknowledgement of everything leaves no timer of the connection to
/// retransmit or probe with; one of a part leaves a running retransmission
/// timer running.
pub proof fn law_ack_settles_timers(a: Engine, b: Engine, h: ConnHandle, una: u32)
    requires
        ack_taken(a, b, h, una),
    ensures
        all_acked(a.conn(h), una) ==> b.conn(h).rto_timer_id is None && b.conn(h).tlp_timer_id
            is None,
        a.conn(h).rto_timer_id is Some && left_in_flight(a.conn(h), una).len() > 0
            ==> rto_restarts(a.conn(h), una),
        a.conn(h).rto_timer_id matches Some(id) ==> (all_acked(a.conn(h), una) || rto_restarts(
            a.conn(h),
            una,
        )) ==> !b.timer_wheel@.contains_key(id),
{
}

/// The engine once a segment's outcome was counted.
pub open spec fn outcome_noted(
    a: Engine,
    b: Engine,
    h: ConnHandle,
    outcome: Outcome,
    now_ns: u64,
) -> bool {
    &&& b.log() == (if outcome.writable_hysteresis_fired {
        a.log().with(
            InternalEvent::Writable { conn: h, emitted_ts_ns: now_ns },
        )
    } else {
        a.log()
    })
    &&& b == (Engine {
        events: b.events,
        counters: Counters {
            obs: b.counters.obs,
            tcp: with_outcome(a.counters.tcp, outcome),
            ..a.counters
        },
        ..a
    })
}

/// The engine once a loss was counted and reported.
pub open spec fn rack_loss_noted(
    a: Engine,
    b: Engine,
    h: ConnHandle,
    idx: u16,
    now_ns: u64,
) -> bool {
    &&& ({
        let known = a.has(h) && idx < a.conn(h).snd_retrans@.len();
        let e = a.conn(h).snd_retrans@[idx as int];
        b.log() == loss_log(
            a.log(),
            a.cfg.tcp_per_packet_events,
            h,
            if known {
                e.seq
            } else {
                0
            },
            if known {
                e.xmit_count as u32
            } else {
                0
            },
            LossCause::Rack,
            now_ns,
        )
    })
    &&& b == (Engine {
        events: b.events,
        counters: Counters {
            obs: b.counters.obs,
            tcp: TcpCounters {
                tx_rack_loss: a.counters.tcp.tx_rack_loss.wrapping_add(1),
                ..a.counters.tcp
            },
            ..a.counters
        },
        ..a
    })
}

/// The engine once a handshake was complete.
pub open spec fn connected_noted(
    a: Engine,
    b: Engine,
    h: ConnHandle,
    hw_rx_ts: u64,
    now_ns: u64,
) -> bool {
    &&& b.listen_slots@ == (if a.features.test_server {
        promoted(a.listen_slots@, h)
    } else {
        a.listen_slots@
    })
    &&& b.log() == a.log().with(
        InternalEvent::Connected {
            conn: h,
            rx_hw_ts_ns: hw_rx_ts,
            emitted_ts_ns: now_ns,
        },
    )
    &&& b == (Engine {
        listen_slots: b.listen_slots,
        events: b.events,
        counters: Counters {
            obs: b.counters.obs,
            tcp: TcpCounters {
                conn_open: a.counters.tcp.conn_open.wrapping_add(1),
                ..a.counters.tcp
            },
            ..a.counters
        },
        ..a
    })
}

/// The engine once payload was delivered.
pub open spec fn readable_delivered(
    a: Engine,
    b: Engine,
    h: ConnHandle,
    total_delivered: u32,
    rx_hw_ts_ns: u64,
    now_ns: u64,
    r: Delivered,
) -> bool {
    &&& !a.has(h) ==> b == a && r.retain is None
        && r.refs@.len() == 0
    &&& a.has(h) ==> {
        let c = a.conn(h);
        &&& r.retain == (if split_at_budget(c.recv.bytes@, total_delivered as nat).2 {
            Some(handed_out(c, total_delivered).last().mbuf)
        } else {
            None
        })
        &&& r.refs@ == seg_mbufs(delivered_contents(c.delivered_segments))
        &&& conn_replaced(a.flow_table, b.flow_table, h, b.conn(h))
        &&& delivered_conn(c, b.conn(h), total_delivered)
        &&& b.log() == delivery_log(
            a.log(),
            h,
            c,
            total_delivered,
            rx_hw_ts_ns,
            now_ns,
        )
        &&& b == (Engine {
            flow_table: b.flow_table,
            events: b.events,
            counters: Counters {
                obs: b.counters.obs,
                tcp: counted_delivery(a.counters.tcp, c, total_delivered),
                ..a.counters
            },
            ..a
        })
    }
}

/// The engine once a segment was finished; `r` are the references to drop.
pub open spec fn segment_finished(
    a: Engine,
    b: Engine,
    h: ConnHandle,
    outcome: Outcome,
    rst_received: bool,
    now_ns: u64,
    r: Seq<Mbuf>,
) -> bool {
    &&& ({
        let ends = outcome.closed && a.has(h) && a.conn(h).state
            == TcpState::Closed;
        let c = a.conn(h);
        &&& r == (if ends {
            c.held()
        } else {
            Seq::<Mbuf>::empty()
        })
        &&& b.flow_table@ == (if ends {
            a.flow_table@.remove(h)
        } else {
            a.flow_table@
        })
        &&& b.flow_table.max == a.flow_table.max
        &&& b.timer_wheel@ == (if ends {
            cancelled(a.timer_wheel@, timers_of(c))
        } else {
            a.timer_wheel@
        })
        &&& a.timer_wheel.only_left(&b.timer_wheel)
        &&& b.log() == (if outcome.closed {
            a.log().with(
                InternalEvent::Closed { conn: h, err: 0, emitted_ts_ns: now_ns },
            )
        } else {
            a.log()
        })
    })
    &&& b == (Engine {
        flow_table: b.flow_table,
        timer_wheel: b.timer_wheel,
        events: b.events,
        counters: Counters {
            obs: b.counters.obs,
            tcp: TcpCounters {
                recv_buf_drops: a.counters.tcp.recv_buf_drops.wrapping_add(
                    outcome.buf_full_drop as u64,
                ),
                conn_close: bumped(a.counters.tcp.conn_close, outcome.closed),
                conn_rst: bumped(
                    a.counters.tcp.conn_rst,
                    outcome.closed && (rst_received || outcome.tx == TxAction::Rst
                        || outcome.tx == TxAction::RstForSynSentBadAck),
                ),
                ..a.counters.tcp
            },
            ..a.counters
        },
        ..a
    })
}

/// The engine once a reset answered a segment.
pub open spec fn reset_settled(
    a: Engine,
    b: Engine,
    h: ConnHandle,
    sent: bool,
    now_ns: u64,
) -> bool {
    &&& conn_replaced(a.flow_table, b.flow_table, h, b.conn(h))
    &&& b.conn(h) == (TcpConn {
        state: TcpState::Closed,
        ..a.conn(h)
    })
    &&& b.log() == log_gone_to(
        a.log(),
        h,
        a.conn(h).state,
        TcpState::Closed,
        now_ns,
    )
    &&& counted_gone_to(
        a.counters.tcp,
        a.conn(h).state,
        TcpState::Closed,
        b.counters.tcp.state_trans,
    )
    &&& b == (Engine {
        flow_table: b.flow_table,
        events: b.events,
        counters: Counters {
            obs: b.counters.obs,
            tcp: TcpCounters {
                tx_rst: bumped(a.counters.tcp.tx_rst, sent),
                state_trans: b.counters.tcp.state_trans,
                ..a.counters.tcp
            },
            ..a.counters
        },
        ..a
    })
}

/// The engine once an acknowledgement was settled; `r` are the buffers to free.
pub open spec fn ack_settled(
    a: Engine,
    b: Engine,
    h: ConnHandle,
    una: u32,
    now_ns: u64,
    r: Seq<Mbuf>,
) -> bool {
    &&& r == mbufs_of(
        a.conn(h).snd_retrans@.take(
            acked_prefix(a.conn(h).snd_retrans@, una),
        ),
    )
    &&& exists|mid: Engine| #[trigger]
        ack_taken(a, mid, h, una) && {
            let c = a.conn(h);
            if rto_restarts(c, una) && c.rtt_est.rto > 0 {
                rto_armed(mid, b, h, now_ns + c.rtt_est.rto * 1_000)
            } else {
                b == mid
            }
        }
}

/// The engine once a handshake timer was cancelled.
pub open spec fn syn_timer_dropped(a: Engine, b: Engine, h: ConnHandle, id: TimerId) -> bool {
    &&& b.timer_wheel@ == a.timer_wheel@.remove(id)
    &&& a.timer_wheel.only_left(&b.timer_wheel)
    &&& if a.has(h) {
        &&& conn_replaced(a.flow_table, b.flow_table, h, b.conn(h))
        &&& b.conn(h).timer_ids@ == without_id(a.conn(h).timer_ids@, id)
        &&& b.conn(h) == (TcpConn { timer_ids: b.conn(h).timer_ids, ..a.conn(h) })
    } else {
        b.flow_table == a.flow_table
    }
    &&& b == (Engine { flow_table: b.flow_table, timer_wheel: b.timer_wheel, ..a })
}

} // verus!
