//! Timers of an engine: those of the application, and what a connection's
//! timers do when they fire.
use vstd::arithmetic::power2::pow2;
use vstd::prelude::*;

use crate::counters::{bumped, inc, inc_if, Counters, TcpCounters};
use crate::engine::{conn_replaced, drop_id, timed_out, without_id, Engine, Released, LATEST_NS};
use crate::engine_config::{align_up_to_tick_ns, tick_at_or_after};
use crate::engine_listen::{cleared, handshake_delay_us, syn_timer_armed};
use crate::engine_tx::SYN_ACK;
use crate::flow_table::ConnHandle;
use crate::num::{max_u32, min_int};
use crate::tcp_conn::TcpConn;
use crate::tcp_events::{EventLog, InternalEvent, LossCause};
use crate::tcp_output::TCP_SYN;
use crate::tcp_retrans::{marked_lost, mbufs_of, RetransEntry};
use crate::tcp_state::TcpState;
use crate::tcp_timer_wheel::{fired_of, still_pending, TimerId, TimerKind, TimerNode};
use crate::tcp_tlp::select_probe;

verus! {

/// What the retransmission timer of a connection calls for.
#[derive(Debug, Clone, Copy, PartialEq, Eq, Structural)]
pub enum RtoStep {
    /// It is not the connection's timer any more.
    Stale,
    /// Nothing is in flight.
    Idle,
    /// What is lost is to be sent again.
    Retransmit,
}

/// What the handshake timer of a connection calls for.
#[derive(Debug)]
pub enum SynStep {
    /// Nothing.
    Nothing,
    /// The handshake was given up; these buffers are let go of.
    GaveUp(Released),
    /// A segment with these flags is to be sent again.
    Resend { flags: u8 },
}

/// A connection whose retransmission timer has fired.
pub open spec fn rto_cleared(c: TcpConn, d: TcpConn, id: TimerId) -> bool {
    &&& d.timer_ids@ == without_id(c.timer_ids@, id)
    &&& d == (TcpConn { rto_timer_id: None, timer_ids: d.timer_ids, ..c })
}

/// A connection whose probe timer has fired.
pub open spec fn tlp_cleared(c: TcpConn, d: TcpConn, id: TimerId) -> bool {
    &&& d.timer_ids@ == without_id(c.timer_ids@, id)
    &&& d == (TcpConn { tlp_timer_id: None, timer_ids: d.timer_ids, ..c })
}

/// A connection whose handshake timer has fired for the `count`-th time.
pub open spec fn syn_cleared(c: TcpConn, d: TcpConn, id: TimerId, count: u8) -> bool {
    &&& d.timer_ids@ == without_id(c.timer_ids@, id)
    &&& d == (TcpConn {
        syn_retrans_timer_id: None,
        timer_ids: d.timer_ids,
        syn_retrans_count: count,
        ..c
    })
}

/// The retransmission timer of a connection was armed.
pub open spec fn rto_armed(a: Engine, b: Engine, h: ConnHandle, fire_at_ns: int) -> bool {
    let c = a.conn(h);
    let d = b.conn(h);
    let id = d.rto_timer_id->0;
    &&& d.rto_timer_id is Some
    &&& !a.timer_wheel@.contains_key(id)
    &&& b.timer_wheel@ == a.timer_wheel@.insert(
        id,
        TimerNode {
            fire_at_ns: fire_at_ns as u64,
            owner_handle: h,
            kind: TimerKind::Rto,
            user_data: 0,
        },
    )
    &&& a.timer_wheel.added(&b.timer_wheel, id, b.timer_wheel@[id])
    &&& conn_replaced(a.flow_table, b.flow_table, h, d)
    &&& d.timer_ids@ == c.timer_ids@.push(id)
    &&& d == (TcpConn { rto_timer_id: Some(id), timer_ids: d.timer_ids, ..c })
    &&& b == (Engine { flow_table: b.flow_table, timer_wheel: b.timer_wheel, ..a })
}

/// The probe timer of a connection was armed.
pub open spec fn tlp_armed(a: Engine, b: Engine, h: ConnHandle, fire_at_ns: int) -> bool {
    let c = a.conn(h);
    let d = b.conn(h);
    let id = d.tlp_timer_id->0;
    &&& d.tlp_timer_id is Some
    &&& !a.timer_wheel@.contains_key(id)
    &&& b.timer_wheel@ == a.timer_wheel@.insert(
        id,
        TimerNode {
            fire_at_ns: fire_at_ns as u64,
            owner_handle: h,
            kind: TimerKind::Tlp,
            user_data: 0,
        },
    )
    &&& a.timer_wheel.added(&b.timer_wheel, id, b.timer_wheel@[id])
    &&& conn_replaced(a.flow_table, b.flow_table, h, d)
    &&& d.timer_ids@ == c.timer_ids@.push(id)
    &&& d == (TcpConn { tlp_timer_id: Some(id), timer_ids: d.timer_ids, ..c })
    &&& b == (Engine { flow_table: b.flow_table, timer_wheel: b.timer_wheel, ..a })
}

/// The log once the retransmissions of the segments at some indexes were
/// reported; an index out of range is passed over.
pub open spec fn retrans_log(
    l: EventLog,
    h: ConnHandle,
    entries: Seq<RetransEntry>,
    idxs: Seq<u16>,
    now_ns: u64,
) -> EventLog
    decreases idxs.len(),
{
    if idxs.len() == 0 {
        l
    } else {
        let before = retrans_log(l, h, entries, idxs.drop_last(), now_ns);
        let i = idxs.last() as int;
        if i < entries.len() {
            before.with(
                InternalEvent::TcpRetrans {
                    conn: h,
                    seq: entries[i].seq,
                    rtx_count: entries[i].xmit_count as u32,
                    emitted_ts_ns: now_ns,
                },
            )
        } else {
            before
        }
    }
}

/// The log once a retransmission and the loss that it was for were reported,
/// where single segments are reported.
pub open spec fn loss_log(
    l: EventLog,
    reported: bool,
    h: ConnHandle,
    seq: u32,
    rtx_count: u32,
    cause: LossCause,
    now_ns: u64,
) -> EventLog {
    if reported {
        l.with(
            InternalEvent::TcpRetrans { conn: h, seq, rtx_count, emitted_ts_ns: now_ns },
        ).with(InternalEvent::TcpLossDetected { conn: h, cause, emitted_ts_ns: now_ns })
    } else {
        l
    }
}

/// The segments that a fired retransmission timer sends again: those found
/// lost, or the oldest where none was.
pub open spec fn rto_targets(lost: Seq<u16>) -> Seq<u16> {
    if lost.len() == 0 {
        seq![0u16]
    } else {
        lost
    }
}

/// The engine once the retransmissions of a fired timer are counted and
/// reported.
pub open spec fn rto_noted(
    a: Engine,
    b: Engine,
    h: ConnHandle,
    lost: Seq<u16>,
    now_ns: u64,
) -> bool {
    &&& b.log() == (if a.cfg.tcp_per_packet_events {
        retrans_log(a.log(), h, a.conn(h).snd_retrans@, rto_targets(lost), now_ns).with(
            InternalEvent::TcpLossDetected {
                conn: h,
                cause: LossCause::Rto,
                emitted_ts_ns: now_ns,
            },
        )
    } else {
        a.log()
    })
    &&& b == (Engine {
        events: b.events,
        counters: Counters {
            obs: b.counters.obs,
            tcp: TcpCounters {
                tx_rto: a.counters.tcp.tx_rto.wrapping_add(1),
                conn_timeout_retrans: bumped(
                    a.counters.tcp.conn_timeout_retrans,
                    rto_exhausted(a, h),
                ),
                ..a.counters.tcp
            },
            ..a.counters
        },
        ..a
    })
}

/// The oldest segment of a connection has been sent again as often as the
/// configuration allows, whatever the reasons were.
pub open spec fn rto_exhausted(a: Engine, h: ConnHandle) -> bool {
    &&& a.conn(h).snd_retrans@.len() > 0
    &&& a.conn(h).snd_retrans@[0].xmit_count > a.cfg.tcp_max_retrans_count
}

/// The connection with its timeout doubled, unless it is set not to.
pub open spec fn backed_off(c: TcpConn) -> TcpConn {
    if c.rto_no_backoff {
        c
    } else {
        TcpConn { rtt_est: c.rtt_est.backed_off(), ..c }
    }
}

/// The engine once a connection's timeout was doubled.
pub open spec fn engine_backed_off(a: Engine, b: Engine, h: ConnHandle) -> bool {
    &&& conn_replaced(a.flow_table, b.flow_table, h, backed_off(a.conn(h)))
    &&& b == (Engine { flow_table: b.flow_table, ..a })
}

impl Engine {
    /// Schedules a timer for the application. It fires at the first tick at or
    /// after the deadline.
    pub fn public_timer_add(&mut self, deadline_ns: u64, user_data: u64) -> (r: TimerId)
        requires
            old(self).wf(),
            old(self).timer_wheel.has_slot(),
        ensures
            final(self).wf(),
            !old(self).timer_wheel@.contains_key(r),
            final(self).timer_wheel@ == old(self).timer_wheel@.insert(
                r,
                TimerNode {
                    fire_at_ns: tick_at_or_after(deadline_ns) as u64,
                    owner_handle: 0,
                    kind: TimerKind::ApiPublic,
                    user_data,
                },
            ),
            old(self).timer_wheel.added(
                &final(self).timer_wheel,
                r,
                final(self).timer_wheel@[r],
            ),
            *final(self) == (Engine { timer_wheel: final(self).timer_wheel, ..*old(self) }),
    {
        self.timer_wheel.add(
            TimerNode {
                fire_at_ns: align_up_to_tick_ns(deadline_ns),
                owner_handle: 0,
                kind: TimerKind::ApiPublic,
                user_data,
            },
        )
    }

    /// Cancels a timer of the application; says whether it was pending. The
    /// identifier of a timer that has fired or was cancelled finds nothing,
    /// also once its slot is in use again.
    pub fn public_timer_cancel(&mut self, id: TimerId) -> (r: bool)
        requires
            old(self).wf(),
        ensures
            final(self).wf(),
            r == old(self).timer_wheel@.contains_key(id),
            final(self).timer_wheel@ == old(self).timer_wheel@.remove(id),
            old(self).timer_wheel.only_left(&final(self).timer_wheel),
            *final(self) == (Engine { timer_wheel: final(self).timer_wheel, ..*old(self) }),
    {
        self.timer_wheel.cancel(id)
    }

    /// Takes out the timers that are due; each is then handled by its kind.
    pub fn fire_timers_at(&mut self, now_ns: u64) -> (r: Vec<(TimerId, TimerNode)>)
        requires
            old(self).wf(),
        ensures
            final(self).wf(),
            fired_of(old(self).timer_wheel@, now_ns, r@),
            still_pending(old(self).timer_wheel@, now_ns, final(self).timer_wheel@),
            old(self).timer_wheel.only_left(&final(self).timer_wheel),
            *final(self) == (Engine { timer_wheel: final(self).timer_wheel, ..*old(self) }),
    {
        self.timer_wheel.advance(now_ns)
    }

    /// Reports a timer of the application that fired.
    pub fn on_api_timer_fire(&mut self, id: TimerId, user_data: u64, now_ns: u64)
        ensures
            api_timer_reported(*old(self), *final(self), id, user_data, now_ns),
    {
        self.push_event(
            InternalEvent::ApiTimer { timer_id: id, user_data, emitted_ts_ns: now_ns },
        );
        inc(&mut self.counters.tcp.tx_api_timers_fired);
    }

    /// Arms the retransmission timer of a connection.
    pub fn arm_rto(&mut self, handle: ConnHandle, fire_at_ns: u64)
        requires
            old(self).wf(),
            old(self).has(handle),
            old(self).timer_wheel.has_slot(),
        ensures
            final(self).wf(),
            rto_armed(*old(self), *final(self), handle, fire_at_ns as int),
    {
        let id: TimerId = self.timer_wheel.add(
            TimerNode {
                fire_at_ns,
                owner_handle: handle,
                kind: TimerKind::Rto,
                user_data: 0,
            },
        );
        if let Some(c) = self.flow_table.get_mut(handle) {
            c.rto_timer_id = Some(id);
            c.timer_ids.push(id);
        }
    }

    /// Arms the probe timer of a connection, `pto_us` from now, where a probe
    /// may be armed.
    pub fn arm_tlp_pto(&mut self, handle: ConnHandle, pto_us: u32, now_ns: u64)
        requires
            old(self).wf(),
            old(self).timer_wheel.has_slot(),
            now_ns <= LATEST_NS,
        ensures
            final(self).wf(),
            probe_armed(*old(self), *final(self), handle, pto_us, now_ns),
    {
        let armed: bool = match self.flow_table.get(handle) {
            Some(c) => c.tlp_arm_gate_passes(),
            None => false,
        };
        if !armed {
            return;
        }
        let id: TimerId = self.timer_wheel.add(
            TimerNode {
                fire_at_ns: now_ns + pto_us as u64 * 1_000,
                owner_handle: handle,
                kind: TimerKind::Tlp,
                user_data: 0,
            },
        );
        if let Some(c) = self.flow_table.get_mut(handle) {
            c.tlp_timer_id = Some(id);
            c.timer_ids.push(id);
        }
    }

    /// The retransmission timer of a connection has fired.
    pub fn on_rto_fire(&mut self, handle: ConnHandle, fired_id: TimerId) -> (r: RtoStep)
        requires
            old(self).wf(),
        ensures
            final(self).wf(),
            rto_fired(*old(self), *final(self), handle, fired_id, r),
    {
        let (current, empty) = match self.flow_table.get(handle) {
            Some(c) => (
                match c.rto_timer_id {
                    Some(id) => id == fired_id,
                    None => false,
                },
                c.snd_retrans.is_empty(),
            ),
            None => (false, true),
        };
        if !current {
            return RtoStep::Stale;
        }
        if let Some(c) = self.flow_table.get_mut(handle) {
            c.rto_timer_id = None;
            drop_id(&mut c.timer_ids, fired_id);
        }
        if empty {
            RtoStep::Idle
        } else {
            RtoStep::Retransmit
        }
    }

    /// Marks the segments at some indexes of a connection as lost.
    pub fn mark_lost(&mut self, handle: ConnHandle, lost: &[u16])
        requires
            old(self).wf(),
            old(self).has(handle),
        ensures
            final(self).wf(),
            losses_marked(*old(self), *final(self), handle, lost@),
    {
        if let Some(c) = self.flow_table.get_mut(handle) {
            c.snd_retrans.mark_lost(lost);
        }
    }

    /// The segments to send again once a retransmission timer has fired.
    pub fn rto_retransmits(lost: &[u16]) -> (r: Vec<u16>)
        ensures
            r@ == rto_targets(lost@),
    {
        let mut out: Vec<u16> = Vec::new();
        if lost.len() == 0 {
            out.push(0);
            assert(out@ =~= rto_targets(lost@));
            return out;
        }
        let mut i: usize = 0;
        while i < lost.len()
            invariant
                i <= lost@.len(),
                out@ == lost@.take(i as int),
            decreases lost@.len() - i,
        {
            out.push(lost[i]);
            i += 1;
            assert(out@ =~= lost@.take(i as int));
        }
        assert(out@ =~= rto_targets(lost@));
        out
    }

    fn report_retransmits(&mut self, handle: ConnHandle, idxs: &[u16], now_ns: u64)
        requires
            old(self).wf(),
            old(self).has(handle),
        ensures
            final(self).wf(),
            final(self).log() == retrans_log(
                old(self).log(),
                handle,
                old(self).conn(handle).snd_retrans@,
                idxs@,
                now_ns,
            ),
            *final(self) == (Engine {
                events: final(self).events,
                counters: Counters { obs: final(self).counters.obs, ..old(self).counters },
                ..*old(self)
            }),
    {
        let mut k: usize = 0;
        let ghost entries = self.conn(handle).snd_retrans@;
        assert(idxs@.take(0) =~= Seq::<u16>::empty());
        while k < idxs.len()
            invariant
                k <= idxs@.len(),
                self.wf(),
                self.has(handle),
                entries == self.conn(handle).snd_retrans@,
                self.log() == retrans_log(
                    old(self).log(),
                    handle,
                    entries,
                    idxs@.take(k as int),
                    now_ns,
                ),
                *self == (Engine {
                    events: self.events,
                    counters: Counters { obs: self.counters.obs, ..old(self).counters },
                    ..*old(self)
                }),
            decreases idxs@.len() - k,
        {
            assert(idxs@.take(k + 1).drop_last() =~= idxs@.take(k as int));
            assert(idxs@.take(k + 1).last() == idxs@[k as int]);
            let e: Option<RetransEntry> = match self.flow_table.get(handle) {
                Some(c) => c.snd_retrans.get(idxs[k] as usize),
                None => None,
            };
            if let Some(e) = e {
                self.push_event(
                    InternalEvent::TcpRetrans {
                        conn: handle,
                        seq: e.seq,
                        rtx_count: e.xmit_count as u32,
                        emitted_ts_ns: now_ns,
                    },
                );
            }
            k += 1;
        }
        assert(idxs@.take(k as int) =~= idxs@);
    }

    fn note_rto(&mut self, handle: ConnHandle, lost: &[u16], now_ns: u64) -> (r: bool)
        requires
            old(self).wf(),
            old(self).has(handle),
        ensures
            final(self).wf(),
            rto_noted(*old(self), *final(self), handle, lost@, now_ns),
            r == rto_exhausted(*old(self), handle),
    {
        inc(&mut self.counters.tcp.tx_rto);
        if self.cfg.tcp_per_packet_events {
            let targets: Vec<u16> = Engine::rto_retransmits(lost);
            self.report_retransmits(handle, targets.as_slice(), now_ns);
            self.push_event(
                InternalEvent::TcpLossDetected {
                    conn: handle,
                    cause: LossCause::Rto,
                    emitted_ts_ns: now_ns,
                },
            );
        }
        let xmit_count: u16 = match self.flow_table.get(handle) {
            Some(c) => match c.snd_retrans.front() {
                Some(e) => e.xmit_count,
                None => 0,
            },
            None => 0,
        };
        let exhausted: bool = xmit_count as u32 > self.cfg.tcp_max_retrans_count;
        inc_if(&mut self.counters.tcp.conn_timeout_retrans, exhausted);
        exhausted
    }

    /// Finishes what a fired retransmission timer began, once the segments at
    /// `lost` (or the oldest one) were sent again: the firing is counted and
    /// reported. A connection whose oldest segment was sent too often is given
    /// up; otherwise its timeout doubles, unless it is set not to, and the
    /// timer is armed anew.
    pub fn rto_retransmitted(
        &mut self,
        handle: ConnHandle,
        lost: &[u16],
        now_ns: u64,
    ) -> (r: Option<Released>)
        requires
            old(self).wf(),
            old(self).has(handle),
            old(self).timer_wheel.has_slot(),
            now_ns <= LATEST_NS,
        ensures
            final(self).wf(),
            rto_settled(*old(self), *final(self), handle, lost@, now_ns, r),
    {
        let exhausted: bool = self.note_rto(handle, lost, now_ns);
        let ghost mid = *self;
        assert(rto_noted(*old(self), mid, handle, lost@, now_ns));
        if exhausted {
            let rel: Released = self.force_close_etimedout(handle, now_ns);
            return Some(rel);
        }
        let mut rto_us: u32 = 0;
        if let Some(c) = self.flow_table.get_mut(handle) {
            if !c.rto_no_backoff {
                c.rtt_est.apply_backoff();
            }
            rto_us = c.rtt_est.rto_us();
        }
        let ghost off = *self;
        assert(engine_backed_off(mid, off, handle));
        if rto_us == 0 {
            return None;
        }
        self.arm_rto(handle, now_ns + rto_us as u64 * 1_000);
        None
    }

    /// The probe timer of a connection has fired; returns the index of the
    /// segment to send again as a probe, the last one in flight.
    pub fn on_tlp_fire(&mut self, handle: ConnHandle, fired_id: TimerId) -> (r: Option<usize>)
        requires
            old(self).wf(),
        ensures
            final(self).wf(),
            tlp_fired(*old(self), *final(self), handle, fired_id, r),
    {
        let (current, n, pending) = match self.flow_table.get(handle) {
            Some(c) => (
                match c.tlp_timer_id {
                    Some(id) => id == fired_id,
                    None => false,
                },
                c.snd_retrans.len(),
                c.snd.pending.len() > 0,
            ),
            None => (false, 0usize, false),
        };
        if !current {
            return None;
        }
        if let Some(c) = self.flow_table.get_mut(handle) {
            c.tlp_timer_id = None;
            drop_id(&mut c.timer_ids, fired_id);
        }
        match select_probe(pending, n > 0) {
            Some(_) => Some(n - 1),
            None => None,
        }
    }

    /// Finishes a probe: it is counted, recorded on the connection and
    /// reported.
    pub fn tlp_probed(&mut self, handle: ConnHandle, probe_idx: usize, now_ns: u64)
        requires
            old(self).wf(),
            old(self).has(handle),
            probe_idx < old(self).conn(handle).snd_retrans@.len(),
        ensures
            final(self).wf(),
            probe_noted(*old(self), *final(self), handle, probe_idx, now_ns),
    {
        inc(&mut self.counters.tcp.tx_tlp);
        let e: RetransEntry = self.record_probe(handle, probe_idx, now_ns);
        self.report_loss(handle, e.seq, e.xmit_count as u32, LossCause::Tlp, now_ns);
    }

    fn record_probe(&mut self, handle: ConnHandle, probe_idx: usize, now_ns: u64) -> (r:
        RetransEntry)
        requires
            old(self).wf(),
            old(self).has(handle),
            probe_idx < old(self).conn(handle).snd_retrans@.len(),
        ensures
            final(self).wf(),
            r == old(self).conn(handle).snd_retrans@[probe_idx as int],
            conn_replaced(
                old(self).flow_table,
                final(self).flow_table,
                handle,
                final(self).conn(handle),
            ),
            probe_recorded(
                old(self).conn(handle),
                final(self).conn(handle),
                r.seq,
                r.len,
                now_ns,
            ),
            *final(self) == (Engine { flow_table: final(self).flow_table, ..*old(self) }),
    {
        let e: RetransEntry = self.flow_table.get(handle).unwrap().snd_retrans.entries[probe_idx];
        if let Some(c) = self.flow_table.get_mut(handle) {
            c.on_tlp_probe_fired(e.seq, e.len, now_ns);
        }
        e
    }

    /// Reports a retransmission and the loss that it was for, where single
    /// segments are reported.
    pub fn report_loss(
        &mut self,
        handle: ConnHandle,
        seq: u32,
        rtx_count: u32,
        cause: LossCause,
        now_ns: u64,
    )
        ensures
            final(self).log() == loss_log(
                old(self).log(),
                old(self).cfg.tcp_per_packet_events,
                handle,
                seq,
                rtx_count,
                cause,
                now_ns,
            ),
            *final(self) == (Engine {
                events: final(self).events,
                counters: Counters { obs: final(self).counters.obs, ..old(self).counters },
                ..*old(self)
            }),
    {
        if self.cfg.tcp_per_packet_events {
            self.push_event(
                InternalEvent::TcpRetrans {
                    conn: handle,
                    seq,
                    rtx_count,
                    emitted_ts_ns: now_ns,
                },
            );
            self.push_event(
                InternalEvent::TcpLossDetected { conn: handle, cause, emitted_ts_ns: now_ns },
            );
        }
    }

    /// The handshake timer of a connection has fired. After three
    /// retransmissions the handshake is given up.
    pub fn on_syn_retrans_fire(&mut self, handle: ConnHandle, fired_id: TimerId, now_ns: u64) -> (r:
        SynStep)
        requires
            old(self).wf(),
        ensures
            final(self).wf(),
            syn_fired(*old(self), *final(self), handle, fired_id, now_ns, r),
    {
        let (current, shaking, passive, count) = match self.flow_table.get(handle) {
            Some(c) => (
                match c.syn_retrans_timer_id {
                    Some(id) => id == fired_id,
                    None => false,
                },
                c.state == TcpState::SynSent || c.state == TcpState::SynReceived,
                c.is_passive_open,
                c.syn_retrans_count,
            ),
            None => (false, false, false, 0u8),
        };
        if !current {
            return SynStep::Nothing;
        }
        let new_count: u8 = if shaking {
            count.saturating_add(1)
        } else {
            count
        };
        if let Some(c) = self.flow_table.get_mut(handle) {
            c.syn_retrans_timer_id = None;
            drop_id(&mut c.timer_ids, fired_id);
            c.syn_retrans_count = new_count;
        }
        let ghost gone = *self;
        assert(syn_timer_cleared(*old(self), gone, handle, fired_id, new_count));
        if !shaking {
            return SynStep::Nothing;
        }
        if new_count > 3 {
            inc(&mut self.counters.tcp.conn_timeout_syn_sent);
            if self.features.test_server && passive {
                self.clear_in_progress_for_conn(handle);
            }
            let ghost mid = *self;
            assert(syn_timeout_counted(gone, mid, handle));
            let rel: Released = self.force_close_etimedout(handle, now_ns);
            assert(mid.conn(handle).held() == old(self).conn(handle).held());
            assert(mid.conn(handle).snd_retrans@ == old(self).conn(handle).snd_retrans@);
            assert(timed_out(mid, *self, handle, now_ns));
            return SynStep::GaveUp(rel);
        }
        let flags: u8 = if passive {
            SYN_ACK
        } else {
            TCP_SYN
        };
        SynStep::Resend { flags }
    }

    /// Finishes the retransmission of a handshake segment: a SYN-ACK that was
    /// sent is counted, and the next one is scheduled, each time twice as far
    /// off as the one before, up to sixty-four times.
    pub fn syn_retransmitted(&mut self, handle: ConnHandle, sent: bool, now_ns: u64)
        requires
            old(self).wf(),
            old(self).has(handle),
            old(self).timer_wheel.has_slot(),
            now_ns <= LATEST_NS,
        ensures
            final(self).wf(),
            syn_resent(*old(self), *final(self), handle, sent, now_ns),
    {
        let (passive, count) = match self.flow_table.get(handle) {
            Some(c) => (c.is_passive_open, c.syn_retrans_count),
            None => (false, 0u8),
        };
        inc_if(&mut self.counters.tcp.tx_retrans, sent && passive);
        let delay_us: u32 = syn_backoff(
            self.cfg.tcp_initial_rto_us,
            self.cfg.tcp_min_rto_us,
            count,
        );
        self.arm_syn_timer(handle, now_ns + delay_us as u64 * 1_000);
    }
}

proof fn lemma_shifted(x: u64, k: u64)
    requires
        x <= u32::MAX,
        k <= 6,
    ensures
        x << k == x * pow2(k as nat),
{
    vstd::arithmetic::power2::lemma2_to64();
    assert(x << 0u64 == x && x << 1u64 == x * 2 && x << 2u64 == x * 4 && x << 3u64 == x * 8 && x
        << 4u64 == x * 16 && x << 5u64 == x * 32 && x << 6u64 == x * 64) by (bit_vector)
        requires
            x <= 0xffff_ffff,
    ;
    assert(k == 0 || k == 1 || k == 2 || k == 3 || k == 4 || k == 5 || k == 6);
}

/// How long the answer to the `count`-th retransmission of a handshake segment
/// is awaited, in microseconds.
pub fn syn_backoff(initial_rto_us: u32, min_rto_us: u32, count: u8) -> (r: u32)
    ensures
        r == syn_backoff_us(initial_rto_us, min_rto_us, count),
{
    let base_us: u64 = max_u32(initial_rto_us, min_rto_us) as u64;
    let k: u64 = if count < 6 {
        count as u64
    } else {
        6
    };
    proof {
        lemma_shifted(base_us, k);
    }
    let delay_us: u64 = base_us << k;
    if delay_us <= u32::MAX as u64 {
        delay_us as u32
    } else {
        u32::MAX
    }
}

/// How long the answer to the `count`-th retransmission of a handshake segment
/// is awaited, in microseconds: the first delay, doubled for each
/// retransmission up to the sixth, and no more than a 32-bit number holds.
pub open spec fn syn_backoff_us(initial_rto_us: u32, min_rto_us: u32, count: u8) -> u32 {
    min_int(
        handshake_delay_us(initial_rto_us, min_rto_us) * pow2(min_int(count as int, 6) as nat),
        u32::MAX as int,
    ) as u32
}

/// The delay doubles from one retransmission to the next, up to the sixth and
/// up to what a 32-bit number holds; from then on it stays. It never shrinks.
pub proof fn law_syn_backoff_doubles(initial_rto_us: u32, min_rto_us: u32, count: u8)
    requires
        count < u8::MAX,
    ensures
        ({
            let now = syn_backoff_us(initial_rto_us, min_rto_us, count);
            let next = syn_backoff_us(initial_rto_us, min_rto_us, (count + 1) as u8);
            next == (if count < 6 {
                min_int(2 * now, u32::MAX as int)
            } else {
                now as int
            })
        }),
{
    if count < 6 {
        vstd::arithmetic::power2::lemma_pow2_unfold((count + 1) as nat);
        vstd::arithmetic::power2::lemma_pow2_pos(count as nat);
        let b = handshake_delay_us(initial_rto_us, min_rto_us);
        let p = pow2(count as nat) as int;
        assert(b * (2 * p) == 2 * (b * p)) by (nonlinear_arith);
        assert(b * p >= 0) by (nonlinear_arith)
            requires
                b >= 0,
                p >= 0,
        ;
    }
}

/// A connection whose probe was recorded.
pub open spec fn probe_recorded(c: TcpConn, d: TcpConn, seq: u32, len: u16, now_ns: u64) -> bool {
    &&& d.tlp_recent_probes@ == c.tlp_recent_probes@.update(
        c.tlp_recent_probes_next_slot as int,
        Some(crate::tcp_conn::RecentProbe { seq, len, tx_ts_ns: now_ns, attributed: false }),
    )
    &&& d == (TcpConn {
        tlp_recent_probes: d.tlp_recent_probes,
        tlp_recent_probes_next_slot: ((c.tlp_recent_probes_next_slot + 1) % 5) as u8,
        tlp_consecutive_probes_fired: c.tlp_consecutive_probes_fired.saturating_add(1),
        tlp_rtt_sample_seen_since_last_tlp: false,
        ..c
    })
}

/// The engine once a connection's handshake timer has fired.
pub open spec fn syn_timer_cleared(
    a: Engine,
    b: Engine,
    h: ConnHandle,
    id: TimerId,
    count: u8,
) -> bool {
    &&& syn_cleared(a.conn(h), b.conn(h), id, count)
    &&& conn_replaced(a.flow_table, b.flow_table, h, b.conn(h))
    &&& b == (Engine { flow_table: b.flow_table, ..a })
}

/// The engine once a handshake that is given up was counted; the slot that it
/// was on is free again.
pub open spec fn syn_timeout_counted(a: Engine, b: Engine, h: ConnHandle) -> bool {
    &&& b.listen_slots@ == (if a.features.test_server && a.conn(h).is_passive_open {
        cleared(a.listen_slots@, h)
    } else {
        a.listen_slots@
    })
    &&& b == (Engine {
        listen_slots: b.listen_slots,
        counters: Counters {
            tcp: TcpCounters {
                conn_timeout_syn_sent: a.counters.tcp.conn_timeout_syn_sent.wrapping_add(1),
                ..a.counters.tcp
            },
            ..a.counters
        },
        ..a
    })
}

/// The engine once a probe was armed, where one may be.
pub open spec fn probe_armed(
    a: Engine,
    b: Engine,
    h: ConnHandle,
    pto_us: u32,
    now_ns: u64,
) -> bool {
    &&& !(a.has(h) && a.conn(h).may_arm_tlp()) ==> b
        == a
    &&& a.has(h) && a.conn(h).may_arm_tlp() ==> tlp_armed(
        a,
        b,
        h,
        now_ns + pto_us * 1_000,
    )
}

/// The engine once a timer of the application was reported.
pub open spec fn api_timer_reported(
    a: Engine,
    b: Engine,
    id: TimerId,
    user_data: u64,
    now_ns: u64,
) -> bool {
    &&& b.log() == a.log().with(
        InternalEvent::ApiTimer { timer_id: id, user_data, emitted_ts_ns: now_ns },
    )
    &&& b == (Engine {
        events: b.events,
        counters: Counters {
            obs: b.counters.obs,
            tcp: TcpCounters {
                tx_api_timers_fired: a.counters.tcp.tx_api_timers_fired.wrapping_add(1),
                ..a.counters.tcp
            },
            ..a.counters
        },
        ..a
    })
}

/// What the firing of a retransmission timer does, and what it calls for.
pub open spec fn rto_fired(
    a: Engine,
    b: Engine,
    h: ConnHandle,
    fired_id: TimerId,
    r: RtoStep,
) -> bool {
    &&& r == (if !(a.has(h) && a.conn(h).rto_timer_id == Some(fired_id)) {
        RtoStep::Stale
    } else if a.conn(h).snd_retrans@.len() == 0 {
        RtoStep::Idle
    } else {
        RtoStep::Retransmit
    })
    &&& r == RtoStep::Stale ==> b == a
    &&& r != RtoStep::Stale ==> {
        &&& rto_cleared(a.conn(h), b.conn(h), fired_id)
        &&& conn_replaced(
            a.flow_table,
            b.flow_table,
            h,
            b.conn(h),
        )
        &&& b == (Engine { flow_table: b.flow_table, ..a })
    }
}

/// The engine once segments of a connection were marked as lost.
pub open spec fn losses_marked(
    a: Engine,
    b: Engine,
    h: ConnHandle,
    lost: Seq<u16>,
) -> bool {
    &&& conn_replaced(
        a.flow_table,
        b.flow_table,
        h,
        b.conn(h),
    )
    &&& b.conn(h).snd_retrans@ == marked_lost(
        a.conn(h).snd_retrans@,
        lost,
    )
    &&& b.conn(h) == (TcpConn {
        snd_retrans: b.conn(h).snd_retrans,
        ..a.conn(h)
    })
    &&& b == (Engine { flow_table: b.flow_table, ..a })
}

/// What finishing a fired retransmission timer does.
pub open spec fn rto_settled(
    a: Engine,
    b: Engine,
    h: ConnHandle,
    lost: Seq<u16>,
    now_ns: u64,
    r: Option<Released>,
) -> bool {
    &&& r is Some <==> rto_exhausted(a, h)
    &&& match r {
        Some(rel) => {
            &&& exists|mid: Engine| #[trigger]
                rto_noted(a, mid, h, lost, now_ns) && timed_out(
                    mid,
                    b,
                    h,
                    now_ns,
                )
            &&& rel.freed@ == mbufs_of(a.conn(h).snd_retrans@)
            &&& rel.refs@ == a.conn(h).held()
        },
        None => exists|mid: Engine, off: Engine|
            #![trigger rto_noted(a, mid, h, lost, now_ns),
            engine_backed_off(mid, off, h)]
            {
                let rto_us = backed_off(a.conn(h)).rtt_est.rto;
                &&& rto_noted(a, mid, h, lost, now_ns)
                &&& engine_backed_off(mid, off, h)
                &&& if rto_us == 0 {
                    b == off
                } else {
                    rto_armed(off, b, h, now_ns + rto_us * 1_000)
                }
            },
    }
}

/// What the firing of a probe timer does, and the segment to probe with.
pub open spec fn tlp_fired(
    a: Engine,
    b: Engine,
    h: ConnHandle,
    fired_id: TimerId,
    r: Option<usize>,
) -> bool {
    &&& ({
        let current = a.has(h) && a.conn(h).tlp_timer_id == Some(fired_id);
        let n = a.conn(h).snd_retrans@.len();
        &&& r == (if current && n > 0 {
            Some((n - 1) as usize)
        } else {
            None
        })
        &&& !current ==> b == a
        &&& current ==> {
            &&& tlp_cleared(a.conn(h), b.conn(h), fired_id)
            &&& conn_replaced(
                a.flow_table,
                b.flow_table,
                h,
                b.conn(h),
            )
            &&& b == (Engine {
                flow_table: b.flow_table,
                ..a
            })
        }
    })
}

/// The engine once a probe was counted, recorded and reported.
pub open spec fn probe_noted(
    a: Engine,
    b: Engine,
    h: ConnHandle,
    probe_idx: usize,
    now_ns: u64,
) -> bool {
    &&& ({
        let c = a.conn(h);
        let d = b.conn(h);
        let e = c.snd_retrans@[probe_idx as int];
        &&& conn_replaced(a.flow_table, b.flow_table, h, d)
        &&& probe_recorded(c, d, e.seq, e.len, now_ns)
        &&& b.log() == loss_log(
            a.log(),
            a.cfg.tcp_per_packet_events,
            h,
            e.seq,
            e.xmit_count as u32,
            LossCause::Tlp,
            now_ns,
        )
    })
    &&& b == (Engine {
        flow_table: b.flow_table,
        events: b.events,
        counters: Counters {
            obs: b.counters.obs,
            tcp: TcpCounters {
                tx_tlp: a.counters.tcp.tx_tlp.wrapping_add(1),
                ..a.counters.tcp
            },
            ..a.counters
        },
        ..a
    })
}

/// What the firing of a handshake timer does, and what it calls for.
pub open spec fn syn_fired(
    a: Engine,
    b: Engine,
    h: ConnHandle,
    fired_id: TimerId,
    now_ns: u64,
    r: SynStep,
) -> bool {
    &&& ({
        let c = a.conn(h);
        let current = a.has(h) && c.syn_retrans_timer_id == Some(fired_id);
        let shaking = c.state == TcpState::SynSent || c.state == TcpState::SynReceived;
        let count = c.syn_retrans_count.saturating_add(1);
        if !current {
            r == SynStep::Nothing && b == a
        } else if !shaking {
            &&& r == SynStep::Nothing
            &&& syn_timer_cleared(
                a,
                b,
                h,
                fired_id,
                c.syn_retrans_count,
            )
        } else if count > 3 {
            &&& r is GaveUp
            &&& r->GaveUp_0.freed@ == mbufs_of(c.snd_retrans@)
            &&& r->GaveUp_0.refs@ == c.held()
            &&& exists|cleared_: Engine, mid: Engine|
                #![trigger syn_timer_cleared(a, cleared_, h, fired_id, count),
                syn_timeout_counted(cleared_, mid, h)]
                {
                    &&& syn_timer_cleared(a, cleared_, h, fired_id, count)
                    &&& syn_timeout_counted(cleared_, mid, h)
                    &&& timed_out(mid, b, h, now_ns)
                }
        } else {
            &&& r == (SynStep::Resend {
                flags: if c.is_passive_open {
                    SYN_ACK
                } else {
                    TCP_SYN
                },
            })
            &&& syn_timer_cleared(a, b, h, fired_id, count)
        }
    })
}

/// The engine once a handshake segment was sent again.
pub open spec fn syn_resent(
    a: Engine,
    b: Engine,
    h: ConnHandle,
    sent: bool,
    now_ns: u64,
) -> bool {
    &&& syn_timer_armed(
        a,
        b,
        h,
        now_ns + syn_backoff_us(
            a.cfg.tcp_initial_rto_us,
            a.cfg.tcp_min_rto_us,
            a.conn(h).syn_retrans_count,
        ) * 1_000,
    )
    &&& b == (Engine {
        flow_table: b.flow_table,
        timer_wheel: b.timer_wheel,
        counters: Counters {
            tcp: TcpCounters {
                tx_retrans: bumped(
                    a.counters.tcp.tx_retrans,
                    sent && a.conn(h).is_passive_open,
                ),
                ..a.counters.tcp
            },
            ..a.counters
        },
        ..a
    })
}

} // verus!
