//! One poll of an engine: its beginning, the burst, its end, and what runs
//! once per poll.
use vstd::prelude::*;

use crate::arp::{arp_frame, build_gratuitous_arp, is_request_packet, ArpPacket};
use crate::counters::{bumped, inc, inc_if, Counters, EthCounters, PollCounters, TcpCounters};
use crate::engine::{cancelled, timers_of, Engine};
use crate::errno::ENOMEM;
use crate::error::Error;
use crate::flow_table::ConnHandle;
use crate::iovec::DpdkNetIovec;
use crate::l2::BROADCAST_MAC;
use crate::mempool::Mbuf;
use crate::tcp_conn::{delivered_contents, seg_mbufs, InOrderSegment, TcpConn};
use crate::tcp_events::{EventLog, InternalEvent};
use crate::tcp_state::TcpState;
use crate::tcp_timer_wheel::{TimerId, TimerNode};

verus! {

/// Most frames that one poll receives.
pub const BURST: usize = 32;

/// What became of a frame that was to be sent.
#[derive(Debug, Clone, Copy, PartialEq, Eq, Structural)]
pub enum TxAttempt {
    /// There was no buffer for it, or it did not fit one.
    NoBuffer,
    /// The driver took it.
    Sent,
    /// The driver's ring was full.
    RingFull,
}

/// A frame of this length can be described at all.
pub open spec fn fits_frame(len: int) -> bool {
    len <= u16::MAX
}

/// The frame was sent.
pub open spec fn was_sent(len: int, attempt: TxAttempt) -> bool {
    fits_frame(len) && attempt == TxAttempt::Sent
}

/// The counters after an attempt to send a frame.
pub open spec fn counted_tx(c: EthCounters, len: int, attempt: TxAttempt) -> EthCounters {
    EthCounters {
        tx_drop_nomem: bumped(
            c.tx_drop_nomem,
            !fits_frame(len) || attempt == TxAttempt::NoBuffer,
        ),
        tx_drop_full_ring: bumped(
            c.tx_drop_full_ring,
            fits_frame(len) && attempt == TxAttempt::RingFull,
        ),
        tx_pkts: bumped(c.tx_pkts, was_sent(len, attempt)),
        tx_bytes: if was_sent(len, attempt) {
            c.tx_bytes.wrapping_add(len as u64)
        } else {
            c.tx_bytes
        },
        ..c
    }
}

/// The handles of a table, in ascending order.
pub open spec fn is_handle_list(table: Map<ConnHandle, TcpConn>, hs: Seq<ConnHandle>) -> bool {
    &&& forall|h: ConnHandle| #[trigger] hs.contains(h) <==> table.contains_key(h)
    &&& forall|i: int, j: int| 0 <= i < j < hs.len() ==> hs[i] < hs[j]
}

/// The buffers that the connections under some handles have delivered.
pub open spec fn delivered_by(table: Map<ConnHandle, TcpConn>, hs: Seq<ConnHandle>) -> Seq<Mbuf>
    decreases hs.len(),
{
    if hs.len() == 0 {
        Seq::empty()
    } else {
        delivered_by(table, hs.drop_last()) + seg_mbufs(
            delivered_contents(table[hs.last()].delivered_segments),
        )
    }
}

/// The buffers that the connections under some handles hold.
pub open spec fn held_by(table: Map<ConnHandle, TcpConn>, hs: Seq<ConnHandle>) -> Seq<Mbuf>
    decreases hs.len(),
{
    if hs.len() == 0 {
        Seq::empty()
    } else {
        held_by(table, hs.drop_last()) + table[hs.last()].held()
    }
}

/// A connection that has let go of what it delivered, and is as it was
/// otherwise.
pub open spec fn let_go(before: TcpConn, after: TcpConn) -> bool {
    &&& delivered_contents(after.delivered_segments) == Seq::<InOrderSegment>::empty()
    &&& after.readable_scratch_iovecs@ == Seq::<DpdkNetIovec>::empty()
    &&& after == (TcpConn {
        delivered_segments: after.delivered_segments,
        readable_scratch_iovecs: after.readable_scratch_iovecs,
        ..before
    })
}

/// A connection that has let go of everything it received, and is as it was
/// otherwise.
pub open spec fn let_go_all(before: TcpConn, after: TcpConn) -> bool {
    &&& after.held() == Seq::<Mbuf>::empty()
    &&& after.readable_scratch_iovecs@ == Seq::<DpdkNetIovec>::empty()
    &&& after == (TcpConn {
        recv: crate::tcp_conn::RecvQueue {
            bytes: after.recv.bytes,
            reorder: after.recv.reorder,
            ..before.recv
        },
        delivered_segments: after.delivered_segments,
        readable_scratch_iovecs: after.readable_scratch_iovecs,
        ..before
    })
    &&& after.recv.reorder.cap == before.recv.reorder.cap
}

/// TIME_WAIT is over for the connection: its deadline has passed, or it does
/// not have to wait.
pub open spec fn wait_is_over(c: TcpConn, now_ns: u64) -> bool {
    &&& c.state == TcpState::TimeWait
    &&& c.force_tw_skip || (c.time_wait_deadline_ns matches Some(d) && now_ns >= d)
}

/// The handles whose TIME_WAIT is over, in descending order.
pub open spec fn is_reap_list(
    table: Map<ConnHandle, TcpConn>,
    now_ns: u64,
    hs: Seq<ConnHandle>,
) -> bool {
    &&& forall|h: ConnHandle| #[trigger]
        hs.contains(h) <==> table.contains_key(h) && wait_is_over(table[h], now_ns)
    &&& forall|i: int, j: int| 0 <= i < j < hs.len() ==> hs[i] > hs[j]
}

/// The log once the connections under some handles were reaped.
pub open spec fn reaped_log(l: EventLog, hs: Seq<ConnHandle>, now_ns: u64) -> EventLog
    decreases hs.len(),
{
    if hs.len() == 0 {
        l
    } else {
        reaped_log(l, hs.drop_last(), now_ns).with(
            InternalEvent::StateChange {
                conn: hs.last(),
                from: TcpState::TimeWait,
                to: TcpState::Closed,
                emitted_ts_ns: now_ns,
            },
        ).with(InternalEvent::Closed { conn: hs.last(), err: 0, emitted_ts_ns: now_ns })
    }
}

/// Every timer of the connections under some handles.
pub open spec fn timers_by(table: Map<ConnHandle, TcpConn>, hs: Seq<ConnHandle>) -> Seq<TimerId>
    decreases hs.len(),
{
    if hs.len() == 0 {
        Seq::empty()
    } else {
        timers_by(table, hs.drop_last()) + timers_of(table[hs.last()])
    }
}

/// The transition counts after `n` more transitions from TIME_WAIT to closed.
pub open spec fn counted_reaps(c: TcpCounters, n: nat, m: [[u64; 11]; 11]) -> bool {
    forall|i: int, j: int|
        #![trigger m[i][j]]
        0 <= i < 11 && 0 <= j < 11 ==> m[i][j] == if i == 10 && j == 0 {
            c.state_trans[i][j].wrapping_add(n as u64)
        } else {
            c.state_trans[i][j]
        }
}

proof fn lemma_cancel_more(m: Map<TimerId, TimerNode>, a: Seq<TimerId>, b: Seq<TimerId>)
    ensures
        cancelled(cancelled(m, a), b) == cancelled(m, a + b),
{
    assert forall|x: TimerId| (a + b).to_set().contains(x) <==> a.to_set().contains(x)
        || b.to_set().contains(x) by {
        let s = a + b;
        if a.to_set().contains(x) {
            let k = choose|k: int| 0 <= k < a.len() && a[k] == x;
            assert(s[k] == x);
        }
        if b.to_set().contains(x) {
            let k = choose|k: int| 0 <= k < b.len() && b[k] == x;
            assert(s[a.len() + k] == x);
        }
        if s.to_set().contains(x) {
            let k = choose|k: int| 0 <= k < s.len() && s[k] == x;
            if k < a.len() {
                assert(a[k] == x);
            } else {
                assert(b[k - a.len()] == x);
            }
        }
    }
    assert(cancelled(cancelled(m, a), b) =~= cancelled(m, a + b));
}

impl Engine {
    /// Accounts for an attempt to send a frame of `len` bytes; says whether it
    /// was sent.
    pub fn tx_frame(&mut self, len: usize, attempt: TxAttempt) -> (r: bool)
        ensures
            r == was_sent(len as int, attempt),
            *final(self) == (Engine {
                counters: Counters {
                    eth: counted_tx(old(self).counters.eth, len as int, attempt),
                    ..old(self).counters
                },
                ..*old(self)
            }),
    {
        let fits: bool = len <= u16::MAX as usize;
        let sent: bool = fits && attempt == TxAttempt::Sent;
        inc_if(
            &mut self.counters.eth.tx_drop_nomem,
            !fits || attempt == TxAttempt::NoBuffer,
        );
        inc_if(
            &mut self.counters.eth.tx_drop_full_ring,
            fits && attempt == TxAttempt::RingFull,
        );
        inc_if(&mut self.counters.eth.tx_pkts, sent);
        if sent {
            crate::counters::add(&mut self.counters.eth.tx_bytes, len as u64);
        }
        sent
    }

    /// Begins a poll: it is counted, and every connection lets go of what the
    /// poll before delivered. Returns the references to drop.
    pub fn poll_begin(&mut self) -> (r: Vec<Mbuf>)
        requires
            old(self).wf(),
        ensures
            final(self).wf(),
            poll_begun(*old(self), *final(self), r@),
    {
        inc(&mut self.counters.poll.iters);
        self.rx_drop_nomem_prev = self.counters.eth.rx_drop_nomem;
        self.tx_pkts_prev = self.counters.eth.tx_pkts;
        let handles: Vec<ConnHandle> = self.flow_table.handles();
        let mut out: Vec<Mbuf> = Vec::new();
        let mut i: usize = 0;
        let ghost start = *self;
        let ghost table = old(self).flow_table@;
        assert(handles@.take(0) =~= Seq::<ConnHandle>::empty());
        assert(is_handle_list(table, handles@));
        while i < handles.len()
            invariant
                i <= handles@.len(),
                is_handle_list(table, handles@),
                table == old(self).flow_table@,
                start.flow_table@ == table,
                start.flow_table.max == old(self).flow_table.max,
                self.wf(),
                *self == (Engine { flow_table: self.flow_table, ..start }),
                self.flow_table.max == start.flow_table.max,
                self.flow_table@.dom() == table.dom(),
                out@ == delivered_by(table, handles@.take(i as int)),
                forall|k: int|
                    0 <= k < i ==> let_go(
                        table[#[trigger] handles@[k]],
                        self.flow_table@[handles@[k]],
                    ),
                forall|k: int|
                    i <= k < handles@.len() ==> self.flow_table@[#[trigger] handles@[k]]
                        == table[handles@[k]],
            decreases handles@.len() - i,
        {
            let h: ConnHandle = handles[i];
            assert(handles@.contains(h));
            assert(self.flow_table@.dom().contains(h));
            assert(self.flow_table@.contains_key(h));
            let ghost before = self.flow_table@;
            assert(before[h].wf());
            if let Some(c) = self.flow_table.get_mut(h) {
                let mut refs: Vec<Mbuf> = c.clear_delivered();
                out.append(&mut refs);
            }
            proof {
                assert(handles@.take(i + 1).drop_last() =~= handles@.take(i as int));
                assert(self.flow_table@.dom() =~= table.dom());
                assert forall|g: ConnHandle| #[trigger]
                    self.flow_table@.contains_key(g) implies self.flow_table@[g].wf() by {
                    if g != h {
                        assert(before.contains_key(g));
                    }
                }
                assert forall|k: int| 0 <= k < i + 1 implies let_go(
                    table[#[trigger] handles@[k]],
                    self.flow_table@[handles@[k]],
                ) by {
                    if k < i {
                        assert(handles@[k] < h);
                    }
                }
                assert forall|k: int| i + 1 <= k < handles@.len() implies self.flow_table@[
                    #[trigger] handles@[k]] == table[handles@[k]] by {
                    assert(h < handles@[k]);
                }
            }
            i += 1;
        }
        assert(handles@.take(i as int) =~= handles@);
        assert forall|h: ConnHandle| #[trigger] old(self).has(h) implies let_go(
            old(self).conn(h),
            self.conn(h),
        ) by {
            assert(handles@.contains(h));
            let k = choose|k: int| 0 <= k < handles@.len() && handles@[k] == h;
            assert(let_go(table[handles@[k]], self.flow_table@[handles@[k]]));
        }
        out
    }

    /// Counts the burst of a poll: `n` frames were received.
    pub fn poll_burst(&mut self, n: usize)
        ensures
            burst_counted(*old(self), *final(self), n),
    {
        inc_if(&mut self.counters.poll.iters_idle, n == 0);
        inc_if(&mut self.counters.poll.iters_with_rx, n > 0);
        inc_if(
            &mut self.counters.poll.iters_with_rx_burst_max,
            n == BURST && self.features.obs_poll_saturation,
        );
        crate::counters::add(&mut self.counters.eth.rx_pkts, n as u64);
    }

    /// Counts the bytes of a received frame.
    pub fn note_rx_bytes(&mut self, len: usize)
        ensures
            *final(self) == (Engine {
                counters: Counters {
                    eth: EthCounters {
                        rx_bytes: old(self).counters.eth.rx_bytes.wrapping_add(len as u64),
                        ..old(self).counters.eth
                    },
                    ..old(self).counters
                },
                ..*old(self)
            }),
    {
        crate::counters::add(&mut self.counters.eth.rx_bytes, len as u64);
    }

    /// Takes in a frame that is injected in place of a received one. It is
    /// refused where it is longer than a buffer can say, or where there was no
    /// buffer for it.
    pub fn inject_rx_frame(&mut self, len: usize, buffered: bool) -> (r: Result<(), Error>)
        ensures
            r == (if len <= u16::MAX && buffered {
                Ok::<(), Error>(())
            } else {
                Err(Error::InvalidArgument)
            }),
            r is Err ==> *final(self) == *old(self),
            r is Ok ==> *final(self) == (Engine {
                counters: Counters {
                    eth: EthCounters {
                        rx_pkts: old(self).counters.eth.rx_pkts.wrapping_add(1),
                        rx_bytes: old(self).counters.eth.rx_bytes.wrapping_add(len as u64),
                        ..old(self).counters.eth
                    },
                    ..old(self).counters
                },
                ..*old(self)
            }),
    {
        if len > u16::MAX as usize || !buffered {
            return Err(Error::InvalidArgument);
        }
        inc(&mut self.counters.eth.rx_pkts);
        crate::counters::add(&mut self.counters.eth.rx_bytes, len as u64);
        Ok(())
    }

    /// Counts the payload that a burst brought, where that is switched on.
    pub fn note_rx_payload(&mut self, accepted: u64)
        ensures
            payload_counted(*old(self), *final(self), accepted),
    {
        if self.features.obs_byte_counters {
            crate::counters::add(&mut self.counters.tcp.rx_payload_bytes, accepted);
        }
    }

    /// Raises one error if frames were dropped for want of memory since the
    /// poll began.
    pub fn check_and_emit_rx_enomem(&mut self, now_ns: u64)
        ensures
            old(self).counters.eth.rx_drop_nomem <= old(self).rx_drop_nomem_prev ==> *final(self)
                == *old(self),
            old(self).counters.eth.rx_drop_nomem > old(self).rx_drop_nomem_prev ==> {
                &&& final(self).log() == old(self).log().with(
                    InternalEvent::Error {
                        conn: 0,
                        err: (-ENOMEM) as i32,
                        emitted_ts_ns: now_ns,
                    },
                )
                &&& *final(self) == (Engine {
                    events: final(self).events,
                    counters: Counters { obs: final(self).counters.obs, ..old(self).counters },
                    rx_drop_nomem_prev: old(self).counters.eth.rx_drop_nomem,
                    ..*old(self)
                })
            },
    {
        let now: u64 = self.counters.eth.rx_drop_nomem;
        if now > self.rx_drop_nomem_prev {
            self.push_event(
                InternalEvent::Error { conn: 0, err: -ENOMEM, emitted_ts_ns: now_ns },
            );
            self.rx_drop_nomem_prev = now;
        }
    }

    /// Ends a poll: a shortage of memory is reported, and a poll in which a
    /// frame was sent is counted.
    pub fn poll_end(&mut self, now_ns: u64)
        ensures
            poll_ended(*old(self), *final(self), now_ns),
    {
        self.check_and_emit_rx_enomem(now_ns);
        inc_if(
            &mut self.counters.poll.iters_with_tx,
            self.counters.eth.tx_pkts > self.tx_pkts_prev,
        );
    }

    /// Takes the data frames that wait to be sent, in the order in which they
    /// are handed to the driver.
    pub fn take_tx_pending_data(&mut self) -> (r: Vec<Mbuf>)
        ensures
            r@ == old(self).tx_pending_data@,
            final(self).tx_pending_data@ == Seq::<Mbuf>::empty(),
            *final(self) == (Engine { tx_pending_data: final(self).tx_pending_data, ..*old(self) }),
    {
        let mut out: Vec<Mbuf> = Vec::new();
        out.append(&mut self.tx_pending_data);
        assert(out@ =~= old(self).tx_pending_data@);
        out
    }

    /// Accounts for a burst of data frames of which the driver took the first
    /// `sent`; returns those that it did not take, to be freed. A burst of
    /// none is not counted.
    pub fn drain_tx_pending_data(&mut self, burst: &[Mbuf], sent: usize) -> (r: Vec<Mbuf>)
        requires
            sent <= burst@.len(),
        ensures
            burst_drained(*old(self), *final(self), burst@, sent, r@),
    {
        let n: usize = burst.len();
        let mut out: Vec<Mbuf> = Vec::new();
        let mut i: usize = sent;
        while i < n
            invariant
                sent <= i <= n,
                n == burst@.len(),
                out@ == burst@.subrange(sent as int, i as int),
            decreases n - i,
        {
            out.push(burst[i]);
            i += 1;
            assert(out@ =~= burst@.subrange(sent as int, i as int));
        }
        crate::counters::add(&mut self.counters.eth.tx_drop_full_ring, (n - sent) as u64);
        crate::counters::add(&mut self.counters.eth.tx_pkts, sent as u64);
        inc_if(&mut self.counters.tcp.tx_flush_bursts, n > 0);
        crate::counters::add(&mut self.counters.tcp.tx_flush_batched_pkts, sent as u64);
        out
    }

    /// An announcement of our address is due.
    pub open spec fn garp_due(&self, now_ns: u64) -> bool {
        &&& self.cfg.garp_interval_sec != 0
        &&& self.cfg.local_ip != 0
        &&& now_ns.saturating_sub(self.last_garp_ns) >= self.cfg.garp_interval_sec * 1_000_000_000
    }

    /// The frame that announces our address, where that is due.
    pub fn maybe_emit_gratuitous_arp(&self, now_ns: u64) -> (r: Option<Vec<u8>>)
        ensures
            r is Some <==> self.garp_due(now_ns),
            r is Some ==> exists|p: ArpPacket| #[trigger]
                is_request_packet(p, self.our_mac, self.cfg.local_ip, self.cfg.local_ip) && (
                r->0)@ == arp_frame(BROADCAST_MAC, self.our_mac, p),
    {
        if self.cfg.garp_interval_sec == 0 || self.cfg.local_ip == 0 {
            return None;
        }
        let interval_ns: u64 = self.cfg.garp_interval_sec as u64 * 1_000_000_000;
        if now_ns.saturating_sub(self.last_garp_ns) < interval_ns {
            return None;
        }
        let mut buf: Vec<u8> = vec![0; 60];
        let _ = build_gratuitous_arp(self.our_mac, self.cfg.local_ip, buf.as_mut_slice());
        proof {
            let p = choose|p: ArpPacket| #[trigger]
                is_request_packet(p, self.our_mac, self.cfg.local_ip, self.cfg.local_ip) && buf@
                    == crate::arp::written_over(
                    Seq::new(60, |i: int| 0u8),
                    arp_frame(BROADCAST_MAC, self.our_mac, p),
                );
            assert(buf@ =~= arp_frame(BROADCAST_MAC, self.our_mac, p));
        }
        Some(buf)
    }

    /// Accounts for the announcement: it counts as made whether it was sent or
    /// not.
    pub fn garp_done(&mut self, sent: bool, now_ns: u64)
        ensures
            garp_counted(*old(self), *final(self), sent, now_ns),
    {
        inc_if(&mut self.counters.eth.tx_arp, sent);
        self.last_garp_ns = now_ns;
    }

    /// Closes every connection whose TIME_WAIT is over: its timers are
    /// cancelled, its state change and its end are reported and counted. The
    /// connections go from the highest handle down.
    pub fn reap_time_wait(&mut self, now_ns: u64) -> (r: Reaped)
        requires
            old(self).wf(),
        ensures
            final(self).wf(),
            waits_reaped(*old(self), *final(self), now_ns, r),
    {
        let due: Vec<ConnHandle> = self.reap_candidates(now_ns);
        let mut handles: Vec<ConnHandle> = Vec::new();
        let mut refs: Vec<Mbuf> = Vec::new();
        let mut i: usize = due.len();
        let ghost a = *old(self);
        let ghost table = old(self).flow_table@;
        proof {
            assert(table.remove_keys(Seq::<ConnHandle>::empty().to_set()) =~= table);
            assert(cancelled(a.timer_wheel@, Seq::<TimerId>::empty()) =~= a.timer_wheel@);
        }
        while i > 0
            invariant
                i <= due@.len(),
                a == *old(self),
                table == a.flow_table@,
                forall|h: ConnHandle| #[trigger]
                    due@.contains(h) ==> table.contains_key(h) && wait_is_over(table[h], now_ns),
                forall|k: int, l: int| 0 <= k < l < due@.len() ==> due@[k] < due@[l],
                handles@.len() == due@.len() - i,
                handles@.len() <= u32::MAX,
                due@.len() <= u32::MAX,
                forall|k: int|
                    0 <= k < handles@.len() ==> #[trigger] handles@[k] == due@[due@.len() - 1 - k],
                self.wf(),
                refs@ == held_by(table, handles@),
                self.flow_table@ == table.remove_keys(handles@.to_set()),
                self.flow_table.max == a.flow_table.max,
                self.timer_wheel@ == cancelled(a.timer_wheel@, timers_by(table, handles@)),
                a.timer_wheel.only_left(&self.timer_wheel),
                self.log() == reaped_log(a.log(), handles@, now_ns),
                counted_reaps(a.counters.tcp, handles@.len(), self.counters.tcp.state_trans),
                *self == (Engine {
                    flow_table: self.flow_table,
                    timer_wheel: self.timer_wheel,
                    events: self.events,
                    counters: Counters {
                        obs: self.counters.obs,
                        tcp: TcpCounters {
                            state_trans: self.counters.tcp.state_trans,
                            conn_close: a.counters.tcp.conn_close.wrapping_add(
                                handles@.len() as u64,
                            ),
                            conn_time_wait_reaped: a.counters.tcp.conn_time_wait_reaped.wrapping_add(
                                handles@.len() as u64,
                            ),
                            ..a.counters.tcp
                        },
                        ..a.counters
                    },
                    ..a
                }),
            decreases i,
        {
            i -= 1;
            let h: ConnHandle = due[i];
            let ghost done = handles@;
            let ghost before = *self;
            proof {
                assert(due@.contains(h));
                assert(!done.to_set().contains(h)) by {
                    if done.contains(h) {
                        let k = choose|k: int| 0 <= k < done.len() && done[k] == h;
                        assert(done[k] == due@[due@.len() - 1 - k]);
                        assert(due@[i as int] < due@[due@.len() - 1 - k]);
                    }
                }
                assert(before.has(h));
                assert(before.conn(h) == table[h]);
            }
            self.transition_conn(h, TcpState::Closed, now_ns);
            self.push_event(InternalEvent::Closed { conn: h, err: 0, emitted_ts_ns: now_ns });
            inc(&mut self.counters.tcp.conn_close);
            inc(&mut self.counters.tcp.conn_time_wait_reaped);
            let ghost mid = *self;
            let mut dropped: Vec<Mbuf> = self.end_conn(h);
            refs.append(&mut dropped);
            handles.push(h);
            proof {
                let all = handles@;
                assert(all.drop_last() =~= done);
                assert(all.last() == h);
                assert(timers_of(mid.conn(h)) == timers_of(table[h]));
                assert(mid.conn(h).held() == table[h].held());
                lemma_cancel_more(
                    a.timer_wheel@,
                    timers_by(table, done),
                    timers_of(table[h]),
                );
                assert forall|x: ConnHandle| all.to_set().contains(x) <==> done.to_set().contains(
                    x,
                ) || x == h by {
                    if done.to_set().contains(x) {
                        let k = choose|k: int| 0 <= k < done.len() && done[k] == x;
                        assert(all[k] == x);
                    }
                    assert(all[all.len() - 1] == h);
                    if all.to_set().contains(x) {
                        let k = choose|k: int| 0 <= k < all.len() && all[k] == x;
                        if k < done.len() {
                            assert(done[k] == x);
                        }
                    }
                }
                assert(self.flow_table@ =~= table.remove_keys(all.to_set()));
            }
        }
        proof {
            assert forall|h: ConnHandle| #[trigger]
                handles@.contains(h) <==> table.contains_key(h) && wait_is_over(
                    table[h],
                    now_ns,
                ) by {
                if handles@.contains(h) {
                    let k = choose|k: int| 0 <= k < handles@.len() && handles@[k] == h;
                    assert(due@[due@.len() - 1 - k] == h);
                    assert(due@.contains(h));
                }
                if table.contains_key(h) && wait_is_over(table[h], now_ns) {
                    assert(due@.contains(h));
                    let k = choose|k: int| 0 <= k < due@.len() && due@[k] == h;
                    assert(handles@[due@.len() - 1 - k] == h);
                }
            }
        }
        Reaped { handles, refs }
    }

    fn reap_candidates(&self, now_ns: u64) -> (r: Vec<ConnHandle>)
        requires
            self.wf(),
        ensures
            r@.len() <= u32::MAX,
            forall|h: ConnHandle| #[trigger]
                r@.contains(h) <==> self.has(h) && wait_is_over(self.conn(h), now_ns),
            forall|i: int, j: int| 0 <= i < j < r@.len() ==> r@[i] < r@[j],
    {
        let all: Vec<ConnHandle> = self.flow_table.handles();
        let mut out: Vec<ConnHandle> = Vec::new();
        let mut i: usize = 0;
        while i < all.len()
            invariant
                i <= all@.len(),
                is_handle_list(self.flow_table@, all@),
                out@.len() <= i,
                forall|k: int|
                    0 <= k < out@.len() ==> self.has(#[trigger] out@[k]) && wait_is_over(
                        self.conn(out@[k]),
                        now_ns,
                    ),
                forall|k: int|
                    0 <= k < i && wait_is_over(self.conn(#[trigger] all@[k]), now_ns)
                        ==> out@.contains(all@[k]),
                forall|k: int, l: int| 0 <= k < l < out@.len() ==> out@[k] < out@[l],
                forall|k: int, l: int|
                    0 <= k < out@.len() && i <= l < all@.len() ==> out@[k] < all@[l],
                forall|k: int| 0 <= k < out@.len() ==> k < #[trigger] out@[k],
            decreases all@.len() - i,
        {
            let h: ConnHandle = all[i];
            assert(all@.contains(h));
            let ghost before = out@;
            let due: bool = match self.flow_table.get(h) {
                Some(c) => c.state == TcpState::TimeWait && (c.force_tw_skip
                    || match c.time_wait_deadline_ns {
                    Some(d) => now_ns >= d,
                    None => false,
                }),
                None => false,
            };
            if due {
                proof {
                    if out@.len() > 0 {
                        assert(out@[out@.len() - 1] < all@[i as int]);
                    }
                }
                out.push(h);
                assert(out@[out@.len() - 1] == h);
            }
            proof {
                assert forall|k: int| 0 <= k < i + 1 && wait_is_over(
                    self.conn(#[trigger] all@[k]),
                    now_ns,
                ) implies out@.contains(all@[k]) by {
                    if k < i {
                        let m = choose|m: int| 0 <= m < before.len() && before[m] == all@[k];
                        assert(out@[m] == all@[k]);
                    }
                }
            }
            i += 1;
        }
        proof {
            assert forall|h: ConnHandle| #[trigger]
                out@.contains(h) <==> self.has(h) && wait_is_over(self.conn(h), now_ns) by {
                if self.has(h) {
                    assert(all@.contains(h));
                    let k = choose|k: int| 0 <= k < all@.len() && all@[k] == h;
                    assert(all@[k] == h);
                }
            }
            if out@.len() > 0 {
                assert(out@[out@.len() - 1] > out@.len() - 1);
            }
        }
        out
    }

    /// Lets go of everything that the connections received and returns the
    /// references.
    pub fn test_clear_pinned_rx_mbufs(&mut self) -> (r: Vec<Mbuf>)
        requires
            old(self).wf(),
        ensures
            final(self).wf(),
            exists|hs: Seq<ConnHandle>| #[trigger]
                is_handle_list(old(self).flow_table@, hs) && r@ == held_by(
                    old(self).flow_table@,
                    hs,
                ),
            final(self).flow_table.max == old(self).flow_table.max,
            final(self).flow_table@.dom() == old(self).flow_table@.dom(),
            forall|h: ConnHandle| #[trigger]
                old(self).has(h) ==> let_go_all(old(self).conn(h), final(self).conn(h)),
            *final(self) == (Engine { flow_table: final(self).flow_table, ..*old(self) }),
    {
        let handles: Vec<ConnHandle> = self.flow_table.handles();
        let mut out: Vec<Mbuf> = Vec::new();
        let mut i: usize = 0;
        let ghost table = old(self).flow_table@;
        assert(handles@.take(0) =~= Seq::<ConnHandle>::empty());
        assert(is_handle_list(table, handles@));
        while i < handles.len()
            invariant
                i <= handles@.len(),
                is_handle_list(table, handles@),
                table == old(self).flow_table@,
                self.wf(),
                *self == (Engine { flow_table: self.flow_table, ..*old(self) }),
                self.flow_table.max == old(self).flow_table.max,
                self.flow_table@.dom() == table.dom(),
                out@ == held_by(table, handles@.take(i as int)),
                forall|k: int|
                    0 <= k < i ==> let_go_all(
                        table[#[trigger] handles@[k]],
                        self.flow_table@[handles@[k]],
                    ),
                forall|k: int|
                    i <= k < handles@.len() ==> self.flow_table@[#[trigger] handles@[k]]
                        == table[handles@[k]],
            decreases handles@.len() - i,
        {
            let h: ConnHandle = handles[i];
            assert(handles@.contains(h));
            assert(self.flow_table@.dom().contains(h));
            assert(self.flow_table@.contains_key(h));
            let ghost before = self.flow_table@;
            assert(before[h].wf());
            if let Some(c) = self.flow_table.get_mut(h) {
                let mut refs: Vec<Mbuf> = c.clear_received();
                out.append(&mut refs);
            }
            proof {
                assert(handles@.take(i + 1).drop_last() =~= handles@.take(i as int));
                assert(self.flow_table@.dom() =~= table.dom());
                assert forall|g: ConnHandle| #[trigger]
                    self.flow_table@.contains_key(g) implies self.flow_table@[g].wf() by {
                    if g != h {
                        assert(before.contains_key(g));
                    }
                }
                assert forall|k: int| 0 <= k < i + 1 implies let_go_all(
                    table[#[trigger] handles@[k]],
                    self.flow_table@[handles@[k]],
                ) by {
                    if k < i {
                        assert(handles@[k] < h);
                    }
                }
                assert forall|k: int| i + 1 <= k < handles@.len() implies self.flow_table@[
                    #[trigger] handles@[k]] == table[handles@[k]] by {
                    assert(h < handles@[k]);
                }
            }
            i += 1;
        }
        assert(handles@.take(i as int) =~= handles@);
        assert forall|h: ConnHandle| #[trigger] old(self).has(h) implies let_go_all(
            old(self).conn(h),
            self.conn(h),
        ) by {
            assert(handles@.contains(h));
            let k = choose|k: int| 0 <= k < handles@.len() && handles@[k] == h;
            assert(let_go_all(table[handles@[k]], self.flow_table@[handles@[k]]));
        }
        out
    }
}

/// The connections that were reaped, and the references to drop.
#[derive(Debug)]
pub struct Reaped {
    pub handles: Vec<ConnHandle>,
    pub refs: Vec<Mbuf>,
}

/// A table has one handle list, so that what is let go of is determined.
pub proof fn law_handle_list_is_determined(
    table: Map<ConnHandle, TcpConn>,
    a: Seq<ConnHandle>,
    b: Seq<ConnHandle>,
)
    requires
        is_handle_list(table, a),
        is_handle_list(table, b),
    ensures
        a == b,
    decreases a.len(),
{
    if a.len() == 0 {
        if b.len() > 0 {
            assert(b.contains(b[0]));
            assert(a.contains(b[0]));
        }
    } else {
        assert(a.contains(a.last()));
        assert(b.contains(a.last()));
        let k = choose|k: int| 0 <= k < b.len() && b[k] == a.last();
        assert(b.contains(b.last()));
        assert(a.contains(b.last()));
        let m = choose|m: int| 0 <= m < a.len() && a[m] == b.last();
        assert(a.last() == b.last());
        let t = table.remove(a.last());
        let c = a.drop_last();
        let d = b.drop_last();
        assert forall|h: ConnHandle| #[trigger] c.contains(h) <==> t.contains_key(h) by {
            if c.contains(h) {
                let i = choose|i: int| 0 <= i < c.len() && c[i] == h;
                assert(a[i] == h);
                assert(a.contains(h));
            }
            if t.contains_key(h) {
                assert(a.contains(h));
                let i = choose|i: int| 0 <= i < a.len() && a[i] == h;
                assert(c[i] == h);
            }
        }
        assert forall|h: ConnHandle| #[trigger] d.contains(h) <==> t.contains_key(h) by {
            if d.contains(h) {
                let i = choose|i: int| 0 <= i < d.len() && d[i] == h;
                assert(b[i] == h);
                assert(b.contains(h));
            }
            if t.contains_key(h) {
                assert(b.contains(h));
                let i = choose|i: int| 0 <= i < b.len() && b[i] == h;
                assert(d[i] == h);
            }
        }
        law_handle_list_is_determined(t, c, d);
        assert(a =~= c.push(a.last()));
        assert(b =~= d.push(b.last()));
    }
}

/// The engine once a poll has begun; `r` are the references to drop.
pub open spec fn poll_begun(a: Engine, b: Engine, r: Seq<Mbuf>) -> bool {
    &&& exists|hs: Seq<ConnHandle>| #[trigger]
        is_handle_list(a.flow_table@, hs) && r == delivered_by(
            a.flow_table@,
            hs,
        )
    &&& b.flow_table.max == a.flow_table.max
    &&& b.flow_table@.dom() == a.flow_table@.dom()
    &&& forall|h: ConnHandle| #[trigger]
        a.has(h) ==> let_go(a.conn(h), b.conn(h))
    &&& b == (Engine {
        flow_table: b.flow_table,
        counters: Counters {
            poll: PollCounters {
                iters: a.counters.poll.iters.wrapping_add(1),
                ..a.counters.poll
            },
            ..a.counters
        },
        rx_drop_nomem_prev: a.counters.eth.rx_drop_nomem,
        tx_pkts_prev: a.counters.eth.tx_pkts,
        ..a
    })
}

/// The engine once a burst was counted.
pub open spec fn burst_counted(a: Engine, b: Engine, n: usize) -> bool {
    &&& b == (Engine {
        counters: Counters {
            poll: PollCounters {
                iters_idle: bumped(a.counters.poll.iters_idle, n == 0),
                iters_with_rx: bumped(a.counters.poll.iters_with_rx, n > 0),
                iters_with_rx_burst_max: bumped(
                    a.counters.poll.iters_with_rx_burst_max,
                    n == BURST && a.features.obs_poll_saturation,
                ),
                ..a.counters.poll
            },
            eth: EthCounters {
                rx_pkts: a.counters.eth.rx_pkts.wrapping_add(n as u64),
                ..a.counters.eth
            },
            ..a.counters
        },
        ..a
    })
}

/// The engine once a burst's payload was counted.
pub open spec fn payload_counted(a: Engine, b: Engine, accepted: u64) -> bool {
    &&& b == (Engine {
        counters: Counters {
            tcp: TcpCounters {
                rx_payload_bytes: if a.features.obs_byte_counters {
                    a.counters.tcp.rx_payload_bytes.wrapping_add(accepted)
                } else {
                    a.counters.tcp.rx_payload_bytes
                },
                ..a.counters.tcp
            },
            ..a.counters
        },
        ..a
    })
}

/// The engine once the connections whose wait is over were closed.
pub open spec fn waits_reaped(a: Engine, b: Engine, now_ns: u64, r: Reaped) -> bool {
    &&& is_reap_list(a.flow_table@, now_ns, r.handles@)
    &&& r.refs@ == held_by(a.flow_table@, r.handles@)
    &&& b.flow_table@ == a.flow_table@.remove_keys(r.handles@.to_set())
    &&& b.flow_table.max == a.flow_table.max
    &&& b.timer_wheel@ == cancelled(
        a.timer_wheel@,
        timers_by(a.flow_table@, r.handles@),
    )
    &&& a.timer_wheel.only_left(&b.timer_wheel)
    &&& b.log() == reaped_log(a.log(), r.handles@, now_ns)
    &&& counted_reaps(
        a.counters.tcp,
        r.handles@.len(),
        b.counters.tcp.state_trans,
    )
    &&& b == (Engine {
        flow_table: b.flow_table,
        timer_wheel: b.timer_wheel,
        events: b.events,
        counters: Counters {
            obs: b.counters.obs,
            tcp: TcpCounters {
                state_trans: b.counters.tcp.state_trans,
                conn_close: a.counters.tcp.conn_close.wrapping_add(r.handles@.len() as u64),
                conn_time_wait_reaped: a.counters.tcp.conn_time_wait_reaped.wrapping_add(
                    r.handles@.len() as u64,
                ),
                ..a.counters.tcp
            },
            ..a.counters
        },
        ..a
    })
}

/// The engine once our address was announced.
pub open spec fn garp_counted(a: Engine, b: Engine, sent: bool, now_ns: u64) -> bool {
    &&& b == (Engine {
        last_garp_ns: now_ns,
        counters: Counters {
            eth: EthCounters {
                tx_arp: bumped(a.counters.eth.tx_arp, sent),
                ..a.counters.eth
            },
            ..a.counters
        },
        ..a
    })
}

/// The engine once the driver took a burst; `r` are the buffers to free.
pub open spec fn burst_drained(
    a: Engine,
    b: Engine,
    burst: Seq<Mbuf>,
    sent: usize,
    r: Seq<Mbuf>,
) -> bool {
    &&& r == burst.subrange(sent as int, burst.len() as int)
    &&& b == (Engine {
        counters: Counters {
            eth: EthCounters {
                tx_drop_full_ring: a.counters.eth.tx_drop_full_ring.wrapping_add(
                    (burst.len() - sent) as u64,
                ),
                tx_pkts: a.counters.eth.tx_pkts.wrapping_add(sent as u64),
                ..a.counters.eth
            },
            tcp: TcpCounters {
                tx_flush_bursts: bumped(
                    a.counters.tcp.tx_flush_bursts,
                    burst.len() > 0,
                ),
                tx_flush_batched_pkts: a.counters.tcp.tx_flush_batched_pkts.wrapping_add(
                    sent as u64,
                ),
                ..a.counters.tcp
            },
            ..a.counters
        },
        ..a
    })
}

/// The engine once a poll has ended.
pub open spec fn poll_ended(a: Engine, b: Engine, now_ns: u64) -> bool {
    &&& a.counters.eth.rx_drop_nomem <= a.rx_drop_nomem_prev ==> b.log() == a.log()
    &&& a.counters.eth.rx_drop_nomem > a.rx_drop_nomem_prev ==> b.log() == a.log().with(
        InternalEvent::Error { conn: 0, err: (-ENOMEM) as i32, emitted_ts_ns: now_ns },
    )
    &&& b == (Engine {
        events: b.events,
        rx_drop_nomem_prev: if a.counters.eth.rx_drop_nomem > a.rx_drop_nomem_prev {
            a.counters.eth.rx_drop_nomem
        } else {
            a.rx_drop_nomem_prev
        },
        counters: Counters {
            obs: b.counters.obs,
            poll: PollCounters {
                iters_with_tx: bumped(
                    a.counters.poll.iters_with_tx,
                    a.counters.eth.tx_pkts > a.tx_pkts_prev,
                ),
                ..a.counters.poll
            },
            ..a.counters
        },
        ..a
    })
}

} // verus!
