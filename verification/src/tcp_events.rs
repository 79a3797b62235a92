//! Events for the application.
use std::collections::VecDeque;

use vstd::prelude::*;

use crate::counters::{inc, ObsCounters};
use crate::flow_table::ConnHandle;
use crate::tcp_state::TcpState;
use crate::tcp_timer_wheel::TimerId;

verus! {

/// What showed that a segment was lost.
#[derive(Debug, Clone, Copy, PartialEq, Eq, Structural)]
pub enum LossCause {
    Rack,
    Rto,
    Tlp,
}

/// Something that happened. Connection 0 stands for the engine as a whole.
#[derive(Debug, Clone, Copy, PartialEq, Eq, Structural)]
pub enum InternalEvent {
    /// The handshake is complete.
    Connected { conn: ConnHandle, rx_hw_ts_ns: u64, emitted_ts_ns: u64 },
    /// Payload was delivered.
    Readable {
        conn: ConnHandle,
        seg_idx_start: u32,
        seg_count: u32,
        total_len: u32,
        rx_hw_ts_ns: u64,
        emitted_ts_ns: u64,
    },
    /// There is room to send again.
    Writable { conn: ConnHandle, emitted_ts_ns: u64 },
    /// The connection is gone; `err` is zero or a negated error number.
    Closed { conn: ConnHandle, err: i32, emitted_ts_ns: u64 },
    /// The connection changed its state.
    StateChange { conn: ConnHandle, from: TcpState, to: TcpState, emitted_ts_ns: u64 },
    /// Something failed; `err` is a negated error number.
    Error { conn: ConnHandle, err: i32, emitted_ts_ns: u64 },
    /// A segment was sent again.
    TcpRetrans { conn: ConnHandle, seq: u32, rtx_count: u32, emitted_ts_ns: u64 },
    /// A segment was found lost.
    TcpLossDetected { conn: ConnHandle, cause: LossCause, emitted_ts_ns: u64 },
    /// A timer of the application is due.
    ApiTimer { timer_id: TimerId, user_data: u64, emitted_ts_ns: u64 },
}

/// Events that wait to be drained, oldest first. Beyond its cap the queue
/// drops its oldest event for each new one.
#[derive(Debug)]
pub struct EventQueue {
    pub q: VecDeque<InternalEvent>,
    pub cap: usize,
}

/// The queued events and the counts that go with them.
#[verifier::ext_equal]
pub struct EventLog {
    pub events: Seq<InternalEvent>,
    pub cap: usize,
    pub obs: ObsCounters,
}

impl EventLog {
    /// The oldest event makes way for the next one.
    pub open spec fn overflows(self) -> bool {
        self.events.len() >= self.cap && self.events.len() > 0
    }

    /// The log after one more event.
    pub open spec fn with(self, ev: InternalEvent) -> EventLog {
        let kept = if self.overflows() {
            self.events.subrange(1, self.events.len() as int)
        } else {
            self.events
        };
        EventLog {
            events: kept.push(ev),
            cap: self.cap,
            obs: ObsCounters {
                events_dropped: if self.overflows() {
                    self.obs.events_dropped.wrapping_add(1)
                } else {
                    self.obs.events_dropped
                },
                events_queue_high_water: if kept.len() + 1 > self.obs.events_queue_high_water {
                    (kept.len() + 1) as u64
                } else {
                    self.obs.events_queue_high_water
                },
            },
        }
    }

    /// The log keeps to its cap; it holds at least one event.
    pub open spec fn within_cap(self) -> bool {
        self.events.len() <= self.cap || self.events.len() <= 1
    }
}

/// A queue that keeps to its cap goes on doing so, and the newest event is
/// always in it.
pub proof fn law_event_queue_within_cap(l: EventLog, ev: InternalEvent)
    requires
        l.within_cap(),
    ensures
        l.with(ev).within_cap(),
        l.with(ev).events.last() == ev,
        !l.overflows() ==> l.with(ev).events == l.events.push(ev),
{
}

impl EventQueue {
    /// The queue together with its counts.
    pub open spec fn log(&self, obs: ObsCounters) -> EventLog {
        EventLog { events: self.q@, cap: self.cap, obs }
    }

    /// An empty queue.
    pub fn with_cap(cap: usize) -> (r: Self)
        ensures
            r.q@ == Seq::<InternalEvent>::empty(),
            r.cap == cap,
    {
        EventQueue { q: VecDeque::new(), cap }
    }

    /// Appends an event.
    pub fn push(&mut self, ev: InternalEvent, obs: &mut ObsCounters)
        ensures
            final(self).log(*final(obs)) == old(self).log(*old(obs)).with(ev),
    {
        if self.q.len() >= self.cap && self.q.len() > 0 {
            let _ = self.q.pop_front();
            inc(&mut obs.events_dropped);
        }
        self.q.push_back(ev);
        let n: u64 = self.q.len() as u64;
        if n > obs.events_queue_high_water {
            obs.events_queue_high_water = n;
        }
    }

    /// Takes the oldest event.
    pub fn pop(&mut self) -> (r: Option<InternalEvent>)
        ensures
            final(self).cap == old(self).cap,
            old(self).q@.len() == 0 ==> r is None && final(self).q@ == old(self).q@,
            old(self).q@.len() > 0 ==> r == Some(old(self).q@[0]) && final(self).q@ == old(
                self,
            ).q@.subrange(1, old(self).q@.len() as int),
    {
        self.q.pop_front()
    }

    /// Number of events that wait.
    pub fn len(&self) -> (r: usize)
        ensures
            r == self.q@.len(),
    {
        self.q.len()
    }
}

} // verus!
