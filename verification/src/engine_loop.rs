//! One iteration of the run-to-completion loop, step by step, with the
//! driver's work in between.
use vstd::prelude::*;

use crate::arp::{arp_frame, is_request_packet, ArpPacket};
use crate::engine::Engine;
use crate::engine_poll::{
    burst_counted, burst_drained, garp_counted, payload_counted, poll_begun, poll_ended,
    waits_reaped, Reaped,
};
use crate::l2::BROADCAST_MAC;
use crate::mempool::Mbuf;
use crate::tcp_timer_wheel::{fired_of, still_pending, TimerId, TimerNode};

verus! {

/// What is done next in a poll.
#[derive(Debug, Clone, Copy, PartialEq, Eq, Structural)]
pub enum PollStage {
    /// The poll begins.
    Begin,
    /// The burst is counted.
    Burst,
    /// The burst's payload is counted.
    Payload,
    /// The timers that are due fire.
    Timers,
    /// The connections whose wait is over are closed.
    Reap,
    /// Our address is announced, where that is due.
    Announce,
    /// The announcement is counted.
    Announced,
    /// The frames that wait are handed to the driver.
    Drain,
    /// What the driver took is counted.
    Drained,
    /// The poll ends.
    End,
    Over,
}

/// A poll under way.
#[derive(Debug)]
pub struct PollRun {
    pub stage: PollStage,
    /// The frames that were handed to the driver.
    pub burst: Vec<Mbuf>,
}

/// What the caller does before the next step.
#[derive(Debug)]
pub enum PollAction {
    Nothing,
    /// Drop references, then receive a burst and say how many frames came.
    Receive(Vec<Mbuf>),
    /// Take in the frames of the burst, free them, and say how many bytes of
    /// payload were accepted.
    Frames,
    /// Handle the timers that fired, each by its kind.
    Fire(Vec<(TimerId, TimerNode)>),
    /// Drop the references of the connections that were closed.
    Reaped(Reaped),
    /// Send a frame, and say whether it was sent.
    SendFrame(Vec<u8>),
    /// Hand the run's burst to the driver, and say how many frames it took.
    Transmit,
    /// Free the frames that the driver did not take.
    Free(Vec<Mbuf>),
}

/// What the driver answered to the action before.
#[derive(Debug, Clone, Copy, PartialEq, Eq, Structural)]
pub struct PollReply {
    /// Frames received, or taken.
    pub frames: usize,
    /// Bytes of payload accepted.
    pub accepted: u64,
    pub sent: bool,
}

/// How many steps of a poll are left at most.
pub open spec fn poll_steps_left(stage: PollStage) -> int {
    match stage {
        PollStage::Begin => 10,
        PollStage::Burst => 9,
        PollStage::Payload => 8,
        PollStage::Timers => 7,
        PollStage::Reap => 6,
        PollStage::Announce => 5,
        PollStage::Announced => 4,
        PollStage::Drain => 3,
        PollStage::Drained => 2,
        PollStage::End => 1,
        PollStage::Over => 0,
    }
}

/// A step of a poll.
pub open spec fn poll_stepped(
    a: Engine,
    s: PollRun,
    b: Engine,
    t: PollRun,
    reply: PollReply,
    now_ns: u64,
    r: PollAction,
) -> bool {
    match s.stage {
        PollStage::Begin => {
            &&& r matches PollAction::Receive(refs) && poll_begun(a, b, refs@)
            &&& t == (PollRun { stage: PollStage::Burst, ..s })
        },
        PollStage::Burst => {
            &&& burst_counted(a, b, reply.frames)
            &&& if reply.frames == 0 {
                r is Nothing && t == (PollRun { stage: PollStage::Timers, ..s })
            } else {
                r is Frames && t == (PollRun { stage: PollStage::Payload, ..s })
            }
        },
        PollStage::Payload => {
            &&& payload_counted(a, b, reply.accepted)
            &&& r is Nothing
            &&& t == (PollRun { stage: PollStage::Timers, ..s })
        },
        PollStage::Timers => {
            &&& r matches PollAction::Fire(fired) && fired_of(a.timer_wheel@, now_ns, fired@)
            &&& still_pending(a.timer_wheel@, now_ns, b.timer_wheel@)
            &&& a.timer_wheel.only_left(&b.timer_wheel)
            &&& b == (Engine { timer_wheel: b.timer_wheel, ..a })
            &&& t == (PollRun { stage: PollStage::Reap, ..s })
        },
        PollStage::Reap => {
            &&& r matches PollAction::Reaped(reaped) && waits_reaped(a, b, now_ns, reaped)
            &&& t == (PollRun { stage: PollStage::Announce, ..s })
        },
        PollStage::Announce => {
            &&& b == a
            &&& if a.garp_due(now_ns) {
                &&& r matches PollAction::SendFrame(f) && exists|p: ArpPacket| #[trigger]
                    is_request_packet(p, a.our_mac, a.cfg.local_ip, a.cfg.local_ip) && f@
                        == arp_frame(BROADCAST_MAC, a.our_mac, p)
                &&& t == (PollRun { stage: PollStage::Announced, ..s })
            } else {
                r is Nothing && t == (PollRun { stage: PollStage::Drain, ..s })
            }
        },
        PollStage::Announced => {
            &&& garp_counted(a, b, reply.sent, now_ns)
            &&& r is Nothing
            &&& t == (PollRun { stage: PollStage::Drain, ..s })
        },
        PollStage::Drain => {
            &&& t.burst@ == a.tx_pending_data@
            &&& b.tx_pending_data@ == Seq::<Mbuf>::empty()
            &&& b == (Engine { tx_pending_data: b.tx_pending_data, ..a })
            &&& if a.tx_pending_data@.len() == 0 {
                r is Nothing && t.stage == PollStage::End
            } else {
                r is Transmit && t.stage == PollStage::Drained
            }
        },
        PollStage::Drained => {
            let taken = if reply.frames <= s.burst@.len() {
                reply.frames
            } else {
                s.burst@.len() as usize
            };
            &&& r matches PollAction::Free(rest) && burst_drained(a, b, s.burst@, taken, rest@)
            &&& t == (PollRun { stage: PollStage::End, ..s })
        },
        PollStage::End => {
            &&& poll_ended(a, b, now_ns)
            &&& r is Nothing
            &&& t == (PollRun { stage: PollStage::Over, ..s })
        },
        PollStage::Over => b == a && r is Nothing && t == s,
    }
}

impl PollRun {
    /// A poll that begins.
    pub fn new() -> (r: Self)
        ensures
            r.stage == PollStage::Begin,
            r.burst@ == Seq::<Mbuf>::empty(),
    {
        PollRun { stage: PollStage::Begin, burst: Vec::new() }
    }
}

impl Engine {
    fn drain_into(&mut self, run: &mut PollRun) -> (r: PollAction)
        requires
            old(run).stage == PollStage::Drain,
        ensures
            final(run).burst@ == old(self).tx_pending_data@,
            final(self).tx_pending_data@ == Seq::<Mbuf>::empty(),
            *final(self) == (Engine { tx_pending_data: final(self).tx_pending_data, ..*old(self) }),
            if old(self).tx_pending_data@.len() == 0 {
                r is Nothing && final(run).stage == PollStage::End
            } else {
                r is Transmit && final(run).stage == PollStage::Drained
            },
    {
        run.burst = self.take_tx_pending_data();
        if run.burst.len() == 0 {
            run.stage = PollStage::End;
            PollAction::Nothing
        } else {
            run.stage = PollStage::Drained;
            PollAction::Transmit
        }
    }

    /// Takes the next step of a poll and says what the caller does before the
    /// one after it; `reply` is the driver's answer to the action before.
    pub fn poll_once(&mut self, run: &mut PollRun, reply: PollReply, now_ns: u64) -> (r: PollAction)
        requires
            old(self).wf(),
        ensures
            final(self).wf(),
            poll_steps_left(old(run).stage) > 0 ==> poll_steps_left(final(run).stage)
                < poll_steps_left(old(run).stage),
            poll_stepped(*old(self), *old(run), *final(self), *final(run), reply, now_ns, r),
    {
        match run.stage {
            PollStage::Begin => {
                run.stage = PollStage::Burst;
                PollAction::Receive(self.poll_begin())
            },
            PollStage::Burst => {
                self.poll_burst(reply.frames);
                if reply.frames == 0 {
                    run.stage = PollStage::Timers;
                    PollAction::Nothing
                } else {
                    run.stage = PollStage::Payload;
                    PollAction::Frames
                }
            },
            PollStage::Payload => {
                self.note_rx_payload(reply.accepted);
                run.stage = PollStage::Timers;
                PollAction::Nothing
            },
            PollStage::Timers => {
                run.stage = PollStage::Reap;
                PollAction::Fire(self.fire_timers_at(now_ns))
            },
            PollStage::Reap => {
                run.stage = PollStage::Announce;
                PollAction::Reaped(self.reap_time_wait(now_ns))
            },
            PollStage::Announce => {
                match self.maybe_emit_gratuitous_arp(now_ns) {
                    Some(frame) => {
                        run.stage = PollStage::Announced;
                        PollAction::SendFrame(frame)
                    },
                    None => {
                        run.stage = PollStage::Drain;
                        PollAction::Nothing
                    },
                }
            },
            PollStage::Announced => {
                self.garp_done(reply.sent, now_ns);
                run.stage = PollStage::Drain;
                PollAction::Nothing
            },
            PollStage::Drain => self.drain_into(run),
            PollStage::Drained => {
                let taken: usize = if reply.frames <= run.burst.len() {
                    reply.frames
                } else {
                    run.burst.len()
                };
                run.stage = PollStage::End;
                PollAction::Free(self.drain_tx_pending_data(run.burst.as_slice(), taken))
            },
            PollStage::End => {
                self.poll_end(now_ns);
                run.stage = PollStage::Over;
                PollAction::Nothing
            },
            PollStage::Over => PollAction::Nothing,
        }
    }
}

} // verus!
