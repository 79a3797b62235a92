//! A retransmission, step by step, with the driver's work in between.
use vstd::prelude::*;

use crate::engine::Engine;
use crate::engine_conn::{
    is_resend_plan, may_resend, resend_queued, resend_refused, RetransPlan,
};
use crate::engine_poll::burst_drained;
use crate::flow_table::ConnHandle;
use crate::mempool::Mbuf;
use crate::tcp_events::LossCause;

verus! {

/// What is done next in a retransmission.
#[derive(Debug, Clone, Copy, PartialEq, Eq, Structural)]
pub enum ResendStage {
    /// The frames that wait are handed to the driver: the buffer of the
    /// segment may be among them.
    Flush,
    /// What the driver took is counted.
    Flushed,
    /// The segment is planned.
    Plan,
    /// What was built is queued.
    Built,
    Over,
}

/// A retransmission under way.
#[derive(Debug)]
pub struct ResendRun {
    pub handle: ConnHandle,
    /// The place of the segment among those in flight.
    pub index: usize,
    /// What showed the loss.
    pub cause: LossCause,
    pub stage: ResendStage,
    /// The frames that were handed to the driver.
    pub burst: Vec<Mbuf>,
    /// The segment was queued.
    pub queued: bool,
}

/// What the caller does before the next step.
#[derive(Debug)]
pub enum ResendAction {
    Nothing,
    /// Hand the run's burst to the driver, and say how many frames it took.
    Transmit,
    /// Free these frames.
    Free(Vec<Mbuf>),
    /// Build the segment in front of its payload, and say in which buffer and
    /// how long its headers are, or that there was no buffer.
    Build(RetransPlan),
}

/// What the driver answered to the action before.
#[derive(Debug, Clone, Copy)]
pub struct ResendReply {
    /// Frames taken.
    pub frames: usize,
    /// The buffer of the new headers, and their length.
    pub built: Option<(Mbuf, u16)>,
}

/// How many steps of a retransmission are left at most.
pub open spec fn resend_steps_left(stage: ResendStage) -> int {
    match stage {
        ResendStage::Flush => 4,
        ResendStage::Flushed => 3,
        ResendStage::Plan => 2,
        ResendStage::Built => 1,
        ResendStage::Over => 0,
    }
}

/// The retransmission of a segment, for a loss that `cause` showed, begins.
pub open spec fn resend_starts(
    r: ResendRun,
    handle: ConnHandle,
    index: usize,
    cause: LossCause,
) -> bool {
    &&& r.burst@ == Seq::<Mbuf>::empty()
    &&& r == (ResendRun {
        handle,
        index,
        cause,
        stage: ResendStage::Flush,
        burst: r.burst,
        queued: false,
    })
}

/// A step of a retransmission. The frames that wait are gone by the time the
/// segment is queued, so that it finds room.
pub open spec fn resend_stepped(
    a: Engine,
    s: ResendRun,
    b: Engine,
    t: ResendRun,
    reply: ResendReply,
    now_ns: u64,
    r: ResendAction,
) -> bool {
    match s.stage {
        ResendStage::Flush => {
            &&& t.burst@ == a.tx_pending_data@
            &&& b.tx_pending_data@ == Seq::<Mbuf>::empty()
            &&& b == (Engine { tx_pending_data: b.tx_pending_data, ..a })
            &&& if a.tx_pending_data@.len() == 0 {
                r is Nothing && t == (ResendRun {
                    stage: ResendStage::Plan,
                    burst: t.burst,
                    ..s
                })
            } else {
                r is Transmit && t == (ResendRun {
                    stage: ResendStage::Flushed,
                    burst: t.burst,
                    ..s
                })
            }
        },
        ResendStage::Flushed => {
            let taken = if reply.frames <= s.burst@.len() {
                reply.frames
            } else {
                s.burst@.len() as usize
            };
            &&& r matches ResendAction::Free(rest) && burst_drained(a, b, s.burst@, taken, rest@)
            &&& t == (ResendRun { stage: ResendStage::Plan, ..s })
        },
        ResendStage::Plan => {
            &&& b == a
            &&& if may_resend(a, s.handle, s.index) {
                &&& r matches ResendAction::Build(p) && is_resend_plan(
                    a,
                    s.handle,
                    s.index,
                    now_ns,
                    p,
                )
                &&& t == (ResendRun { stage: ResendStage::Built, ..s })
            } else {
                r is Nothing && t == (ResendRun { stage: ResendStage::Over, ..s })
            }
        },
        ResendStage::Built => match reply.built {
            Some(built) => if may_resend(a, s.handle, s.index) {
                &&& resend_queued(
                    a,
                    b,
                    s.handle,
                    s.index,
                    s.cause,
                    built.0,
                    built.1,
                    now_ns,
                )
                &&& r is Nothing
                &&& t == (ResendRun { stage: ResendStage::Over, queued: true, ..s })
            } else {
                &&& b == a
                &&& r matches ResendAction::Free(bufs) && bufs@ == seq![built.0]
                &&& t == (ResendRun { stage: ResendStage::Over, ..s })
            },
            None => {
                &&& resend_refused(a, b, s.handle, now_ns)
                &&& r is Nothing
                &&& t == (ResendRun { stage: ResendStage::Over, ..s })
            },
        },
        ResendStage::Over => b == a && r is Nothing && t == s,
    }
}

impl ResendRun {
    /// A retransmission that begins, for a loss that `cause` showed.
    pub fn new(handle: ConnHandle, index: usize, cause: LossCause) -> (r: Self)
        ensures
            resend_starts(r, handle, index, cause),
    {
        ResendRun {
            handle,
            index,
            cause,
            stage: ResendStage::Flush,
            burst: Vec::new(),
            queued: false,
        }
    }
}

impl Engine {
    /// Whether a segment in flight can be sent again.
    pub fn can_resend(&self, handle: ConnHandle, index: usize) -> (r: bool)
        ensures
            r == may_resend(*self, handle, index),
    {
        match self.flow_table.get(handle) {
            Some(c) => match c.snd_retrans.get(index) {
                Some(e) => !e.mbuf.is_null(),
                None => false,
            },
            None => false,
        }
    }

    fn flush_for_resend(&mut self, run: &mut ResendRun) -> (r: ResendAction)
        requires
            old(run).stage == ResendStage::Flush,
        ensures
            final(run).burst@ == old(self).tx_pending_data@,
            final(self).tx_pending_data@ == Seq::<Mbuf>::empty(),
            *final(self) == (Engine { tx_pending_data: final(self).tx_pending_data, ..*old(self) }),
            *final(run) == (ResendRun {
                stage: final(run).stage,
                burst: final(run).burst,
                ..*old(run)
            }),
            if old(self).tx_pending_data@.len() == 0 {
                r is Nothing && final(run).stage == ResendStage::Plan
            } else {
                r is Transmit && final(run).stage == ResendStage::Flushed
            },
    {
        run.burst = self.take_tx_pending_data();
        if run.burst.len() == 0 {
            run.stage = ResendStage::Plan;
            ResendAction::Nothing
        } else {
            run.stage = ResendStage::Flushed;
            ResendAction::Transmit
        }
    }

    /// Takes the next step of a retransmission and says what the caller does
    /// before the one after it; `reply` is the driver's answer to the action
    /// before.
    pub fn resend(&mut self, run: &mut ResendRun, reply: ResendReply, now_ns: u64) -> (r:
        ResendAction)
        requires
            old(self).wf(),
        ensures
            final(self).wf(),
            final(self).timer_wheel == old(self).timer_wheel,
            resend_steps_left(old(run).stage) > 0 ==> resend_steps_left(final(run).stage)
                < resend_steps_left(old(run).stage),
            resend_stepped(*old(self), *old(run), *final(self), *final(run), reply, now_ns, r),
    {
        match run.stage {
            ResendStage::Flush => self.flush_for_resend(run),
            ResendStage::Flushed => {
                let taken: usize = if reply.frames <= run.burst.len() {
                    reply.frames
                } else {
                    run.burst.len()
                };
                run.stage = ResendStage::Plan;
                ResendAction::Free(self.drain_tx_pending_data(run.burst.as_slice(), taken))
            },
            ResendStage::Plan => match self.retransmit(run.handle, run.index, now_ns) {
                Some(plan) => {
                    run.stage = ResendStage::Built;
                    ResendAction::Build(plan)
                },
                None => {
                    run.stage = ResendStage::Over;
                    ResendAction::Nothing
                },
            },
            ResendStage::Built => {
                run.stage = ResendStage::Over;
                match reply.built {
                    Some((mbuf, len)) => {
                        if !self.can_resend(run.handle, run.index) {
                            let mut bufs: Vec<Mbuf> = Vec::new();
                            bufs.push(mbuf);
                            assert(bufs@ =~= seq![mbuf]);
                            return ResendAction::Free(bufs);
                        }
                        self.retransmit_queued(
                            run.handle,
                            run.index,
                            run.cause,
                            mbuf,
                            len,
                            now_ns,
                        );
                        run.queued = true;
                        ResendAction::Nothing
                    },
                    None => {
                        self.retransmit_failed(run.handle, now_ns);
                        ResendAction::Nothing
                    },
                }
            },
            ResendStage::Over => ResendAction::Nothing,
        }
    }
}

} // verus!
