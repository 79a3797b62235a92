//! The run of a segment that a connection has taken in: what is done about it,
//! step by step, with the frames that are sent in between.
use vstd::prelude::*;

use crate::counters::{bumped, Counters, TcpCounters};
use crate::engine::{Engine, LATEST_NS};
use crate::engine_config::{is_syn_opts, AckOutcome};
use crate::engine_input::{
    ack_settled, connected_noted, outcome_noted, rack_loss_noted, readable_delivered,
    reset_settled, segment_finished, state_settled, syn_timer_dropped, Delivered,
};
use crate::engine_listen::{cleared, re_listened, syn_ack_recorded};
use crate::engine_timers::probe_armed;
use crate::engine_resend::{resend_starts, ResendRun};
use crate::engine_tx::{ack_recorded, addressed, bare, is_ack_of, is_reset, RST_ACK, SYN_ACK};
use crate::flow_table::{ConnHandle, FourTuple};
use crate::mempool::Mbuf;
use crate::tcp_events::LossCause;
use crate::tcp_input::{MbufInsertCtx, Outcome, ParsedSegment, TxAction};
use crate::tcp_output::{has_flag, SegmentTx, TCP_ACK, TCP_RST};

verus! {

/// What is done next about a segment.
#[derive(Debug, Clone, Copy, PartialEq, Eq, Structural)]
pub enum InputStage {
    /// The outcome is counted.
    Taken,
    /// The next lost segment is sent again, if one is left.
    Losses,
    /// That retransmission is reported.
    Lost,
    /// The acknowledgement is settled.
    Acked,
    /// A probe is armed.
    Probe,
    /// The handshake timer is cancelled.
    SynTimer,
    /// The connection changes its state.
    State,
    /// The segment is answered.
    Answer,
    /// The answer is recorded.
    Answered,
    /// A complete handshake is reported.
    Connected,
    /// A slot whose handshake failed is freed.
    Freed,
    /// A slot whose handshake was reset listens again.
    Listening,
    /// The SYN-ACK is sent again.
    SynAck,
    /// That SYN-ACK is recorded.
    SynAckSent,
    /// Payload is delivered.
    Readable,
    /// The segment is finished.
    Finish,
    Over,
}

/// A segment that its connection has taken in.
#[derive(Debug)]
pub struct SegmentRun {
    pub handle: ConnHandle,
    pub tuple: FourTuple,
    pub seg: ParsedSegment,
    pub outcome: Outcome,
    /// The reference that was taken to the frame's buffer.
    pub ctx: Option<MbufInsertCtx>,
    pub hw_rx_ts: u64,
    pub stage: InputStage,
    /// Lost segments that were dealt with.
    pub loss: usize,
    /// The ACK that was handed out to be sent.
    pub ack: Option<AckOutcome>,
}

impl SegmentRun {
    /// The run of a segment that the connection `handle` has just taken in.
    pub fn new(
        handle: ConnHandle,
        tuple: FourTuple,
        seg: ParsedSegment,
        outcome: Outcome,
        ctx: Option<MbufInsertCtx>,
        hw_rx_ts: u64,
    ) -> (r: Self)
        ensures
            run_wf(r),
            r == (SegmentRun {
                handle,
                tuple,
                seg,
                outcome,
                ctx,
                hw_rx_ts,
                stage: InputStage::Taken,
                loss: 0,
                ack: None,
            }),
    {
        SegmentRun {
            handle,
            tuple,
            seg,
            outcome,
            ctx,
            hw_rx_ts,
            stage: InputStage::Taken,
            loss: 0,
            ack: None,
        }
    }
}

/// What the caller does before the next step.
#[derive(Debug)]
pub enum InputAction {
    Nothing,
    /// Run this retransmission to its end.
    Retransmit(ResendRun),
    /// Send a segment, and say whether it was sent.
    Send(SegmentTx),
    /// Free buffers.
    Free(Vec<Mbuf>),
    /// Take a reference, and drop some.
    Release(Delivered),
}

/// How many steps of a run are left at most.
pub open spec fn steps_left(run: SegmentRun) -> int {
    let n = run.outcome.rack_lost_indexes@.len() - run.loss;
    match run.stage {
        InputStage::Taken => 2 * n + 17,
        InputStage::Losses => 2 * n + 16,
        InputStage::Lost => 2 * n + 15,
        InputStage::Acked => 14,
        InputStage::Probe => 13,
        InputStage::SynTimer => 12,
        InputStage::State => 11,
        InputStage::Answer => 10,
        InputStage::Answered => 9,
        InputStage::Connected => 8,
        InputStage::Freed => 7,
        InputStage::Listening => 6,
        InputStage::SynAck => 5,
        InputStage::SynAckSent => 4,
        InputStage::Readable => 3,
        InputStage::Finish => 2,
        InputStage::Over => 0,
    }
}

/// The run as far as its outcome goes: losses are counted off in order.
pub open spec fn run_wf(run: SegmentRun) -> bool {
    &&& run.loss <= run.outcome.rack_lost_indexes@.len()
    &&& run.stage == InputStage::Taken ==> run.loss == 0
    &&& run.stage == InputStage::Lost ==> run.loss < run.outcome.rack_lost_indexes@.len()
}

/// The action releases exactly some references.
pub open spec fn releases(r: InputAction, refs: Seq<Mbuf>) -> bool {
    r matches InputAction::Release(d) && d.retain is None && d.refs@ == refs
}

/// The same run, at another stage.
pub open spec fn at(run: SegmentRun, stage: InputStage) -> SegmentRun {
    SegmentRun { stage, ..run }
}

/// What becomes of the reference that was taken to the frame's buffer: it is
/// dropped unless the connection keeps it.
pub open spec fn unkept(run: SegmentRun) -> Seq<Mbuf> {
    if run.ctx is Some && !run.outcome.mbuf_ref_retained {
        seq![run.ctx->0.mbuf]
    } else {
        Seq::empty()
    }
}

/// A step up to the answer.
pub open spec fn stepped_before_answer(
    a: Engine,
    s: SegmentRun,
    b: Engine,
    t: SegmentRun,
    pto_us: u32,
    now_ns: u64,
    r: InputAction,
) -> bool {
    let o = s.outcome;
    match s.stage {
        InputStage::Taken => {
            &&& outcome_noted(a, b, s.handle, o, now_ns)
            &&& releases(r, unkept(s))
            &&& t == at(s, InputStage::Losses)
        },
        InputStage::Losses => {
            &&& b == a
            &&& if s.loss < o.rack_lost_indexes@.len() {
                &&& r matches InputAction::Retransmit(run) && resend_starts(
                    run,
                    s.handle,
                    o.rack_lost_indexes@[s.loss as int] as usize,
                    LossCause::Rack,
                )
                &&& t == at(s, InputStage::Lost)
            } else {
                r is Nothing && t == at(s, InputStage::Acked)
            }
        },
        InputStage::Lost => {
            &&& rack_loss_noted(
                a,
                b,
                s.handle,
                o.rack_lost_indexes@[s.loss as int],
                now_ns,
            )
            &&& r is Nothing
            &&& t == (SegmentRun {
                stage: InputStage::Losses,
                loss: (s.loss + 1) as usize,
                ..s
            })
        },
        InputStage::Acked => {
            &&& t == at(s, InputStage::Probe)
            &&& if o.snd_una_advanced_to is Some && a.has(s.handle) {
                &&& r matches InputAction::Free(freed) && ack_settled(
                    a,
                    b,
                    s.handle,
                    o.snd_una_advanced_to->0,
                    now_ns,
                    freed@,
                )
            } else {
                r is Nothing && b == a
            }
        },
        InputStage::Probe => {
            &&& probe_armed(a, b, s.handle, pto_us, now_ns)
            &&& r is Nothing
            &&& t == at(s, InputStage::SynTimer)
        },
        InputStage::SynTimer => {
            &&& if o.syn_retrans_timer_to_cancel is Some {
                syn_timer_dropped(a, b, s.handle, o.syn_retrans_timer_to_cancel->0)
            } else {
                b == a
            }
            &&& r is Nothing
            &&& t == at(s, InputStage::State)
        },
        InputStage::State => {
            &&& if a.has(s.handle) {
                state_settled(a, b, s.handle, o.tx, o.new_state, now_ns)
            } else {
                b == a
            }
            &&& r is Nothing
            &&& t == at(s, InputStage::Answer)
        },
        _ => true,
    }
}

/// The step that answers the segment: the ACK or the reset that is asked for,
/// or nothing.
pub open spec fn answered(
    a: Engine,
    s: SegmentRun,
    b: Engine,
    t: SegmentRun,
    now_ns: u64,
    r: InputAction,
) -> bool {
    &&& b == a
    &&& match s.outcome.tx {
        TxAction::Nothing => r is Nothing && t == at(s, InputStage::Connected),
        TxAction::Ack => if a.has(s.handle) {
            let c = a.conn(s.handle);
            &&& t.ack is Some
            &&& t == (SegmentRun { stage: InputStage::Answered, ack: t.ack, ..s })
            &&& is_ack_of(c, now_ns, t.ack->0)
            &&& r matches InputAction::Send(p) && addressed(p, a, c.four_tuple) && bare(
                p,
                c.snd_nxt,
                c.rcv_nxt,
                TCP_ACK,
                t.ack->0.window,
            ) && p.options == t.ack->0.opts
        } else {
            r is Nothing && t == at(s, InputStage::Connected)
        },
        TxAction::Rst => if a.has(s.handle) {
            let c = a.conn(s.handle);
            &&& t == at(s, InputStage::Answered)
            &&& r matches InputAction::Send(p) && is_reset(
                p,
                a,
                c.four_tuple,
                c.snd_nxt,
                s.seg.seq.wrapping_add(s.seg.payload_len as u32),
                RST_ACK,
            )
        } else {
            r is Nothing && t == at(s, InputStage::Connected)
        },
        TxAction::RstForSynSentBadAck => {
            &&& t == at(s, InputStage::Answered)
            &&& r matches InputAction::Send(p) && is_reset(
                p,
                a,
                s.tuple,
                s.seg.ack,
                0,
                TCP_RST,
            )
        },
    }
}

/// A step from the answer on.
pub open spec fn stepped_after_answer(
    a: Engine,
    s: SegmentRun,
    b: Engine,
    t: SegmentRun,
    sent: bool,
    now_ns: u64,
    r: InputAction,
) -> bool {
    let o = s.outcome;
    let serves = a.features.test_server;
    match s.stage {
        InputStage::Answered => {
            &&& if !a.has(s.handle) {
                if o.tx == TxAction::Ack {
                    b == a
                } else {
                    reset_counted(a, b, sent)
                }
            } else if o.tx == TxAction::Ack {
                if sent && s.ack is Some {
                    ack_recorded(a, b, s.handle, s.ack->0)
                } else {
                    b == a
                }
            } else {
                reset_settled(a, b, s.handle, sent, now_ns)
            }
            &&& r is Nothing
            &&& t == at(s, InputStage::Connected)
        },
        InputStage::Connected => {
            &&& if o.connected {
                connected_noted(a, b, s.handle, s.hw_rx_ts, now_ns)
            } else {
                b == a
            }
            &&& r is Nothing
            &&& t == at(s, InputStage::Freed)
        },
        InputStage::Freed => {
            &&& if serves && o.clear_listen_slot_on_close {
                &&& b.listen_slots@ == cleared(a.listen_slots@, s.handle)
                &&& b == (Engine { listen_slots: b.listen_slots, ..a })
            } else {
                b == a
            }
            &&& r is Nothing
            &&& t == at(s, InputStage::Listening)
        },
        InputStage::Listening => {
            &&& if serves && o.re_listen_if_passive {
                r matches InputAction::Release(d) && d.retain is None && re_listened(
                    a,
                    b,
                    s.handle,
                    d.refs@,
                )
            } else {
                r is Nothing && b == a
            }
            &&& t == at(s, InputStage::SynAck)
        },
        InputStage::SynAck => {
            &&& b == a
            &&& if serves && o.retransmit_syn_ack_for_passive && a.has(s.handle) {
                let c = a.conn(s.handle);
                &&& r matches InputAction::Send(p) && addressed(p, a, c.four_tuple) && bare(
                    p,
                    c.iss,
                    c.rcv_nxt,
                    SYN_ACK,
                    u16::MAX,
                ) && is_syn_opts(p.options, a.cfg.recv_buffer_bytes, c.peer_mss, now_ns)
                &&& t == at(s, InputStage::SynAckSent)
            } else {
                r is Nothing && t == at(s, InputStage::Readable)
            }
        },
        InputStage::SynAckSent => {
            &&& if sent && a.has(s.handle) {
                syn_ack_recorded(a, b, s.handle, now_ns)
            } else {
                b == a
            }
            &&& r is Nothing
            &&& t == at(s, InputStage::Readable)
        },
        InputStage::Readable => {
            &&& if o.delivered > 0 {
                r matches InputAction::Release(d) && readable_delivered(
                    a,
                    b,
                    s.handle,
                    o.delivered,
                    s.hw_rx_ts,
                    now_ns,
                    d,
                )
            } else {
                r is Nothing && b == a
            }
            &&& t == at(s, InputStage::Finish)
        },
        InputStage::Finish => {
            &&& r matches InputAction::Release(d) && d.retain is None && segment_finished(
                a,
                b,
                s.handle,
                o,
                has_flag(s.seg.flags, TCP_RST),
                now_ns,
                d.refs@,
            )
            &&& t == at(s, InputStage::Over)
        },
        InputStage::Over => b == a && r is Nothing && t == s,
        _ => true,
    }
}

/// A reset for a connection that is gone is counted where it was sent.
pub open spec fn reset_counted(a: Engine, b: Engine, sent: bool) -> bool {
    b == (Engine {
        counters: Counters {
            tcp: TcpCounters {
                tx_rst: bumped(a.counters.tcp.tx_rst, sent),
                ..a.counters.tcp
            },
            ..a.counters
        },
        ..a
    })
}

fn released(refs: Vec<Mbuf>) -> (r: InputAction)
    ensures
        releases(r, refs@),
{
    InputAction::Release(Delivered { retain: None, refs })
}

impl Engine {
    /// Whether there is a connection under a handle.
    pub fn holds(&self, handle: ConnHandle) -> (r: bool)
        ensures
            r == self.has(handle),
    {
        self.flow_table.get(handle).is_some()
    }

    fn step_before_answer(&mut self, run: &mut SegmentRun, pto_us: u32, now_ns: u64) -> (r:
        InputAction)
        requires
            old(self).wf(),
            old(self).timer_wheel.has_slot(),
            now_ns <= LATEST_NS,
            run_wf(*old(run)),
            steps_left(*old(run)) > 10,
        ensures
            final(self).wf(),
            run_wf(*final(run)),
            steps_left(*final(run)) < steps_left(*old(run)),
            stepped_before_answer(
                *old(self),
                *old(run),
                *final(self),
                *final(run),
                pto_us,
                now_ns,
                r,
            ),
    {
        let h: ConnHandle = run.handle;
        match run.stage {
            InputStage::Taken => {
                self.note_outcome(h, &run.outcome, now_ns);
                run.stage = InputStage::Losses;
                let mut refs: Vec<Mbuf> = Vec::new();
                if let Some(ctx) = run.ctx {
                    if !run.outcome.mbuf_ref_retained {
                        refs.push(ctx.mbuf);
                    }
                }
                assert(refs@ =~= unkept(*old(run)));
                released(refs)
            },
            InputStage::Losses => {
                if run.loss < run.outcome.rack_lost_indexes.len() {
                    run.stage = InputStage::Lost;
                    InputAction::Retransmit(
                        ResendRun::new(
                            run.handle,
                            run.outcome.rack_lost_indexes[run.loss] as usize,
                            LossCause::Rack,
                        ),
                    )
                } else {
                    run.stage = InputStage::Acked;
                    InputAction::Nothing
                }
            },
            InputStage::Lost => {
                assert(run.outcome.rack_lost_indexes.len()
                    == run.outcome.rack_lost_indexes@.len());
                let idx: u16 = run.outcome.rack_lost_indexes[run.loss];
                self.note_rack_loss(h, idx, now_ns);
                run.stage = InputStage::Losses;
                run.loss = run.loss + 1;
                InputAction::Nothing
            },
            InputStage::Acked => {
                run.stage = InputStage::Probe;
                if let Some(una) = run.outcome.snd_una_advanced_to {
                    if self.holds(h) {
                        return InputAction::Free(self.settle_ack(h, una, now_ns));
                    }
                }
                InputAction::Nothing
            },
            InputStage::Probe => {
                self.arm_tlp_pto(h, pto_us, now_ns);
                run.stage = InputStage::SynTimer;
                InputAction::Nothing
            },
            InputStage::SynTimer => {
                if let Some(id) = run.outcome.syn_retrans_timer_to_cancel {
                    self.cancel_syn_timer(h, id);
                }
                run.stage = InputStage::State;
                InputAction::Nothing
            },
            _ => {
                if self.holds(h) {
                    self.settle_state(h, &run.outcome, now_ns);
                }
                run.stage = InputStage::Answer;
                InputAction::Nothing
            },
        }
    }

    fn step_answer(&self, run: &mut SegmentRun, now_ns: u64) -> (r: InputAction)
        requires
            self.wf(),
            old(run).stage == InputStage::Answer,
        ensures
            answered(*self, *old(run), *self, *final(run), now_ns, r),
    {
        let h: ConnHandle = run.handle;
        match run.outcome.tx {
            TxAction::Nothing => {},
            TxAction::Ack => {
                if let Some((p, o)) = self.emit_ack(h, now_ns) {
                    run.ack = Some(o);
                    run.stage = InputStage::Answered;
                    return InputAction::Send(p);
                }
            },
            TxAction::Rst => {
                if let Some(p) = self.emit_rst(h, &run.seg) {
                    run.stage = InputStage::Answered;
                    return InputAction::Send(p);
                }
            },
            TxAction::RstForSynSentBadAck => {
                run.stage = InputStage::Answered;
                return InputAction::Send(
                    self.emit_rst_for_syn_sent_bad_ack(&run.tuple, &run.seg),
                );
            },
        }
        run.stage = InputStage::Connected;
        InputAction::Nothing
    }

    fn record_answer(&mut self, run: &SegmentRun, sent: bool, now_ns: u64)
        requires
            old(self).wf(),
            run.stage == InputStage::Answered,
        ensures
            final(self).wf(),
            stepped_after_answer(
                *old(self),
                *run,
                *final(self),
                at(*run, InputStage::Connected),
                sent,
                now_ns,
                InputAction::Nothing,
            ),
    {
        let h: ConnHandle = run.handle;
        let here: bool = self.holds(h);
        if run.outcome.tx == TxAction::Ack {
            if here && sent {
                if let Some(o) = run.ack {
                    self.ack_sent(h, &o);
                }
            }
        } else if here {
            self.rst_answered(h, sent, now_ns);
        } else {
            crate::counters::inc_if(&mut self.counters.tcp.tx_rst, sent);
        }
    }

    fn step_listener(&mut self, run: &mut SegmentRun, sent: bool, now_ns: u64) -> (r: InputAction)
        requires
            old(self).wf(),
            old(self).timer_wheel.has_slot(),
            now_ns <= LATEST_NS,
            4 <= steps_left(*old(run)) <= 7,
        ensures
            final(self).wf(),
            stepped_after_answer(
                *old(self),
                *old(run),
                *final(self),
                *final(run),
                sent,
                now_ns,
                r,
            ),
    {
        let h: ConnHandle = run.handle;
        let serves: bool = self.features.test_server;
        match run.stage {
            InputStage::Freed => {
                if serves && run.outcome.clear_listen_slot_on_close {
                    self.clear_in_progress_for_conn(h);
                }
                run.stage = InputStage::Listening;
                InputAction::Nothing
            },
            InputStage::Listening => {
                run.stage = InputStage::SynAck;
                if serves && run.outcome.re_listen_if_passive {
                    return released(self.re_listen_if_from_passive(h));
                }
                InputAction::Nothing
            },
            InputStage::SynAck => {
                if serves && run.outcome.retransmit_syn_ack_for_passive {
                    if let Some(p) = self.emit_syn_with_flags(h, SYN_ACK, now_ns) {
                        proof {
                            assert(0x12u8 & 0x10u8 != 0) by (bit_vector);
                        }
                        run.stage = InputStage::SynAckSent;
                        return InputAction::Send(p);
                    }
                }
                run.stage = InputStage::Readable;
                InputAction::Nothing
            },
            _ => {
                if sent && self.holds(h) {
                    self.emit_syn_ack_for_passive(h, now_ns);
                }
                run.stage = InputStage::Readable;
                InputAction::Nothing
            },
        }
    }

    fn step_end(&mut self, run: &mut SegmentRun, now_ns: u64) -> (r: InputAction)
        requires
            old(self).wf(),
            steps_left(*old(run)) == 8 || steps_left(*old(run)) <= 3,
            run_wf(*old(run)),
        ensures
            final(self).wf(),
            run_wf(*final(run)),
            steps_left(*old(run)) > 0 ==> steps_left(*final(run)) < steps_left(*old(run)),
            forall|sent: bool| #[trigger]
                stepped_after_answer(
                    *old(self),
                    *old(run),
                    *final(self),
                    *final(run),
                    sent,
                    now_ns,
                    r,
                ),
    {
        let h: ConnHandle = run.handle;
        match run.stage {
            InputStage::Connected => {
                if run.outcome.connected {
                    self.note_connected(h, run.hw_rx_ts, now_ns);
                }
                run.stage = InputStage::Freed;
                InputAction::Nothing
            },
            InputStage::Readable => {
                run.stage = InputStage::Finish;
                if run.outcome.delivered > 0 {
                    return InputAction::Release(
                        self.deliver_readable(h, run.outcome.delivered, run.hw_rx_ts, now_ns),
                    );
                }
                InputAction::Nothing
            },
            InputStage::Finish => {
                let refs: Vec<Mbuf> = self.finish_segment(
                    h,
                    &run.outcome,
                    run.seg.flags & TCP_RST != 0,
                    now_ns,
                );
                run.stage = InputStage::Over;
                released(refs)
            },
            _ => InputAction::Nothing,
        }
    }

    /// Takes the next step about a segment and says what the caller does before
    /// the one after it. `sent` says whether the segment that was handed out
    /// last was sent; `pto_us` is the time after which a probe is due.
    pub fn tcp_input(&mut self, run: &mut SegmentRun, sent: bool, pto_us: u32, now_ns: u64) -> (r:
        InputAction)
        requires
            old(self).wf(),
            old(self).timer_wheel.has_slot(),
            now_ns <= LATEST_NS,
            run_wf(*old(run)),
        ensures
            final(self).wf(),
            run_wf(*final(run)),
            steps_left(*old(run)) > 0 ==> steps_left(*final(run)) < steps_left(*old(run)),
            if steps_left(*old(run)) > 10 {
                stepped_before_answer(
                    *old(self),
                    *old(run),
                    *final(self),
                    *final(run),
                    pto_us,
                    now_ns,
                    r,
                )
            } else if old(run).stage == InputStage::Answer {
                answered(*old(self), *old(run), *final(self), *final(run), now_ns, r)
            } else {
                stepped_after_answer(
                    *old(self),
                    *old(run),
                    *final(self),
                    *final(run),
                    sent,
                    now_ns,
                    r,
                )
            },
    {
        match run.stage {
            InputStage::Taken
            | InputStage::Losses
            | InputStage::Lost
            | InputStage::Acked
            | InputStage::Probe
            | InputStage::SynTimer
            | InputStage::State => self.step_before_answer(run, pto_us, now_ns),
            InputStage::Answer => self.step_answer(run, now_ns),
            InputStage::Answered => {
                self.record_answer(run, sent, now_ns);
                run.stage = InputStage::Connected;
                InputAction::Nothing
            },
            InputStage::Freed
            | InputStage::Listening
            | InputStage::SynAck
            | InputStage::SynAckSent => self.step_listener(run, sent, now_ns),
            _ => self.step_end(run, now_ns),
        }
    }
}

} // verus!
