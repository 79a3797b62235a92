//! A timer that fired, step by step, with the driver's work in between.
use vstd::prelude::*;

use crate::counters::{bumped, inc, Counters, TcpCounters};
use crate::engine::{Engine, Released, LATEST_NS};
use crate::engine_config::is_syn_opts;
use crate::engine_resend::{
    resend_starts, resend_stepped, resend_steps_left, ResendAction, ResendReply, ResendRun,
    ResendStage,
};
use crate::engine_timers::{
    api_timer_reported, loss_log, losses_marked, probe_noted, rto_fired, rto_settled, rto_targets,
    syn_fired, syn_resent, tlp_fired, RtoStep, SynStep,
};
use crate::engine_tx::{addressed, bare};
use crate::flow_table::ConnHandle;
use crate::mempool::Mbuf;
use crate::tcp_events::LossCause;
use crate::tcp_output::{has_flag, SegmentTx, TCP_ACK};
use crate::tcp_timer_wheel::{TimerId, TimerKind, TimerNode};

verus! {

/// What is done next about a timer that fired.
#[derive(Debug, Clone, Copy, PartialEq, Eq, Structural)]
pub enum FireStage {
    /// The timer is taken in.
    Fired,
    /// The segments that were found lost are marked.
    Losses,
    /// The next segment to send again is picked.
    Next,
    /// That segment is sent again.
    Resending,
    /// The firing is counted and reported, once all were sent again.
    Settle,
    /// A handshake segment was sent again.
    SynSent,
    Over,
}

/// A timer that fired and is being handled.
#[derive(Debug)]
pub struct FireRun {
    pub id: TimerId,
    pub node: TimerNode,
    pub stage: FireStage,
    /// The segments that were found lost.
    pub lost: Vec<u16>,
    /// The segment that a probe sends again.
    pub probe: usize,
    /// How many segments have been taken up.
    pub next: usize,
    /// The retransmission under way.
    pub resend: ResendRun,
    /// How many segments were queued again.
    pub resent: usize,
}

/// What the caller does before the next step.
#[derive(Debug)]
pub enum FireAction {
    Nothing,
    /// Find the segments of the connection that are lost, and say which.
    FindLosses,
    /// Do what the retransmission asks for.
    Resend(ResendAction),
    /// Send a segment, and say whether it was sent.
    Send(SegmentTx),
    /// Let go of the buffers of a connection that was given up.
    LetGo(Released),
}

/// What was answered to the action before.
#[derive(Debug)]
pub struct FireReply {
    /// The segments that are lost.
    pub lost: Vec<u16>,
    /// Frames taken.
    pub frames: usize,
    /// The buffer of new headers, and their length.
    pub built: Option<(Mbuf, u16)>,
    pub sent: bool,
}

/// What shows a loss where a timer of a kind sends segments again.
pub open spec fn cause_of(kind: TimerKind) -> LossCause {
    if kind == TimerKind::Tlp {
        LossCause::Tlp
    } else {
        LossCause::Rto
    }
}

/// The timer is one that sends segments in flight again.
pub open spec fn recovers(kind: TimerKind) -> bool {
    kind == TimerKind::Rto || kind == TimerKind::Tlp
}

/// How many segments are sent again.
pub open spec fn target_count(run: FireRun) -> int {
    if run.node.kind == TimerKind::Tlp {
        1
    } else {
        rto_targets(run.lost@).len() as int
    }
}

/// The segments that are sent again, in order.
pub open spec fn target_at(run: FireRun, k: int) -> usize {
    if run.node.kind == TimerKind::Tlp {
        run.probe
    } else {
        rto_targets(run.lost@)[k] as usize
    }
}

/// The run is as far as its stage says.
pub open spec fn fire_wf(run: FireRun) -> bool {
    &&& run.resent <= run.next
    &&& run.stage == FireStage::Fired || run.stage == FireStage::Losses ==> run.next == 0
    &&& run.stage == FireStage::Losses ==> run.node.kind == TimerKind::Rto
    &&& run.stage == FireStage::Next || run.stage == FireStage::Settle ==> {
        &&& recovers(run.node.kind)
        &&& run.next <= target_count(run)
    }
    &&& run.stage == FireStage::Resending ==> {
        &&& recovers(run.node.kind)
        &&& run.next < target_count(run)
        &&& run.resend.stage != ResendStage::Over
        &&& run.resend.handle == run.node.owner_handle
        &&& run.resend.index == target_at(run, run.next as int)
        &&& run.resend.cause == cause_of(run.node.kind)
        &&& !run.resend.queued
    }
}

/// The stages still to come; the steps within one are counted by `fire_rest`.
pub open spec fn fire_phase(run: FireRun) -> int {
    match run.stage {
        FireStage::Fired => 4,
        FireStage::Losses => 3,
        FireStage::Next => 2,
        FireStage::Resending => 2,
        FireStage::Settle => 1,
        FireStage::SynSent => 1,
        FireStage::Over => 0,
    }
}

/// How many steps the retransmissions take at most.
pub open spec fn fire_rest(run: FireRun) -> int {
    let n = target_count(run) - run.next;
    match run.stage {
        FireStage::Next => 6 * n,
        FireStage::Resending => 6 * (n - 1) + 1 + resend_steps_left(run.resend.stage),
        _ => 0,
    }
}

/// The same run, at another stage.
pub open spec fn fire_at(run: FireRun, stage: FireStage) -> FireRun {
    FireRun { stage, ..run }
}

/// The segment is a handshake segment of the connection, with these flags.
pub open spec fn is_handshake_segment(
    e: Engine,
    h: ConnHandle,
    flags: u8,
    now_ns: u64,
    seg: SegmentTx,
) -> bool {
    let c = e.conn(h);
    &&& addressed(seg, e, c.four_tuple)
    &&& bare(
        seg,
        c.iss,
        if has_flag(flags, TCP_ACK) {
            c.rcv_nxt
        } else {
            0
        },
        flags,
        u16::MAX,
    )
    &&& is_syn_opts(seg.options, e.cfg.recv_buffer_bytes, c.peer_mss, now_ns)
}

/// A timer is taken in.
pub open spec fn fire_begun(
    a: Engine,
    s: FireRun,
    b: Engine,
    t: FireRun,
    now_ns: u64,
    r: FireAction,
) -> bool {
    let h = s.node.owner_handle;
    match s.node.kind {
        TimerKind::ApiPublic => {
            &&& api_timer_reported(a, b, s.id, s.node.user_data, now_ns)
            &&& r is Nothing
            &&& t == fire_at(s, FireStage::Over)
        },
        TimerKind::Rto => exists|step: RtoStep| #[trigger]
            rto_fired(a, b, h, s.id, step) && if step == RtoStep::Retransmit {
                r is FindLosses && t == fire_at(s, FireStage::Losses)
            } else {
                r is Nothing && t == fire_at(s, FireStage::Over)
            },
        TimerKind::Tlp => exists|probe: Option<usize>| #[trigger]
            tlp_fired(a, b, h, s.id, probe) && r is Nothing && match probe {
                Some(i) => t == (FireRun { stage: FireStage::Next, probe: i, ..s }),
                None => t == fire_at(s, FireStage::Over),
            },
        TimerKind::SynRetrans => exists|step: SynStep| #[trigger]
            syn_fired(a, b, h, s.id, now_ns, step) && match step {
                SynStep::Nothing => r is Nothing && t == fire_at(s, FireStage::Over),
                SynStep::GaveUp(rel) => r == FireAction::LetGo(rel) && t == fire_at(
                    s,
                    FireStage::Over,
                ),
                SynStep::Resend { flags } => {
                    &&& r matches FireAction::Send(seg) && is_handshake_segment(
                        b,
                        h,
                        flags,
                        now_ns,
                        seg,
                    )
                    &&& t == fire_at(s, FireStage::SynSent)
                },
            },
    }
}

/// A recovery is finished. Only the firing is counted where the connection is
/// gone, and a probe whose segment is gone is reported without one.
pub open spec fn recovery_settled(
    a: Engine,
    s: FireRun,
    b: Engine,
    now_ns: u64,
    r: FireAction,
) -> bool {
    let h = s.node.owner_handle;
    if s.node.kind == TimerKind::Tlp {
        &&& r is Nothing
        &&& if a.has(h) && s.probe < a.conn(h).snd_retrans@.len() {
            probe_noted(a, b, h, s.probe, now_ns)
        } else {
            &&& b.log() == loss_log(
                a.log(),
                a.cfg.tcp_per_packet_events,
                h,
                0,
                0,
                LossCause::Tlp,
                now_ns,
            )
            &&& b == (Engine {
                events: b.events,
                counters: Counters {
                    obs: b.counters.obs,
                    tcp: TcpCounters {
                        tx_tlp: a.counters.tcp.tx_tlp.wrapping_add(1),
                        ..a.counters.tcp
                    },
                    ..a.counters
                },
                ..a
            })
        }
    } else if a.has(h) {
        exists|rel: Option<Released>| #[trigger]
            rto_settled(a, b, h, s.lost@, now_ns, rel) && match rel {
                Some(x) => r == FireAction::LetGo(x),
                None => r is Nothing,
            }
    } else {
        &&& r is Nothing
        &&& b == (Engine {
            counters: Counters {
                tcp: TcpCounters {
                    tx_rto: a.counters.tcp.tx_rto.wrapping_add(1),
                    ..a.counters.tcp
                },
                ..a.counters
            },
            ..a
        })
    }
}

/// A step of handling a timer that fired.
pub open spec fn fire_stepped(
    a: Engine,
    s: FireRun,
    b: Engine,
    t: FireRun,
    reply: FireReply,
    now_ns: u64,
    r: FireAction,
) -> bool {
    let h = s.node.owner_handle;
    match s.stage {
        FireStage::Fired => fire_begun(a, s, b, t, now_ns, r),
        FireStage::Losses => {
            &&& r is Nothing
            &&& if a.has(h) {
                &&& losses_marked(a, b, h, reply.lost@)
                &&& t.lost@ == reply.lost@
                &&& t == (FireRun { stage: FireStage::Next, lost: t.lost, ..s })
            } else {
                b == a && t == fire_at(s, FireStage::Over)
            }
        },
        FireStage::Next => {
            &&& b == a
            &&& r is Nothing
            &&& if s.next < target_count(s) {
                &&& resend_starts(
                    t.resend,
                    h,
                    target_at(s, s.next as int),
                    cause_of(s.node.kind),
                )
                &&& t == (FireRun { stage: FireStage::Resending, resend: t.resend, ..s })
            } else {
                t == fire_at(s, FireStage::Settle)
            }
        },
        FireStage::Resending => {
            &&& r matches FireAction::Resend(act) && resend_stepped(
                a,
                s.resend,
                b,
                t.resend,
                (ResendReply { frames: reply.frames, built: reply.built }),
                now_ns,
                act,
            )
            &&& if t.resend.stage == ResendStage::Over {
                t == (FireRun {
                    stage: FireStage::Next,
                    next: (s.next + 1) as usize,
                    resend: t.resend,
                    resent: (s.resent + if t.resend.queued {
                        1int
                    } else {
                        0
                    }) as usize,
                    ..s
                })
            } else {
                t == (FireRun { resend: t.resend, ..s })
            }
        },
        FireStage::Settle => {
            &&& recovery_settled(a, s, b, now_ns, r)
            &&& t == fire_at(s, FireStage::Over)
        },
        FireStage::SynSent => {
            &&& if a.has(h) {
                syn_resent(a, b, h, reply.sent, now_ns)
            } else {
                b == a
            }
            &&& r is Nothing
            &&& t == fire_at(s, FireStage::Over)
        },
        FireStage::Over => b == a && r is Nothing && t == s,
    }
}

impl FireRun {
    /// A timer that fired.
    pub fn new(id: TimerId, node: TimerNode) -> (r: Self)
        ensures
            fire_wf(r),
            r.id == id,
            r.node == node,
            r.stage == FireStage::Fired,
            r.lost@ == Seq::<u16>::empty(),
            r.next == 0,
            r.resent == 0,
    {
        FireRun {
            id,
            node,
            stage: FireStage::Fired,
            lost: Vec::new(),
            probe: 0,
            next: 0,
            resend: ResendRun::new(0, 0, LossCause::Rto),
            resent: 0,
        }
    }

    fn target(&self) -> (r: Option<usize>)
        ensures
            r == (if self.next < target_count(*self) {
                Some(target_at(*self, self.next as int))
            } else {
                None
            }),
    {
        if self.node.kind == TimerKind::Tlp {
            if self.next == 0 {
                Some(self.probe)
            } else {
                None
            }
        } else if self.lost.len() == 0 {
            if self.next == 0 {
                Some(0)
            } else {
                None
            }
        } else if self.next < self.lost.len() {
            Some(self.lost[self.next] as usize)
        } else {
            None
        }
    }
}

impl Engine {
    fn fire_begin(&mut self, run: &mut FireRun, now_ns: u64) -> (r: FireAction)
        requires
            old(self).wf(),
            fire_wf(*old(run)),
            old(run).stage == FireStage::Fired,
        ensures
            final(self).wf(),
            fire_wf(*final(run)),
            fire_phase(*final(run)) < fire_phase(*old(run)),
            fire_begun(*old(self), *old(run), *final(self), *final(run), now_ns, r),
    {
        let h: ConnHandle = run.node.owner_handle;
        match run.node.kind {
            TimerKind::ApiPublic => {
                self.on_api_timer_fire(run.id, run.node.user_data, now_ns);
                run.stage = FireStage::Over;
                FireAction::Nothing
            },
            TimerKind::Rto => {
                let step: RtoStep = self.on_rto_fire(h, run.id);
                assert(rto_fired(*old(self), *self, h, run.id, step));
                if step == RtoStep::Retransmit {
                    run.stage = FireStage::Losses;
                    FireAction::FindLosses
                } else {
                    run.stage = FireStage::Over;
                    FireAction::Nothing
                }
            },
            TimerKind::Tlp => {
                let probe: Option<usize> = self.on_tlp_fire(h, run.id);
                assert(tlp_fired(*old(self), *self, h, run.id, probe));
                match probe {
                    Some(i) => {
                        run.probe = i;
                        run.stage = FireStage::Next;
                    },
                    None => {
                        run.stage = FireStage::Over;
                    },
                }
                FireAction::Nothing
            },
            TimerKind::SynRetrans => {
                let step: SynStep = self.on_syn_retrans_fire(h, run.id, now_ns);
                assert(syn_fired(*old(self), *self, h, run.id, now_ns, step));
                run.stage = FireStage::Over;
                match step {
                    SynStep::Nothing => FireAction::Nothing,
                    SynStep::GaveUp(rel) => FireAction::LetGo(rel),
                    SynStep::Resend { flags } => {
                        run.stage = FireStage::SynSent;
                        FireAction::Send(self.emit_syn_with_flags(h, flags, now_ns).unwrap())
                    },
                }
            },
        }
    }

    fn settle_recovery(&mut self, run: &FireRun, now_ns: u64) -> (r: FireAction)
        requires
            old(self).wf(),
            old(self).timer_wheel.has_slot(),
            now_ns <= LATEST_NS,
        ensures
            final(self).wf(),
            recovery_settled(*old(self), *run, *final(self), now_ns, r),
    {
        let h: ConnHandle = run.node.owner_handle;
        if run.node.kind == TimerKind::Tlp {
            let there: bool = match self.flow_table.get(h) {
                Some(c) => run.probe < c.snd_retrans.len(),
                None => false,
            };
            if there {
                self.tlp_probed(h, run.probe, now_ns);
            } else {
                inc(&mut self.counters.tcp.tx_tlp);
                self.report_loss(h, 0, 0, LossCause::Tlp, now_ns);
            }
            FireAction::Nothing
        } else if self.holds(h) {
            let rel: Option<Released> = self.rto_retransmitted(h, run.lost.as_slice(), now_ns);
            assert(rto_settled(*old(self), *self, h, run.lost@, now_ns, rel));
            match rel {
                Some(x) => FireAction::LetGo(x),
                None => FireAction::Nothing,
            }
        } else {
            inc(&mut self.counters.tcp.tx_rto);
            FireAction::Nothing
        }
    }

    /// Takes the next step of handling a timer that fired and says what the
    /// caller does before the one after it; `reply` is what was answered to
    /// the action before.
    pub fn fire(&mut self, run: &mut FireRun, reply: FireReply, now_ns: u64) -> (r: FireAction)
        requires
            old(self).wf(),
            old(self).timer_wheel.has_slot(),
            now_ns <= LATEST_NS,
            fire_wf(*old(run)),
        ensures
            final(self).wf(),
            fire_wf(*final(run)),
            old(run).stage != FireStage::Over ==> fire_phase(*final(run)) < fire_phase(*old(run))
                || (fire_phase(*final(run)) == fire_phase(*old(run)) && 0 <= fire_rest(*final(run))
                < fire_rest(*old(run))),
            fire_stepped(*old(self), *old(run), *final(self), *final(run), reply, now_ns, r),
    {
        let h: ConnHandle = run.node.owner_handle;
        match run.stage {
            FireStage::Fired => self.fire_begin(run, now_ns),
            FireStage::Losses => {
                if self.holds(h) {
                    self.mark_lost(h, reply.lost.as_slice());
                    run.lost = reply.lost;
                    run.stage = FireStage::Next;
                } else {
                    run.stage = FireStage::Over;
                }
                FireAction::Nothing
            },
            FireStage::Next => {
                match run.target() {
                    Some(index) => {
                        let cause: LossCause = if run.node.kind == TimerKind::Tlp {
                            LossCause::Tlp
                        } else {
                            LossCause::Rto
                        };
                        run.resend = ResendRun::new(h, index, cause);
                        run.stage = FireStage::Resending;
                    },
                    None => {
                        run.stage = FireStage::Settle;
                    },
                }
                FireAction::Nothing
            },
            FireStage::Resending => {
                let act: ResendAction = self.resend(
                    &mut run.resend,
                    ResendReply { frames: reply.frames, built: reply.built },
                    now_ns,
                );
                if run.resend.stage == ResendStage::Over {
                    assert(target_count(*run) <= usize::MAX) by {
                        assert(run.lost.len() == run.lost@.len());
                    }
                    run.next = run.next + 1;
                    if run.resend.queued {
                        run.resent = run.resent + 1;
                    }
                    run.stage = FireStage::Next;
                }
                FireAction::Resend(act)
            },
            FireStage::Settle => {
                run.stage = FireStage::Over;
                self.settle_recovery(run, now_ns)
            },
            FireStage::SynSent => {
                if self.holds(h) {
                    self.syn_retransmitted(h, reply.sent, now_ns);
                }
                run.stage = FireStage::Over;
                FireAction::Nothing
            },
            FireStage::Over => FireAction::Nothing,
        }
    }
}

/// A step, whatever was answered before it.
pub open spec fn fire_step(a: Engine, s: FireRun, b: Engine, t: FireRun) -> bool {
    exists|reply: FireReply, now_ns: u64, r: FireAction| #[trigger]
        fire_stepped(a, s, b, t, reply, now_ns, r)
}

/// The steps that were taken for a timer that fired: the engine and the run
/// before each, and after the last.
pub open spec fn is_fire_run(es: Seq<Engine>, rs: Seq<FireRun>) -> bool {
    &&& es.len() == rs.len()
    &&& rs.len() > 0
    &&& fire_wf(rs[0])
    &&& rs[0].stage == FireStage::Fired
    &&& forall|k: int|
        0 <= k < rs.len() - 1 ==> #[trigger] fire_step(es[k], rs[k], es[k + 1], rs[k + 1])
}

/// The firing was settled in the course of the steps.
pub open spec fn was_settled(rs: Seq<FireRun>) -> bool {
    exists|k: int| 0 <= k < rs.len() - 1 && (#[trigger] rs[k]).stage == FireStage::Settle
}

/// The counters once `n` segments were sent again for a loss that `cause`
/// showed, and the firing was counted or not.
pub open spec fn recovery_tallied(
    a: TcpCounters,
    b: TcpCounters,
    cause: LossCause,
    n: int,
    settled: bool,
) -> bool {
    &&& b.tx_retrans == a.tx_retrans.wrapping_add(n as u64)
    &&& b.tx_retrans_rto == a.tx_retrans_rto.wrapping_add(
        if cause == LossCause::Rto {
            n as u64
        } else {
            0
        },
    )
    &&& b.tx_retrans_tlp == a.tx_retrans_tlp.wrapping_add(
        if cause == LossCause::Tlp {
            n as u64
        } else {
            0
        },
    )
    &&& b.tx_retrans_rack == a.tx_retrans_rack
    &&& b.tx_rto == bumped(a.tx_rto, settled && cause == LossCause::Rto)
    &&& b.tx_tlp == bumped(a.tx_tlp, settled && cause == LossCause::Tlp)
}

proof fn lemma_resend_tally(
    a: Engine,
    s: ResendRun,
    b: Engine,
    t: ResendRun,
    reply: ResendReply,
    now_ns: u64,
    r: ResendAction,
)
    requires
        resend_stepped(a, s, b, t, reply, now_ns, r),
        !s.queued,
        s.cause != LossCause::Rack,
    ensures
        recovery_tallied(
            a.counters.tcp,
            b.counters.tcp,
            s.cause,
            if t.queued {
                1
            } else {
                0
            },
            false,
        ),
        t.queued ==> t.stage == ResendStage::Over,
        t.handle == s.handle,
        t.index == s.index,
        t.cause == s.cause,
{
}

proof fn lemma_rto_settle_tally(
    a: Engine,
    b: Engine,
    h: ConnHandle,
    lost: Seq<u16>,
    now_ns: u64,
    rel: Option<Released>,
)
    requires
        rto_settled(a, b, h, lost, now_ns, rel),
    ensures
        recovery_tallied(a.counters.tcp, b.counters.tcp, LossCause::Rto, 0, true),
{
}

proof fn lemma_fire_tally(a: Engine, s: FireRun, b: Engine, t: FireRun)
    requires
        fire_step(a, s, b, t),
        fire_wf(s),
        recovers(s.node.kind),
        s.stage != FireStage::SynSent,
    ensures
        fire_wf(t),
        t.node == s.node,
        s.resent <= t.resent,
        recovery_tallied(
            a.counters.tcp,
            b.counters.tcp,
            cause_of(s.node.kind),
            t.resent - s.resent,
            s.stage == FireStage::Settle,
        ),
        s.stage == FireStage::Over || s.stage == FireStage::Settle ==> t.stage == FireStage::Over,
        t.stage != FireStage::SynSent,
        t.stage == FireStage::Over && t.resent > 0 ==> s.stage == FireStage::Over || s.stage
            == FireStage::Settle,
{
    let (reply, now_ns, r) = choose|reply: FireReply, now_ns: u64, r: FireAction| #[trigger]
        fire_stepped(a, s, b, t, reply, now_ns, r);
    assert(s.lost.len() == s.lost@.len());
    assert(target_count(s) <= usize::MAX);
    if s.stage == FireStage::Resending {
        lemma_resend_tally(
            a,
            s.resend,
            b,
            t.resend,
            ResendReply { frames: reply.frames, built: reply.built },
            now_ns,
            r->Resend_0,
        );
    } else if s.stage == FireStage::Settle && s.node.kind == TimerKind::Rto && a.has(
        s.node.owner_handle,
    ) {
        let rel = choose|rel: Option<Released>| #[trigger]
            rto_settled(a, b, s.node.owner_handle, s.lost@, now_ns, rel);
        lemma_rto_settle_tally(a, b, s.node.owner_handle, s.lost@, now_ns, rel);
    }
}

/// Once a retransmission or a probe timer fired, every segment that is queued
/// again adds one to the aggregate and one to the counter of what showed the
/// loss, and to no other; the firing itself is counted once, however many
/// segments there were. A run that queued a segment does not end without it.
pub proof fn law_fire_tally(es: Seq<Engine>, rs: Seq<FireRun>)
    requires
        is_fire_run(es, rs),
        recovers(rs[0].node.kind),
    ensures
        recovery_tallied(
            es[0].counters.tcp,
            es.last().counters.tcp,
            cause_of(rs[0].node.kind),
            rs.last().resent as int,
            was_settled(rs),
        ),
        rs.last().stage == FireStage::Over && rs.last().resent > 0 ==> was_settled(rs),
        was_settled(rs) ==> rs.last().stage == FireStage::Over,
        rs.last().node == rs[0].node,
        rs.last().stage != FireStage::SynSent,
        fire_wf(rs.last()),
    decreases rs.len(),
{
    let n = rs.len() as int;
    if n > 1 {
        let es0 = es.drop_last();
        let rs0 = rs.drop_last();
        assert forall|k: int| 0 <= k < rs0.len() - 1 implies #[trigger] fire_step(
            es0[k],
            rs0[k],
            es0[k + 1],
            rs0[k + 1],
        ) by {
            assert(fire_step(es[k], rs[k], es[k + 1], rs[k + 1]));
        }
        law_fire_tally(es0, rs0);
        assert(fire_step(es[n - 2], rs[n - 2], es[n - 2 + 1], rs[n - 2 + 1]));
        lemma_fire_tally(es[n - 2], rs[n - 2], es[n - 1], rs[n - 1]);
        assert(was_settled(rs) <==> was_settled(rs0) || rs[n - 2].stage == FireStage::Settle) by {
            if was_settled(rs0) {
                let k = choose|k: int|
                    0 <= k < rs0.len() - 1 && (#[trigger] rs0[k]).stage == FireStage::Settle;
                assert(rs[k].stage == FireStage::Settle);
            }
            if was_settled(rs) {
                let k = choose|k: int|
                    0 <= k < rs.len() - 1 && (#[trigger] rs[k]).stage == FireStage::Settle;
                if k < n - 2 {
                    assert(rs0[k].stage == FireStage::Settle);
                }
            }
        }
    }
}

} // verus!
