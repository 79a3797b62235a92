//! What the application asks for and takes a frame or more: to open a
//! connection, to send and to close, step by step, with the driver's work in
//! between.
use vstd::prelude::*;

use crate::engine::{Engine, LATEST_NS};
use crate::engine_config::ConnectOpts;
use crate::engine_conn::{
    close_flags_taken, closing_state, connect_begun, fin_recorded, handshake_sent, is_fin_of,
    next_queued, send_broken_off, send_result, send_settled, SendRun,
};
use crate::engine_fire::is_handshake_segment;
use crate::engine_poll::burst_drained;
use crate::engine_timers::probe_armed;
use crate::error::Error;
use crate::flow_table::ConnHandle;
use crate::mempool::Mbuf;
use crate::tcp_output::{SegmentTx, TCP_SYN};
use crate::tcp_state::TcpState;

verus! {

/// What is done next to open a connection.
#[derive(Debug, Clone, Copy, PartialEq, Eq, Structural)]
pub enum ConnectStage {
    /// The connection is taken in.
    Begin,
    /// Its SYN was sent, or was not.
    SynSent,
    Over,
}

/// A connection that is being opened.
#[derive(Debug)]
pub struct ConnectRun {
    pub peer_ip: u32,
    pub peer_port: u16,
    pub local_port_hint: u16,
    pub opts: ConnectOpts,
    pub nic_mtu: u16,
    pub stage: ConnectStage,
    pub handle: ConnHandle,
    /// When its SYN was built.
    pub syn_ns: u64,
}

/// What the caller does before the next step.
#[derive(Debug)]
pub enum ConnectAction {
    Nothing,
    /// Send a segment, and say whether it was sent.
    Send(SegmentTx),
    /// The connection is under way.
    Opened(ConnHandle),
    /// There is no connection.
    Refused(Error),
}

/// A step of opening a connection.
pub open spec fn connect_stepped(
    a: Engine,
    s: ConnectRun,
    b: Engine,
    t: ConnectRun,
    sent: bool,
    now_ns: u64,
    r: ConnectAction,
) -> bool {
    match s.stage {
        ConnectStage::Begin => exists|res: Result<ConnHandle, Error>| #[trigger]
            connect_begun(
                a,
                b,
                s.peer_ip,
                s.peer_port,
                s.local_port_hint,
                s.opts,
                s.nic_mtu,
                now_ns,
                res,
            ) && match res {
                Ok(h) => {
                    &&& r matches ConnectAction::Send(seg) && is_handshake_segment(
                        b,
                        h,
                        TCP_SYN,
                        now_ns,
                        seg,
                    )
                    &&& t == (ConnectRun {
                        stage: ConnectStage::SynSent,
                        handle: h,
                        syn_ns: now_ns,
                        ..s
                    })
                },
                Err(e) => {
                    &&& r == ConnectAction::Refused(e)
                    &&& t == (ConnectRun { stage: ConnectStage::Over, ..s })
                },
            },
        ConnectStage::SynSent => {
            &&& t == (ConnectRun { stage: ConnectStage::Over, ..s })
            &&& if sent {
                &&& handshake_sent(a, b, s.handle, s.syn_ns, now_ns)
                &&& r == ConnectAction::Opened(s.handle)
            } else {
                &&& b.flow_table@ == a.flow_table@.remove(s.handle)
                &&& b.flow_table.max == a.flow_table.max
                &&& b == (Engine { flow_table: b.flow_table, ..a })
                &&& r == ConnectAction::Refused(Error::PeerUnreachable(s.peer_ip))
            }
        },
        ConnectStage::Over => b == a && t == s && r is Nothing,
    }
}

/// The connection whose SYN was sent is as fresh as it was taken in.
pub open spec fn awaits_syn(e: Engine, run: ConnectRun) -> bool {
    run.stage == ConnectStage::SynSent ==> e.has(run.handle) && e.conn(run.handle).state
        == TcpState::Closed
}

impl ConnectRun {
    /// A connection that is to be opened.
    pub fn new(
        peer_ip: u32,
        peer_port: u16,
        local_port_hint: u16,
        opts: ConnectOpts,
        nic_mtu: u16,
    ) -> (r: Self)
        ensures
            r == (ConnectRun {
                peer_ip,
                peer_port,
                local_port_hint,
                opts,
                nic_mtu,
                stage: ConnectStage::Begin,
                handle: 0,
                syn_ns: 0,
            }),
    {
        ConnectRun {
            peer_ip,
            peer_port,
            local_port_hint,
            opts,
            nic_mtu,
            stage: ConnectStage::Begin,
            handle: 0,
            syn_ns: 0,
        }
    }
}

/// What is done next in a send.
#[derive(Debug, Clone, Copy, PartialEq, Eq, Structural)]
pub enum SendStage {
    /// The next segment is to be built.
    Build,
    /// It was built, or there was no buffer.
    Built,
    /// The driver was handed the frames that wait, to make room.
    Flushed,
    /// The segment that was built is queued.
    Queue,
    /// The send is finished.
    Finish,
    /// A probe is armed for what was sent.
    Probe,
    Over,
}

/// A send that is under way.
#[derive(Debug)]
pub struct SendFlow {
    pub run: SendRun,
    pub stage: SendStage,
    /// The frames that were handed to the driver.
    pub burst: Vec<Mbuf>,
    /// The segment that was built: its buffer and the length of its frame.
    pub built: Option<(Mbuf, u16)>,
}

/// What the caller does before the next step.
#[derive(Debug)]
pub enum SendAction {
    Nothing,
    /// Build the run's next segment, and say in which buffer and how long its
    /// frame is, or that there was no buffer.
    Build,
    /// Hand the flow's burst to the driver, and say how many frames it took.
    Transmit,
    /// Free the frames that the driver did not take.
    Free(Vec<Mbuf>),
    /// The send is over: how many bytes were accepted.
    Done(Result<u32, Error>),
}

/// What was answered to the action before.
#[derive(Debug, Clone, Copy)]
pub struct SendReply {
    pub built: Option<(Mbuf, u16)>,
    /// Frames taken.
    pub frames: usize,
    /// How long a probe waits, in microseconds.
    pub pto_us: u32,
}

impl SendFlow {
    /// A send whose segments are known.
    pub fn new(run: SendRun) -> (r: Self)
        ensures
            r.burst@ == Seq::<Mbuf>::empty(),
            r == (SendFlow { run, stage: SendStage::Build, burst: r.burst, built: None }),
    {
        SendFlow { run, stage: SendStage::Build, burst: Vec::new(), built: None }
    }
}

/// A segment is left to be built.
pub open spec fn segment_left(run: SendRun) -> bool {
    !run.stopped && run.next < run.segs@.len()
}

/// The frame holds the payload of the run's next segment.
pub open spec fn holds_payload(run: SendRun, built: Option<(Mbuf, u16)>) -> bool {
    built matches Some(b) ==> run.segs@[run.next as int].payload@.len() <= b.1
}

/// The flow is as far as its stage says.
pub open spec fn flow_wf(f: SendFlow) -> bool {
    &&& f.run.wf()
    &&& f.stage == SendStage::Built ==> segment_left(f.run)
    &&& f.stage == SendStage::Flushed || f.stage == SendStage::Queue ==> {
        &&& segment_left(f.run)
        &&& f.built is Some
        &&& holds_payload(f.run, f.built)
    }
}

/// How many steps of a send are left at most.
pub open spec fn send_steps_left(f: SendFlow) -> int {
    let n = f.run.segs@.len() - f.run.next;
    match f.stage {
        SendStage::Build => 5 * n + 4,
        SendStage::Built => 5 * n + 3,
        SendStage::Flushed => 5 * n + 2,
        SendStage::Queue => 5 * n + 1,
        SendStage::Finish => 2,
        SendStage::Probe => 1,
        SendStage::Over => 0,
    }
}

/// The same flow, at another stage.
pub open spec fn flow_at(f: SendFlow, stage: SendStage) -> SendFlow {
    SendFlow { stage, ..f }
}

/// What becomes of a segment that was built, or could not be: it is queued,
/// after the frames that wait where they fill the ring; a send without a
/// buffer breaks off.
pub open spec fn built_taken(
    a: Engine,
    s: SendFlow,
    b: Engine,
    t: SendFlow,
    reply: SendReply,
    r: SendAction,
) -> bool {
    let full = a.tx_pending_data@.len() >= a.cfg.tx_ring_size;
    match reply.built {
        None => {
            &&& r is Nothing
            &&& send_broken_off(a, s.run, b, t.run)
            &&& t == (SendFlow { run: t.run, stage: SendStage::Finish, ..s })
        },
        Some(built) => if full && a.tx_pending_data@.len() > 0 {
            &&& r is Transmit
            &&& t.burst@ == a.tx_pending_data@
            &&& b.tx_pending_data@ == Seq::<Mbuf>::empty()
            &&& b == (Engine { tx_pending_data: b.tx_pending_data, ..a })
            &&& t == (SendFlow {
                stage: SendStage::Flushed,
                burst: t.burst,
                built: reply.built,
                ..s
            })
        } else {
            &&& r is Nothing
            &&& b == a
            &&& t == (SendFlow { stage: SendStage::Queue, built: reply.built, ..s })
        },
    }
}

/// A step of a send.
pub open spec fn send_stepped(
    a: Engine,
    s: SendFlow,
    b: Engine,
    t: SendFlow,
    reply: SendReply,
    now_ns: u64,
    r: SendAction,
) -> bool {
    match s.stage {
        SendStage::Build => {
            &&& b == a
            &&& if segment_left(s.run) {
                r is Build && t == flow_at(s, SendStage::Built)
            } else {
                r is Nothing && t == flow_at(s, SendStage::Finish)
            }
        },
        SendStage::Built => built_taken(a, s, b, t, reply, r),
        SendStage::Flushed => {
            let taken = if reply.frames <= s.burst@.len() {
                reply.frames
            } else {
                s.burst@.len() as usize
            };
            &&& r matches SendAction::Free(rest) && burst_drained(a, b, s.burst@, taken, rest@)
            &&& t == flow_at(s, SendStage::Queue)
        },
        SendStage::Queue => {
            &&& r is Nothing
            &&& next_queued(a, s.run, b, t.run, (s.built->0).0, (s.built->0).1, now_ns)
            &&& t == (SendFlow { run: t.run, stage: SendStage::Build, ..s })
        },
        SendStage::Finish => {
            &&& send_settled(a, b, s.run)
            &&& if s.run.accepted > 0 {
                r is Nothing && t == flow_at(s, SendStage::Probe)
            } else {
                r == SendAction::Done(send_result(s.run)) && t == flow_at(s, SendStage::Over)
            }
        },
        SendStage::Probe => {
            &&& probe_armed(a, b, s.run.handle, reply.pto_us, now_ns)
            &&& r == SendAction::Done(send_result(s.run))
            &&& t == flow_at(s, SendStage::Over)
        },
        SendStage::Over => b == a && t == s && r is Nothing,
    }
}

/// What is done next to close a connection.
#[derive(Debug, Clone, Copy, PartialEq, Eq, Structural)]
pub enum CloseStage {
    /// The flags are taken in, and the FIN is built.
    Begin,
    /// The FIN was sent, or was not.
    FinSent,
    Over,
}

/// A connection that is being closed.
#[derive(Debug)]
pub struct CloseRun {
    pub handle: ConnHandle,
    pub flags: u32,
    pub stage: CloseStage,
}

/// What the caller does before the next step.
#[derive(Debug)]
pub enum CloseAction {
    Nothing,
    /// Send a segment, and say whether it was sent.
    Send(SegmentTx),
    /// Our side of the connection is closed, or was closed before.
    Closed,
    /// Our side of the connection is not closed.
    Refused(Error),
}

impl CloseRun {
    /// A connection that is to be closed.
    pub fn new(handle: ConnHandle, flags: u32) -> (r: Self)
        ensures
            r == (CloseRun { handle, flags, stage: CloseStage::Begin }),
    {
        CloseRun { handle, flags, stage: CloseStage::Begin }
    }
}

/// The same run, at another stage.
pub open spec fn close_at(run: CloseRun, stage: CloseStage) -> CloseRun {
    CloseRun { stage, ..run }
}

/// The connection whose FIN was sent is still there and still open.
pub open spec fn awaits_fin(e: Engine, run: CloseRun) -> bool {
    run.stage == CloseStage::FinSent ==> e.has(run.handle) && closing_state(
        e.conn(run.handle).state,
    ) is Some
}

/// A step of closing a connection: a FIN is sent where our side is open, and
/// where it cannot be sent our side stays open.
pub open spec fn close_stepped(
    a: Engine,
    s: CloseRun,
    b: Engine,
    t: CloseRun,
    sent: bool,
    now_ns: u64,
    r: CloseAction,
) -> bool {
    let h = s.handle;
    match s.stage {
        CloseStage::Begin => {
            &&& close_flags_taken(a, b, h, s.flags, now_ns)
            &&& if !b.has(h) {
                &&& r == CloseAction::Refused(Error::InvalidConnHandle(h as u64))
                &&& t == close_at(s, CloseStage::Over)
            } else if closing_state(b.conn(h).state) is None {
                &&& r is Closed
                &&& t == close_at(s, CloseStage::Over)
            } else {
                &&& r matches CloseAction::Send(seg) && is_fin_of(seg, b, b.conn(h), now_ns)
                &&& t == close_at(s, CloseStage::FinSent)
            }
        },
        CloseStage::FinSent => {
            &&& t == close_at(s, CloseStage::Over)
            &&& if sent {
                &&& fin_recorded(a, b, h, now_ns)
                &&& r is Closed
            } else {
                &&& b == a
                &&& r == CloseAction::Refused(
                    Error::PeerUnreachable(a.conn(h).four_tuple.peer_ip),
                )
            }
        },
        CloseStage::Over => b == a && t == s && r is Nothing,
    }
}

impl Engine {
    /// Takes the next step of closing a connection and says what the caller
    /// does before the one after it; `sent` says whether the FIN was sent.
    pub fn close_step(&mut self, run: &mut CloseRun, sent: bool, now_ns: u64) -> (r: CloseAction)
        requires
            old(self).wf(),
            awaits_fin(*old(self), *old(run)),
        ensures
            final(self).wf(),
            awaits_fin(*final(self), *final(run)),
            close_stepped(*old(self), *old(run), *final(self), *final(run), sent, now_ns, r),
    {
        match run.stage {
            CloseStage::Begin => {
                self.close_conn_with_flags(run.handle, run.flags, now_ns);
                run.stage = CloseStage::Over;
                match self.close_conn(run.handle, now_ns) {
                    Err(e) => CloseAction::Refused(e),
                    Ok(None) => CloseAction::Closed,
                    Ok(Some(fin)) => {
                        run.stage = CloseStage::FinSent;
                        CloseAction::Send(fin)
                    },
                }
            },
            CloseStage::FinSent => {
                run.stage = CloseStage::Over;
                if sent {
                    self.fin_sent(run.handle, now_ns);
                    CloseAction::Closed
                } else {
                    CloseAction::Refused(self.close_failed(run.handle))
                }
            },
            CloseStage::Over => CloseAction::Nothing,
        }
    }

    /// Takes the next step of opening a connection and says what the caller
    /// does before the one after it; `sent` says whether the SYN was sent.
    pub fn connect_step(&mut self, run: &mut ConnectRun, sent: bool, now_ns: u64) -> (r:
        ConnectAction)
        requires
            old(self).wf(),
            old(self).timer_wheel.has_slot(),
            now_ns <= LATEST_NS,
            awaits_syn(*old(self), *old(run)),
        ensures
            final(self).wf(),
            awaits_syn(*final(self), *final(run)),
            connect_stepped(*old(self), *old(run), *final(self), *final(run), sent, now_ns, r),
    {
        match run.stage {
            ConnectStage::Begin => {
                let res: Result<ConnHandle, Error> = self.connect_with_opts(
                    run.peer_ip,
                    run.peer_port,
                    run.local_port_hint,
                    run.opts,
                    run.nic_mtu,
                    now_ns,
                );
                assert(connect_begun(
                    *old(self),
                    *self,
                    run.peer_ip,
                    run.peer_port,
                    run.local_port_hint,
                    run.opts,
                    run.nic_mtu,
                    now_ns,
                    res,
                ));
                match res {
                    Ok(h) => {
                        run.handle = h;
                        run.syn_ns = now_ns;
                        run.stage = ConnectStage::SynSent;
                        proof {
                            assert(0x02u8 & 0x10u8 == 0) by (bit_vector);
                        }
                        ConnectAction::Send(self.emit_syn_with_flags(h, TCP_SYN, now_ns).unwrap())
                    },
                    Err(e) => {
                        run.stage = ConnectStage::Over;
                        ConnectAction::Refused(e)
                    },
                }
            },
            ConnectStage::SynSent => {
                run.stage = ConnectStage::Over;
                if sent {
                    self.connect_sent(run.handle, run.syn_ns, now_ns);
                    ConnectAction::Opened(run.handle)
                } else {
                    ConnectAction::Refused(self.connect_failed(run.handle, run.peer_ip))
                }
            },
            ConnectStage::Over => ConnectAction::Nothing,
        }
    }

    fn take_built(&mut self, flow: &mut SendFlow, reply: SendReply, now_ns: u64) -> (r: SendAction)
        requires
            old(self).wf(),
            old(self).has(old(flow).run.handle),
            old(self).timer_wheel.has_slot(),
            now_ns <= LATEST_NS,
            flow_wf(*old(flow)),
            old(flow).stage == SendStage::Built,
            holds_payload(old(flow).run, reply.built),
        ensures
            final(self).wf(),
            final(self).has(final(flow).run.handle),
            flow_wf(*final(flow)),
            send_steps_left(*final(flow)) < send_steps_left(*old(flow)),
            built_taken(*old(self), *old(flow), *final(self), *final(flow), reply, r),
    {
        match reply.built {
            None => {
                self.segment_built(&mut flow.run, None, now_ns);
                flow.stage = SendStage::Finish;
                SendAction::Nothing
            },
            Some(_) => {
                flow.built = reply.built;
                if self.tx_ring_full() && self.tx_pending_data.len() > 0 {
                    flow.burst = self.take_tx_pending_data();
                    flow.stage = SendStage::Flushed;
                    SendAction::Transmit
                } else {
                    flow.stage = SendStage::Queue;
                    SendAction::Nothing
                }
            },
        }
    }

    /// Takes the next step of a send and says what the caller does before the
    /// one after it; `reply` is what was answered to the action before.
    pub fn send_step(&mut self, flow: &mut SendFlow, reply: SendReply, now_ns: u64) -> (r:
        SendAction)
        requires
            old(self).wf(),
            old(self).has(old(flow).run.handle),
            old(self).timer_wheel.has_slot(),
            now_ns <= LATEST_NS,
            flow_wf(*old(flow)),
            old(flow).stage == SendStage::Built ==> holds_payload(old(flow).run, reply.built),
        ensures
            final(self).wf(),
            final(self).has(final(flow).run.handle),
            flow_wf(*final(flow)),
            old(flow).stage != SendStage::Over ==> send_steps_left(*final(flow)) < send_steps_left(
                *old(flow),
            ),
            send_stepped(*old(self), *old(flow), *final(self), *final(flow), reply, now_ns, r),
    {
        match flow.stage {
            SendStage::Build => {
                if !flow.run.stopped && flow.run.next < flow.run.segs.len() {
                    flow.stage = SendStage::Built;
                    SendAction::Build
                } else {
                    flow.stage = SendStage::Finish;
                    SendAction::Nothing
                }
            },
            SendStage::Built => self.take_built(flow, reply, now_ns),
            SendStage::Flushed => {
                let taken: usize = if reply.frames <= flow.burst.len() {
                    reply.frames
                } else {
                    flow.burst.len()
                };
                flow.stage = SendStage::Queue;
                SendAction::Free(self.drain_tx_pending_data(flow.burst.as_slice(), taken))
            },
            SendStage::Queue => {
                let built: Option<(Mbuf, u16)> = flow.built;
                assert(flow.run.segs.len() == flow.run.segs@.len());
                self.segment_built(&mut flow.run, built, now_ns);
                flow.stage = SendStage::Build;
                SendAction::Nothing
            },
            SendStage::Finish => {
                let res: Result<u32, Error> = self.send_done(&flow.run);
                if flow.run.accepted > 0 {
                    flow.stage = SendStage::Probe;
                    SendAction::Nothing
                } else {
                    flow.stage = SendStage::Over;
                    SendAction::Done(res)
                }
            },
            SendStage::Probe => {
                self.arm_tlp_pto(flow.run.handle, reply.pto_us, now_ns);
                flow.stage = SendStage::Over;
                SendAction::Done(flow.run.result())
            },
            SendStage::Over => SendAction::Nothing,
        }
    }
}

} // verus!
