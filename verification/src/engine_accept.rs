//! A connection that the peer opens, step by step, with the segments that are
//! sent in between.
use vstd::prelude::*;

use crate::counters::{Counters, TcpCounters};
use crate::engine::{Engine, LATEST_NS};
use crate::engine_fire::is_handshake_segment;
use crate::engine_listen::{
    passive_admitted, slot_of, syn_ack_recorded, syn_decided, syn_numbered, SynDecision,
};
use crate::engine_tx::SYN_ACK;
use crate::error::Error;
use crate::flow_table::{ConnHandle, FourTuple};
use crate::tcp_conn::TcpConn;
use crate::tcp_output::SegmentTx;
use crate::test_server::ListenHandle;

verus! {

/// What is done next about a SYN on a slot.
#[derive(Debug, Clone, Copy, PartialEq, Eq, Structural)]
pub enum AcceptStage {
    /// It is decided about the SYN.
    Begin,
    /// A reset was sent, or was not.
    Reset,
    /// The connection that was made is taken in.
    Admit,
    /// The SYN was answered, or was not.
    SynAckSent,
    Over,
}

/// A SYN on a slot that is being handled.
#[derive(Debug)]
pub struct AcceptRun {
    pub listener: ListenHandle,
    pub peer_ip: u32,
    pub peer_port: u16,
    /// The peer's first sequence number.
    pub iss_peer: u32,
    pub stage: AcceptStage,
    pub handle: ConnHandle,
}

/// What the caller does before the next step.
#[derive(Debug)]
pub enum AcceptAction {
    Nothing,
    /// Send a segment, and say whether it was sent.
    Send(SegmentTx),
    /// Make the connection.
    Make { tuple: FourTuple, iss: u32 },
    /// The connection is under way.
    Opened(ConnHandle),
    /// There is no connection.
    Refused(Error),
}

/// What was answered to the action before.
pub struct AcceptReply {
    /// The connection that was made.
    pub conn: Option<TcpConn>,
    pub sent: bool,
}

/// The same run, at another stage.
pub open spec fn accept_at(run: AcceptRun, stage: AcceptStage) -> AcceptRun {
    AcceptRun { stage, ..run }
}

/// What the caller keeps between two steps: the slot that a connection is
/// made for, and the connection whose SYN was answered.
pub open spec fn accept_kept(e: Engine, run: AcceptRun) -> bool {
    &&& run.stage == AcceptStage::Admit ==> slot_of(e.listen_slots@, run.listener)
        < e.listen_slots@.len()
    &&& run.stage == AcceptStage::SynAckSent ==> e.has(run.handle)
}

/// The first step about a SYN.
pub open spec fn accept_begun(
    a: Engine,
    s: AcceptRun,
    t: AcceptRun,
    now_ns: u64,
    r: AcceptAction,
) -> bool {
    exists|d: SynDecision| #[trigger]
        syn_decided(a, s.listener, s.peer_ip, s.peer_port, s.iss_peer, now_ns, d) && match d {
            SynDecision::NoSlot => {
                &&& r == AcceptAction::Refused(Error::InvalidArgument)
                &&& t == accept_at(s, AcceptStage::Over)
            },
            SynDecision::Refuse(rst) => {
                &&& r == AcceptAction::Send(rst)
                &&& t == accept_at(s, AcceptStage::Reset)
            },
            SynDecision::Open { tuple, iss } => {
                &&& r == (AcceptAction::Make { tuple, iss })
                &&& t == accept_at(s, AcceptStage::Admit)
            },
        }
}

/// The step that takes in the connection: its SYN-ACK is sent next, unless the
/// table is full.
pub open spec fn accept_admitted(
    a: Engine,
    s: AcceptRun,
    b: Engine,
    t: AcceptRun,
    conn: TcpConn,
    now_ns: u64,
    r: AcceptAction,
) -> bool {
    exists|res: Result<ConnHandle, Error>| #[trigger]
        passive_admitted(a, b, s.listener, conn, res) && match res {
            Ok(h) => {
                &&& r matches AcceptAction::Send(seg) && is_handshake_segment(
                    b,
                    h,
                    SYN_ACK,
                    now_ns,
                    seg,
                )
                &&& t == (AcceptRun { stage: AcceptStage::SynAckSent, handle: h, ..s })
            },
            Err(e) => {
                &&& r == AcceptAction::Refused(e)
                &&& t == accept_at(s, AcceptStage::Over)
            },
        }
}

/// A step about a SYN on a slot.
pub open spec fn accept_stepped(
    a: Engine,
    s: AcceptRun,
    b: Engine,
    t: AcceptRun,
    reply: AcceptReply,
    now_ns: u64,
    r: AcceptAction,
) -> bool {
    match s.stage {
        AcceptStage::Begin => b == a && accept_begun(a, s, t, now_ns, r),
        AcceptStage::Reset => {
            &&& r is Nothing
            &&& t == accept_at(s, AcceptStage::Over)
            &&& b == (Engine {
                counters: Counters {
                    tcp: TcpCounters {
                        tx_rst: if reply.sent {
                            a.counters.tcp.tx_rst.wrapping_add(1)
                        } else {
                            a.counters.tcp.tx_rst
                        },
                        ..a.counters.tcp
                    },
                    ..a.counters
                },
                ..a
            })
        },
        AcceptStage::Admit => accept_admitted(a, s, b, t, reply.conn->0, now_ns, r),
        AcceptStage::SynAckSent => {
            &&& r == AcceptAction::Opened(s.handle)
            &&& t == accept_at(s, AcceptStage::Over)
            &&& if reply.sent {
                exists|mid: Engine| #[trigger]
                    syn_ack_recorded(a, mid, s.handle, now_ns) && syn_numbered(mid, b, s.handle)
            } else {
                syn_numbered(a, b, s.handle)
            }
        },
        AcceptStage::Over => b == a && t == s && r is Nothing,
    }
}

impl AcceptRun {
    /// A SYN that arrived on a slot.
    pub fn new(listener: ListenHandle, peer_ip: u32, peer_port: u16, iss_peer: u32) -> (r: Self)
        ensures
            r == (AcceptRun {
                listener,
                peer_ip,
                peer_port,
                iss_peer,
                stage: AcceptStage::Begin,
                handle: 0,
            }),
    {
        AcceptRun {
            listener,
            peer_ip,
            peer_port,
            iss_peer,
            stage: AcceptStage::Begin,
            handle: 0,
        }
    }
}

impl Engine {
    fn begin_accept(&self, run: &mut AcceptRun, now_ns: u64) -> (r: AcceptAction)
        requires
            old(run).stage == AcceptStage::Begin,
        ensures
            accept_kept(*self, *final(run)),
            accept_begun(*self, *old(run), *final(run), now_ns, r),
    {
        let d: SynDecision = self.handle_inbound_syn_listen(
            run.listener,
            run.peer_ip,
            run.peer_port,
            run.iss_peer,
            now_ns,
        );
        assert(syn_decided(
            *self,
            run.listener,
            run.peer_ip,
            run.peer_port,
            run.iss_peer,
            now_ns,
            d,
        ));
        match d {
            SynDecision::NoSlot => {
                run.stage = AcceptStage::Over;
                AcceptAction::Refused(Error::InvalidArgument)
            },
            SynDecision::Refuse(rst) => {
                run.stage = AcceptStage::Reset;
                AcceptAction::Send(rst)
            },
            SynDecision::Open { tuple, iss } => {
                run.stage = AcceptStage::Admit;
                AcceptAction::Make { tuple, iss }
            },
        }
    }

    /// Takes the next step about a SYN on a slot and says what the caller does
    /// before the one after it; `reply` is what was answered to the action
    /// before.
    pub fn accept_step(&mut self, run: &mut AcceptRun, reply: AcceptReply, now_ns: u64) -> (r:
        AcceptAction)
        requires
            old(self).wf(),
            old(self).timer_wheel.has_slot(),
            now_ns <= LATEST_NS,
            accept_kept(*old(self), *old(run)),
            old(run).stage == AcceptStage::Admit ==> reply.conn is Some && reply.conn->0.wf(),
        ensures
            final(self).wf(),
            accept_kept(*final(self), *final(run)),
            accept_stepped(*old(self), *old(run), *final(self), *final(run), reply, now_ns, r),
    {
        match run.stage {
            AcceptStage::Begin => self.begin_accept(run, now_ns),
            AcceptStage::Reset => {
                run.stage = AcceptStage::Over;
                if reply.sent {
                    self.rst_sent();
                }
                AcceptAction::Nothing
            },
            AcceptStage::Admit => {
                let conn: TcpConn = reply.conn.unwrap();
                let ghost made = conn;
                let res: Result<ConnHandle, Error> = self.admit_passive(run.listener, conn);
                assert(passive_admitted(*old(self), *self, run.listener, made, res));
                match res {
                    Ok(h) => {
                        run.handle = h;
                        run.stage = AcceptStage::SynAckSent;
                        AcceptAction::Send(self.emit_syn_with_flags(h, SYN_ACK, now_ns).unwrap())
                    },
                    Err(e) => {
                        run.stage = AcceptStage::Over;
                        AcceptAction::Refused(e)
                    },
                }
            },
            AcceptStage::SynAckSent => {
                run.stage = AcceptStage::Over;
                if reply.sent {
                    self.emit_syn_ack_for_passive(run.handle, now_ns);
                    assert(syn_ack_recorded(*old(self), *self, run.handle, now_ns));
                }
                self.passive_opened(run.handle);
                AcceptAction::Opened(run.handle)
            },
            AcceptStage::Over => AcceptAction::Nothing,
        }
    }
}

} // verus!
