//! What the engine does step by step: with a received segment, with a timer
//! that fired, and with a request of the application.
use vstd::prelude::*;

use crate::conn_laws::goes_to_peer;
use crate::engine::{Engine, LATEST_NS};
use crate::engine_accept::{AcceptAction, AcceptReply, AcceptRun, AcceptStage};
use crate::engine_fire::{FireAction, FireReply, FireRun, FireStage};
use crate::engine_laws::others_kept;
use crate::engine_request::{
    CloseAction, CloseRun, CloseStage, ConnectAction, ConnectRun, ConnectStage, SendAction,
    SendFlow, SendReply, SendStage,
};
use crate::engine_resend::{ResendAction, ResendReply, ResendRun, ResendStage};
use crate::engine_segment::{InputAction, InputStage, SegmentRun};
use crate::error::Error;
use crate::tcp_events::{InternalEvent, LossCause};
use crate::tcp_input::TxAction;
use crate::tcp_laws::once;
use crate::tcp_state::TcpState;
use crate::tcp_timer_wheel::TimerKind;

verus! {

/// A received segment's buffer is let go of at once unless the connection keeps
/// it, and what is lost is sent again, segment by segment in the order in which
/// it was found, before anything else.
pub proof fn law_losses_come_first(
    e: &mut Engine,
    run: &mut SegmentRun,
    sent: bool,
    pto_us: u32,
    now_ns: u64,
    r: InputAction,
)
    requires
        now_ns <= LATEST_NS,
        old(run).loss <= old(run).outcome.rack_lost_indexes@.len(),
        call_ensures(Engine::tcp_input, (e, run, sent, pto_us, now_ns), r),
    ensures
        final(run).handle == old(run).handle,
        final(run).outcome == old(run).outcome,
        final(run).seg == old(run).seg,
        old(run).stage == InputStage::Taken ==> {
            &&& final(run).stage == InputStage::Losses
            &&& r is Release
            &&& r->Release_0.retain is None
            &&& old(run).ctx is Some && !old(run).outcome.mbuf_ref_retained
                ==> r->Release_0.refs@ == seq![old(run).ctx->0.mbuf]
            &&& old(run).ctx is None || old(run).outcome.mbuf_ref_retained
                ==> r->Release_0.refs@.len() == 0
        },
        old(run).stage == InputStage::Losses ==> {
            let lost = old(run).outcome.rack_lost_indexes@;
            let k = old(run).loss;
            &&& *final(e) == *old(e)
            &&& k < lost.len() ==> {
                &&& r is Retransmit
                &&& r->Retransmit_0.handle == old(run).handle
                &&& r->Retransmit_0.index == lost[k as int]
                &&& r->Retransmit_0.cause == LossCause::Rack
                &&& r->Retransmit_0.stage == ResendStage::Flush
                &&& final(run).stage == InputStage::Lost
            }
            &&& k == lost.len() ==> r is Nothing && final(run).stage == InputStage::Acked
            &&& final(run).loss == k
        },
        old(run).stage == InputStage::Lost && old(run).loss
            < old(run).outcome.rack_lost_indexes@.len() ==> {
            &&& final(run).stage == InputStage::Losses
            &&& final(run).loss == old(run).loss + 1
            &&& final(e).counters.tcp.tx_rack_loss
                == old(e).counters.tcp.tx_rack_loss.wrapping_add(1)
        },
{
}

/// What is in flight is looked at only where the acknowledged number advanced.
/// The probe is set up behind it, a microsecond of its delay being a thousand
/// nanoseconds, and the state changes before anything is answered.
pub proof fn law_acknowledged_then_state(
    e: &mut Engine,
    run: &mut SegmentRun,
    sent: bool,
    pto_us: u32,
    now_ns: u64,
    r: InputAction,
)
    requires
        now_ns <= LATEST_NS,
        old(run).loss <= old(run).outcome.rack_lost_indexes@.len(),
        call_ensures(Engine::tcp_input, (e, run, sent, pto_us, now_ns), r),
    ensures
        old(run).stage == InputStage::Acked ==> {
            &&& final(run).stage == InputStage::Probe
            &&& old(run).outcome.snd_una_advanced_to is None ==> *final(e) == *old(e)
                && r is Nothing
            &&& old(run).outcome.snd_una_advanced_to is Some && old(e).has(old(run).handle) ==> r
                is Free
        },
        old(run).stage == InputStage::Probe ==> {
            let h = old(run).handle;
            let id = final(e).conn(h).tlp_timer_id->0;
            &&& final(run).stage == InputStage::SynTimer
            &&& r is Nothing
            &&& old(e).has(h) && old(e).conn(h).tlp_timer_id is None && final(e).conn(
                h,
            ).tlp_timer_id is Some ==> {
                &&& final(e).timer_wheel@.contains_key(id)
                &&& final(e).timer_wheel@[id].fire_at_ns - now_ns == 1_000 * pto_us
                &&& final(e).timer_wheel@[id].kind == TimerKind::Tlp
                &&& final(e).timer_wheel@[id].owner_handle == h
            }
        },
        old(run).stage == InputStage::SynTimer ==> {
            &&& final(run).stage == InputStage::State
            &&& old(run).outcome.syn_retrans_timer_to_cancel matches Some(id)
                ==> !final(e).timer_wheel@.contains_key(id)
            &&& old(run).outcome.syn_retrans_timer_to_cancel is None ==> *final(e) == *old(e)
        },
        old(run).stage == InputStage::State ==> {
            let h = old(run).handle;
            &&& final(run).stage == InputStage::Answer
            &&& r is Nothing
            &&& old(e).has(h) ==> final(e).has(h)
            &&& old(e).has(h) && old(run).outcome.new_state is Some ==> final(e).conn(h).state
                == old(run).outcome.new_state->0
            &&& old(e).has(h) && old(run).outcome.new_state is None ==> final(e).conn(h).state
                == old(e).conn(h).state
            &&& others_kept(*old(e), *final(e), h)
        },
{
}

/// A segment is answered as was decided: not at all, with an acknowledgement of
/// where the connection stands, with a reset of the connection, or with a reset
/// that takes its number from the segment. The sender is told only on the
/// connection's own addresses.
pub proof fn law_answers(
    e: &mut Engine,
    run: &mut SegmentRun,
    sent: bool,
    pto_us: u32,
    now_ns: u64,
    r: InputAction,
)
    requires
        now_ns <= LATEST_NS,
        old(run).loss <= old(run).outcome.rack_lost_indexes@.len(),
        old(run).stage == InputStage::Answer,
        call_ensures(Engine::tcp_input, (e, run, sent, pto_us, now_ns), r),
    ensures
        *final(e) == *old(e),
        old(run).outcome.tx == TxAction::Nothing ==> r is Nothing && final(run).stage
            == InputStage::Connected,
        r is Send ==> final(run).stage == InputStage::Answered && r->Send_0.payload@.len() == 0,
        old(run).outcome.tx == TxAction::Ack && old(e).has(old(run).handle) ==> {
            let c = old(e).conn(old(run).handle);
            let s = r->Send_0;
            &&& r is Send
            &&& goes_to_peer(s, *old(e), c.four_tuple)
            &&& s.seq == c.snd_nxt
            &&& s.ack == c.rcv_nxt
            &&& s.flags == 0x10
            &&& c.ts_enabled <==> s.options.timestamps is Some
            &&& c.ts_enabled ==> (s.options.timestamps->0).1 == c.ts_recent
        },
        old(run).outcome.tx == TxAction::Rst && old(e).has(old(run).handle) ==> {
            let c = old(e).conn(old(run).handle);
            let s = r->Send_0;
            &&& r is Send
            &&& goes_to_peer(s, *old(e), c.four_tuple)
            &&& s.seq == c.snd_nxt
            &&& s.ack == old(run).seg.seq.wrapping_add(old(run).seg.payload_len as u32)
            &&& s.flags == 0x14
        },
        old(run).outcome.tx == TxAction::RstForSynSentBadAck ==> {
            let s = r->Send_0;
            &&& r is Send
            &&& goes_to_peer(s, *old(e), old(run).tuple)
            &&& s.seq == old(run).seg.ack
            &&& s.ack == 0
            &&& s.flags == 0x04
        },
{
    assert(0x04u8 | 0x10u8 == 0x14u8) by (bit_vector);
}

/// An acknowledgement is counted only where it was sent, with what it told; a
/// reset closes the connection whether or not it could be sent.
pub proof fn law_answer_recorded(
    e: &mut Engine,
    run: &mut SegmentRun,
    sent: bool,
    pto_us: u32,
    now_ns: u64,
    r: InputAction,
)
    requires
        now_ns <= LATEST_NS,
        old(run).loss <= old(run).outcome.rack_lost_indexes@.len(),
        old(run).stage == InputStage::Answered,
        call_ensures(Engine::tcp_input, (e, run, sent, pto_us, now_ns), r),
    ensures
        final(run).stage == InputStage::Connected,
        r is Nothing,
        old(run).outcome.tx == TxAction::Ack && !sent ==> *final(e) == *old(e),
        old(run).outcome.tx == TxAction::Ack && sent && old(e).has(old(run).handle)
            && old(run).ack is Some ==> {
            let c = old(e).conn(old(run).handle);
            let o = old(run).ack->0;
            let was = old(e).counters.tcp;
            let is = final(e).counters.tcp;
            &&& is.tx_ack == was.tx_ack.wrapping_add(1)
            &&& is.tx_zero_window == was.tx_zero_window.wrapping_add(once(o.zero_window))
            &&& is.tx_window_update == was.tx_window_update.wrapping_add(
                once(c.last_advertised_wnd == Some(0u16) && o.window > 0),
            )
            &&& is.tx_sack_blocks == was.tx_sack_blocks.wrapping_add(o.sack_blocks_emitted as u64)
            &&& final(e).conn(old(run).handle).last_advertised_wnd == Some(o.window)
            &&& final(e).conn(old(run).handle).last_sack_trigger is None
            &&& final(e).conn(old(run).handle).state == c.state
        },
        old(run).outcome.tx != TxAction::Ack ==> final(e).counters.tcp.tx_rst
            == old(e).counters.tcp.tx_rst.wrapping_add(once(sent)),
        old(run).outcome.tx != TxAction::Ack && old(e).has(old(run).handle) ==> final(e).conn(
            old(run).handle,
        ).state == TcpState::Closed,
        others_kept(*old(e), *final(e), old(run).handle),
{
}

/// A connection is reported as open once, delivered bytes are handed out only
/// where there are some, and the end of a connection is reported last.
pub proof fn law_segment_is_reported(
    e: &mut Engine,
    run: &mut SegmentRun,
    sent: bool,
    pto_us: u32,
    now_ns: u64,
    r: InputAction,
)
    requires
        now_ns <= LATEST_NS,
        old(run).loss <= old(run).outcome.rack_lost_indexes@.len(),
        call_ensures(Engine::tcp_input, (e, run, sent, pto_us, now_ns), r),
    ensures
        old(run).stage == InputStage::Connected ==> {
            &&& final(run).stage == InputStage::Freed
            &&& !old(run).outcome.connected ==> *final(e) == *old(e)
            &&& old(run).outcome.connected ==> {
                &&& final(e).log() == old(e).log().with(
                    InternalEvent::Connected {
                        conn: old(run).handle,
                        rx_hw_ts_ns: old(run).hw_rx_ts,
                        emitted_ts_ns: now_ns,
                    },
                )
                &&& final(e).counters.tcp.conn_open == old(e).counters.tcp.conn_open.wrapping_add(1)
            }
        },
        old(run).stage == InputStage::Freed ==> final(run).stage == InputStage::Listening,
        old(run).stage == InputStage::Listening ==> final(run).stage == InputStage::SynAck,
        old(run).stage == InputStage::SynAck ==> {
            let h = old(run).handle;
            let resends = old(e).features.test_server
                && old(run).outcome.retransmit_syn_ack_for_passive && old(e).has(h);
            &&& *final(e) == *old(e)
            &&& !resends ==> r is Nothing && final(run).stage == InputStage::Readable
            &&& resends ==> {
                &&& r is Send
                &&& goes_to_peer(r->Send_0, *old(e), old(e).conn(h).four_tuple)
                &&& r->Send_0.seq == old(e).conn(h).iss
                &&& r->Send_0.ack == old(e).conn(h).rcv_nxt
                &&& r->Send_0.flags == 0x12
                &&& r->Send_0.window == 0xffff
                &&& final(run).stage == InputStage::SynAckSent
            }
        },
        old(run).stage == InputStage::SynAckSent ==> final(run).stage == InputStage::Readable && (
        !sent ==> *final(e) == *old(e)),
        old(run).stage == InputStage::Readable ==> {
            &&& final(run).stage == InputStage::Finish
            &&& old(run).outcome.delivered == 0 ==> r is Nothing && *final(e) == *old(e)
            &&& old(run).outcome.delivered > 0 ==> r is Release
        },
        old(run).stage == InputStage::Finish ==> {
            &&& final(run).stage == InputStage::Over
            &&& r is Release
            &&& r->Release_0.retain is None
            &&& !old(run).outcome.closed ==> final(e).log() == old(e).log()
            &&& old(run).outcome.closed ==> final(e).log() == old(e).log().with(
                InternalEvent::Closed {
                    conn: old(run).handle,
                    err: 0,
                    emitted_ts_ns: now_ns,
                },
            )
            &&& final(e).counters.tcp.conn_close == old(e).counters.tcp.conn_close.wrapping_add(
                once(old(run).outcome.closed),
            )
            &&& final(e).counters.tcp.recv_buf_drops
                == old(e).counters.tcp.recv_buf_drops
                    .wrapping_add(old(run).outcome.buf_full_drop as u64)
        },
        old(run).stage == InputStage::Over ==> *final(e) == *old(e) && *final(run) == *old(run)
            && r is Nothing,
{
    assert(0x02u8 | 0x10u8 == 0x12u8) by (bit_vector);
}

/// Before something is sent again, what waits is handed to the driver; a
/// segment that is no longer in flight, or whose buffer is gone, is left alone,
/// and one that has no room for its headers is reported as lost memory.
pub proof fn law_resend_steps(
    e: &mut Engine,
    run: &mut ResendRun,
    reply: ResendReply,
    now_ns: u64,
    r: ResendAction,
)
    requires
        call_ensures(Engine::resend, (e, run, reply, now_ns), r),
    ensures
        final(run).handle == old(run).handle,
        final(run).index == old(run).index,
        final(run).cause == old(run).cause,
        old(run).stage == ResendStage::Flush ==> {
            &&& final(e).tx_pending_data@.len() == 0
            &&& final(run).burst@ == old(e).tx_pending_data@
            &&& old(e).tx_pending_data@.len() > 0 ==> r is Transmit
            &&& old(e).tx_pending_data@.len() == 0 ==> r is Nothing
        },
        old(run).stage == ResendStage::Flushed && reply.frames <= old(run).burst@.len() ==> {
            &&& r is Free
            &&& r->Free_0@ == old(run).burst@.skip(reply.frames as int)
            &&& final(e).counters.eth.tx_pkts == old(e).counters.eth.tx_pkts.wrapping_add(
                reply.frames as u64,
            )
        },
        old(run).stage == ResendStage::Plan ==> {
            let h = old(run).handle;
            let there = old(e).has(h) && old(run).index < old(e).conn(h).snd_retrans@.len()
                && old(e).conn(h).snd_retrans@[old(run).index as int].mbuf.id != 0;
            &&& *final(e) == *old(e)
            &&& r is Build <==> there
            &&& !there ==> final(run).stage == ResendStage::Over && r is Nothing
            &&& there ==> {
                let entry = old(e).conn(h).snd_retrans@[old(run).index as int];
                &&& r->Build_0.seg.seq == entry.seq
                &&& r->Build_0.len == entry.len
                &&& r->Build_0.data == entry.mbuf
            }
        },
        old(run).stage == ResendStage::Built && reply.built is None ==> {
            &&& final(e).log() == old(e).log().with(
                InternalEvent::Error {
                    conn: old(run).handle,
                    err: (-12) as i32,
                    emitted_ts_ns: now_ns,
                },
            )
            &&& final(e).counters.eth.tx_drop_nomem
                == old(e).counters.eth.tx_drop_nomem.wrapping_add(1)
            &&& final(run).queued == old(run).queued
        },
        old(run).stage == ResendStage::Built ==> final(run).stage == ResendStage::Over,
{
    if old(run).stage == ResendStage::Flushed && reply.frames <= old(run).burst@.len() {
        assert(old(run).burst@.skip(reply.frames as int) =~= old(run).burst@.subrange(
            reply.frames as int,
            old(run).burst@.len() as int,
        ));
    }
}

/// After a timeout what was found lost is sent again in the order in which it
/// was found, or the oldest segment where nothing was; a probe repeats the
/// newest. Whatever was sent, the recovery is settled once, at the end.
pub proof fn law_recovery_steps(
    e: &mut Engine,
    run: &mut FireRun,
    reply: FireReply,
    now_ns: u64,
    r: FireAction,
)
    requires
        now_ns <= LATEST_NS,
        call_ensures(Engine::fire, (e, run, reply, now_ns), r),
    ensures
        final(run).id == old(run).id,
        final(run).node == old(run).node,
        old(run).stage == FireStage::Losses && old(e).has(old(run).node.owner_handle) ==> {
            &&& final(run).lost@ == reply.lost@
            &&& final(run).stage == FireStage::Next
        },
        old(run).stage == FireStage::Next && old(run).node.kind == TimerKind::Rto ==> {
            let lost = old(run).lost@;
            let k = old(run).next;
            &&& *final(e) == *old(e)
            &&& k < lost.len() || (lost.len() == 0 && k == 0) ==> {
                &&& final(run).stage == FireStage::Resending
                &&& final(run).resend.handle == old(run).node.owner_handle
                &&& final(run).resend.cause == LossCause::Rto
                &&& lost.len() > 0 ==> final(run).resend.index == lost[k as int]
                &&& lost.len() == 0 ==> final(run).resend.index == 0
            }
            &&& k >= lost.len() && !(lost.len() == 0 && k == 0) ==> final(run).stage
                == FireStage::Settle
        },
        old(run).stage == FireStage::Next && old(run).node.kind == TimerKind::Tlp ==> {
            &&& old(run).next == 0 ==> {
                &&& final(run).stage == FireStage::Resending
                &&& final(run).resend.index == old(run).probe
                &&& final(run).resend.cause == LossCause::Tlp
            }
            &&& old(run).next > 0 ==> final(run).stage == FireStage::Settle
        },
        old(run).stage == FireStage::Resending && final(run).stage == FireStage::Next
            && old(run).next < usize::MAX ==> {
            &&& final(run).next == old(run).next + 1
            &&& final(run).resend.queued && old(run).resent < usize::MAX ==> final(run).resent
                == old(run).resent + 1
            &&& !final(run).resend.queued ==> final(run).resent == old(run).resent
        },
        old(run).stage == FireStage::Settle ==> final(run).stage == FireStage::Over,
        old(run).stage == FireStage::SynSent ==> final(run).stage == FireStage::Over,
        old(run).stage == FireStage::Over ==> *final(e) == *old(e) && *final(run) == *old(run),
{
}

/// Closing a connection that is unknown is an error; of one that has a FIN to
/// send, the FIN goes out, and the close succeeds only where it could be sent.
pub proof fn law_close_steps(
    e: &mut Engine,
    run: &mut CloseRun,
    sent: bool,
    now_ns: u64,
    r: CloseAction,
)
    requires
        old(e).wf(),
        call_ensures(Engine::close_step, (e, run, sent, now_ns), r),
    ensures
        final(run).handle == old(run).handle,
        old(run).stage == CloseStage::Begin && !old(e).has(old(run).handle) ==> {
            &&& r == CloseAction::Refused(Error::InvalidConnHandle(old(run).handle as u64))
            &&& final(run).stage == CloseStage::Over
        },
        old(run).stage == CloseStage::Begin && old(e).has(old(run).handle) && (old(e).conn(
            old(run).handle,
        ).state == TcpState::Established || old(e).conn(old(run).handle).state
            == TcpState::CloseWait) ==> {
            &&& r is Send
            &&& r->Send_0.seq == old(e).conn(old(run).handle).snd_nxt
            &&& r->Send_0.flags == 0x11
            &&& final(run).stage == CloseStage::FinSent
        },
        old(run).stage == CloseStage::FinSent && sent ==> {
            let h = old(run).handle;
            &&& r is Closed
            &&& old(e).conn(h).state == TcpState::Established ==> final(e).conn(h).state
                == TcpState::FinWait1
            &&& old(e).conn(h).state == TcpState::CloseWait ==> final(e).conn(h).state
                == TcpState::LastAck
            &&& final(e).conn(h).our_fin_seq == Some(old(e).conn(h).snd_nxt)
            &&& final(e).conn(h).snd_nxt == old(e).conn(h).snd_nxt.wrapping_add(1)
        },
        old(run).stage == CloseStage::FinSent && !sent ==> {
            &&& *final(e) == *old(e)
            &&& r == CloseAction::Refused(
                Error::PeerUnreachable(old(e).conn(old(run).handle).four_tuple.peer_ip),
            )
        },
        old(run).stage == CloseStage::FinSent ==> final(run).stage == CloseStage::Over,
        old(run).stage == CloseStage::Over ==> *final(e) == *old(e) && r is Nothing,
{
    assert(0x01u8 | 0x10u8 == 0x11u8) by (bit_vector);
}

/// A connection is opened by a SYN from its first number; where the SYN cannot
/// be sent, the connection is forgotten and the peer is unreachable.
pub proof fn law_connect_steps(
    e: &mut Engine,
    run: &mut ConnectRun,
    sent: bool,
    now_ns: u64,
    r: ConnectAction,
)
    requires
        old(e).wf(),
        now_ns <= LATEST_NS,
        call_ensures(Engine::connect_step, (e, run, sent, now_ns), r),
    ensures
        old(run).stage == ConnectStage::Begin && r is Send ==> {
            let h = final(run).handle;
            let c = final(e).conn(h);
            &&& final(e).has(h)
            &&& !old(e).has(h)
            &&& goes_to_peer(r->Send_0, *final(e), c.four_tuple)
            &&& c.four_tuple.peer_ip == old(run).peer_ip
            &&& c.four_tuple.peer_port == old(run).peer_port
            &&& r->Send_0.seq == c.iss
            &&& r->Send_0.ack == 0
            &&& r->Send_0.flags == 0x02
            &&& final(run).stage == ConnectStage::SynSent
        },
        old(run).stage == ConnectStage::Begin && !(r is Send) ==> r is Refused,
        old(run).stage == ConnectStage::SynSent && sent ==> r == ConnectAction::Opened(
            old(run).handle,
        ),
        old(run).stage == ConnectStage::SynSent && !sent ==> {
            &&& r == ConnectAction::Refused(Error::PeerUnreachable(old(run).peer_ip))
            &&& !final(e).has(old(run).handle)
            &&& final(e).timer_wheel == old(e).timer_wheel
            &&& others_kept(*old(e), *final(e), old(run).handle)
        },
        old(run).stage == ConnectStage::Over ==> *final(e) == *old(e) && r is Nothing,
{
    assert(0x02u8 & 0x10u8 == 0) by (bit_vector);
}

/// A send queues its segments one after the other, makes room in the ring where
/// it is full, and ends with the number of bytes that were taken.
pub proof fn law_send_steps(
    e: &mut Engine,
    flow: &mut SendFlow,
    reply: SendReply,
    now_ns: u64,
    r: SendAction,
)
    requires
        old(e).wf(),
        now_ns <= LATEST_NS,
        call_ensures(Engine::send_step, (e, flow, reply, now_ns), r),
    ensures
        old(flow).stage == SendStage::Build ==> {
            let left = !old(flow).run.stopped && old(flow).run.next < old(flow).run.segs@.len();
            &&& *final(e) == *old(e)
            &&& left ==> r is Build && final(flow).stage == SendStage::Built
            &&& !left ==> r is Nothing && final(flow).stage == SendStage::Finish
        },
        old(flow).stage == SendStage::Built && reply.built is None ==> {
            &&& final(flow).run.stopped
            &&& final(flow).stage == SendStage::Finish
            &&& final(e).counters.eth.tx_drop_nomem
                == old(e).counters.eth.tx_drop_nomem.wrapping_add(1)
        },
        old(flow).stage == SendStage::Built && reply.built is Some ==> {
            let full = old(e).tx_pending_data@.len() >= old(e).cfg.tx_ring_size
                && old(e).tx_pending_data@.len() > 0;
            &&& full ==> r is Transmit && final(e).tx_pending_data@.len() == 0
                && final(flow).burst@ == old(e).tx_pending_data@ && final(flow).stage
                == SendStage::Flushed
            &&& !full ==> *final(e) == *old(e) && final(flow).stage == SendStage::Queue
            &&& final(flow).built == reply.built
        },
        old(flow).stage == SendStage::Flushed ==> r is Free && final(flow).stage
            == SendStage::Queue,
        old(flow).stage == SendStage::Queue ==> r is Nothing && final(flow).stage
            == SendStage::Build,
        r is Done ==> {
            &&& final(flow).stage == SendStage::Over
            &&& !old(flow).run.stopped ==> r->Done_0 == Ok::<u32, Error>(old(flow).run.accepted)
            &&& old(flow).run.stopped ==> r->Done_0 == Err::<u32, Error>(Error::SendBufferFull)
        },
        old(flow).stage == SendStage::Probe ==> r is Done,
        old(flow).stage == SendStage::Finish && old(flow).run.accepted == 0 ==> r is Done,
        old(flow).stage == SendStage::Over ==> *final(e) == *old(e) && r is Nothing,
{
}

/// A request to connect to us is refused, answered with a reset, or opened:
/// then the SYN of the peer is acknowledged from our first number.
pub proof fn law_accept_steps(
    e: &mut Engine,
    run: &mut AcceptRun,
    reply: AcceptReply,
    now_ns: u64,
    r: AcceptAction,
)
    requires
        old(e).wf(),
        now_ns <= LATEST_NS,
        call_ensures(Engine::accept_step, (e, run, reply, now_ns), r),
    ensures
        old(run).stage == AcceptStage::Begin ==> *final(e) == *old(e),
        old(run).stage == AcceptStage::Begin && r is Make ==> {
            &&& r->tuple.peer_ip == old(run).peer_ip
            &&& r->tuple.peer_port == old(run).peer_port
            &&& final(run).stage == AcceptStage::Admit
        },
        old(run).stage == AcceptStage::Reset ==> {
            &&& final(e).counters.tcp.tx_rst == old(e).counters.tcp.tx_rst.wrapping_add(
                once(reply.sent),
            )
            &&& final(e).flow_table == old(e).flow_table
            &&& final(run).stage == AcceptStage::Over
        },
        old(run).stage == AcceptStage::Admit && r is Send ==> {
            let h = final(run).handle;
            let c = final(e).conn(h);
            &&& final(e).has(h)
            &&& goes_to_peer(r->Send_0, *final(e), c.four_tuple)
            &&& r->Send_0.seq == c.iss
            &&& r->Send_0.ack == c.rcv_nxt
            &&& r->Send_0.flags == 0x12
            &&& final(run).stage == AcceptStage::SynAckSent
        },
        old(run).stage == AcceptStage::SynAckSent ==> r == AcceptAction::Opened(old(run).handle)
            && final(run).stage == AcceptStage::Over,
        old(run).stage == AcceptStage::Over ==> *final(e) == *old(e) && r is Nothing,
{
    assert(0x02u8 | 0x10u8 == 0x12u8 && 0x12u8 & 0x10u8 == 0x10u8) by (bit_vector);
}

} // verus!
