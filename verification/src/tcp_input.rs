//! Received segments and what they lead to.
use vstd::prelude::*;

use crate::counters::{bumped, inc_if, TcpCounters};
use crate::flow_table::FourTuple;
use crate::mempool::Mbuf;
use crate::tcp_state::TcpState;
use crate::tcp_timer_wheel::TimerId;

verus! {

/// A received segment.
#[derive(Debug, Clone, Copy, PartialEq, Eq, Structural)]
pub struct ParsedSegment {
    pub src_port: u16,
    pub dst_port: u16,
    pub seq: u32,
    pub ack: u32,
    pub flags: u8,
    pub window: u16,
    /// Bytes in front of the payload.
    pub header_len: u16,
    pub payload_len: u16,
}

/// Why a segment could not be read.
#[derive(Debug, Clone, Copy, PartialEq, Eq, Structural)]
pub enum TcpParseError {
    Short,
    BadFlags,
    Csum,
    BadDataOffset,
}

/// The connection that a segment belongs to: its source is our peer.
pub fn tuple_from_segment(src_ip: u32, dst_ip: u32, seg: &ParsedSegment) -> (r: FourTuple)
    ensures
        r == (FourTuple {
            local_ip: dst_ip,
            local_port: seg.dst_port,
            peer_ip: src_ip,
            peer_port: seg.src_port,
        }),
{
    FourTuple {
        local_ip: dst_ip,
        local_port: seg.dst_port,
        peer_ip: src_ip,
        peer_port: seg.src_port,
    }
}

/// Where a segment's payload lies in the buffer of its frame.
#[derive(Debug, Clone, Copy, PartialEq, Eq, Structural)]
pub struct MbufInsertCtx {
    pub mbuf: Mbuf,
    pub payload_offset: u16,
}

/// What to answer a segment with.
#[derive(Debug, Clone, Copy, PartialEq, Eq, Structural)]
pub enum TxAction {
    Nothing,
    Ack,
    Rst,
    RstForSynSentBadAck,
}

/// What a segment led to, beyond the connection's own state.
#[derive(Debug)]
pub struct Outcome {
    pub tx: TxAction,
    pub new_state: Option<TcpState>,
    /// Bytes that can be delivered.
    pub delivered: u32,
    /// Bytes dropped because the receive buffer was full.
    pub buf_full_drop: u32,
    pub connected: bool,
    pub closed: bool,
    pub paws_rejected: bool,
    pub ts_recent_expired: bool,
    pub bad_option: bool,
    /// Bytes kept out of order.
    pub reassembly_queued_bytes: u32,
    pub reassembly_hole_filled: u32,
    pub sack_blocks_decoded: u32,
    pub rx_dsack_count: u32,
    pub tx_tlp_spurious_count: u32,
    pub bad_seq: bool,
    pub bad_ack: bool,
    pub dup_ack: bool,
    pub urgent_dropped: bool,
    pub rx_zero_window: bool,
    pub ws_shift_clamped: bool,
    pub rtt_sample_taken: bool,
    /// The connection keeps a reference to the frame's buffer.
    pub mbuf_ref_retained: bool,
    pub writable_hysteresis_fired: bool,
    /// Segments in flight that were found lost, by index.
    pub rack_lost_indexes: Vec<u16>,
    /// The new `snd_una`, where it advanced.
    pub snd_una_advanced_to: Option<u32>,
    pub syn_retrans_timer_to_cancel: Option<TimerId>,
    pub clear_listen_slot_on_close: bool,
    pub re_listen_if_passive: bool,
    pub retransmit_syn_ack_for_passive: bool,
}

impl Outcome {
    /// Nothing happened.
    pub fn base() -> (r: Self)
        ensures
            r.tx == TxAction::Nothing,
            r.new_state is None,
            r.delivered == 0,
            r.buf_full_drop == 0,
            !r.connected,
            !r.closed,
            !r.paws_rejected,
            !r.ts_recent_expired,
            !r.bad_option,
            r.reassembly_queued_bytes == 0,
            r.reassembly_hole_filled == 0,
            r.sack_blocks_decoded == 0,
            r.rx_dsack_count == 0,
            r.tx_tlp_spurious_count == 0,
            !r.bad_seq,
            !r.bad_ack,
            !r.dup_ack,
            !r.urgent_dropped,
            !r.rx_zero_window,
            !r.ws_shift_clamped,
            !r.rtt_sample_taken,
            !r.mbuf_ref_retained,
            !r.writable_hysteresis_fired,
            r.rack_lost_indexes@ == Seq::<u16>::empty(),
            r.snd_una_advanced_to is None,
            r.syn_retrans_timer_to_cancel is None,
            !r.clear_listen_slot_on_close,
            !r.re_listen_if_passive,
            !r.retransmit_syn_ack_for_passive,
    {
        Outcome {
            tx: TxAction::Nothing,
            new_state: None,
            delivered: 0,
            buf_full_drop: 0,
            connected: false,
            closed: false,
            paws_rejected: false,
            ts_recent_expired: false,
            bad_option: false,
            reassembly_queued_bytes: 0,
            reassembly_hole_filled: 0,
            sack_blocks_decoded: 0,
            rx_dsack_count: 0,
            tx_tlp_spurious_count: 0,
            bad_seq: false,
            bad_ack: false,
            dup_ack: false,
            urgent_dropped: false,
            rx_zero_window: false,
            ws_shift_clamped: false,
            rtt_sample_taken: false,
            mbuf_ref_retained: false,
            writable_hysteresis_fired: false,
            rack_lost_indexes: Vec::new(),
            snd_una_advanced_to: None,
            syn_retrans_timer_to_cancel: None,
            clear_listen_slot_on_close: false,
            re_listen_if_passive: false,
            retransmit_syn_ack_for_passive: false,
        }
    }
}

/// The counters after a segment with this outcome.
pub open spec fn with_outcome(c: TcpCounters, o: Outcome) -> TcpCounters {
    TcpCounters {
        rx_paws_rejected: bumped(c.rx_paws_rejected, o.paws_rejected),
        ts_recent_expired: bumped(c.ts_recent_expired, o.ts_recent_expired),
        rx_bad_option: bumped(c.rx_bad_option, o.bad_option),
        rx_reassembly_queued: bumped(c.rx_reassembly_queued, o.reassembly_queued_bytes > 0),
        rx_reassembly_hole_filled: c.rx_reassembly_hole_filled.wrapping_add(
            o.reassembly_hole_filled as u64,
        ),
        rx_sack_blocks: c.rx_sack_blocks.wrapping_add(o.sack_blocks_decoded as u64),
        rx_dsack: c.rx_dsack.wrapping_add(o.rx_dsack_count as u64),
        tx_tlp_spurious: c.tx_tlp_spurious.wrapping_add(o.tx_tlp_spurious_count as u64),
        rx_bad_seq: bumped(c.rx_bad_seq, o.bad_seq),
        rx_bad_ack: bumped(c.rx_bad_ack, o.bad_ack),
        rx_dup_ack: bumped(c.rx_dup_ack, o.dup_ack),
        rx_urgent_dropped: bumped(c.rx_urgent_dropped, o.urgent_dropped),
        rx_zero_window: bumped(c.rx_zero_window, o.rx_zero_window),
        rx_ws_shift_clamped: bumped(c.rx_ws_shift_clamped, o.ws_shift_clamped),
        rtt_samples: bumped(c.rtt_samples, o.rtt_sample_taken),
        ..c
    }
}

/// Counts what a segment led to.
pub fn apply_tcp_input_counters(outcome: &Outcome, counters: &mut TcpCounters)
    ensures
        *final(counters) == with_outcome(*old(counters), *outcome),
{
    inc_if(&mut counters.rx_paws_rejected, outcome.paws_rejected);
    inc_if(&mut counters.ts_recent_expired, outcome.ts_recent_expired);
    inc_if(&mut counters.rx_bad_option, outcome.bad_option);
    inc_if(&mut counters.rx_reassembly_queued, outcome.reassembly_queued_bytes > 0);
    crate::counters::add(
        &mut counters.rx_reassembly_hole_filled,
        outcome.reassembly_hole_filled as u64,
    );
    crate::counters::add(&mut counters.rx_sack_blocks, outcome.sack_blocks_decoded as u64);
    crate::counters::add(&mut counters.rx_dsack, outcome.rx_dsack_count as u64);
    crate::counters::add(&mut counters.tx_tlp_spurious, outcome.tx_tlp_spurious_count as u64);
    inc_if(&mut counters.rx_bad_seq, outcome.bad_seq);
    inc_if(&mut counters.rx_bad_ack, outcome.bad_ack);
    inc_if(&mut counters.rx_dup_ack, outcome.dup_ack);
    inc_if(&mut counters.rx_urgent_dropped, outcome.urgent_dropped);
    inc_if(&mut counters.rx_zero_window, outcome.rx_zero_window);
    inc_if(&mut counters.rx_ws_shift_clamped, outcome.ws_shift_clamped);
    inc_if(&mut counters.rtt_samples, outcome.rtt_sample_taken);
}

} // verus!
