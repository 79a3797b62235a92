//! What the segments that the engine answers with say to the peer.
use vstd::prelude::*;

use crate::conn_laws::{goes_to_peer, tells_window};
use crate::engine::Engine;
use crate::engine_config::AckOutcome;
use crate::flow_table::{ConnHandle, FourTuple};
use crate::tcp_input::{tuple_from_segment, ParsedSegment};
use crate::tcp_output::SegmentTx;

verus! {

/// How many sequence numbers a segment takes: one for each byte, one for a SYN
/// and one for a FIN.
pub open spec fn numbers_taken(p: ParsedSegment) -> int {
    p.payload_len + (if p.flags & 0x02 != 0 {
        1int
    } else {
        0
    }) + (if p.flags & 0x01 != 0 {
        1int
    } else {
        0
    })
}

/// A segment that belongs to no connection is reset, unless it is a reset
/// itself. The reset goes back to where the segment came from. It stands where
/// the segment says that we are to go on, if it says so; else it acknowledges
/// all that the segment carried.
pub proof fn law_reset_of_the_unknown(
    e: Engine,
    src_ip: u32,
    dst_ip: u32,
    p: ParsedSegment,
    t: FourTuple,
    r: Option<SegmentTx>,
)
    requires
        call_ensures(tuple_from_segment, (src_ip, dst_ip, &p), t),
        call_ensures(Engine::send_rst_unmatched, (&e, &t, &p), r),
    ensures
        r is None <==> p.flags & 0x04 != 0,
        r matches Some(s) ==> {
            &&& s.dst_ip == src_ip && s.dst_port == p.src_port
            &&& s.src_ip == dst_ip && s.src_port == p.dst_port
            &&& s.flags & 0x04 != 0
            &&& s.payload@.len() == 0
            &&& p.flags & 0x10 != 0 ==> s.seq == p.ack && s.flags == 0x04
            &&& p.flags & 0x10 == 0 ==> s.seq == 0 && s.flags == 0x14 && s.ack == (p.seq
                + numbers_taken(p)) % 0x1_0000_0000
        },
{
    assert(0x04u8 & 0x04u8 != 0 && 0x14u8 & 0x04u8 != 0) by (bit_vector);
}

/// A segment that a connection cannot take is reset from where the connection
/// stands, and what it carried is acknowledged.
pub proof fn law_reset_of_a_connection(
    e: Engine,
    h: ConnHandle,
    p: ParsedSegment,
    r: Option<SegmentTx>,
)
    requires
        call_ensures(Engine::emit_rst, (&e, h, &p), r),
    ensures
        r is Some <==> e.has(h),
        r matches Some(s) ==> {
            &&& s.flags == 0x14
            &&& s.seq == e.conn(h).snd_nxt
            &&& s.ack == (p.seq + p.payload_len) % 0x1_0000_0000
            &&& s.payload@.len() == 0
            &&& goes_to_peer(s, e, e.conn(h).four_tuple)
        },
{
}

/// A wrong answer to our SYN is reset at the number that it acknowledges; a SYN
/// that no slot takes is reset with an acknowledgement of it, which takes one
/// number.
pub proof fn law_reset_of_a_handshake(
    e: Engine,
    t: FourTuple,
    p: ParsedSegment,
    iss_peer: u32,
    wrong: SegmentTx,
    refused: SegmentTx,
)
    requires
        call_ensures(Engine::emit_rst_for_syn_sent_bad_ack, (&e, &t, &p), wrong),
        call_ensures(Engine::emit_rst_for_unsolicited_syn, (&e, &t, iss_peer), refused),
    ensures
        wrong.flags == 0x04,
        wrong.seq == p.ack,
        wrong.payload@.len() == 0,
        goes_to_peer(wrong, e, t),
        refused.flags == 0x14,
        refused.seq == 0,
        refused.ack == (iss_peer + 1) % 0x1_0000_0000,
        refused.payload@.len() == 0,
        goes_to_peer(refused, e, t),
{
}

/// A handshake segment stands at the connection's first number. With ACK set it
/// acknowledges what the peer sent, else nothing. It offers our segment size,
/// a window scale, SACK and timestamps.
pub proof fn law_handshake_segment(
    e: Engine,
    h: ConnHandle,
    flags: u8,
    now_ns: u64,
    r: Option<SegmentTx>,
)
    requires
        call_ensures(Engine::emit_syn_with_flags, (&e, h, flags, now_ns), r),
    ensures
        r is Some <==> e.has(h),
        r matches Some(s) ==> {
            let c = e.conn(h);
            &&& s.flags == flags
            &&& s.seq == c.iss
            &&& flags & 0x10 != 0 ==> s.ack == c.rcv_nxt
            &&& flags & 0x10 == 0 ==> s.ack == 0
            &&& s.payload@.len() == 0
            &&& s.window == 0xffff
            &&& s.options.mss == Some(c.peer_mss)
            &&& s.options.sack_permitted
            &&& s.options.wscale is Some
            &&& s.options.wscale->0 <= 14
            &&& s.options.timestamps is Some
            &&& (s.options.timestamps->0).0 == now_ns / 1_000 % 0x1_0000_0000
            &&& (s.options.timestamps->0).1 == 0
            &&& s.options.sack_block_count == 0
            &&& goes_to_peer(s, e, c.four_tuple)
        },
{
}

/// An acknowledgement stands at the connection's next number, acknowledges all
/// that was received in order, and tells how much more can be received. It
/// echoes the peer's timestamp where these are in use. It says that the window
/// is closed exactly where nothing more can be received, and reports ranges
/// received out of order only where SACK is in use: at most three, each of them
/// held.
pub proof fn law_acknowledgement(
    e: Engine,
    h: ConnHandle,
    now_ns: u64,
    r: Option<(SegmentTx, AckOutcome)>,
)
    requires
        e.wf(),
        call_ensures(Engine::emit_ack, (&e, h, now_ns), r),
    ensures
        r is Some <==> e.has(h),
        r matches Some((s, o)) ==> {
            let c = e.conn(h);
            let held = c.recv.reorder.segs@;
            &&& s.flags == 0x10
            &&& s.seq == c.snd_nxt
            &&& s.ack == c.rcv_nxt
            &&& s.payload@.len() == 0
            &&& goes_to_peer(s, e, c.four_tuple)
            &&& tells_window(s.window, c)
            &&& s.window == o.window
            &&& o.zero_window <==> crate::conn_laws::can_receive(c) == 0
            &&& c.ts_enabled ==> s.options.timestamps == Some(
                ((now_ns / 1_000 % 0x1_0000_0000) as u32, c.ts_recent),
            )
            &&& !c.ts_enabled ==> s.options.timestamps is None
            &&& s.options.mss is None && s.options.wscale is None && !s.options.sack_permitted
            &&& !c.sack_enabled ==> s.options.sack_block_count == 0
            &&& s.options.sack_block_count <= 3
            &&& o.sack_blocks_emitted == s.options.sack_block_count
            &&& c.sack_enabled && held.len() > 0 ==> s.options.sack_block_count > 0
            &&& c.sack_enabled && held.len() <= 3 ==> s.options.sack_block_count == held.len()
            &&& forall|i: int|
                0 <= i < s.options.sack_block_count ==> exists|k: int|
                    0 <= k < held.len() && (#[trigger] s.options.sack_blocks[i]).left
                        == #[trigger] held[k].seq && s.options.sack_blocks[i].right
                        == held[k].seq.wrapping_add(held[k].len as u32)
        },
{
    if r is Some {
        let c = e.conn(h);
        let (s, o) = r->0;
        assert(e.flow_table@.contains_key(h));
        crate::conn_laws::law_window_is_honest(c);
        let held = c.recv.reorder.segs@;
        let ranges = crate::tcp_reassembly::ranges_of(held);
        if c.sack_enabled {
            let idx = choose|idx: int|
                #![trigger crate::engine_config::is_trigger_index(
                    ranges,
                    c.last_sack_trigger,
                    idx,
                )]
                crate::engine_config::is_trigger_index(ranges, c.last_sack_trigger, idx)
                    && o.opts.sacks() == crate::engine_config::sack_order(ranges, idx);
            assert forall|i: int| 0 <= i < s.options.sack_block_count implies exists|k: int|
                0 <= k < held.len() && (#[trigger] s.options.sack_blocks[i]).left
                    == #[trigger] held[k].seq && s.options.sack_blocks[i].right
                    == held[k].seq.wrapping_add(held[k].len as u32) by {
                crate::engine_config::law_sack_order(ranges, idx, i);
                let k = choose|k: int|
                    0 <= k < ranges.len() && #[trigger] crate::engine_config::blocks_of(ranges)[k]
                        == crate::engine_config::sack_order(ranges, idx)[i];
                assert(o.opts.sacks()[i] == s.options.sack_blocks[i]);
                assert(held[k].seq == ranges[k].0);
            }
            if ranges.len() > 0 {
                let first = if idx < ranges.len() {
                    seq![ranges[idx]] + ranges.remove(idx).reverse()
                } else {
                    ranges.reverse()
                };
                assert(first.len() == ranges.len());
            } else {
                assert(ranges.reverse().len() == 0);
            }
        }
    }
}

} // verus!
