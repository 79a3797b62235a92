//! Control segments: what they look like, and what sending one changes.
use vstd::prelude::*;

use crate::counters::{bumped, inc, inc_if, Counters, TcpCounters};
use crate::engine::{conn_replaced, Engine};
use crate::engine_config::{
    build_ack_outcome, build_connect_syn_opts, is_ack_outcome, is_syn_opts, AckOutcome,
};
use crate::flow_table::{ConnHandle, FourTuple};
use crate::num::{low32, low32_of};
use crate::tcp_conn::TcpConn;
use crate::tcp_input::ParsedSegment;
use crate::tcp_options::TcpOpts;
use crate::tcp_output::{
    has_flag, no_options, SegmentTx, TCP_ACK, TCP_FIN, TCP_RST, TCP_SYN,
};
use crate::tcp_reassembly::ranges_of;

verus! {

/// The segment goes from us to the peer of a connection.
pub open spec fn addressed(seg: SegmentTx, e: Engine, t: FourTuple) -> bool {
    &&& seg.src_mac == e.our_mac
    &&& seg.dst_mac == e.cfg.gateway_mac
    &&& seg.src_ip == t.local_ip
    &&& seg.dst_ip == t.peer_ip
    &&& seg.src_port == t.local_port
    &&& seg.dst_port == t.peer_port
}

/// The header fields of a segment without payload.
pub open spec fn bare(seg: SegmentTx, seq: u32, ack: u32, flags: u8, window: u16) -> bool {
    &&& seg.seq == seq
    &&& seg.ack == ack
    &&& seg.flags == flags
    &&& seg.window == window
    &&& seg.payload@ == Seq::<u8>::empty()
}

/// A reset: no window, no options, no payload.
pub open spec fn is_reset(
    seg: SegmentTx,
    e: Engine,
    t: FourTuple,
    seq: u32,
    ack: u32,
    flags: u8,
) -> bool {
    &&& addressed(seg, e, t)
    &&& bare(seg, seq, ack, flags, 0)
    &&& no_options(seg.options)
}

/// The ACK of a connection at a time: its window and options.
pub open spec fn is_ack_of(c: TcpConn, now_ns: u64, o: AckOutcome) -> bool {
    is_ack_outcome(
        o,
        c.ws_shift_out,
        c.ts_enabled,
        c.ts_recent,
        low32_of((now_ns / 1000) as int),
        c.sack_enabled,
        ranges_of(c.recv.reorder.segs@),
        c.last_sack_trigger,
        c.recv.room_total(),
    )
}

/// The SYN bits of a received segment, as a length in sequence space.
pub open spec fn flag_len(flags: u8, bit: u8) -> u32 {
    if has_flag(flags, bit) {
        1
    } else {
        0
    }
}

/// The sequence number behind a received segment.
pub open spec fn end_of(p: ParsedSegment) -> u32 {
    p.seq.wrapping_add(p.payload_len as u32).wrapping_add(flag_len(p.flags, TCP_SYN)).wrapping_add(
        flag_len(p.flags, TCP_FIN),
    )
}

/// The reset flag with the ACK flag.
pub const RST_ACK: u8 = 0x14;

/// The SYN flag with the ACK flag.
pub const SYN_ACK: u8 = 0x12;

/// The FIN flag with the ACK flag.
pub const FIN_ACK: u8 = 0x11;

impl Engine {
    fn segment(
        &self,
        t: FourTuple,
        seq: u32,
        ack: u32,
        flags: u8,
        window: u16,
        options: TcpOpts,
    ) -> (r: SegmentTx)
        ensures
            addressed(r, *self, t),
            bare(r, seq, ack, flags, window),
            r.options == options,
    {
        SegmentTx {
            src_mac: self.our_mac,
            dst_mac: self.cfg.gateway_mac,
            src_ip: t.local_ip,
            dst_ip: t.peer_ip,
            src_port: t.local_port,
            dst_port: t.peer_port,
            seq,
            ack,
            flags,
            window,
            options,
            payload: Vec::new(),
        }
    }

    /// A SYN, or a SYN-ACK where the flags say so, with the largest window and
    /// the options of a handshake.
    pub fn emit_syn_with_flags(&self, handle: ConnHandle, flags: u8, now_ns: u64) -> (r: Option<
        SegmentTx,
    >)
        ensures
            r is Some <==> self.has(handle),
            r matches Some(s) ==> {
                let c = self.conn(handle);
                &&& addressed(s, *self, c.four_tuple)
                &&& bare(
                    s,
                    c.iss,
                    if has_flag(flags, TCP_ACK) {
                        c.rcv_nxt
                    } else {
                        0
                    },
                    flags,
                    u16::MAX,
                )
                &&& is_syn_opts(s.options, self.cfg.recv_buffer_bytes, c.peer_mss, now_ns)
            },
    {
        let c = match self.flow_table.get(handle) {
            Some(c) => c,
            None => {
                return None;
            },
        };
        let ack: u32 = if flags & TCP_ACK != 0 {
            c.rcv_nxt
        } else {
            0
        };
        let opts = build_connect_syn_opts(self.cfg.recv_buffer_bytes, c.peer_mss, now_ns);
        Some(self.segment(c.four_tuple, c.iss, ack, flags, u16::MAX, opts))
    }

    /// The ACK that a connection owes, and what to count for it.
    pub fn emit_ack(&self, handle: ConnHandle, now_ns: u64) -> (r: Option<(SegmentTx, AckOutcome)>)
        requires
            self.wf(),
        ensures
            r is Some <==> self.has(handle),
            r matches Some(p) ==> {
                let c = self.conn(handle);
                &&& is_ack_of(c, now_ns, p.1)
                &&& addressed(p.0, *self, c.four_tuple)
                &&& bare(p.0, c.snd_nxt, c.rcv_nxt, TCP_ACK, p.1.window)
                &&& p.0.options == p.1.opts
            },
    {
        let c = match self.flow_table.get(handle) {
            Some(c) => c,
            None => {
                return None;
            },
        };
        let ranges = c.recv.reorder.ranges();
        let o = build_ack_outcome(
            c.ws_shift_out,
            c.ts_enabled,
            c.ts_recent,
            low32(now_ns / 1000),
            c.sack_enabled,
            ranges.as_slice(),
            c.last_sack_trigger,
            c.recv.free_space_total(),
        );
        let seg = self.segment(c.four_tuple, c.snd_nxt, c.rcv_nxt, TCP_ACK, o.window, o.opts);
        Some((seg, o))
    }

    /// Records that an ACK was sent: it is counted with what it carried, a
    /// window that reopened is noticed, and the next ACK reports no trigger.
    pub fn ack_sent(&mut self, handle: ConnHandle, o: &AckOutcome)
        requires
            old(self).wf(),
            old(self).has(handle),
        ensures
            final(self).wf(),
            ack_recorded(*old(self), *final(self), handle, *o),
    {
        let mut reopened: bool = false;
        if let Some(c) = self.flow_table.get_mut(handle) {
            reopened = match c.last_advertised_wnd {
                Some(w) => w == 0 && o.window > 0,
                None => false,
            };
            c.last_advertised_wnd = Some(o.window);
            c.last_sack_trigger = None;
        }
        inc(&mut self.counters.tcp.tx_ack);
        inc_if(&mut self.counters.tcp.tx_zero_window, o.zero_window);
        inc_if(&mut self.counters.tcp.tx_window_update, reopened);
        crate::counters::add(
            &mut self.counters.tcp.tx_sack_blocks,
            o.sack_blocks_emitted as u64,
        );
    }

    /// The reset of a connection in answer to a segment.
    pub fn emit_rst(&self, handle: ConnHandle, incoming: &ParsedSegment) -> (r: Option<SegmentTx>)
        ensures
            r is Some <==> self.has(handle),
            r matches Some(s) ==> is_reset(
                s,
                *self,
                self.conn(handle).four_tuple,
                self.conn(handle).snd_nxt,
                incoming.seq.wrapping_add(incoming.payload_len as u32),
                RST_ACK,
            ),
    {
        let c = match self.flow_table.get(handle) {
            Some(c) => c,
            None => {
                return None;
            },
        };
        let ack: u32 = incoming.seq.wrapping_add(incoming.payload_len as u32);
        Some(self.segment(c.four_tuple, c.snd_nxt, ack, RST_ACK, 0, TcpOpts::default()))
    }

    /// The reset that refuses an acknowledgement of something never sent
    /// during a handshake: it carries no acknowledgement.
    pub fn emit_rst_for_syn_sent_bad_ack(&self, tuple: &FourTuple, incoming: &ParsedSegment) -> (r:
        SegmentTx)
        ensures
            is_reset(r, *self, *tuple, incoming.ack, 0, TCP_RST),
    {
        self.segment(*tuple, incoming.ack, 0, TCP_RST, 0, TcpOpts::default())
    }

    /// The reset that answers a segment of no connection; a reset is not
    /// answered. It takes its number from the acknowledgement that the segment
    /// carries; without one it acknowledges the segment.
    pub fn send_rst_unmatched(&self, tuple: &FourTuple, incoming: &ParsedSegment) -> (r: Option<
        SegmentTx,
    >)
        ensures
            r is None <==> has_flag(incoming.flags, TCP_RST),
            r matches Some(s) ==> if has_flag(incoming.flags, TCP_ACK) {
                is_reset(s, *self, *tuple, incoming.ack, 0, TCP_RST)
            } else {
                is_reset(s, *self, *tuple, 0, end_of(*incoming), RST_ACK)
            },
    {
        if incoming.flags & TCP_RST != 0 {
            return None;
        }
        if incoming.flags & TCP_ACK != 0 {
            return Some(
                self.segment(*tuple, incoming.ack, 0, TCP_RST, 0, TcpOpts::default()),
            );
        }
        let syn_len: u32 = if incoming.flags & TCP_SYN != 0 {
            1
        } else {
            0
        };
        let fin_len: u32 = if incoming.flags & TCP_FIN != 0 {
            1
        } else {
            0
        };
        let ack: u32 = incoming.seq.wrapping_add(incoming.payload_len as u32).wrapping_add(
            syn_len,
        ).wrapping_add(fin_len);
        Some(self.segment(*tuple, 0, ack, RST_ACK, 0, TcpOpts::default()))
    }

    /// The reset that refuses a SYN which cannot be served.
    pub fn emit_rst_for_unsolicited_syn(&self, tuple: &FourTuple, iss_peer: u32) -> (r: SegmentTx)
        ensures
            is_reset(r, *self, *tuple, 0, iss_peer.wrapping_add(1), RST_ACK),
    {
        self.segment(*tuple, 0, iss_peer.wrapping_add(1), RST_ACK, 0, TcpOpts::default())
    }

    /// Counts a reset that was sent.
    pub fn rst_sent(&mut self)
        ensures
            *final(self) == (Engine {
                counters: Counters {
                    tcp: TcpCounters {
                        tx_rst: old(self).counters.tcp.tx_rst.wrapping_add(1),
                        ..old(self).counters.tcp
                    },
                    ..old(self).counters
                },
                ..*old(self)
            }),
    {
        inc(&mut self.counters.tcp.tx_rst);
    }
}

/// No reset answers a reset: whatever is sent in answer to a segment of no
/// connection is a reset itself, and so gets no answer.
pub proof fn law_resets_are_not_answered(
    s: SegmentTx,
    e: Engine,
    t: FourTuple,
    seq: u32,
    ack: u32,
    flags: u8,
)
    requires
        is_reset(s, e, t, seq, ack, flags),
        flags == TCP_RST || flags == RST_ACK,
    ensures
        has_flag(s.flags, TCP_RST),
{
    assert(0x04u8 & 0x04u8 != 0 && 0x14u8 & 0x04u8 != 0) by (bit_vector);
}

/// The engine once an ACK was sent.
pub open spec fn ack_recorded(a: Engine, b: Engine, h: ConnHandle, o: AckOutcome) -> bool {
    &&& conn_replaced(
        a.flow_table,
        b.flow_table,
        h,
        (TcpConn {
            last_advertised_wnd: Some(o.window),
            last_sack_trigger: None,
            ..a.conn(h)
        }),
    )
    &&& b == (Engine {
        flow_table: b.flow_table,
        counters: Counters {
            tcp: TcpCounters {
                tx_ack: a.counters.tcp.tx_ack.wrapping_add(1),
                tx_zero_window: bumped(
                    a.counters.tcp.tx_zero_window,
                    o.zero_window,
                ),
                tx_window_update: bumped(
                    a.counters.tcp.tx_window_update,
                    a.conn(h).last_advertised_wnd == Some(0u16) && o.window
                        > 0,
                ),
                tx_sack_blocks: a.counters.tcp.tx_sack_blocks.wrapping_add(
                    o.sack_blocks_emitted as u64,
                ),
                ..a.counters.tcp
            },
            ..a.counters
        },
        ..a
    })
}

} // verus!
