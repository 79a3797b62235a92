//! What the operations of the application and the retransmissions do to a
//! connection, and what the peer sees of them.
use vstd::arithmetic::power2::pow2;
use vstd::prelude::*;

use crate::engine::Engine;
use crate::engine_config::{window_field, ConnectOpts};
use crate::engine_conn::{
    close_flags_taken, connect_begun, fin_recorded, is_data_segment, is_resend_plan,
    law_segments_tile, mss_cap, next_queued, payloads, resend_queued, resend_refused,
    send_begun, send_broken_off, send_result, send_settled, sendable, RetransPlan, SendRun,
};
use crate::engine_input::ack_settled;
use crate::engine_request::{
    close_stepped, connect_stepped, CloseAction, CloseRun, CloseStage, ConnectAction, ConnectRun,
    ConnectStage,
};
use crate::engine_timers::losses_marked;
use crate::error::Error;
use crate::flow_table::{ConnHandle, FourTuple};
use crate::mempool::Mbuf;
use crate::tcp_conn::{seg_bytes, TcpConn};
use crate::tcp_events::LossCause;
use crate::tcp_output::SegmentTx;
use crate::tcp_reassembly::ooo_bytes;
use crate::tcp_state::TcpState;

verus! {

/// Bytes that a connection can still receive: its buffer without what it
/// holds, in order and out of order.
pub open spec fn can_receive(c: TcpConn) -> int {
    let free = c.recv.cap - seg_bytes(c.recv.bytes@) - ooo_bytes(c.recv.reorder.segs@);
    if free >= 0 {
        free
    } else {
        0
    }
}

/// A window field tells the peer of what can be received, rounded down to the
/// unit of the agreed scale, and as much of it as the field holds.
pub open spec fn tells_window(field: u16, c: TcpConn) -> bool {
    let unit = pow2(c.ws_shift_out as nat);
    &&& field * unit <= can_receive(c)
    &&& field < 0xffff ==> can_receive(c) < (field + 1) * unit
}

/// The segment travels from our end of the connection to the peer's, by way of
/// the gateway.
pub open spec fn goes_to_peer(s: SegmentTx, e: Engine, t: FourTuple) -> bool {
    &&& s.src_ip == t.local_ip && s.src_port == t.local_port
    &&& s.dst_ip == t.peer_ip && s.dst_port == t.peer_port
    &&& s.src_mac == e.our_mac
    &&& s.dst_mac == e.cfg.gateway_mac
}

/// Where timestamps are in use the segment carries the time in microseconds
/// and the peer's last one, else none; no option of a handshake.
pub open spec fn stamped(s: SegmentTx, c: TcpConn, now_ns: u64) -> bool {
    &&& c.ts_enabled ==> {
        &&& s.options.timestamps matches Some((sent_us, echo))
        &&& sent_us == now_ns / 1_000 % 0x1_0000_0000
        &&& echo == c.ts_recent
    }
    &&& !c.ts_enabled ==> s.options.timestamps is None
    &&& s.options.mss is None
    &&& s.options.wscale is None
    &&& !s.options.sack_permitted
}

/// The window that is advertised never exceeds what can be received, and falls
/// short of it by less than a unit of the scale, as far as the field reaches.
pub proof fn law_window_is_honest(c: TcpConn)
    requires
        c.wf(),
    ensures
        tells_window(window_field(c.recv.room_total(), c.ws_shift_out), c),
{
    let room = c.recv.room_total();
    assert(room == can_receive(c));
    let s = c.ws_shift_out;
    vstd::bits::lemma_u32_shr_is_div(room, s as u32);
    vstd::arithmetic::power2::lemma_pow2_pos(s as nat);
    let u = pow2(s as nat) as int;
    let q = room as int / u;
    vstd::arithmetic::div_mod::lemma_fundamental_div_mod(room as int, u);
    assert(0 <= room as int % u < u);
    assert(u * q == q * u) by (nonlinear_arith);
    assert((q + 1) * u == q * u + u) by (nonlinear_arith);
    if q > 0xffff {
        assert(0xffff * u <= q * u) by (nonlinear_arith)
            requires
                q > 0xffff,
                u > 0,
        ;
    }
}

/// No segment of a send carries more than the peer's segment size, nor more
/// than ours, where these are set; every segment but the last is as large as
/// both allow. The segments lie one behind the other from the connection's
/// next number on, and carry the first bytes of what was offered, in order:
/// all that the peer's window and our buffer have room for.
pub proof fn law_send_fits_the_peer(
    e: Engine,
    h: ConnHandle,
    bytes: &[u8],
    now_ns: u64,
    run: SendRun,
    i: int,
)
    requires
        e.has(h),
        e.conn(h).wf(),
        call_ensures(Engine::send_bytes, (&e, h, bytes, now_ns), Ok::<SendRun, Error>(run)),
        0 <= i < run.segs@.len(),
    ensures
        ({
            let c = e.conn(h);
            let s = run.segs@[i];
            let n = s.payload@.len();
            &&& n >= 1
            &&& c.peer_mss > 0 ==> n <= c.peer_mss
            &&& e.cfg.tcp_mss > 0 ==> n <= e.cfg.tcp_mss
            &&& i + 1 < run.segs@.len() ==> n == c.peer_mss || n == e.cfg.tcp_mss || (n == 1 && (
            c.peer_mss == 0 || e.cfg.tcp_mss == 0))
            &&& i == 0 ==> s.seq == c.snd_nxt
            &&& i > 0 ==> s.seq == run.segs@[i - 1].seq.wrapping_add(
                run.segs@[i - 1].payload@.len() as u32,
            )
            &&& s.ack == c.rcv_nxt
            &&& s.flags == 0x18
            &&& goes_to_peer(s, e, c.four_tuple)
            &&& stamped(s, c, now_ns)
            &&& tells_window(s.window, c)
        }),
{
    assert(send_begun(e, h, bytes@, now_ns, Ok::<SendRun, Error>(run)));
    lemma_send_fits(e, h, bytes@, now_ns, run, i);
}

proof fn lemma_send_fits(
    e: Engine,
    h: ConnHandle,
    bytes: Seq<u8>,
    now_ns: u64,
    run: SendRun,
    i: int,
)
    requires
        e.has(h),
        e.conn(h).wf(),
        send_begun(e, h, bytes, now_ns, Ok::<SendRun, Error>(run)),
        0 <= i < run.segs@.len(),
    ensures
        ({
            let c = e.conn(h);
            let s = run.segs@[i];
            let n = s.payload@.len();
            &&& n >= 1
            &&& c.peer_mss > 0 ==> n <= c.peer_mss
            &&& e.cfg.tcp_mss > 0 ==> n <= e.cfg.tcp_mss
            &&& i + 1 < run.segs@.len() ==> n == c.peer_mss || n == e.cfg.tcp_mss || (n == 1 && (
            c.peer_mss == 0 || e.cfg.tcp_mss == 0))
            &&& i == 0 ==> s.seq == c.snd_nxt
            &&& i > 0 ==> s.seq == run.segs@[i - 1].seq.wrapping_add(
                run.segs@[i - 1].payload@.len() as u32,
            )
            &&& s.ack == c.rcv_nxt
            &&& s.flags == 0x18
            &&& goes_to_peer(s, e, c.four_tuple)
            &&& stamped(s, c, now_ns)
            &&& tells_window(s.window, c)
        }),
{
    let c = e.conn(h);
    let mss = mss_cap(c, e.cfg);
    let segs = run.segs@;
    law_window_is_honest(c);
    lemma_send_piece(e, h, bytes, now_ns, run, i);
    if i > 0 {
        lemma_send_piece(e, h, bytes, now_ns, run, i - 1);
        assert(i * mss == (i - 1) * mss + mss) by (nonlinear_arith);
        assert(segs[i].seq == segs[i - 1].seq.wrapping_add(mss as u32));
    } else {
        assert(0 * mss == 0) by (nonlinear_arith);
    }
    assert(is_data_segment(
        segs[i],
        e,
        c,
        bytes,
        sendable(c, e.cfg, bytes.len()),
        i,
        now_ns,
    ));
    assert(stamped(segs[i], c, now_ns));
    assert(tells_window(segs[i].window, c));
}

proof fn lemma_send_piece(
    e: Engine,
    h: ConnHandle,
    bytes: Seq<u8>,
    now_ns: u64,
    run: SendRun,
    i: int,
)
    requires
        send_begun(e, h, bytes, now_ns, Ok::<SendRun, Error>(run)),
        0 <= i < run.segs@.len(),
    ensures
        ({
            let mss = mss_cap(e.conn(h), e.cfg);
            let n = run.segs@[i].payload@.len();
            &&& 1 <= n <= mss
            &&& i + 1 < run.segs@.len() ==> n == mss
            &&& 0 <= i * mss <= u32::MAX
            &&& run.segs@[i].seq == e.conn(h).snd_nxt.wrapping_add((i * mss) as u32)
        }),
{
    let c = e.conn(h);
    let mss = mss_cap(c, e.cfg);
    let total = sendable(c, e.cfg, bytes.len());
    assert(is_data_segment(run.segs@[i], e, c, bytes, total, i, now_ns));
    lemma_piece(total, mss, i);
    if i + 1 < run.segs@.len() {
        lemma_piece(total, mss, i + 1);
    }
}

proof fn lemma_piece(total: int, mss: int, i: int)
    requires
        mss >= 1,
        0 <= i < (total + mss - 1) / mss,
    ensures
        0 <= i * mss < total,
        (i + 1) * mss == i * mss + mss,
        total <= 0 ==> false,
{
    assert(total >= 1) by (nonlinear_arith)
        requires
            mss >= 1,
            0 <= i < (total + mss - 1) / mss,
    ;
    assert(i * mss < total) by (nonlinear_arith)
        requires
            mss >= 1,
            total >= 1,
            0 <= i < (total + mss - 1) / mss,
    ;
    assert(0 <= i * mss) by (nonlinear_arith)
        requires
            0 <= i,
            mss >= 1,
    ;
    assert((i + 1) * mss == i * mss + mss) by (nonlinear_arith);
}

/// The segments of a send together carry the first bytes of what was offered,
/// each byte once and in order. They are all of them, unless the peer's window
/// or our buffer is used up by what is then in flight. Only an established
/// connection sends.
pub proof fn law_send_takes_what_fits(
    e: Engine,
    h: ConnHandle,
    bytes: &[u8],
    now_ns: u64,
    r: Result<SendRun, Error>,
)
    requires
        call_ensures(Engine::send_bytes, (&e, h, bytes, now_ns), r),
    ensures
        r is Ok <==> e.has(h) && e.conn(h).state == TcpState::Established,
        r matches Err(err) ==> err == Error::InvalidConnHandle(h as u64),
        r matches Ok(run) ==> {
            let c = e.conn(h);
            let flying = c.snd_nxt.wrapping_sub(c.snd_una);
            let n = payloads(run.segs@).len();
            &&& run.handle == h
            &&& run.offered == bytes@.len()
            &&& run.accepted == 0
            &&& n <= bytes@.len()
            &&& payloads(run.segs@) == bytes@.take(n as int)
            &&& n > 0 ==> flying + n <= c.snd_wnd && flying + n <= e.cfg.send_buffer_bytes
            &&& n < bytes@.len() ==> flying + n >= c.snd_wnd || flying + n
                >= e.cfg.send_buffer_bytes
        },
{
    if r is Ok {
        let run = r->Ok_0;
        let c = e.conn(h);
        let mss = mss_cap(c, e.cfg);
        let total = sendable(c, e.cfg, bytes@.len());
        assert(run.segs@.take(0) =~= Seq::<SegmentTx>::empty());
        assert(run.segs@.take(run.segs@.len() as int) =~= run.segs@);
        law_segments_tile(run.segs@, e, c, bytes@, total, run.segs@.len() as int, now_ns);
        assert(bytes@.take(total).len() == total);
    }
}

/// A segment that is queued is remembered under its own sequence number and
/// length, in the buffer that holds it, as sent once and now; the bytes are
/// counted as accepted.
pub proof fn law_queued_is_remembered(
    a: Engine,
    s: SendRun,
    b: Engine,
    t: SendRun,
    mbuf: Mbuf,
    frame_len: u16,
    now_ns: u64,
)
    requires
        a.has(s.handle),
        s.wf(),
        s.next < s.segs@.len(),
        s.segs@[s.next as int].payload@.len() <= frame_len,
        next_queued(a, s, b, t, mbuf, frame_len, now_ns),
    ensures
        ({
            let seg = s.segs@[s.next as int];
            let was = a.conn(s.handle).snd_retrans@;
            let is = b.conn(s.handle).snd_retrans@;
            let e = is[was.len() as int];
            &&& is.len() == was.len() + 1
            &&& forall|i: int| 0 <= i < was.len() ==> is[i] == was[i]
            &&& e.seq == seg.seq
            &&& e.len == seg.payload@.len()
            &&& e.mbuf == mbuf
            &&& e.xmit_count == 1
            &&& e.first_tx_ts_ns == now_ns
            &&& e.xmit_ts_ns == now_ns
            &&& !e.sacked && !e.lost
            &&& e.hdrs_len + e.len == frame_len
            &&& t.next == s.next + 1
            &&& t.stopped == s.stopped
            &&& b.counters.tcp.tx_data == a.counters.tcp.tx_data.wrapping_add(1)
            &&& b.counters.eth.tx_bytes == a.counters.eth.tx_bytes.wrapping_add(frame_len as u64)
        }),
{
    assert(s.segs.len() == s.segs@.len());
}

/// A retransmission carries the payload of a segment in flight under that
/// segment's own sequence number, whatever was acknowledged since; the rest of
/// its header says where the connection stands now.
pub proof fn law_resend_where_it_was(
    e: Engine,
    h: ConnHandle,
    index: usize,
    now_ns: u64,
    p: RetransPlan,
)
    requires
        e.has(h),
        e.conn(h).wf(),
        index < e.conn(h).snd_retrans@.len(),
        is_resend_plan(e, h, index, now_ns, p),
    ensures
        ({
            let c = e.conn(h);
            let entry = c.snd_retrans@[index as int];
            &&& p.seg.seq == entry.seq
            &&& p.data == entry.mbuf
            &&& p.len == entry.len
            &&& p.seg.ack == c.rcv_nxt
            &&& p.seg.flags == 0x18
            &&& p.seg.payload@.len() == 0
            &&& goes_to_peer(p.seg, e, c.four_tuple)
            &&& stamped(p.seg, c, now_ns)
            &&& tells_window(p.seg.window, c)
        }),
{
    law_window_is_honest(e.conn(h));
}

/// What is sent again has the number and the length that it was sent with:
/// those of the data segment whose queueing put it in flight.
pub proof fn law_resend_repeats_the_send(
    a: Engine,
    s: SendRun,
    b: Engine,
    t: SendRun,
    mbuf: Mbuf,
    frame_len: u16,
    queued_ns: u64,
    e: Engine,
    index: usize,
    resent_ns: u64,
    p: RetransPlan,
)
    requires
        a.has(s.handle),
        s.wf(),
        s.next < s.segs@.len(),
        s.segs@[s.next as int].payload@.len() <= frame_len,
        next_queued(a, s, b, t, mbuf, frame_len, queued_ns),
        e.has(s.handle),
        e.conn(s.handle).wf(),
        index < e.conn(s.handle).snd_retrans@.len(),
        same_place(
            b.conn(s.handle).snd_retrans@[a.conn(s.handle).snd_retrans@.len() as int],
            e.conn(s.handle).snd_retrans@[index as int],
        ),
        is_resend_plan(e, s.handle, index, resent_ns, p),
    ensures
        p.seg.seq == s.segs@[s.next as int].seq,
        p.len == s.segs@[s.next as int].payload@.len(),
        p.data == mbuf,
{
    law_queued_is_remembered(a, s, b, t, mbuf, frame_len, queued_ns);
    law_resend_where_it_was(e, s.handle, index, resent_ns, p);
}

/// Two records of one segment in flight: same number, length and buffer.
pub open spec fn same_place(
    a: crate::tcp_retrans::RetransEntry,
    b: crate::tcp_retrans::RetransEntry,
) -> bool {
    a.seq == b.seq && a.len == b.len && a.mbuf == b.mbuf
}

/// A segment in flight keeps its number, its length and its buffer, whether it
/// is sent again, marked as lost, or older ones are acknowledged.
pub proof fn law_in_flight_keeps_its_place(
    a: Engine,
    b: Engine,
    h: ConnHandle,
    index: usize,
    cause: LossCause,
    hdr_mbuf: Mbuf,
    hdr_len: u16,
    now_ns: u64,
    lost: Seq<u16>,
    una: u32,
    freed: Seq<Mbuf>,
    i: int,
)
    requires
        a.has(h),
        0 <= i < a.conn(h).snd_retrans@.len(),
        index < a.conn(h).snd_retrans@.len(),
    ensures
        resend_queued(a, b, h, index, cause, hdr_mbuf, hdr_len, now_ns) ==> same_place(
            a.conn(h).snd_retrans@[i],
            b.conn(h).snd_retrans@[i],
        ) && b.conn(h).snd_retrans@.len() == a.conn(h).snd_retrans@.len(),
        losses_marked(a, b, h, lost) ==> same_place(
            a.conn(h).snd_retrans@[i],
            b.conn(h).snd_retrans@[i],
        ) && b.conn(h).snd_retrans@.len() == a.conn(h).snd_retrans@.len(),
        ack_settled(a, b, h, una, now_ns, freed) && i >= freed.len() ==> same_place(
            a.conn(h).snd_retrans@[i],
            b.conn(h).snd_retrans@[i - freed.len()],
        ),
{
    crate::tcp_retrans::law_marked_lost(a.conn(h).snd_retrans@, lost, i);
    crate::tcp_retrans::lemma_acked_prefix_bound(a.conn(h).snd_retrans@, una);
}

/// A retransmission that was queued is recorded on its segment alone: sent once
/// more, now, and no longer lost. It adds one to the retransmissions and one
/// to those of its cause, to no other cause, and its frame to the bytes sent.
pub proof fn law_resend_is_recorded(
    a: Engine,
    b: Engine,
    h: ConnHandle,
    index: usize,
    cause: LossCause,
    hdr_mbuf: Mbuf,
    hdr_len: u16,
    now_ns: u64,
)
    requires
        a.has(h),
        index < a.conn(h).snd_retrans@.len(),
        resend_queued(a, b, h, index, cause, hdr_mbuf, hdr_len, now_ns),
    ensures
        ({
            let was = a.conn(h).snd_retrans@;
            let is = b.conn(h).snd_retrans@;
            let old_e = was[index as int];
            let new_e = is[index as int];
            &&& is.len() == was.len()
            &&& forall|i: int| 0 <= i < was.len() && i != index ==> is[i] == was[i]
            &&& new_e.xmit_ts_ns == now_ns
            &&& !new_e.lost
            &&& old_e.xmit_count < u16::MAX ==> new_e.xmit_count == old_e.xmit_count + 1
            &&& new_e.first_tx_ts_ns == old_e.first_tx_ts_ns
            &&& new_e.sacked == old_e.sacked
            &&& b.tx_pending_data@ == a.tx_pending_data@.push(hdr_mbuf)
            &&& b.counters.eth.tx_bytes == a.counters.eth.tx_bytes.wrapping_add(
                (hdr_len + old_e.len) as u64,
            )
        }),
        ({
            let x = a.counters.tcp;
            let y = b.counters.tcp;
            &&& y.tx_retrans == x.tx_retrans.wrapping_add(1)
            &&& y.tx_retrans_rto == (if cause == LossCause::Rto {
                x.tx_retrans_rto.wrapping_add(1)
            } else {
                x.tx_retrans_rto
            })
            &&& y.tx_retrans_tlp == (if cause == LossCause::Tlp {
                x.tx_retrans_tlp.wrapping_add(1)
            } else {
                x.tx_retrans_tlp
            })
            &&& y.tx_retrans_rack == (if cause == LossCause::Rack {
                x.tx_retrans_rack.wrapping_add(1)
            } else {
                x.tx_retrans_rack
            })
            &&& y.tx_rto == x.tx_rto
            &&& y.tx_tlp == x.tx_tlp
        }),
        b.timer_wheel == a.timer_wheel,
        b.conn(h).rtt_est == a.conn(h).rtt_est,
{
}

/// A finished send moves the connection on by the bytes that were accepted. It
/// is counted as cut short, and room is to be reported, exactly where fewer
/// bytes were accepted than offered; it fails exactly where a buffer was
/// missing, and then leaves everything alone if nothing was accepted.
pub proof fn law_send_is_settled(a: Engine, b: Engine, run: SendRun)
    requires
        a.has(run.handle),
        send_settled(a, b, run),
    ensures
        ({
            let c = a.conn(run.handle);
            let d = b.conn(run.handle);
            &&& d.snd_nxt == c.snd_nxt.wrapping_add(run.accepted)
            &&& d.snd_una == c.snd_una
            &&& d.snd_retrans@ == c.snd_retrans@
            &&& d.state == c.state
            &&& !run.stopped && run.accepted < run.offered ==> d.send_refused_pending
                && b.counters.tcp.send_buf_full == a.counters.tcp.send_buf_full.wrapping_add(1)
            &&& run.accepted == run.offered ==> d.send_refused_pending == c.send_refused_pending
                && b.counters.tcp.send_buf_full == a.counters.tcp.send_buf_full
            &&& a.features.obs_byte_counters ==> b.counters.tcp.tx_payload_bytes
                == a.counters.tcp.tx_payload_bytes.wrapping_add(run.accepted as u64)
            &&& !a.features.obs_byte_counters ==> b.counters.tcp.tx_payload_bytes
                == a.counters.tcp.tx_payload_bytes
            &&& run.stopped ==> send_result(run) == Err::<u32, Error>(Error::SendBufferFull)
            &&& !run.stopped ==> send_result(run) == Ok::<u32, Error>(run.accepted)
            &&& run.stopped && run.accepted == 0 ==> b == a
        }),
        forall|o: ConnHandle|
            o != run.handle && a.has(o) ==> b.has(o) && #[trigger] b.conn(o) == a.conn(o),
        b.timer_wheel == a.timer_wheel,
{
}

/// A send that finds no buffer queues nothing more and is counted as a drop
/// for want of memory; so is a retransmission.
pub proof fn law_no_buffer_is_a_drop(
    a: Engine,
    s: SendRun,
    b: Engine,
    t: SendRun,
    h: ConnHandle,
    now_ns: u64,
)
    ensures
        send_broken_off(a, s, b, t) ==> t.stopped && t.accepted == s.accepted && t.next == s.next
            && b.flow_table == a.flow_table && b.counters.eth.tx_drop_nomem
            == a.counters.eth.tx_drop_nomem.wrapping_add(1),
        resend_refused(a, b, h, now_ns) ==> b.flow_table == a.flow_table && b.tx_pending_data
            == a.tx_pending_data && b.counters.eth.tx_drop_nomem
            == a.counters.eth.tx_drop_nomem.wrapping_add(1) && b.counters.tcp == a.counters.tcp,
{
}

/// Closing yields a FIN exactly where our side is still open: in ESTABLISHED,
/// and in CLOSE_WAIT, where the peer has closed its side. The FIN stands at the
/// connection's next number, acknowledges what was received and carries no
/// payload. An unknown connection is an error.
pub proof fn law_close_sends_a_fin(
    e: Engine,
    h: ConnHandle,
    now_ns: u64,
    r: Result<Option<SegmentTx>, Error>,
)
    requires
        call_ensures(Engine::close_conn, (&e, h, now_ns), r),
        e.has(h) ==> e.conn(h).wf(),
    ensures
        r is Err <==> !e.has(h),
        r matches Err(err) ==> err == Error::InvalidConnHandle(h as u64),
        e.has(h) ==> (r->Ok_0 is Some <==> e.conn(h).state == TcpState::Established || e.conn(
            h,
        ).state == TcpState::CloseWait),
        r matches Ok(Some(s)) ==> {
            let c = e.conn(h);
            &&& s.flags == 0x11
            &&& s.seq == c.snd_nxt
            &&& s.ack == c.rcv_nxt
            &&& s.payload@.len() == 0
            &&& goes_to_peer(s, e, c.four_tuple)
            &&& stamped(s, c, now_ns)
            &&& tells_window(s.window, c)
        },
{
    if e.has(h) {
        law_window_is_honest(e.conn(h));
    }
}

/// Once the FIN was sent the connection is in FIN_WAIT_1, or in LAST_ACK where
/// the peer had closed first, and the FIN has taken one number.
pub proof fn law_fin_moves_on(a: Engine, b: Engine, h: ConnHandle, now_ns: u64)
    requires
        a.has(h),
        a.conn(h).state == TcpState::Established || a.conn(h).state == TcpState::CloseWait,
        fin_recorded(a, b, h, now_ns),
    ensures
        b.has(h),
        a.conn(h).state == TcpState::Established ==> b.conn(h).state == TcpState::FinWait1,
        a.conn(h).state == TcpState::CloseWait ==> b.conn(h).state == TcpState::LastAck,
        b.conn(h).our_fin_seq == Some(a.conn(h).snd_nxt),
        b.conn(h).snd_nxt == a.conn(h).snd_nxt.wrapping_add(1),
        b.conn(h).snd_una == a.conn(h).snd_una,
        b.conn(h).rcv_nxt == a.conn(h).rcv_nxt,
        b.conn(h).snd_retrans@ == a.conn(h).snd_retrans@,
        b.counters.tcp.tx_fin == a.counters.tcp.tx_fin.wrapping_add(1),
        b.timer_wheel == a.timer_wheel,
{
}

/// The two steps of a close fit together: the FIN that is handed out is the
/// one that is recorded, a FIN that was not sent leaves our side open, and a
/// side that is closed already stays as it is.
pub proof fn law_close_steps_agree(
    a: Engine,
    s: CloseRun,
    b: Engine,
    t: CloseRun,
    c: Engine,
    u: CloseRun,
    sent: bool,
    begun_ns: u64,
    done_ns: u64,
    first: CloseAction,
    last: CloseAction,
)
    requires
        s.stage == CloseStage::Begin,
        a.has(s.handle),
        close_stepped(a, s, b, t, false, begun_ns, first),
        close_stepped(b, t, c, u, sent, done_ns, last),
    ensures
        ({
            let h = s.handle;
            let open = a.conn(h).state == TcpState::Established || a.conn(h).state
                == TcpState::CloseWait;
            &&& open ==> first is Send && first->Send_0.flags == 0x11
            &&& open && sent ==> {
                &&& last is Closed
                &&& c.conn(h).our_fin_seq == Some(first->Send_0.seq)
                &&& c.conn(h).snd_nxt == first->Send_0.seq.wrapping_add(1)
                &&& c.conn(h).state != a.conn(h).state
            }
            &&& open && !sent ==> {
                &&& last == CloseAction::Refused(
                    Error::PeerUnreachable(a.conn(h).four_tuple.peer_ip),
                )
                &&& c.conn(h).state == a.conn(h).state
                &&& c.conn(h).snd_nxt == a.conn(h).snd_nxt
            }
            &&& !open ==> first is Closed && c.conn(h).state == a.conn(h).state
                && c.conn(h).snd_nxt == a.conn(h).snd_nxt
        }),
{
    let h = s.handle;
    if b.has(h) && t.stage == CloseStage::FinSent && sent {
        law_fin_moves_on(b, c, h, done_ns);
    }
}

/// TIME_WAIT is to be skipped only where it was asked for and timestamps are in
/// use; nothing else about a connection changes.
pub proof fn law_skip_needs_timestamps(
    a: Engine,
    b: Engine,
    h: ConnHandle,
    flags: u32,
    now_ns: u64,
)
    requires
        a.has(h),
        close_flags_taken(a, b, h, flags, now_ns),
    ensures
        b.conn(h).force_tw_skip == (a.conn(h).force_tw_skip || (flags & 1 != 0 && a.conn(
            h,
        ).ts_enabled)),
        b.conn(h).state == a.conn(h).state,
        b.conn(h).snd_nxt == a.conn(h).snd_nxt,
        b.conn(h).ts_enabled == a.conn(h).ts_enabled,
        flags & 1 == 0 ==> b == a,
{
}

/// A connection that is opened leads from one of our addresses to the peer that
/// was asked for, from the port that was asked for or an ephemeral one. Its
/// numbers start where the generator says for those addresses, nothing is in
/// flight, and its segment size fits the configuration and the port's packets.
/// It takes a handle of its own and leaves every other connection alone.
pub proof fn law_connect_opens_what_was_asked(
    a: Engine,
    b: Engine,
    peer_ip: u32,
    peer_port: u16,
    hint: u16,
    o: ConnectOpts,
    nic_mtu: u16,
    now_ns: u64,
    h: ConnHandle,
)
    requires
        connect_begun(
            a,
            b,
            peer_ip,
            peer_port,
            hint,
            o,
            nic_mtu,
            now_ns,
            Ok::<ConnHandle, Error>(h),
        ),
    ensures
        !a.has(h),
        b.has(h),
        forall|k: ConnHandle| k != h ==> (#[trigger] b.has(k) <==> a.has(k)),
        forall|k: ConnHandle| k != h && a.has(k) ==> #[trigger] b.conn(k) == a.conn(k),
        ({
            let c = b.conn(h);
            let t = c.four_tuple;
            &&& t.peer_ip == peer_ip
            &&& t.peer_port == peer_port
            &&& o.local_addr == 0 ==> t.local_ip == a.cfg.local_ip
            &&& o.local_addr != 0 ==> t.local_ip == o.local_addr
            &&& t.local_ip == a.cfg.local_ip || a.secondary_local_ips@.contains(t.local_ip)
            &&& hint != 0 ==> t.local_port == hint && b.last_ephemeral_port
                == a.last_ephemeral_port
            &&& hint == 0 ==> t.local_port >= 49152 && b.last_ephemeral_port == t.local_port
            &&& hint == 0 && 49152 <= a.last_ephemeral_port < 65535 ==> t.local_port
                == a.last_ephemeral_port + 1
            &&& c.state == TcpState::Closed
            &&& c.iss == a.iss_gen.iss_at(t, now_ns)
            &&& c.snd_una == c.iss
            &&& c.snd_nxt == c.iss
            &&& c.snd_retrans@.len() == 0
            &&& c.peer_mss <= a.cfg.tcp_mss
            &&& nic_mtu >= 40 ==> c.peer_mss <= nic_mtu - 40
            &&& nic_mtu >= 40 ==> c.peer_mss == a.cfg.tcp_mss || c.peer_mss == nic_mtu - 40
                || c.peer_mss == u16::MAX
            &&& c.recv.cap == a.cfg.recv_buffer_bytes
            &&& c.snd.cap == a.cfg.send_buffer_bytes
            &&& c.rtt_est.rto == a.cfg.tcp_initial_rto_us
            &&& c.rtt_est.min_rto == a.cfg.tcp_min_rto_us
            &&& c.rtt_est.max_rto == a.cfg.tcp_max_rto_us
            &&& c.rtt_est.srtt is None
            &&& c.rack_aggressive == o.rack_aggressive
            &&& c.rto_no_backoff == o.rto_no_backoff
            &&& c.tlp_skip_flight_size_gate == o.tlp_skip_flight_size_gate
            &&& c.tlp_skip_rtt_sample_gate == o.tlp_skip_rtt_sample_gate
            &&& o.tlp_pto_min_floor_us != 0 ==> c.tlp_pto_min_floor_us == o.tlp_pto_min_floor_us
            &&& o.tlp_pto_min_floor_us == 0 ==> c.tlp_pto_min_floor_us == a.cfg.tcp_min_rto_us
            &&& o.tlp_pto_srtt_multiplier_x100 != 0 ==> c.tlp_pto_srtt_multiplier_x100
                == o.tlp_pto_srtt_multiplier_x100
            &&& o.tlp_pto_srtt_multiplier_x100 == 0 ==> c.tlp_pto_srtt_multiplier_x100 == 200
            &&& o.tlp_max_consecutive_probes != 0 ==> c.tlp_max_consecutive_probes
                == o.tlp_max_consecutive_probes
            &&& o.tlp_max_consecutive_probes == 0 ==> c.tlp_max_consecutive_probes == 1
            &&& !c.is_passive_open
            &&& !c.ts_enabled
            &&& !c.sack_enabled
        }),
        b.timer_wheel == a.timer_wheel,
        b.tx_pending_data == a.tx_pending_data,
{
}

/// A connection is refused exactly where the engine has no address or no
/// gateway, where the address asked for is not ours, or where the table is
/// full; the error says which.
pub proof fn law_connect_refusals(
    a: Engine,
    b: Engine,
    peer_ip: u32,
    peer_port: u16,
    hint: u16,
    o: ConnectOpts,
    nic_mtu: u16,
    now_ns: u64,
    r: Result<ConnHandle, Error>,
)
    requires
        connect_begun(a, b, peer_ip, peer_port, hint, o, nic_mtu, now_ns, r),
    ensures
        ({
            let no_route = a.cfg.local_ip == 0 || (forall|i: int|
                0 <= i < 6 ==> a.cfg.gateway_mac[i] == 0);
            let foreign = o.local_addr != 0 && o.local_addr != a.cfg.local_ip
                && !a.secondary_local_ips@.contains(o.local_addr);
            let full = forall|h: ConnHandle| 1 <= h <= a.flow_table.max ==> #[trigger] a.has(h);
            &&& no_route ==> r == Err::<ConnHandle, Error>(Error::PeerUnreachable(peer_ip))
            &&& !no_route && foreign ==> r == Err::<ConnHandle, Error>(
                Error::InvalidLocalAddr(o.local_addr),
            )
            &&& !no_route && !foreign && full ==> r == Err::<ConnHandle, Error>(
                Error::TooManyConns,
            )
            &&& !no_route && !foreign && !full ==> r is Ok
        }),
{
    if a.flow_table.is_full() {
        assert forall|h: ConnHandle| 1 <= h <= a.flow_table.max implies #[trigger] a.has(h) by {
            assert(a.flow_table@.contains_key(h));
        }
    } else {
        let h = choose|h: ConnHandle|
            1 <= h <= a.flow_table.max && !#[trigger] a.flow_table@.contains_key(h);
        assert(!a.has(h));
    }
    assert(crate::bytes::is_zero_mac(a.cfg.gateway_mac) <==> forall|i: int|
        0 <= i < 6 ==> a.cfg.gateway_mac[i] == 0);
}

/// The SYN that opens a connection stands at its first number, asks to
/// synchronise and acknowledges nothing.
pub proof fn law_syn_opens(
    a: Engine,
    s: ConnectRun,
    b: Engine,
    t: ConnectRun,
    sent: bool,
    now_ns: u64,
    syn: SegmentTx,
)
    requires
        s.stage == ConnectStage::Begin,
        connect_stepped(a, s, b, t, sent, now_ns, ConnectAction::Send(syn)),
    ensures
        b.has(t.handle),
        syn.flags == 0x02,
        syn.seq == b.conn(t.handle).iss,
        syn.ack == 0,
        syn.payload@.len() == 0,
        goes_to_peer(syn, b, b.conn(t.handle).four_tuple),
        syn.dst_ip == s.peer_ip,
        syn.dst_port == s.peer_port,
        syn.options.mss == Some(b.conn(t.handle).peer_mss),
        syn.options.sack_permitted,
        syn.options.wscale is Some,
        syn.options.timestamps matches Some((sent_us, echo)) && sent_us == now_ns / 1_000
            % 0x1_0000_0000 && echo == 0,
        t.syn_ns == now_ns,
{
    assert(0x02u8 & 0x10u8 == 0) by (bit_vector);
}

} // verus!
