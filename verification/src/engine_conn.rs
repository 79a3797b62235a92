//! What the application asks of an engine: connections to open, use and close.
use vstd::prelude::*;
use vstd::slice::slice_subrange;

use crate::bytes::{is_zero_mac, mac_is_zero};
use crate::counters::{
    bumped, inc, inc_if, inc_tx_retrans, retrans_counted, Counters, EthCounters, TcpCounters,
};
use crate::engine::{conn_replaced, gone_to, Engine, LATEST_NS};
use crate::engine_config::{
    compute_ws_shift_for, holds_ip, is_ws_shift_for, select_source_ip, window_field, ConnectOpts,
    EngineConfig, CLOSE_FLAG_FORCE_TW_SKIP,
};
use crate::engine_listen::{handshake_delay_us, syn_timer_armed};
use crate::engine_timers::rto_armed;
use crate::engine_tx::{addressed, bare, FIN_ACK};
use crate::errno::{ENOMEM, EPERM};
use crate::error::Error;
use crate::flow_table::{ConnHandle, FourTuple};
use crate::iss::IssGen;
use crate::mempool::Mbuf;
use crate::num::{low32, low32_of, max_int, max_u32, min_int, min_u32};
use crate::tcp_conn::{is_fresh_client, TcpConn};
use crate::tcp_events::{InternalEvent, LossCause};
use crate::tcp_options::TcpOpts;
use crate::tcp_output::SegmentTx;
use crate::tcp_retrans::RetransEntry;
use crate::tcp_state::TcpState;
use crate::tcp_tlp::{DEFAULT_MAX_CONSECUTIVE_PROBES, DEFAULT_MULTIPLIER_X100};

verus! {

/// First port that connections are opened from where none is asked for.
pub const FIRST_EPHEMERAL_PORT: u16 = 49152;

/// Flags of a segment that carries data.
pub const PSH_ACK: u8 = 0x18;

/// The port after `last`, round the ephemeral ports.
pub open spec fn ephemeral_after(last: u16) -> u16 {
    let p = last.wrapping_add(1);
    if p < FIRST_EPHEMERAL_PORT {
        FIRST_EPHEMERAL_PORT
    } else {
        p
    }
}

/// A port that is chosen lies among the ephemeral ones, and successive choices
/// run through all of them before one comes again.
pub proof fn law_ephemeral_ports(last: u16)
    ensures
        ephemeral_after(last) >= FIRST_EPHEMERAL_PORT,
        FIRST_EPHEMERAL_PORT <= last < u16::MAX ==> ephemeral_after(last) == last + 1,
        last == u16::MAX ==> ephemeral_after(last) == FIRST_EPHEMERAL_PORT,
{
}

/// The segment size that we offer: what the configuration, the port and the
/// field allow.
pub open spec fn offered_mss(tcp_mss: u32, nic_mtu: u16) -> u16 {
    min_int(
        min_int(tcp_mss as int, nic_mtu.saturating_sub(40) as int),
        u16::MAX as int,
    ) as u16
}

/// A connection with the settings it was opened with; zero stands for the
/// default.
pub open spec fn with_opts(c: TcpConn, o: ConnectOpts, min_rto_us: u32) -> TcpConn {
    TcpConn {
        rack_aggressive: o.rack_aggressive,
        rto_no_backoff: o.rto_no_backoff,
        tlp_pto_min_floor_us: if o.tlp_pto_min_floor_us == 0 {
            min_rto_us
        } else {
            o.tlp_pto_min_floor_us
        },
        tlp_pto_srtt_multiplier_x100: if o.tlp_pto_srtt_multiplier_x100 == 0 {
            DEFAULT_MULTIPLIER_X100
        } else {
            o.tlp_pto_srtt_multiplier_x100
        },
        tlp_skip_flight_size_gate: o.tlp_skip_flight_size_gate,
        tlp_max_consecutive_probes: if o.tlp_max_consecutive_probes == 0 {
            DEFAULT_MAX_CONSECUTIVE_PROBES
        } else {
            o.tlp_max_consecutive_probes
        },
        tlp_skip_rtt_sample_gate: o.tlp_skip_rtt_sample_gate,
        ..c
    }
}

/// The address that a connection is opened from, if it is one of ours.
pub open spec fn source_ip(e: Engine, requested: u32) -> Option<u32> {
    if requested == 0 {
        Some(e.cfg.local_ip)
    } else if requested == e.cfg.local_ip || e.secondary_local_ips@.contains(requested) {
        Some(requested)
    } else {
        None
    }
}

/// The engine can send at all: it has an address and knows its gateway.
pub open spec fn is_routed(e: Engine) -> bool {
    e.cfg.local_ip != 0 && !is_zero_mac(e.cfg.gateway_mac)
}

/// Addresses and ports of a connection to be opened.
pub open spec fn tuple_for(e: Engine, peer_ip: u32, peer_port: u16, hint: u16, o: ConnectOpts) ->
    FourTuple {
    FourTuple {
        local_ip: source_ip(e, o.local_addr)->0,
        local_port: if hint != 0 {
            hint
        } else {
            ephemeral_after(e.last_ephemeral_port)
        },
        peer_ip,
        peer_port,
    }
}

/// The port that was chosen last once a connection is opened.
pub open spec fn port_after(e: Engine, hint: u16) -> u16 {
    if hint != 0 {
        e.last_ephemeral_port
    } else {
        ephemeral_after(e.last_ephemeral_port)
    }
}

/// `c` is the connection that is opened.
pub open spec fn is_opened(
    c: TcpConn,
    e: Engine,
    t: FourTuple,
    o: ConnectOpts,
    nic_mtu: u16,
    now_ns: u64,
) -> bool {
    exists|base: TcpConn| #[trigger]
        is_fresh_client(
            base,
            t,
            e.iss_gen.iss_at(t, now_ns),
            offered_mss(e.cfg.tcp_mss, nic_mtu),
            e.cfg.recv_buffer_bytes,
            e.cfg.send_buffer_bytes,
            e.cfg.tcp_min_rto_us,
            e.cfg.tcp_initial_rto_us,
            e.cfg.tcp_max_rto_us,
        ) && c == with_opts(base, o, e.cfg.tcp_min_rto_us)
}

/// The options of a segment that is no SYN and no bare ACK: a timestamp, where
/// they are in use.
pub open spec fn is_data_opts(o: TcpOpts, c: TcpConn, now_ns: u64) -> bool {
    &&& o.wf()
    &&& o.mss is None
    &&& o.wscale is None
    &&& !o.sack_permitted
    &&& o.sack_block_count == 0
    &&& o.timestamps == (if c.ts_enabled {
        Some((low32_of((now_ns / 1000) as int), c.ts_recent))
    } else {
        None
    })
}

/// The options of a data segment of a connection.
pub fn data_opts(ts_enabled: bool, ts_recent: u32, now_ns: u64) -> (r: TcpOpts)
    ensures
        r.wf(),
        r.mss is None,
        r.wscale is None,
        !r.sack_permitted,
        r.sack_block_count == 0,
        r.timestamps == (if ts_enabled {
            Some((low32_of((now_ns / 1000) as int), ts_recent))
        } else {
            None
        }),
{
    let mut o: TcpOpts = TcpOpts::default();
    if ts_enabled {
        o.timestamps = Some((low32(now_ns / 1000), ts_recent));
    }
    o
}

fn advertised(c: &TcpConn) -> (r: u16)
    requires
        c.wf(),
    ensures
        r == window_field(c.recv.room_total(), c.ws_shift_out),
{
    let w: u32 = c.recv.free_space_total() >> (c.ws_shift_out as u32);
    if w > 0xffff {
        0xffff
    } else {
        w as u16
    }
}

/// A connection whose SYN was sent.
pub open spec fn syn_numbered(c: TcpConn, ws_shift_out: u8, now_ns: u64) -> TcpConn {
    TcpConn {
        syn_tx_ts_ns: if c.syn_retrans_count == 0 {
            now_ns
        } else {
            c.syn_tx_ts_ns
        },
        snd_nxt: c.iss.wrapping_add(1),
        ws_shift_out,
        ..c
    }
}

fn number_syn(c: &mut TcpConn, ws_shift_out: u8, now_ns: u64)
    requires
        old(c).wf(),
        ws_shift_out <= 14,
    ensures
        final(c).wf(),
        *final(c) == syn_numbered(*old(c), ws_shift_out, now_ns),
{
    if c.syn_retrans_count == 0 {
        c.syn_tx_ts_ns = now_ns;
    }
    c.snd_nxt = c.iss.wrapping_add(1);
    c.ws_shift_out = ws_shift_out;
}

/// A connection of which bytes were queued.
pub open spec fn advanced(c: TcpConn, accepted: u32, refused: bool) -> TcpConn {
    TcpConn {
        snd_nxt: c.snd_nxt.wrapping_add(accepted),
        send_refused_pending: c.send_refused_pending || refused,
        ..c
    }
}

fn advance(c: &mut TcpConn, accepted: u32, refused: bool)
    requires
        old(c).wf(),
    ensures
        final(c).wf(),
        *final(c) == advanced(*old(c), accepted, refused),
{
    c.snd_nxt = c.snd_nxt.wrapping_add(accepted);
    if refused {
        c.send_refused_pending = true;
    }
}

/// The state that closing takes a connection to; none where it is closing or
/// closed already.
pub open spec fn closing_state(s: TcpState) -> Option<TcpState> {
    match s {
        TcpState::Established => Some(TcpState::FinWait1),
        TcpState::CloseWait => Some(TcpState::LastAck),
        _ => None,
    }
}

fn closes_to(s: TcpState) -> (r: Option<TcpState>)
    ensures
        r == closing_state(s),
{
    match s {
        TcpState::Established => Some(TcpState::FinWait1),
        TcpState::CloseWait => Some(TcpState::LastAck),
        _ => None,
    }
}

/// Most payload that one segment to the peer carries.
pub open spec fn mss_cap(c: TcpConn, cfg: EngineConfig) -> int {
    max_int(min_int(c.peer_mss as int, cfg.tcp_mss as int), 1)
}

/// Bytes sent and not acknowledged.
pub open spec fn in_flight(c: TcpConn) -> u32 {
    c.snd_nxt.wrapping_sub(c.snd_una)
}

/// Bytes out of `len` that can be sent now: what the peer's window and our
/// buffer leave room for.
pub open spec fn sendable(c: TcpConn, cfg: EngineConfig, len: nat) -> int {
    min_int(
        min_int(len as int, c.snd_wnd.saturating_sub(in_flight(c)) as int),
        cfg.send_buffer_bytes.saturating_sub(in_flight(c)) as int,
    )
}

/// Segment `i` of a send that begins where the connection stands: `mss` bytes
/// each, the last one what is left.
pub open spec fn is_data_segment(
    s: SegmentTx,
    e: Engine,
    c: TcpConn,
    bytes: Seq<u8>,
    total: int,
    i: int,
    now_ns: u64,
) -> bool {
    let mss = mss_cap(c, e.cfg);
    &&& addressed(s, e, c.four_tuple)
    &&& s.seq == c.snd_nxt.wrapping_add((i * mss) as u32)
    &&& s.ack == c.rcv_nxt
    &&& s.flags == PSH_ACK
    &&& s.window == window_field(c.recv.room_total(), c.ws_shift_out)
    &&& is_data_opts(s.options, c, now_ns)
    &&& s.payload@ == bytes.subrange(i * mss, min_int((i + 1) * mss, total))
}

/// The payloads of a run of segments, one behind the other.
pub open spec fn payloads(segs: Seq<SegmentTx>) -> Seq<u8>
    decreases segs.len(),
{
    if segs.len() == 0 {
        Seq::empty()
    } else {
        payloads(segs.drop_last()) + segs.last().payload@
    }
}

/// The first `n` segments of a send carry the first bytes, each once and in
/// order, and all of them together carry what can be sent.
pub proof fn law_segments_tile(
    segs: Seq<SegmentTx>,
    e: Engine,
    c: TcpConn,
    bytes: Seq<u8>,
    total: int,
    n: int,
    now_ns: u64,
)
    requires
        0 <= total <= bytes.len(),
        0 <= n <= segs.len(),
        segs.len() == (total + mss_cap(c, e.cfg) - 1) / mss_cap(c, e.cfg),
        forall|i: int|
            0 <= i < segs.len() ==> is_data_segment(
                #[trigger] segs[i],
                e,
                c,
                bytes,
                total,
                i,
                now_ns,
            ),
    ensures
        payloads(segs.take(n)) == bytes.take(min_int(n * mss_cap(c, e.cfg), total)),
        n == segs.len() ==> payloads(segs.take(n)) == bytes.take(total),
    decreases n,
{
    let mss = mss_cap(c, e.cfg);
    if n == 0 {
        assert(0 * mss == 0) by (nonlinear_arith);
        assert(segs.take(0) =~= Seq::<SegmentTx>::empty());
        assert(bytes.take(0) =~= Seq::<u8>::empty());
    } else {
        law_segments_tile(segs, e, c, bytes, total, n - 1, now_ns);
        assert(segs.take(n).drop_last() =~= segs.take(n - 1));
        assert(segs.take(n).last() == segs[n - 1]);
        lemma_piece_count(total, mss, n - 1);
        assert(n * mss == (n - 1) * mss + mss) by (nonlinear_arith);
        assert((n - 1 + 1) * mss == n * mss);
        assert(is_data_segment(segs[n - 1], e, c, bytes, total, n - 1, now_ns));
        assert(segs[n - 1].payload@ == bytes.subrange((n - 1) * mss, min_int(n * mss, total)));
        assert(bytes.take((n - 1) * mss) + bytes.subrange(
            (n - 1) * mss,
            min_int(n * mss, total),
        ) =~= bytes.take(min_int(n * mss, total)));
    }
    if n == segs.len() {
        lemma_piece_cover(total, mss);
    }
}

/// A send that stopped early leaves the connection where the first segment
/// that was not queued begins.
pub proof fn law_send_stops_at_a_segment(
    segs: Seq<SegmentTx>,
    e: Engine,
    c: TcpConn,
    bytes: Seq<u8>,
    total: int,
    k: int,
    now_ns: u64,
)
    requires
        0 <= total <= bytes.len(),
        0 <= k < segs.len(),
        segs.len() == (total + mss_cap(c, e.cfg) - 1) / mss_cap(c, e.cfg),
        forall|i: int|
            0 <= i < segs.len() ==> is_data_segment(
                #[trigger] segs[i],
                e,
                c,
                bytes,
                total,
                i,
                now_ns,
            ),
    ensures
        segs[k].seq == advanced(c, payloads(segs.take(k)).len() as u32, true).snd_nxt,
{
    law_segments_tile(segs, e, c, bytes, total, k, now_ns);
    lemma_piece_count(total, mss_cap(c, e.cfg), k);
    assert(is_data_segment(segs[k], e, c, bytes, total, k, now_ns));
}

proof fn lemma_piece_count(total: int, mss: int, i: int)
    requires
        mss >= 1,
        total >= 0,
        0 <= i < (total + mss - 1) / mss,
    ensures
        0 <= i * mss < total,
{
    assert(i * mss < total) by (nonlinear_arith)
        requires
            mss >= 1,
            total >= 0,
            0 <= i < (total + mss - 1) / mss,
    ;
    assert(0 <= i * mss) by (nonlinear_arith)
        requires
            0 <= i,
            mss >= 1,
    ;
}

proof fn lemma_piece_cover(total: int, mss: int)
    requires
        mss >= 1,
        total >= 0,
    ensures
        ((total + mss - 1) / mss) * mss >= total,
{
    assert(((total + mss - 1) / mss) * mss >= total) by (nonlinear_arith)
        requires
            mss >= 1,
            total >= 0,
    ;
}

/// A send never exceeds the peer's window, nor our buffer, nor what is
/// offered.
pub proof fn law_send_respects_windows(c: TcpConn, cfg: EngineConfig, len: nat)
    ensures
        sendable(c, cfg, len) <= len,
        in_flight(c) <= c.snd_wnd ==> in_flight(c) + sendable(c, cfg, len) <= c.snd_wnd,
        in_flight(c) <= cfg.send_buffer_bytes ==> in_flight(c) + sendable(c, cfg, len)
            <= cfg.send_buffer_bytes,
        in_flight(c) > c.snd_wnd || in_flight(c) > cfg.send_buffer_bytes ==> sendable(c, cfg, len)
            <= 0,
{
}

/// The engine once a data segment was queued, before the retransmission timer
/// is armed.
pub open spec fn segment_queued(
    a: Engine,
    b: Engine,
    h: ConnHandle,
    entry: RetransEntry,
    frame_len: int,
) -> bool {
    let c = a.conn(h);
    let d = b.conn(h);
    &&& conn_replaced(a.flow_table, b.flow_table, h, d)
    &&& d.snd_retrans@ == c.snd_retrans@.push(entry)
    &&& d == (TcpConn { snd_retrans: d.snd_retrans, ..c })
    &&& b.tx_pending_data@ == a.tx_pending_data@.push(entry.mbuf)
    &&& b == (Engine {
        flow_table: b.flow_table,
        tx_pending_data: b.tx_pending_data,
        counters: Counters {
            eth: EthCounters {
                tx_bytes: a.counters.eth.tx_bytes.wrapping_add(frame_len as u64),
                ..a.counters.eth
            },
            tcp: TcpCounters {
                tx_data: a.counters.tcp.tx_data.wrapping_add(1),
                ..a.counters.tcp
            },
            ..a.counters
        },
        ..a
    })
}

/// A send under way: its segments, and how many of them were queued.
#[derive(Debug)]
pub struct SendRun {
    pub handle: ConnHandle,
    pub segs: Vec<SegmentTx>,
    pub next: usize,
    /// Bytes that were queued.
    pub accepted: u32,
    /// Bytes that the application offered.
    pub offered: usize,
    /// There was no buffer for a segment: nothing more is queued.
    pub stopped: bool,
}

impl SendRun {
    /// What was queued is the payload of the first segments.
    pub open spec fn wf(&self) -> bool {
        &&& self.next <= self.segs@.len()
        &&& self.accepted == payloads(self.segs@.take(self.next as int)).len()
        &&& payloads(self.segs@).len() <= u32::MAX
        &&& forall|i: int|
            0 <= i < self.segs@.len() ==> #[trigger] self.segs@[i].payload@.len() <= 0xffff
    }

    /// What the send returns.
    pub fn result(&self) -> (r: Result<u32, Error>)
        ensures
            r == send_result(*self),
    {
        if self.stopped {
            Err(Error::SendBufferFull)
        } else {
            Ok(self.accepted)
        }
    }
}

proof fn lemma_payloads_grow(segs: Seq<SegmentTx>, k: int)
    requires
        0 <= k <= segs.len(),
    ensures
        payloads(segs.take(k)).len() <= payloads(segs).len(),
        k < segs.len() ==> payloads(segs.take(k + 1)) == payloads(segs.take(k))
            + segs[k].payload@,
    decreases segs.len() - k,
{
    if k < segs.len() {
        assert(segs.take(k + 1).drop_last() =~= segs.take(k));
        assert(segs.take(k + 1).last() == segs[k]);
        lemma_payloads_grow(segs, k + 1);
    } else {
        assert(segs.take(k) =~= segs);
    }
}

/// What is needed to send a segment in flight again.
#[derive(Debug)]
pub struct RetransPlan {
    /// The headers; the payload stays in its buffer.
    pub seg: SegmentTx,
    /// The buffer that holds the payload, at its end.
    pub data: Mbuf,
    pub len: u16,
}

/// Bytes of old headers in front of the payload of a buffer that holds
/// `data_len` bytes, the last `len` of them payload.
pub fn live_hdrs_len(data_len: u16, len: u16) -> (r: u16)
    requires
        len <= data_len,
    ensures
        r == data_len - len,
{
    data_len - len
}

/// A segment that was sent once more.
pub open spec fn resent(e: RetransEntry, now_ns: u64) -> RetransEntry {
    RetransEntry {
        xmit_count: e.xmit_count.saturating_add(1),
        xmit_ts_ns: now_ns,
        lost: false,
        ..e
    }
}

impl Engine {
    /// Chooses the next port to connect from.
    pub fn next_ephemeral_port(&mut self) -> (r: u16)
        ensures
            r == ephemeral_after(old(self).last_ephemeral_port),
            *final(self) == (Engine { last_ephemeral_port: r, ..*old(self) }),
    {
        let mut p: u16 = self.last_ephemeral_port.wrapping_add(1);
        if p < FIRST_EPHEMERAL_PORT {
            p = FIRST_EPHEMERAL_PORT;
        }
        self.last_ephemeral_port = p;
        p
    }

    /// Takes in a connection to be opened with default settings; see
    /// `connect_with_opts`.
    pub fn connect(
        &mut self,
        peer_ip: u32,
        peer_port: u16,
        local_port_hint: u16,
        nic_mtu: u16,
        now_ns: u64,
    ) -> (r: Result<ConnHandle, Error>)
        requires
            old(self).wf(),
        ensures
            final(self).wf(),
            connect_begun(
                *old(self),
                *final(self),
                peer_ip,
                peer_port,
                local_port_hint,
                (ConnectOpts {
                    rack_aggressive: false,
                    rto_no_backoff: false,
                    tlp_pto_min_floor_us: 0,
                    tlp_pto_srtt_multiplier_x100: 0,
                    tlp_skip_flight_size_gate: false,
                    tlp_max_consecutive_probes: 0,
                    tlp_skip_rtt_sample_gate: false,
                    local_addr: 0,
                }),
                nic_mtu,
                now_ns,
                r,
            ),
    {
        self.connect_with_opts(
            peer_ip,
            peer_port,
            local_port_hint,
            ConnectOpts::default(),
            nic_mtu,
            now_ns,
        )
    }

    /// Takes in a connection to be opened. It is refused where the engine is
    /// not routed, the address asked for is not ours, or the table is full; no
    /// connection is added then. Its SYN is sent next.
    pub fn connect_with_opts(
        &mut self,
        peer_ip: u32,
        peer_port: u16,
        local_port_hint: u16,
        opts: ConnectOpts,
        nic_mtu: u16,
        now_ns: u64,
    ) -> (r: Result<ConnHandle, Error>)
        requires
            old(self).wf(),
        ensures
            final(self).wf(),
            connect_begun(
                *old(self),
                *final(self),
                peer_ip,
                peer_port,
                local_port_hint,
                opts,
                nic_mtu,
                now_ns,
                r,
            ),
    {
        if self.cfg.local_ip == 0 || mac_is_zero(&self.cfg.gateway_mac) {
            return Err(Error::PeerUnreachable(peer_ip));
        }
        let local_ip: u32 = match select_source_ip(
            opts.local_addr,
            self.cfg.local_ip,
            self.secondary_local_ips.as_slice(),
        ) {
            Ok(ip) => ip,
            Err(e) => {
                return Err(e);
            },
        };
        let conn: TcpConn = self.conn_to_open(
            local_ip,
            peer_ip,
            peer_port,
            local_port_hint,
            &opts,
            nic_mtu,
            now_ns,
        );
        self.admit_conn(conn, opts.rack_aggressive, opts.rto_no_backoff)
    }

    fn conn_to_open(
        &mut self,
        local_ip: u32,
        peer_ip: u32,
        peer_port: u16,
        local_port_hint: u16,
        opts: &ConnectOpts,
        nic_mtu: u16,
        now_ns: u64,
    ) -> (r: TcpConn)
        requires
            source_ip(*old(self), opts.local_addr) == Some(local_ip),
        ensures
            r.wf(),
            is_opened(
                r,
                *old(self),
                tuple_for(*old(self), peer_ip, peer_port, local_port_hint, *opts),
                *opts,
                nic_mtu,
                now_ns,
            ),
            *final(self) == (Engine {
                last_ephemeral_port: port_after(*old(self), local_port_hint),
                ..*old(self)
            }),
    {
        let local_port: u16 = if local_port_hint != 0 {
            local_port_hint
        } else {
            self.next_ephemeral_port()
        };
        let tuple = FourTuple { local_ip, local_port, peer_ip, peer_port };
        let c: TcpConn = self.open_conn(&tuple, opts, nic_mtu, now_ns);
        proof {
            lemma_opened_anywhere(c, *self, *old(self), tuple, *opts, nic_mtu, now_ns);
        }
        c
    }

    fn admit_conn(&mut self, conn: TcpConn, rack_aggressive: bool, rto_no_backoff: bool) -> (r:
        Result<ConnHandle, Error>)
        requires
            old(self).wf(),
            conn.wf(),
        ensures
            final(self).wf(),
            conn_admitted(*old(self), *final(self), conn, rack_aggressive, rto_no_backoff, r),
    {
        let slot: Option<ConnHandle> = self.flow_table.insert(conn);
        let placed: bool = slot.is_some();
        inc_if(
            &mut self.counters.tcp.rack_reo_wnd_override_active,
            placed && rack_aggressive,
        );
        inc_if(&mut self.counters.tcp.rto_no_backoff_active, placed && rto_no_backoff);
        inc_if(&mut self.counters.tcp.conn_table_full, !placed);
        match slot {
            Some(h) => Ok(h),
            None => Err(Error::TooManyConns),
        }
    }

    fn open_conn(&self, tuple: &FourTuple, opts: &ConnectOpts, nic_mtu: u16, now_ns: u64) -> (r:
        TcpConn)
        ensures
            r.wf(),
            is_opened(r, *self, *tuple, *opts, nic_mtu, now_ns),
    {
        let iss: u32 = self.iss_gen.next(tuple, now_ns);
        let our_mss: u32 = min_u32(
            min_u32(self.cfg.tcp_mss, nic_mtu.saturating_sub(40) as u32),
            0xffff,
        );
        let mut c: TcpConn = TcpConn::new_client(
            *tuple,
            iss,
            our_mss as u16,
            self.cfg.recv_buffer_bytes,
            self.cfg.send_buffer_bytes,
            self.cfg.tcp_min_rto_us,
            self.cfg.tcp_initial_rto_us,
            self.cfg.tcp_max_rto_us,
        );
        let ghost base = c;
        c.rack_aggressive = opts.rack_aggressive;
        c.rto_no_backoff = opts.rto_no_backoff;
        c.tlp_pto_min_floor_us = if opts.tlp_pto_min_floor_us == 0 {
            self.cfg.tcp_min_rto_us
        } else {
            opts.tlp_pto_min_floor_us
        };
        c.tlp_pto_srtt_multiplier_x100 = if opts.tlp_pto_srtt_multiplier_x100 == 0 {
            DEFAULT_MULTIPLIER_X100
        } else {
            opts.tlp_pto_srtt_multiplier_x100
        };
        c.tlp_skip_flight_size_gate = opts.tlp_skip_flight_size_gate;
        c.tlp_max_consecutive_probes = if opts.tlp_max_consecutive_probes == 0 {
            DEFAULT_MAX_CONSECUTIVE_PROBES
        } else {
            opts.tlp_max_consecutive_probes
        };
        c.tlp_skip_rtt_sample_gate = opts.tlp_skip_rtt_sample_gate;
        assert(is_fresh_client(
            base,
            *tuple,
            iss,
            offered_mss(self.cfg.tcp_mss, nic_mtu),
            self.cfg.recv_buffer_bytes,
            self.cfg.send_buffer_bytes,
            self.cfg.tcp_min_rto_us,
            self.cfg.tcp_initial_rto_us,
            self.cfg.tcp_max_rto_us,
        ));
        c
    }

    /// Takes a connection back whose SYN could not be sent.
    pub fn connect_failed(&mut self, handle: ConnHandle, peer_ip: u32) -> (r: Error)
        requires
            old(self).wf(),
        ensures
            final(self).wf(),
            r == Error::PeerUnreachable(peer_ip),
            final(self).flow_table@ == old(self).flow_table@.remove(handle),
            final(self).flow_table.max == old(self).flow_table.max,
            *final(self) == (Engine { flow_table: final(self).flow_table, ..*old(self) }),
    {
        self.flow_table.remove(handle);
        Error::PeerUnreachable(peer_ip)
    }

    fn begin_handshake(&mut self, handle: ConnHandle, now_ns: u64)
        requires
            old(self).wf(),
            old(self).has(handle),
        ensures
            final(self).wf(),
            handshake_begun(*old(self), *final(self), handle, now_ns),
    {
        let ws: u8 = compute_ws_shift_for(self.cfg.recv_buffer_bytes);
        let c: &mut TcpConn = self.flow_table.get_mut(handle).unwrap();
        number_syn(c, ws, now_ns);
        inc(&mut self.counters.tcp.tx_syn);
    }

    /// Records that the SYN of a fresh connection, built at `syn_ns`, was sent:
    /// the connection waits for the answer.
    pub fn connect_sent(&mut self, handle: ConnHandle, syn_ns: u64, now_ns: u64)
        requires
            old(self).wf(),
            old(self).has(handle),
            old(self).conn(handle).state == TcpState::Closed,
            old(self).timer_wheel.has_slot(),
            now_ns <= LATEST_NS,
        ensures
            final(self).wf(),
            handshake_sent(*old(self), *final(self), handle, syn_ns, now_ns),
    {
        self.begin_handshake(handle, syn_ns);
        let ghost begun = *self;
        self.transition_conn(handle, TcpState::SynSent, now_ns);
        let ghost moved = *self;
        assert(handshake_begun(*old(self), begun, handle, syn_ns));
        assert(moved_to(begun, moved, handle, TcpState::SynSent, now_ns));
        let delay_us: u32 = max_u32(self.cfg.tcp_initial_rto_us, self.cfg.tcp_min_rto_us);
        self.arm_syn_timer(handle, now_ns + delay_us as u64 * 1_000);
    }

    /// Begins to send: the segments carry as much of `bytes` as can be sent
    /// now, in order.
    pub fn send_bytes(&self, handle: ConnHandle, bytes: &[u8], now_ns: u64) -> (r: Result<
        SendRun,
        Error,
    >)
        requires
            self.wf(),
        ensures
            send_begun(*self, handle, bytes@, now_ns, r),
    {
        let c: &TcpConn = match self.flow_table.get(handle) {
            Some(c) => c,
            None => {
                return Err(Error::InvalidConnHandle(handle as u64));
            },
        };
        if c.state != TcpState::Established {
            return Err(Error::InvalidConnHandle(handle as u64));
        }
        let mss: u32 = max_u32(min_u32(c.peer_mss as u32, self.cfg.tcp_mss), 1);
        let flight: u32 = c.snd_nxt.wrapping_sub(c.snd_una);
        let wnd_room: u32 = c.snd_wnd.saturating_sub(flight);
        let buf_room: u32 = self.cfg.send_buffer_bytes.saturating_sub(flight);
        let mut total: usize = bytes.len();
        if total > wnd_room as usize {
            total = wnd_room as usize;
        }
        if total > buf_room as usize {
            total = buf_room as usize;
        }
        let window: u16 = advertised(c);
        let mut segs: Vec<SegmentTx> = Vec::new();
        let mut offset: usize = 0;
        let ghost m = mss_cap(*c, self.cfg);
        assert(total == sendable(*c, self.cfg, bytes@.len()));
        assert(0 * m == 0) by (nonlinear_arith);
        assert((m - 1) / m == 0) by (nonlinear_arith)
            requires
                m >= 1,
        ;
        while offset < total
            invariant
                self.wf(),
                self.has(handle),
                *c == self.conn(handle),
                total == sendable(*c, self.cfg, bytes@.len()),
                total <= bytes@.len(),
                total <= u32::MAX,
                m == mss_cap(*c, self.cfg),
                m == mss,
                1 <= mss <= 0xffff,
                window == window_field(c.recv.room_total(), c.ws_shift_out),
                offset == min_int(segs@.len() * m, total as int),
                offset < total ==> offset == segs@.len() * m,
                segs@.len() == (offset + m - 1) / m,
                forall|i: int|
                    0 <= i < segs@.len() ==> is_data_segment(
                        #[trigger] segs@[i],
                        *self,
                        *c,
                        bytes@,
                        total as int,
                        i,
                        now_ns,
                    ),
            decreases total - offset,
        {
            let ghost k = segs@.len() as int;
            let rest: usize = total - offset;
            let take: usize = if rest < mss as usize {
                rest
            } else {
                mss as usize
            };
            let mut payload: Vec<u8> = Vec::new();
            let part = slice_subrange(bytes, offset, offset + take);
            payload.extend_from_slice(part);
            let opts: TcpOpts = data_opts(c.ts_enabled, c.ts_recent, now_ns);
            let seg = SegmentTx {
                src_mac: self.our_mac,
                dst_mac: self.cfg.gateway_mac,
                src_ip: c.four_tuple.local_ip,
                dst_ip: c.four_tuple.peer_ip,
                src_port: c.four_tuple.local_port,
                dst_port: c.four_tuple.peer_port,
                seq: c.snd_nxt.wrapping_add(offset as u32),
                ack: c.rcv_nxt,
                flags: PSH_ACK,
                window,
                options: opts,
                payload,
            };
            proof {
                assert((k + 1) * m == k * m + m) by (nonlinear_arith);
                assert(seg.payload@ =~= bytes@.subrange(k * m, min_int((k + 1) * m, total as int)));
                assert(is_data_segment(seg, *self, *c, bytes@, total as int, k, now_ns));
                lemma_next_piece(k, m, take as int);
            }
            segs.push(seg);
            offset = offset + take;
        }
        proof {
            law_segments_tile(
                segs@,
                *self,
                *c,
                bytes@,
                total as int,
                segs@.len() as int,
                now_ns,
            );
            assert(segs@.take(segs@.len() as int) =~= segs@);
            assert(segs@.take(0) =~= Seq::<SegmentTx>::empty());
            assert forall|i: int| 0 <= i < segs@.len() implies #[trigger] segs@[i].payload@.len()
                <= 0xffff by {
                assert(is_data_segment(segs@[i], *self, *c, bytes@, total as int, i, now_ns));
                lemma_piece_count(total as int, m, i);
                assert((i + 1) * m == i * m + m) by (nonlinear_arith);
            }
        }
        Ok(
            SendRun {
                handle,
                segs,
                next: 0,
                accepted: 0,
                offered: bytes.len(),
                stopped: false,
            },
        )
    }

    /// Takes in what became of the next segment of a send: the buffer that it
    /// was built in and the length of its frame, or that there was no buffer.
    pub fn segment_built(
        &mut self,
        run: &mut SendRun,
        built: Option<(Mbuf, u16)>,
        now_ns: u64,
    )
        requires
            old(self).wf(),
            old(self).has(old(run).handle),
            old(self).timer_wheel.has_slot(),
            now_ns <= LATEST_NS,
            old(run).wf(),
            old(run).next < old(run).segs@.len(),
            built matches Some(b) ==> old(run).segs@[old(run).next as int].payload@.len() <= b.1,
        ensures
            final(self).wf(),
            final(run).wf(),
            match built {
                Some(b) => next_queued(
                    *old(self),
                    *old(run),
                    *final(self),
                    *final(run),
                    b.0,
                    b.1,
                    now_ns,
                ),
                None => send_broken_off(*old(self), *old(run), *final(self), *final(run)),
            },
    {
        match built {
            Some((mbuf, frame_len)) => {
                proof {
                    lemma_payloads_grow(run.segs@, run.next as int);
                    lemma_payloads_grow(run.segs@, run.next + 1);
                    assert(run.segs.len() == run.segs@.len());
                }
                let seq: u32 = run.segs[run.next].seq;
                let len: u16 = run.segs[run.next].payload.len() as u16;
                self.queue_segment(run.handle, seq, len, mbuf, frame_len, now_ns);
                run.next = run.next + 1;
                run.accepted = run.accepted + len as u32;
            },
            None => {
                inc(&mut self.counters.eth.tx_drop_nomem);
                run.stopped = true;
            },
        }
    }

    /// Whether the frames that wait fill the driver's ring.
    pub fn tx_ring_full(&self) -> (r: bool)
        ensures
            r == (self.tx_pending_data@.len() >= self.cfg.tx_ring_size),
    {
        self.tx_pending_data.len() >= self.cfg.tx_ring_size as usize
    }

    fn queue_segment(
        &mut self,
        handle: ConnHandle,
        seq: u32,
        len: u16,
        mbuf: Mbuf,
        frame_len: u16,
        now_ns: u64,
    )
        requires
            old(self).wf(),
            old(self).has(handle),
            len <= frame_len,
            old(self).timer_wheel.has_slot(),
            now_ns <= LATEST_NS,
        ensures
            final(self).wf(),
            put_on_flight(
                *old(self),
                *final(self),
                handle,
                queued_entry(seq, len, mbuf, frame_len, now_ns),
                frame_len as int,
                now_ns,
            ),
    {
        let entry = RetransEntry {
            seq,
            len,
            mbuf,
            first_tx_ts_ns: now_ns,
            xmit_count: 1,
            sacked: false,
            lost: false,
            xmit_ts_ns: now_ns,
            hdrs_len: frame_len - len,
        };
        let (first, rto_us) = self.put_in_flight(handle, entry, frame_len);
        let ghost mid = *self;
        assert(segment_queued(
            *old(self),
            mid,
            handle,
            queued_entry(seq, len, mbuf, frame_len, now_ns),
            frame_len as int,
        ));
        if first && rto_us > 0 {
            self.arm_rto(handle, now_ns + rto_us as u64 * 1_000);
        }
    }

    fn put_in_flight(&mut self, handle: ConnHandle, entry: RetransEntry, frame_len: u16) -> (r: (
        bool,
        u32,
    ))
        requires
            old(self).wf(),
            old(self).has(handle),
        ensures
            final(self).wf(),
            final(self).timer_wheel == old(self).timer_wheel,
            segment_queued(*old(self), *final(self), handle, entry, frame_len as int),
            r.0 == (old(self).conn(handle).snd_retrans@.len() == 0 && old(self).conn(
                handle,
            ).rto_timer_id is None),
            r.1 == old(self).conn(handle).rtt_est.rto,
    {
        self.tx_pending_data.push(entry.mbuf);
        crate::counters::add(&mut self.counters.eth.tx_bytes, frame_len as u64);
        inc(&mut self.counters.tcp.tx_data);
        let c: &mut TcpConn = self.flow_table.get_mut(handle).unwrap();
        let first: bool = c.snd_retrans.is_empty() && c.rto_timer_id.is_none();
        c.snd_retrans.push_after_tx(entry);
        (first, c.rtt_est.rto_us())
    }

    /// Finishes a send and says how many bytes were accepted. It fails where
    /// there was no buffer for a segment: what was queued before stays in
    /// flight, and the connection stands behind it. Where there was none for
    /// the first segment, the connection is left alone. Any other send that
    /// was not accepted in full is counted and remembered, so that room is
    /// reported later.
    pub fn send_done(&mut self, run: &SendRun) -> (r: Result<u32, Error>)
        requires
            old(self).wf(),
            old(self).has(run.handle),
        ensures
            final(self).wf(),
            r == send_result(*run),
            send_settled(*old(self), *final(self), *run),
    {
        if run.stopped && run.accepted == 0 {
            return Err(Error::SendBufferFull);
        }
        let handle: ConnHandle = run.handle;
        let accepted: u32 = run.accepted;
        let refused: bool = (accepted as usize) < run.offered;
        let c: &mut TcpConn = self.flow_table.get_mut(handle).unwrap();
        advance(c, accepted, refused);
        let counted: u64 = if self.features.obs_byte_counters {
            accepted as u64
        } else {
            0
        };
        inc_if(&mut self.counters.tcp.send_buf_full, refused);
        crate::counters::add(&mut self.counters.tcp.tx_payload_bytes, counted);
        run.result()
    }

    /// The FIN that closing a connection sends; none where it is closing or
    /// closed already.
    pub fn close_conn(&self, handle: ConnHandle, now_ns: u64) -> (r: Result<
        Option<SegmentTx>,
        Error,
    >)
        requires
            self.wf(),
        ensures
            fin_planned(*self, handle, now_ns, r),
    {
        let c: &TcpConn = match self.flow_table.get(handle) {
            Some(c) => c,
            None => {
                return Err(Error::InvalidConnHandle(handle as u64));
            },
        };
        if closes_to(c.state).is_none() {
            return Ok(None);
        }
        let opts: TcpOpts = data_opts(c.ts_enabled, c.ts_recent, now_ns);
        Ok(
            Some(
                SegmentTx {
                    src_mac: self.our_mac,
                    dst_mac: self.cfg.gateway_mac,
                    src_ip: c.four_tuple.local_ip,
                    dst_ip: c.four_tuple.peer_ip,
                    src_port: c.four_tuple.local_port,
                    dst_port: c.four_tuple.peer_port,
                    seq: c.snd_nxt,
                    ack: c.rcv_nxt,
                    flags: FIN_ACK,
                    window: advertised(c),
                    options: opts,
                    payload: Vec::new(),
                },
            ),
        )
    }

    /// The error of a FIN that could not be sent; the connection stays as it
    /// was.
    pub fn close_failed(&self, handle: ConnHandle) -> (r: Error)
        requires
            self.has(handle),
        ensures
            r == Error::PeerUnreachable(self.conn(handle).four_tuple.peer_ip),
    {
        Error::PeerUnreachable(self.flow_table.get(handle).unwrap().four_tuple.peer_ip)
    }

    fn take_fin_number(&mut self, handle: ConnHandle)
        requires
            old(self).wf(),
            old(self).has(handle),
        ensures
            final(self).wf(),
            fin_numbered(*old(self), *final(self), handle),
    {
        inc(&mut self.counters.tcp.tx_fin);
        let c: &mut TcpConn = self.flow_table.get_mut(handle).unwrap();
        c.our_fin_seq = Some(c.snd_nxt);
        c.snd_nxt = c.snd_nxt.wrapping_add(1);
    }

    /// Records that the FIN of a connection was sent.
    pub fn fin_sent(&mut self, handle: ConnHandle, now_ns: u64)
        requires
            old(self).wf(),
            old(self).has(handle),
            closing_state(old(self).conn(handle).state) is Some,
        ensures
            final(self).wf(),
            fin_recorded(*old(self), *final(self), handle, now_ns),
    {
        let to: TcpState = closes_to(self.flow_table.get(handle).unwrap().state).unwrap();
        self.take_fin_number(handle);
        let ghost mid = *self;
        self.transition_conn(handle, to, now_ns);
        assert(fin_numbered(*old(self), mid, handle));
        assert(moved_to(mid, *self, handle, to, now_ns));
    }

    /// Takes in the flags that a connection is closed with: TIME_WAIT can be
    /// skipped only where timestamps are in use, and a request to skip it is
    /// answered by an error otherwise.
    pub fn close_conn_with_flags(&mut self, handle: ConnHandle, flags: u32, now_ns: u64)
        requires
            old(self).wf(),
        ensures
            final(self).wf(),
            close_flags_taken(*old(self), *final(self), handle, flags, now_ns),
    {
        if flags & CLOSE_FLAG_FORCE_TW_SKIP == 0 {
            return;
        }
        let ts: bool = match self.flow_table.get(handle) {
            Some(c) => c.ts_enabled,
            None => false,
        };
        if !ts {
            self.push_event(
                InternalEvent::Error { conn: handle, err: -EPERM, emitted_ts_ns: now_ns },
            );
        } else {
            let c: &mut TcpConn = self.flow_table.get_mut(handle).unwrap();
            c.force_tw_skip = true;
        }
    }

    /// What is needed to send a segment in flight again; none where there is
    /// no such segment, or no buffer for it.
    pub fn retransmit(&self, handle: ConnHandle, entry_index: usize, now_ns: u64) -> (r: Option<
        RetransPlan,
    >)
        requires
            self.wf(),
        ensures
            r is Some <==> may_resend(*self, handle, entry_index),
            r matches Some(p) ==> is_resend_plan(*self, handle, entry_index, now_ns, p),
    {
        let c: &TcpConn = match self.flow_table.get(handle) {
            Some(c) => c,
            None => {
                return None;
            },
        };
        let e: RetransEntry = match c.snd_retrans.get(entry_index) {
            Some(e) => e,
            None => {
                return None;
            },
        };
        if e.mbuf.is_null() {
            return None;
        }
        let opts: TcpOpts = data_opts(c.ts_enabled, c.ts_recent, now_ns);
        let seg = SegmentTx {
            src_mac: self.our_mac,
            dst_mac: self.cfg.gateway_mac,
            src_ip: c.four_tuple.local_ip,
            dst_ip: c.four_tuple.peer_ip,
            src_port: c.four_tuple.local_port,
            dst_port: c.four_tuple.peer_port,
            seq: e.seq,
            ack: c.rcv_nxt,
            flags: PSH_ACK,
            window: advertised(c),
            options: opts,
            payload: Vec::new(),
        };
        Some(RetransPlan { seg, data: e.mbuf, len: e.len })
    }

    /// Counts and reports a retransmission for which there was no memory.
    pub fn retransmit_failed(&mut self, handle: ConnHandle, now_ns: u64)
        ensures
            resend_refused(*old(self), *final(self), handle, now_ns),
    {
        inc(&mut self.counters.eth.tx_drop_nomem);
        self.push_event(
            InternalEvent::Error { conn: handle, err: -ENOMEM, emitted_ts_ns: now_ns },
        );
    }

    /// Queues a retransmission: fresh headers of `hdr_len` bytes, in front of
    /// the buffer that holds the payload. It is counted under what showed the
    /// loss and in the aggregate.
    pub fn retransmit_queued(
        &mut self,
        handle: ConnHandle,
        entry_index: usize,
        cause: LossCause,
        hdr_mbuf: Mbuf,
        hdr_len: u16,
        now_ns: u64,
    )
        requires
            old(self).wf(),
            old(self).has(handle),
            entry_index < old(self).conn(handle).snd_retrans@.len(),
        ensures
            final(self).wf(),
            resend_queued(
                *old(self),
                *final(self),
                handle,
                entry_index,
                cause,
                hdr_mbuf,
                hdr_len,
                now_ns,
            ),
    {
        self.tx_pending_data.push(hdr_mbuf);
        inc_tx_retrans(&mut self.counters.tcp, cause);
        let c: &mut TcpConn = self.flow_table.get_mut(handle).unwrap();
        let mut e: RetransEntry = c.snd_retrans.entries[entry_index];
        let len: u16 = e.len;
        e.xmit_count = e.xmit_count.saturating_add(1);
        e.xmit_ts_ns = now_ns;
        e.lost = false;
        c.snd_retrans.set(entry_index, e);
        crate::counters::add(&mut self.counters.eth.tx_bytes, hdr_len as u64 + len as u64);
    }

    /// Takes up to `max` events, oldest first.
    pub fn drain_events(&mut self, max: u32) -> (r: Vec<InternalEvent>)
        ensures
            ({
                let n = min_int(max as int, old(self).events.q@.len() as int);
                &&& r@ == old(self).events.q@.take(n)
                &&& final(self).events.q@ == old(self).events.q@.subrange(
                    n,
                    old(self).events.q@.len() as int,
                )
            }),
            final(self).events.cap == old(self).events.cap,
            *final(self) == (Engine { events: final(self).events, ..*old(self) }),
    {
        let mut out: Vec<InternalEvent> = Vec::new();
        let mut n: u32 = 0;
        let ghost q = self.events.q@;
        assert(q.subrange(0, q.len() as int) =~= q);
        while n < max && self.events.len() > 0
            invariant
                n <= max,
                n <= q.len(),
                q == old(self).events.q@,
                out@ == q.take(n as int),
                self.events.q@ == q.subrange(n as int, q.len() as int),
                self.events.cap == old(self).events.cap,
                *self == (Engine { events: self.events, ..*old(self) }),
            decreases max - n,
        {
            if let Some(ev) = self.events.pop() {
                out.push(ev);
            }
            n += 1;
            assert(out@ =~= q.take(n as int));
            assert(self.events.q@ =~= q.subrange(n as int, q.len() as int));
        }
        out
    }

    /// Adds an address that connections may be opened from; says whether it is
    /// a new one.
    pub fn add_local_ip(&mut self, ip: u32) -> (r: bool)
        ensures
            r == (ip != 0 && ip != old(self).cfg.local_ip && !old(
                self,
            ).secondary_local_ips@.contains(ip)),
            final(self).secondary_local_ips@ == (if r {
                old(self).secondary_local_ips@.push(ip)
            } else {
                old(self).secondary_local_ips@
            }),
            *final(self) == (Engine {
                secondary_local_ips: final(self).secondary_local_ips,
                ..*old(self)
            }),
    {
        if ip == 0 || ip == self.cfg.local_ip {
            return false;
        }
        if holds_ip(self.secondary_local_ips.as_slice(), ip) {
            return false;
        }
        self.secondary_local_ips.push(ip);
        true
    }

    /// The addresses that connections may be opened from, besides the primary
    /// one.
    pub fn secondary_local_ips(&self) -> (r: Vec<u32>)
        ensures
            r@ == self.secondary_local_ips@,
    {
        let mut out: Vec<u32> = Vec::new();
        let mut i: usize = 0;
        while i < self.secondary_local_ips.len()
            invariant
                i <= self.secondary_local_ips@.len(),
                out@ == self.secondary_local_ips@.take(i as int),
            decreases self.secondary_local_ips@.len() - i,
        {
            out.push(self.secondary_local_ips[i]);
            i += 1;
            assert(out@ =~= self.secondary_local_ips@.take(i as int));
        }
        assert(out@ =~= self.secondary_local_ips@);
        out
    }

    /// The counters.
    pub fn counters(&self) -> (r: &Counters)
        ensures
            *r == self.counters,
    {
        &self.counters
    }

    /// Buffers in the receive pool.
    pub fn rx_mempool_size(&self) -> (r: u32)
        ensures
            r == self.rx_mempool_size,
    {
        self.rx_mempool_size
    }

    /// The configuration.
    pub fn config(&self) -> (r: &EngineConfig)
        ensures
            *r == self.cfg,
    {
        &self.cfg
    }

    /// Our hardware address.
    pub fn our_mac(&self) -> (r: [u8; 6])
        ensures
            r == self.our_mac,
    {
        self.our_mac
    }

    /// Our primary address.
    pub fn our_ip(&self) -> (r: u32)
        ensures
            r == self.cfg.local_ip,
    {
        self.cfg.local_ip
    }

    /// The hardware address of the gateway.
    pub fn gateway_mac(&self) -> (r: [u8; 6])
        ensures
            r == self.cfg.gateway_mac,
    {
        self.cfg.gateway_mac
    }

    /// The address of the gateway.
    pub fn gateway_ip(&self) -> (r: u32)
        ensures
            r == self.cfg.gateway_ip,
    {
        self.cfg.gateway_ip
    }

    /// The largest packet that the path to an address carries, if known.
    pub fn pmtu_for(&self, ip: u32) -> (r: Option<u16>)
        ensures
            r == (if self.pmtu@.contains_key(ip) {
                Some(self.pmtu@[ip])
            } else {
                None
            }),
    {
        self.pmtu.get(ip)
    }

    /// Size of a connection's send buffer.
    pub fn send_buffer_bytes(&self) -> (r: u32)
        ensures
            r == self.cfg.send_buffer_bytes,
    {
        self.cfg.send_buffer_bytes
    }

    /// The generator of initial sequence numbers.
    pub fn iss_gen(&self) -> (r: &IssGen)
        ensures
            *r == self.iss_gen,
    {
        &self.iss_gen
    }

    /// Receive drops when the poll began.
    pub fn rx_drop_nomem_prev(&self) -> (r: u64)
        ensures
            r == self.rx_drop_nomem_prev,
    {
        self.rx_drop_nomem_prev
    }

    /// When the port received a frame, given the flags of its buffer and what
    /// stands at the offset of the time; zero where it did not say.
    pub fn hw_rx_ts_ns(&self, ol_flags: u64, field: u64) -> (r: u64)
        ensures
            r == (if self.rx_timestamp.offset is Some && (
            self.rx_timestamp.flag_mask matches Some(m) && ol_flags & m != 0) {
                field
            } else {
                0
            }),
    {
        if self.rx_timestamp.offset.is_none() {
            return 0;
        }
        match self.rx_timestamp.flag_mask {
            Some(m) => if ol_flags & m != 0 {
                field
            } else {
                0
            },
            None => 0,
        }
    }

    /// Takes over the driver's answer to the query for its statistics; see
    /// `ena_xstats::scrape`.
    pub fn scrape_xstats(&mut self, rc: i32, got: &[u64])
        requires
            old(self).wf(),
            got@.len() == crate::ena_xstats::query_of(old(self).xstat_map.ids@).len(),
        ensures
            *final(self) == (Engine {
                counters: Counters {
                    eth: if got@.len() == 0 || rc == got@.len() {
                        crate::ena_xstats::with_slots(
                            old(self).counters.eth,
                            crate::ena_xstats::scattered(old(self).xstat_map.ids@, got@),
                        )
                    } else {
                        crate::ena_xstats::without_snapshots(old(self).counters.eth)
                    },
                    ..old(self).counters
                },
                ..*old(self)
            }),
    {
        crate::ena_xstats::scrape(&self.xstat_map, rc, got, &mut self.counters);
    }
}

proof fn lemma_next_piece(k: int, m: int, take: int)
    requires
        k >= 0,
        m >= 1,
        1 <= take <= m,
    ensures
        (k * m + take + m - 1) / m == k + 1,
{
    assert((k * m + take + m - 1) / m == k + 1) by (nonlinear_arith)
        requires
            k >= 0,
            m >= 1,
            1 <= take <= m,
    ;
}

/// The engine once a data segment was put in flight; the first one in flight
/// arms the retransmission timer.
pub open spec fn put_on_flight(
    a: Engine,
    b: Engine,
    h: ConnHandle,
    entry: RetransEntry,
    frame_len: int,
    now_ns: u64,
) -> bool {
    let c = a.conn(h);
    exists|mid: Engine| #[trigger]
        segment_queued(a, mid, h, entry, frame_len) && if c.snd_retrans@.len() == 0
            && c.rto_timer_id is None && c.rtt_est.rto > 0 {
            rto_armed(mid, b, h, now_ns + c.rtt_est.rto * 1_000)
        } else {
            b == mid
        }
}

/// A segment in flight can be sent again: it is there, and so is its buffer.
pub open spec fn may_resend(e: Engine, h: ConnHandle, index: usize) -> bool {
    &&& e.has(h)
    &&& index < e.conn(h).snd_retrans@.len()
    &&& !e.conn(h).snd_retrans@[index as int].mbuf.is_none()
}

/// What sending a segment in flight again takes: its payload, under headers
/// that say where the connection stands now.
pub open spec fn is_resend_plan(
    e: Engine,
    h: ConnHandle,
    index: usize,
    now_ns: u64,
    p: RetransPlan,
) -> bool {
    let c = e.conn(h);
    let entry = c.snd_retrans@[index as int];
    &&& p.data == entry.mbuf
    &&& p.len == entry.len
    &&& addressed(p.seg, e, c.four_tuple)
    &&& bare(
        p.seg,
        entry.seq,
        c.rcv_nxt,
        PSH_ACK,
        window_field(c.recv.room_total(), c.ws_shift_out),
    )
    &&& is_data_opts(p.seg.options, c, now_ns)
}

/// The engine once a retransmission was queued under what showed the loss.
pub open spec fn resend_queued(
    a: Engine,
    b: Engine,
    h: ConnHandle,
    index: usize,
    cause: LossCause,
    hdr_mbuf: Mbuf,
    hdr_len: u16,
    now_ns: u64,
) -> bool {
    let c = a.conn(h);
    let d = b.conn(h);
    let e = c.snd_retrans@[index as int];
    &&& conn_replaced(a.flow_table, b.flow_table, h, d)
    &&& d.snd_retrans@ == c.snd_retrans@.update(index as int, resent(e, now_ns))
    &&& d == (TcpConn { snd_retrans: d.snd_retrans, ..c })
    &&& b.tx_pending_data@ == a.tx_pending_data@.push(hdr_mbuf)
    &&& b == (Engine {
        flow_table: b.flow_table,
        tx_pending_data: b.tx_pending_data,
        counters: Counters {
            eth: EthCounters {
                tx_bytes: a.counters.eth.tx_bytes.wrapping_add((hdr_len + e.len) as u64),
                ..a.counters.eth
            },
            tcp: retrans_counted(a.counters.tcp, cause),
            ..a.counters
        },
        ..a
    })
}

/// The engine once a retransmission failed for want of memory.
pub open spec fn resend_refused(a: Engine, b: Engine, h: ConnHandle, now_ns: u64) -> bool {
    &&& b.log() == a.log().with(
        InternalEvent::Error { conn: h, err: (-ENOMEM) as i32, emitted_ts_ns: now_ns },
    )
    &&& b == (Engine {
        events: b.events,
        counters: Counters {
            obs: b.counters.obs,
            eth: EthCounters {
                tx_drop_nomem: a.counters.eth.tx_drop_nomem.wrapping_add(1),
                ..a.counters.eth
            },
            ..a.counters
        },
        ..a
    })
}

/// The engine once a send was finished.
pub open spec fn send_counted(
    a: Engine,
    b: Engine,
    h: ConnHandle,
    accepted: u32,
    refused: bool,
) -> bool {
    &&& conn_replaced(a.flow_table, b.flow_table, h, advanced(a.conn(h), accepted, refused))
    &&& b == (Engine {
        flow_table: b.flow_table,
        counters: Counters {
            tcp: TcpCounters {
                send_buf_full: bumped(a.counters.tcp.send_buf_full, refused),
                tx_payload_bytes: if a.features.obs_byte_counters {
                    a.counters.tcp.tx_payload_bytes.wrapping_add(accepted as u64)
                } else {
                    a.counters.tcp.tx_payload_bytes
                },
                ..a.counters.tcp
            },
            ..a.counters
        },
        ..a
    })
}

/// The run's next segment was queued in a buffer.
pub open spec fn next_queued(
    a: Engine,
    s: SendRun,
    b: Engine,
    t: SendRun,
    mbuf: Mbuf,
    frame_len: u16,
    now_ns: u64,
) -> bool {
    let seg = s.segs@[s.next as int];
    let len = seg.payload@.len() as u16;
    &&& t == (SendRun {
        next: (s.next + 1) as usize,
        accepted: (s.accepted + len) as u32,
        ..s
    })
    &&& put_on_flight(
        a,
        b,
        s.handle,
        queued_entry(seg.seq, len, mbuf, frame_len, now_ns),
        frame_len as int,
        now_ns,
    )
}

/// There was no buffer for the run's next segment.
pub open spec fn send_broken_off(a: Engine, s: SendRun, b: Engine, t: SendRun) -> bool {
    &&& t == (SendRun { stopped: true, ..s })
    &&& b == (Engine {
        counters: Counters {
            eth: EthCounters {
                tx_drop_nomem: a.counters.eth.tx_drop_nomem.wrapping_add(1),
                ..a.counters.eth
            },
            ..a.counters
        },
        ..a
    })
}

/// What a send returns: the bytes accepted, unless there was no buffer for a
/// segment.
pub open spec fn send_result(run: SendRun) -> Result<u32, Error> {
    if run.stopped {
        Err(Error::SendBufferFull)
    } else {
        Ok(run.accepted)
    }
}

/// The engine once a send was finished: the connection stands behind what was
/// queued, whether or not there was a buffer for all of it.
pub open spec fn send_settled(a: Engine, b: Engine, run: SendRun) -> bool {
    if run.stopped && run.accepted == 0 {
        b == a
    } else {
        send_counted(a, b, run.handle, run.accepted, run.accepted < run.offered)
    }
}

/// The record of a data segment that was just queued.
pub open spec fn queued_entry(seq: u32, len: u16, mbuf: Mbuf, frame_len: u16, now_ns: u64) ->
    RetransEntry {
    RetransEntry {
        seq,
        len,
        mbuf,
        first_tx_ts_ns: now_ns,
        xmit_count: 1,
        sacked: false,
        lost: false,
        xmit_ts_ns: now_ns,
        hdrs_len: (frame_len - len) as u16,
    }
}

proof fn lemma_opened_anywhere(
    c: TcpConn,
    e: Engine,
    f: Engine,
    t: FourTuple,
    o: ConnectOpts,
    nic_mtu: u16,
    now_ns: u64,
)
    requires
        is_opened(c, e, t, o, nic_mtu, now_ns),
        e.iss_gen == f.iss_gen,
        e.cfg == f.cfg,
    ensures
        is_opened(c, f, t, o, nic_mtu, now_ns),
{
}

/// What becomes of a connection that is put into the table.
pub open spec fn conn_admitted(
    a: Engine,
    b: Engine,
    conn: TcpConn,
    rack_aggressive: bool,
    rto_no_backoff: bool,
    r: Result<ConnHandle, Error>,
) -> bool {
    let placed = !a.flow_table.is_full();
    &&& r is Ok <==> placed
    &&& if placed {
        &&& !a.has(r->Ok_0)
        &&& b.flow_table@ == a.flow_table@.insert(r->Ok_0, conn)
        &&& b.flow_table.max == a.flow_table.max
    } else {
        r == Err::<ConnHandle, Error>(Error::TooManyConns) && b.flow_table == a.flow_table
    }
    &&& b == (Engine {
        flow_table: b.flow_table,
        counters: Counters {
            tcp: TcpCounters {
                rack_reo_wnd_override_active: bumped(
                    a.counters.tcp.rack_reo_wnd_override_active,
                    placed && rack_aggressive,
                ),
                rto_no_backoff_active: bumped(
                    a.counters.tcp.rto_no_backoff_active,
                    placed && rto_no_backoff,
                ),
                conn_table_full: bumped(a.counters.tcp.conn_table_full, !placed),
                ..a.counters.tcp
            },
            ..a.counters
        },
        ..a
    })
}

/// What becomes of a request to open a connection.
pub open spec fn connect_begun(
    a: Engine,
    b: Engine,
    peer_ip: u32,
    peer_port: u16,
    hint: u16,
    o: ConnectOpts,
    nic_mtu: u16,
    now_ns: u64,
    r: Result<ConnHandle, Error>,
) -> bool {
    if !is_routed(a) {
        r == Err::<ConnHandle, Error>(Error::PeerUnreachable(peer_ip)) && b == a
    } else if source_ip(a, o.local_addr) is None {
        r == Err::<ConnHandle, Error>(Error::InvalidLocalAddr(o.local_addr)) && b == a
    } else {
        let chosen = Engine { last_ephemeral_port: port_after(a, hint), ..a };
        exists|conn: TcpConn|
            #[trigger] is_opened(
                conn,
                a,
                tuple_for(a, peer_ip, peer_port, hint, o),
                o,
                nic_mtu,
                now_ns,
            ) && conn_admitted(chosen, b, conn, o.rack_aggressive, o.rto_no_backoff, r)
    }
}

/// A refused request to connect changes no connection and no timer.
pub proof fn law_refused_connect_changes_no_conn(
    a: Engine,
    b: Engine,
    peer_ip: u32,
    peer_port: u16,
    hint: u16,
    o: ConnectOpts,
    nic_mtu: u16,
    now_ns: u64,
    r: Result<ConnHandle, Error>,
)
    requires
        connect_begun(a, b, peer_ip, peer_port, hint, o, nic_mtu, now_ns, r),
        r is Err,
    ensures
        b.flow_table == a.flow_table,
        b.timer_wheel == a.timer_wheel,
        b.events == a.events,
{
}

/// The engine once the SYN of a connection was sent, before the connection
/// changes its state.
pub open spec fn handshake_begun(a: Engine, b: Engine, h: ConnHandle, now_ns: u64) -> bool {
    let c = a.conn(h);
    let d = b.conn(h);
    &&& conn_replaced(a.flow_table, b.flow_table, h, d)
    &&& is_ws_shift_for(a.cfg.recv_buffer_bytes, d.ws_shift_out)
    &&& d == syn_numbered(c, d.ws_shift_out, now_ns)
    &&& b == (Engine {
        flow_table: b.flow_table,
        counters: Counters {
            tcp: TcpCounters {
                tx_syn: a.counters.tcp.tx_syn.wrapping_add(1),
                ..a.counters.tcp
            },
            ..a.counters
        },
        ..a
    })
}

/// The engine once the SYN of a connection, built at `syn_ns`, was sent.
pub open spec fn handshake_sent(
    a: Engine,
    b: Engine,
    h: ConnHandle,
    syn_ns: u64,
    now_ns: u64,
) -> bool {
    exists|begun: Engine, moved: Engine|
        #![trigger handshake_begun(a, begun, h, syn_ns),
        moved_to(begun, moved, h, TcpState::SynSent, now_ns)]
        {
            &&& handshake_begun(a, begun, h, syn_ns)
            &&& moved_to(begun, moved, h, TcpState::SynSent, now_ns)
            &&& syn_timer_armed(
                moved,
                b,
                h,
                now_ns + handshake_delay_us(a.cfg.tcp_initial_rto_us, a.cfg.tcp_min_rto_us)
                    * 1_000,
            )
            &&& b == (Engine {
                flow_table: b.flow_table,
                timer_wheel: b.timer_wheel,
                ..moved
            })
        }
}

/// The engine once a connection has gone to another state.
pub open spec fn moved_to(a: Engine, b: Engine, h: ConnHandle, to: TcpState, now_ns: u64) -> bool {
    let c = a.conn(h);
    &&& conn_replaced(
        a.flow_table,
        b.flow_table,
        h,
        gone_to(c, to, a.cfg.tcp_msl_ms, now_ns),
    )
    &&& b.log() == a.log().with(
        InternalEvent::StateChange { conn: h, from: c.state, to, emitted_ts_ns: now_ns },
    )
    &&& a.counters.tcp.with_transition(c.state, to, b.counters.tcp.state_trans)
    &&& b == (Engine {
        flow_table: b.flow_table,
        events: b.events,
        counters: Counters {
            obs: b.counters.obs,
            tcp: TcpCounters {
                state_trans: b.counters.tcp.state_trans,
                ..a.counters.tcp
            },
            ..a.counters
        },
        ..a
    })
}

/// The engine once a FIN was sent, before the connection changes its state:
/// the FIN takes one number.
pub open spec fn fin_numbered(a: Engine, b: Engine, h: ConnHandle) -> bool {
    let c = a.conn(h);
    &&& conn_replaced(
        a.flow_table,
        b.flow_table,
        h,
        (TcpConn {
            our_fin_seq: Some(c.snd_nxt),
            snd_nxt: c.snd_nxt.wrapping_add(1),
            ..c
        }),
    )
    &&& b == (Engine {
        flow_table: b.flow_table,
        counters: Counters {
            tcp: TcpCounters {
                tx_fin: a.counters.tcp.tx_fin.wrapping_add(1),
                ..a.counters.tcp
            },
            ..a.counters
        },
        ..a
    })
}

/// An address that was added can be connected from, as could those before it.
pub proof fn law_added_ip_is_usable(a: Engine, b: Engine, ip: u32, other: u32)
    requires
        ip != 0,
        b.cfg == a.cfg,
        b.secondary_local_ips@ == (if ip != a.cfg.local_ip && !a.secondary_local_ips@.contains(
            ip,
        ) {
            a.secondary_local_ips@.push(ip)
        } else {
            a.secondary_local_ips@
        }),
    ensures
        source_ip(b, ip) == Some(ip),
        source_ip(a, other) is Some ==> source_ip(b, other) == source_ip(a, other),
{
    let s = a.secondary_local_ips@;
    assert(s.push(ip)[s.len() as int] == ip);
    if s.contains(other) {
        let k = choose|k: int| 0 <= k < s.len() && s[k] == other;
        assert(s.push(ip)[k] == other);
    }
}

/// The segment is the FIN of a connection.
pub open spec fn is_fin_of(s: SegmentTx, e: Engine, c: TcpConn, now_ns: u64) -> bool {
    &&& addressed(s, e, c.four_tuple)
    &&& bare(
        s,
        c.snd_nxt,
        c.rcv_nxt,
        FIN_ACK,
        window_field(c.recv.room_total(), c.ws_shift_out),
    )
    &&& is_data_opts(s.options, c, now_ns)
}

/// The engine once the FIN of a connection was sent.
pub open spec fn fin_recorded(a: Engine, b: Engine, h: ConnHandle, now_ns: u64) -> bool {
    exists|mid: Engine| #[trigger]
        fin_numbered(a, mid, h) && moved_to(mid, b, h, closing_state(a.conn(h).state)->0, now_ns)
}

/// The engine once the flags that a connection is closed with were taken in.
pub open spec fn close_flags_taken(
    a: Engine,
    b: Engine,
    h: ConnHandle,
    flags: u32,
    now_ns: u64,
) -> bool {
    let skip = flags & CLOSE_FLAG_FORCE_TW_SKIP != 0;
    let may_skip = a.has(h) && a.conn(h).ts_enabled;
    &&& !skip ==> b == a
    &&& skip && may_skip ==> {
        &&& conn_replaced(
            a.flow_table,
            b.flow_table,
            h,
            (TcpConn { force_tw_skip: true, ..a.conn(h) }),
        )
        &&& b == (Engine { flow_table: b.flow_table, ..a })
    }
    &&& skip && !may_skip ==> {
        &&& b.log() == a.log().with(
            InternalEvent::Error { conn: h, err: (-EPERM) as i32, emitted_ts_ns: now_ns },
        )
        &&& b == (Engine {
            events: b.events,
            counters: Counters { obs: b.counters.obs, ..a.counters },
            ..a
        })
    }
}

/// A send begins: its segments carry, in order, as much of the bytes as can be
/// sent now.
pub open spec fn send_begun(
    e: Engine,
    h: ConnHandle,
    bytes: Seq<u8>,
    now_ns: u64,
    r: Result<SendRun, Error>,
) -> bool {
    match r {
        Ok(run) => {
            let c = e.conn(h);
            let total = sendable(c, e.cfg, bytes.len());
            let segs = run.segs@;
            &&& e.has(h)
            &&& c.state == TcpState::Established
            &&& run.wf()
            &&& run.handle == h
            &&& run.next == 0
            &&& run.offered == bytes.len()
            &&& !run.stopped
            &&& segs.len() == (total + mss_cap(c, e.cfg) - 1) / mss_cap(c, e.cfg)
            &&& forall|i: int|
                0 <= i < segs.len() ==> is_data_segment(
                    #[trigger] segs[i],
                    e,
                    c,
                    bytes,
                    total,
                    i,
                    now_ns,
                )
        },
        Err(err) => {
            &&& err == Error::InvalidConnHandle(h as u64)
            &&& !e.has(h) || e.conn(h).state != TcpState::Established
        },
    }
}

/// The FIN that closing a connection sends, or that there is none to send.
pub open spec fn fin_planned(
    e: Engine,
    h: ConnHandle,
    now_ns: u64,
    r: Result<Option<SegmentTx>, Error>,
) -> bool {
    match r {
        Err(err) => err == Error::InvalidConnHandle(h as u64) && !e.has(h),
        Ok(None) => e.has(h) && closing_state(e.conn(h).state) is None,
        Ok(Some(s)) => {
            &&& e.has(h)
            &&& closing_state(e.conn(h).state) is Some
            &&& is_fin_of(s, e, e.conn(h), now_ns)
        },
    }
}

} // verus!
