//! Configuration of an engine and what follows from it alone.
use vstd::arithmetic::power2::pow2;
use vstd::prelude::*;

use crate::error::Error;
use crate::num::{low32, low32_of, max_int, min_int};
use crate::tcp_options::{SackBlock, TcpOpts, MAX_SACK_BLOCKS_EMIT};
use crate::tcp_seq::{precedes, precedes_or_is, seq_le, seq_lt};
use crate::tcp_timer_wheel::{TimerId, TICK_NS};

verus! {

/// Close flag: the connection does not stay in TIME_WAIT.
pub const CLOSE_FLAG_FORCE_TW_SKIP: u32 = 1;

/// Default edges of the round-trip histogram, in microseconds.
pub const DEFAULT_RTT_HISTOGRAM_EDGES_US: [u32; 15] = [
    50,
    100,
    200,
    300,
    500,
    750,
    1000,
    2000,
    3000,
    5000,
    10000,
    25000,
    50000,
    100000,
    500000,
];

/// Each edge is below the next.
pub open spec fn edges_ascend(e: [u32; 15]) -> bool {
    forall|i: int| 0 <= i < 14 ==> #[trigger] e[i] < e[i + 1]
}

/// Every edge is zero.
pub open spec fn edges_unset(e: [u32; 15]) -> bool {
    forall|i: int| 0 <= i < 15 ==> #[trigger] e[i] == 0
}

/// Replaces edges that are all zero by the default ones, and refuses edges
/// that do not ascend.
pub fn validate_and_default_histogram_edges(edges: &[u32; 15]) -> (r: Result<[u32; 15], Error>)
    ensures
        r == (if edges_unset(*edges) {
            Ok::<[u32; 15], Error>(DEFAULT_RTT_HISTOGRAM_EDGES_US)
        } else if edges_ascend(*edges) {
            Ok(*edges)
        } else {
            Err(Error::InvalidHistogramEdges)
        }),
{
    let mut i: usize = 0;
    while i < 15 && edges[i] == 0
        invariant
            i <= 15,
            forall|k: int| 0 <= k < i ==> #[trigger] edges[k] == 0,
        decreases 15 - i,
    {
        i += 1;
    }
    if i == 15 {
        return Ok(DEFAULT_RTT_HISTOGRAM_EDGES_US);
    }
    assert(edges[i as int] != 0);
    let mut k: usize = 0;
    while k < 14
        invariant
            k <= 14,
            !edges_unset(*edges),
            forall|j: int| 0 <= j < k ==> #[trigger] edges[j] < edges[j + 1],
        decreases 14 - k,
    {
        if edges[k] >= edges[k + 1] {
            assert(!(edges[k as int] < edges[k + 1]));
            return Err(Error::InvalidHistogramEdges);
        }
        k += 1;
    }
    Ok(*edges)
}

/// Accepted edges ascend over any distance, the default ones included.
pub proof fn law_accepted_edges_ascend(e: [u32; 15], i: int, j: int)
    requires
        e == DEFAULT_RTT_HISTOGRAM_EDGES_US || edges_ascend(e),
        0 <= i < j < 15,
    ensures
        e[i] < e[j],
    decreases j - i,
{
    assert(edges_ascend(e));
    if i + 1 < j {
        law_accepted_edges_ascend(e, i + 1, j);
    }
    assert(e[i] < e[i + 1]);
}

/// A timer's identifier as one number: slot in the upper half, generation in
/// the lower.
pub open spec fn packed_timer_id(id: TimerId) -> int {
    id.slot * 0x1_0000_0000 + id.generation
}

/// The identifier as one number.
pub fn pack_timer_id(id: TimerId) -> (r: u64)
    ensures
        r == packed_timer_id(id),
{
    let s: u64 = id.slot as u64;
    let g: u64 = id.generation as u64;
    assert((s << 32u64) | g == s * 0x1_0000_0000 + g) by (bit_vector)
        requires
            s <= 0xffff_ffff,
            g <= 0xffff_ffff,
    ;
    (s << 32) | g
}

/// The identifier that a number stands for.
pub fn unpack_timer_id(packed: u64) -> (r: TimerId)
    ensures
        packed_timer_id(r) == packed,
{
    assert((packed >> 32u64) <= 0xffff_ffff && (packed & 0xffff_ffff) <= 0xffff_ffff && (packed
        >> 32u64) * 0x1_0000_0000 + (packed & 0xffff_ffff) == packed) by (bit_vector);
    TimerId { slot: (packed >> 32) as u32, generation: (packed & 0xffff_ffff) as u32 }
}

/// Different identifiers have different numbers, so that unpacking what was
/// packed gives the identifier back.
pub proof fn law_packed_ids_differ(a: TimerId, b: TimerId)
    ensures
        packed_timer_id(a) == packed_timer_id(b) ==> a == b,
        0 <= packed_timer_id(a) <= u64::MAX,
{
}

/// The first tick at or after a deadline; the last representable time where
/// there is none.
pub open spec fn tick_at_or_after(deadline_ns: u64) -> int {
    min_int(
        ((deadline_ns + TICK_NS - 1) / TICK_NS as int) * TICK_NS,
        u64::MAX as int,
    )
}

/// Rounds a deadline up to a tick.
pub fn align_up_to_tick_ns(deadline_ns: u64) -> (r: u64)
    ensures
        r == tick_at_or_after(deadline_ns),
{
    let q: u128 = (deadline_ns as u128 + (TICK_NS - 1) as u128) / TICK_NS as u128;
    let v: u128 = q * TICK_NS as u128;
    if v > u64::MAX as u128 {
        u64::MAX
    } else {
        v as u64
    }
}

/// A rounded deadline is a tick, not before the deadline and less than a tick
/// behind it; only near the end of time it is the end of time instead. A
/// deadline on a tick stays.
pub proof fn law_tick_alignment(deadline_ns: u64)
    ensures
        tick_at_or_after(deadline_ns) >= deadline_ns,
        tick_at_or_after(deadline_ns) < deadline_ns + TICK_NS,
        tick_at_or_after(deadline_ns) % TICK_NS as int == 0 || tick_at_or_after(deadline_ns)
            == u64::MAX,
        deadline_ns % TICK_NS == 0 ==> tick_at_or_after(deadline_ns) == deadline_ns,
{
}

/// The largest window that a shift can express: the largest 16-bit field,
/// shifted.
pub open spec fn window_cap(ws: int) -> int {
    0xffff * (pow2(ws as nat) as int)
}

/// `ws` is the smallest shift, up to 14, whose window covers the buffer.
pub open spec fn is_ws_shift_for(recv_buffer_bytes: u32, ws: u8) -> bool {
    &&& ws <= 14
    &&& ws < 14 ==> window_cap(ws as int) >= recv_buffer_bytes
    &&& forall|k: int| 0 <= k < ws ==> #[trigger] window_cap(k) < recv_buffer_bytes
}

/// The window shift for a receive buffer.
pub fn compute_ws_shift_for(recv_buffer_bytes: u32) -> (r: u8)
    ensures
        is_ws_shift_for(recv_buffer_bytes, r),
{
    let mut ws: u8 = 0;
    let mut cap: u32 = 0xffff;
    proof {
        vstd::arithmetic::power2::lemma_pow2(0);
        vstd::arithmetic::power2::lemma2_to64();
    }
    while cap < recv_buffer_bytes && ws < 14
        invariant
            ws <= 14,
            cap == window_cap(ws as int),
            cap <= 0x3fff_c000,
            forall|k: int| 0 <= k < ws ==> #[trigger] window_cap(k) < recv_buffer_bytes,
        decreases 14 - ws,
    {
        proof {
            vstd::arithmetic::power2::lemma_pow2_unfold((ws + 1) as nat);
            vstd::arithmetic::power2::lemma2_to64();
            assert(window_cap(ws as int) < recv_buffer_bytes);
            if ws == 13 {
                assert(pow2(14) == 0x4000);
            } else {
                vstd::arithmetic::power2::lemma_pow2_strictly_increases((ws + 1) as nat, 14);
            }
        }
        cap = cap * 2;
        ws += 1;
    }
    ws
}

/// A buffer has one shift.
pub proof fn law_ws_shift_unique(recv_buffer_bytes: u32, a: u8, b: u8)
    requires
        is_ws_shift_for(recv_buffer_bytes, a),
        is_ws_shift_for(recv_buffer_bytes, b),
    ensures
        a == b,
{
    if a < b {
        assert(window_cap(a as int) < recv_buffer_bytes);
    } else if b < a {
        assert(window_cap(b as int) < recv_buffer_bytes);
    }
}

/// The options of a SYN sent at `now_ns`.
pub open spec fn is_syn_opts(
    o: TcpOpts,
    recv_buffer_bytes: u32,
    our_mss: u16,
    now_ns: u64,
) -> bool {
    &&& o.wf()
    &&& o.mss == Some(our_mss)
    &&& o.wscale is Some
    &&& is_ws_shift_for(recv_buffer_bytes, o.wscale->0)
    &&& o.sack_permitted
    &&& o.timestamps == Some((low32_of((now_ns / 1000) as int), 0u32))
    &&& o.sack_block_count == 0
    &&& o.sack_blocks@ == Seq::new(3, |i: int| SackBlock { left: 0, right: 0 })
}

/// The options of a SYN: segment size, window scale, SACK permitted, and a
/// timestamp in microseconds with nothing to echo.
pub fn build_connect_syn_opts(recv_buffer_bytes: u32, our_mss: u16, now_ns: u64) -> (r: TcpOpts)
    ensures
        is_syn_opts(r, recv_buffer_bytes, our_mss, now_ns),
{
    let mut o: TcpOpts = TcpOpts::default();
    o.mss = Some(our_mss);
    o.wscale = Some(compute_ws_shift_for(recv_buffer_bytes));
    o.sack_permitted = true;
    o.timestamps = Some((low32(now_ns / 1000), 0));
    o
}

/// Window and options of an ACK, and what to count for it.
#[derive(Debug, Clone, Copy)]
pub struct AckOutcome {
    pub window: u16,
    pub opts: TcpOpts,
    pub zero_window: bool,
    pub sack_blocks_emitted: u32,
}

/// The range that a number falls in.
pub open spec fn range_holds(r: (u32, u32), t: u32) -> bool {
    precedes_or_is(r.0, t) && precedes(t, r.1)
}

/// `idx` is the first range that holds the start of the trigger; the number of
/// ranges if none does.
pub open spec fn is_trigger_index(
    ranges: Seq<(u32, u32)>,
    trigger: Option<(u32, u32)>,
    idx: int,
) -> bool {
    &&& 0 <= idx <= ranges.len()
    &&& trigger is None ==> idx == ranges.len()
    &&& trigger is Some ==> {
        &&& idx < ranges.len() ==> range_holds(ranges[idx], (trigger->0).0)
        &&& forall|k: int| 0 <= k < idx ==> !range_holds(#[trigger] ranges[k], (trigger->0).0)
    }
}

/// The SACK blocks for ranges of which `idx` is the one that triggered the
/// ACK: that one first, the others from the highest down, three at most.
pub open spec fn sack_order(ranges: Seq<(u32, u32)>, idx: int) -> Seq<SackBlock> {
    let first = if idx < ranges.len() {
        seq![ranges[idx]] + ranges.remove(idx).reverse()
    } else {
        ranges.reverse()
    };
    blocks_of(first.take(min_int(first.len() as int, MAX_SACK_BLOCKS_EMIT as int)))
}

/// Ranges as SACK blocks.
pub open spec fn blocks_of(ranges: Seq<(u32, u32)>) -> Seq<SackBlock> {
    Seq::new(ranges.len(), |i: int| SackBlock { left: ranges[i].0, right: ranges[i].1 })
}

/// The window field for some free space: scaled, and no more than 16 bits.
pub open spec fn window_field(free_space: u32, ws_shift_out: u8) -> u16 {
    min_int((free_space >> (ws_shift_out as u32)) as int, u16::MAX as int) as u16
}

fn trigger_index(ranges: &[(u32, u32)], trigger: Option<(u32, u32)>) -> (r: usize)
    ensures
        is_trigger_index(ranges@, trigger, r as int),
{
    match trigger {
        None => ranges.len(),
        Some((t, _)) => {
            let mut i: usize = 0;
            while i < ranges.len()
                invariant
                    i <= ranges@.len(),
                    trigger is Some,
                    (trigger->0).0 == t,
                    forall|k: int| 0 <= k < i ==> !range_holds(#[trigger] ranges@[k], t),
                decreases ranges@.len() - i,
            {
                let (left, right) = ranges[i];
                if seq_le(left, t) && seq_lt(t, right) {
                    return i;
                }
                i += 1;
            }
            i
        },
    }
}

/// `o` is the window and option bundle of an ACK.
pub open spec fn is_ack_outcome(
    o: AckOutcome,
    ws_shift_out: u8,
    ts_enabled: bool,
    ts_recent: u32,
    now_us: u32,
    sack_enabled: bool,
    ranges: Seq<(u32, u32)>,
    trigger: Option<(u32, u32)>,
    free_space: u32,
) -> bool {
    &&& o.window == window_field(free_space, ws_shift_out)
    &&& o.zero_window == (free_space == 0)
    &&& o.opts.wf()
    &&& o.opts.mss is None
    &&& o.opts.wscale is None
    &&& !o.opts.sack_permitted
    &&& o.opts.timestamps == (if ts_enabled {
        Some((now_us, ts_recent))
    } else {
        None
    })
    &&& o.sack_blocks_emitted == o.opts.sacks().len()
    &&& if sack_enabled {
        exists|idx: int| #[trigger]
            is_trigger_index(ranges, trigger, idx) && o.opts.sacks() == sack_order(ranges, idx)
    } else {
        o.opts.sacks().len() == 0
    }
}

/// Window and options of an ACK that is no SYN.
pub fn build_ack_outcome(
    ws_shift_out: u8,
    ts_enabled: bool,
    ts_recent: u32,
    now_us: u32,
    sack_enabled: bool,
    reorder_segments: &[(u32, u32)],
    trigger_range: Option<(u32, u32)>,
    free_space: u32,
) -> (r: AckOutcome)
    requires
        ws_shift_out < 32,
    ensures
        is_ack_outcome(
            r,
            ws_shift_out,
            ts_enabled,
            ts_recent,
            now_us,
            sack_enabled,
            reorder_segments@,
            trigger_range,
            free_space,
        ),
{
    let scaled: u32 = free_space >> (ws_shift_out as u32);
    let window: u16 = if scaled > 0xffff {
        0xffff
    } else {
        scaled as u16
    };
    let mut opts: TcpOpts = TcpOpts::default();
    if ts_enabled {
        opts.timestamps = Some((now_us, ts_recent));
    }
    if sack_enabled {
        let idx: usize = trigger_index(reorder_segments, trigger_range);
        let n: usize = reorder_segments.len();
        let ghost ranges = reorder_segments@;
        let ghost rest = if idx < n {
            ranges.remove(idx as int).reverse()
        } else {
            ranges.reverse()
        };
        let ghost order = if idx < n {
            seq![ranges[idx as int]] + rest
        } else {
            rest
        };
        if idx < n {
            let (left, right) = reorder_segments[idx];
            let _ = opts.push_sack_block(SackBlock { left, right });
            assert(opts.sacks() =~= blocks_of(order.take(1)));
        }
        let mut i: usize = n;
        let ghost head: int = if idx < n {
            1
        } else {
            0
        };
        assert(opts.sacks() =~= blocks_of(order.take(head)));
        while i > 0 && opts.sack_block_count < 3
            invariant
                i <= n,
                n == reorder_segments@.len(),
                ranges == reorder_segments@,
                idx <= n,
                opts.wf(),
                opts.mss is None,
                opts.wscale is None,
                !opts.sack_permitted,
                opts.timestamps == (if ts_enabled {
                    Some((now_us, ts_recent))
                } else {
                    None
                }),
                order == (if idx < n {
                    seq![ranges[idx as int]] + rest
                } else {
                    rest
                }),
                rest == (if idx < n {
                    ranges.remove(idx as int).reverse()
                } else {
                    ranges.reverse()
                }),
                opts.sack_block_count == (n - i) + (if idx < i && idx < n {
                    1int
                } else {
                    0
                }),
                opts.sacks() == blocks_of(order.take(opts.sack_block_count as int)),
            decreases i,
        {
            i -= 1;
            if i != idx {
                let (left, right) = reorder_segments[i];
                let ghost c = opts.sack_block_count as int;
                let ghost before = opts.sacks();
                let _ = opts.push_sack_block(SackBlock { left, right });
                proof {
                    assert(order[c] == ranges[i as int]);
                    assert(opts.sacks() =~= blocks_of(order.take(c + 1)));
                }
            }
        }
        proof {
            assert(opts.sack_block_count == min_int(order.len() as int, 3));
            assert(is_trigger_index(ranges, trigger_range, idx as int));
            assert(opts.sacks() == sack_order(ranges, idx as int));
        }
    }
    let emitted: u32 = opts.sack_block_count as u32;
    assert(free_space >> 0u32 == free_space) by (bit_vector);
    AckOutcome { window, opts, zero_window: free_space == 0, sack_blocks_emitted: emitted }
}

/// An ACK reports what triggered it first, and never more than three ranges,
/// each of them received.
pub proof fn law_sack_order(ranges: Seq<(u32, u32)>, idx: int, i: int)
    requires
        0 <= idx <= ranges.len(),
        0 <= i < sack_order(ranges, idx).len(),
    ensures
        sack_order(ranges, idx).len() == min_int(ranges.len() as int, 3),
        idx < ranges.len() ==> sack_order(ranges, idx)[0] == blocks_of(ranges)[idx],
        exists|k: int|
            0 <= k < ranges.len() && #[trigger] blocks_of(ranges)[k] == sack_order(ranges, idx)[i],
{
    let first = if idx < ranges.len() {
        seq![ranges[idx]] + ranges.remove(idx).reverse()
    } else {
        ranges.reverse()
    };
    let k = if idx < ranges.len() {
        if i == 0 {
            idx
        } else {
            let m = ranges.len() - 1 - i;
            if m < idx {
                m
            } else {
                m + 1
            }
        }
    } else {
        ranges.len() - 1 - i
    };
    assert(first[i] == ranges[k]);
    assert(blocks_of(ranges)[k] == sack_order(ranges, idx)[i]);
}

/// Settings of an engine. Addresses are in host byte order.
#[derive(Debug, Clone)]
pub struct EngineConfig {
    pub lcore_id: u16,
    pub port_id: u16,
    pub rx_queue_id: u16,
    pub tx_queue_id: u16,
    pub rx_ring_size: u16,
    pub tx_ring_size: u16,
    pub mbuf_data_room: u16,
    /// Buffers in the receive pool; 0 stands for a size that follows from the
    /// other settings.
    pub rx_mempool_size: u32,
    pub local_ip: u32,
    /// Further addresses that a connection may be opened from.
    pub secondary_local_ips: Vec<u32>,
    pub gateway_ip: u32,
    pub gateway_mac: [u8; 6],
    /// Seconds between gratuitous announcements; 0 for none.
    pub garp_interval_sec: u32,
    pub max_connections: u32,
    pub recv_buffer_bytes: u32,
    pub send_buffer_bytes: u32,
    pub tcp_mss: u32,
    /// Maximum segment lifetime, in milliseconds.
    pub tcp_msl_ms: u32,
    pub tcp_nagle: bool,
    pub tcp_delayed_ack: bool,
    /// Congestion control: 0 for none, 1 for Reno.
    pub cc_mode: u8,
    pub tcp_min_rto_us: u32,
    pub tcp_initial_rto_us: u32,
    pub tcp_max_rto_us: u32,
    /// How often a segment may be sent again before the connection is given
    /// up. Every retransmission counts, whatever showed the loss: the timer,
    /// a later acknowledgement or a probe. The count is held against this
    /// number when the retransmission timer fires.
    pub tcp_max_retrans_count: u32,
    /// Events are raised for every retransmission and every loss.
    pub tcp_per_packet_events: bool,
    pub event_queue_soft_cap: u32,
    /// Edges of the round-trip histogram; all zero for the default ones.
    pub rtt_histogram_bucket_edges_us: [u32; 15],
    /// The driver was asked for large low-latency-queue headers.
    pub ena_large_llq_hdr: u8,
    /// Seconds until the driver gives up on a transmission; 0 for its default.
    pub ena_miss_txc_to_sec: u8,
}

/// `c` is the default configuration.
pub open spec fn is_default_config(c: EngineConfig) -> bool {
    &&& c.lcore_id == 0
    &&& c.port_id == 0
    &&& c.rx_queue_id == 0
    &&& c.tx_queue_id == 0
    &&& c.rx_ring_size == 1024
    &&& c.tx_ring_size == 1024
    &&& c.mbuf_data_room == 2048
    &&& c.rx_mempool_size == 0
    &&& c.local_ip == 0
    &&& c.secondary_local_ips@ == Seq::<u32>::empty()
    &&& c.gateway_ip == 0
    &&& c.gateway_mac@ == Seq::new(6, |i: int| 0u8)
    &&& c.garp_interval_sec == 0
    &&& c.max_connections == 16
    &&& c.recv_buffer_bytes == 262_144
    &&& c.send_buffer_bytes == 262_144
    &&& c.tcp_mss == 1460
    &&& c.tcp_msl_ms == 30_000
    &&& !c.tcp_nagle
    &&& !c.tcp_delayed_ack
    &&& c.cc_mode == 0
    &&& c.tcp_min_rto_us == 5_000
    &&& c.tcp_initial_rto_us == 5_000
    &&& c.tcp_max_rto_us == 1_000_000
    &&& c.tcp_max_retrans_count == 15
    &&& !c.tcp_per_packet_events
    &&& c.event_queue_soft_cap == 4096
    &&& edges_unset(c.rtt_histogram_bucket_edges_us)
    &&& c.ena_large_llq_hdr == 0
    &&& c.ena_miss_txc_to_sec == 0
}

impl Default for EngineConfig {
    fn default() -> (r: Self)
        ensures
            is_default_config(r),
    {
        let r = EngineConfig {
            lcore_id: 0,
            port_id: 0,
            rx_queue_id: 0,
            tx_queue_id: 0,
            rx_ring_size: 1024,
            tx_ring_size: 1024,
            mbuf_data_room: 2048,
            rx_mempool_size: 0,
            local_ip: 0,
            secondary_local_ips: Vec::new(),
            gateway_ip: 0,
            gateway_mac: [0; 6],
            garp_interval_sec: 0,
            max_connections: 16,
            recv_buffer_bytes: 262_144,
            send_buffer_bytes: 262_144,
            tcp_mss: 1460,
            tcp_msl_ms: 30_000,
            tcp_nagle: false,
            tcp_delayed_ack: false,
            cc_mode: 0,
            tcp_min_rto_us: 5_000,
            tcp_initial_rto_us: 5_000,
            tcp_max_rto_us: 1_000_000,
            tcp_max_retrans_count: 15,
            tcp_per_packet_events: false,
            event_queue_soft_cap: 4096,
            rtt_histogram_bucket_edges_us: [0; 15],
            ena_large_llq_hdr: 0,
            ena_miss_txc_to_sec: 0,
        };
        assert(r.gateway_mac@ =~= Seq::new(6, |i: int| 0u8));
        r
    }
}

/// The names of the settings, in the order of their declaration.
pub const ENGINE_CONFIG_FIELD_NAMES: [&'static str; 30] = [
    "lcore_id",
    "port_id",
    "rx_queue_id",
    "tx_queue_id",
    "rx_ring_size",
    "tx_ring_size",
    "mbuf_data_room",
    "rx_mempool_size",
    "local_ip",
    "secondary_local_ips",
    "gateway_ip",
    "gateway_mac",
    "garp_interval_sec",
    "max_connections",
    "recv_buffer_bytes",
    "send_buffer_bytes",
    "tcp_mss",
    "tcp_msl_ms",
    "tcp_nagle",
    "tcp_delayed_ack",
    "cc_mode",
    "tcp_min_rto_us",
    "tcp_initial_rto_us",
    "tcp_max_rto_us",
    "tcp_max_retrans_count",
    "tcp_per_packet_events",
    "event_queue_soft_cap",
    "rtt_histogram_bucket_edges_us",
    "ena_large_llq_hdr",
    "ena_miss_txc_to_sec",
];

/// Settings of one connection.
#[derive(Debug, Clone, Copy, PartialEq, Eq, Structural)]
pub struct ConnectOpts {
    /// Losses are detected without tolerance for reordering.
    pub rack_aggressive: bool,
    /// The timeout does not double on a retransmission.
    pub rto_no_backoff: bool,
    pub tlp_pto_min_floor_us: u32,
    pub tlp_pto_srtt_multiplier_x100: u16,
    pub tlp_skip_flight_size_gate: bool,
    pub tlp_max_consecutive_probes: u8,
    pub tlp_skip_rtt_sample_gate: bool,
    /// Address to connect from; 0 for the primary one.
    pub local_addr: u32,
}

impl Default for ConnectOpts {
    fn default() -> (r: Self)
        ensures
            r == (ConnectOpts {
                rack_aggressive: false,
                rto_no_backoff: false,
                tlp_pto_min_floor_us: 0,
                tlp_pto_srtt_multiplier_x100: 0,
                tlp_skip_flight_size_gate: false,
                tlp_max_consecutive_probes: 0,
                tlp_skip_rtt_sample_gate: false,
                local_addr: 0,
            }),
    {
        ConnectOpts {
            rack_aggressive: false,
            rto_no_backoff: false,
            tlp_pto_min_floor_us: 0,
            tlp_pto_srtt_multiplier_x100: 0,
            tlp_skip_flight_size_gate: false,
            tlp_max_consecutive_probes: 0,
            tlp_skip_rtt_sample_gate: false,
            local_addr: 0,
        }
    }
}

/// Whether an address is in a list.
pub fn holds_ip(ips: &[u32], ip: u32) -> (r: bool)
    ensures
        r == ips@.contains(ip),
{
    let mut i: usize = 0;
    while i < ips.len()
        invariant
            i <= ips@.len(),
            forall|k: int| 0 <= k < i ==> #[trigger] ips@[k] != ip,
        decreases ips@.len() - i,
    {
        if ips[i] == ip {
            assert(ips@[i as int] == ip);
            return true;
        }
        i += 1;
    }
    false
}

/// The address that a connection is opened from: the primary one unless
/// another of ours is asked for; an address that is not ours is refused.
pub fn select_source_ip(requested: u32, local_ip: u32, secondaries: &[u32]) -> (r: Result<
    u32,
    Error,
>)
    ensures
        r == (if requested == 0 {
            Ok::<u32, Error>(local_ip)
        } else if requested == local_ip || secondaries@.contains(requested) {
            Ok(requested)
        } else {
            Err(Error::InvalidLocalAddr(requested))
        }),
{
    if requested == 0 {
        return Ok(local_ip);
    }
    if requested == local_ip || holds_ip(secondaries, requested) {
        return Ok(requested);
    }
    Err(Error::InvalidLocalAddr(requested))
}

/// Buffers in the receive pool: what the configuration says or, where it says
/// nothing, twice what every connection's receive buffer takes, with a
/// cushion, and at least four times the ring.
pub open spec fn rx_pool_size_for(cfg: EngineConfig) -> int {
    if cfg.rx_mempool_size > 0 {
        cfg.rx_mempool_size as int
    } else {
        let room = cfg.mbuf_data_room as int;
        let per_conn = min_int(
            cfg.recv_buffer_bytes + max_int(room - 1, 0),
            u32::MAX as int,
        ) / max_int(room, 1);
        let computed = min_int(
            min_int(min_int(2 * cfg.max_connections, u32::MAX as int) * per_conn, u32::MAX as int)
                + 4096,
            u32::MAX as int,
        );
        max_int(computed, 4 * cfg.rx_ring_size)
    }
}

fn saturating_product(a: u32, b: u32) -> (r: u32)
    ensures
        r == min_int(a * b, u32::MAX as int),
{
    assert(0 <= a * b <= 0xffff_ffff * 0xffff_ffff) by (nonlinear_arith)
        requires
            0 <= a <= 0xffff_ffff,
            0 <= b <= 0xffff_ffff,
    ;
    let p: u64 = a as u64 * b as u64;
    if p > u32::MAX as u64 {
        u32::MAX
    } else {
        p as u32
    }
}

/// The size of the receive pool.
pub fn resolve_rx_mempool_size(cfg: &EngineConfig) -> (r: u32)
    ensures
        r == rx_pool_size_for(*cfg),
{
    if cfg.rx_mempool_size > 0 {
        return cfg.rx_mempool_size;
    }
    let room: u32 = cfg.mbuf_data_room as u32;
    let divisor: u32 = if room == 0 {
        1
    } else {
        room
    };
    let per_conn: u32 = cfg.recv_buffer_bytes.saturating_add(room.saturating_sub(1)) / divisor;
    let computed: u32 = saturating_product(
        saturating_product(2, cfg.max_connections),
        per_conn,
    ).saturating_add(4096);
    let floor: u32 = saturating_product(4, cfg.rx_ring_size as u32);
    if computed >= floor {
        computed
    } else {
        floor
    }
}

/// Timer slots to set aside: one per segment that can be in flight, at least
/// four per connection, and some slack.
pub fn timer_slot_hint(cfg: &EngineConfig) -> (r: usize)
    ensures
        r == min_int(
            min_int(
                cfg.max_connections * max_int(
                    cfg.send_buffer_bytes as int / max_int(cfg.tcp_mss as int, 1),
                    4,
                ),
                usize::MAX as int,
            ) + 16,
            usize::MAX as int,
        ),
{
    let mss: u32 = if cfg.tcp_mss == 0 {
        1
    } else {
        cfg.tcp_mss
    };
    let q: u32 = cfg.send_buffer_bytes / mss;
    let per_conn: u32 = if q < 4 {
        4
    } else {
        q
    };
    let conns: u32 = cfg.max_connections;
    assert(0 <= conns * per_conn <= 0xffff_ffff * 0xffff_ffff) by (nonlinear_arith)
        requires
            0 <= conns <= 0xffff_ffff,
            0 <= per_conn <= 0xffff_ffff,
    ;
    let p: u64 = conns as u64 * per_conn as u64;
    let product: usize = if p > usize::MAX as u64 {
        usize::MAX
    } else {
        p as usize
    };
    product.saturating_add(16)
}

} // verus!
