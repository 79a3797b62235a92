//! What an engine is set up with: settings, pools, and what a port is asked for.
use vstd::prelude::*;

use crate::counters::Counters;
use crate::engine_config::{
    align_up_to_tick_ns, build_connect_syn_opts, resolve_rx_mempool_size, timer_slot_hint,
    validate_and_default_histogram_edges, EngineConfig,
};
use crate::engine_port::{
    check_port_step, configure_port_offloads, engine_pools, has_port, next_stage,
    program_rss_reta_single_queue, resolve_rx_timestamp, rss_hash_functions, BringUpStage,
    EnginePools, Features, PortCaps, PortConfigOutcome, PortStep, RxTimestamp,
};
use crate::error::Error;
use crate::tcp_laws::once;
use crate::tcp_options::TcpOpts;

verus! {

/// A port is asked for what the engine wants and the port offers, bit by bit,
/// and what the engine wants in vain is counted. Checksums and the hash are
/// left to the port only where all that they need was granted.
pub proof fn law_port_is_asked(
    cfg: EngineConfig,
    f: Features,
    caps: PortCaps,
    driver: &[u8],
    counters: &mut Counters,
    r: PortConfigOutcome,
)
    requires
        call_ensures(configure_port_offloads, (&cfg, &f, &caps, driver, counters), r),
    ensures
        r.applied_tx_offloads & 0x8000 != 0 <==> caps.tx_offload_capa & 0x8000 != 0,
        r.applied_tx_offloads & 0x4000 != 0 <==> f.hw_offload_mbuf_fast_free
            && caps.tx_offload_capa & 0x4000 != 0,
        r.applied_tx_offloads & 2 != 0 <==> f.hw_offload_tx_cksum && caps.tx_offload_capa & 2 != 0,
        r.applied_tx_offloads & 8 != 0 <==> f.hw_offload_tx_cksum && caps.tx_offload_capa & 8 != 0,
        r.applied_tx_offloads & 4 != 0 <==> f.hw_offload_tx_cksum && caps.tx_offload_capa & 4 != 0,
        r.applied_tx_offloads & !0xc00e == 0,
        r.applied_rx_offloads & 2 != 0 <==> f.hw_offload_rx_cksum && caps.rx_offload_capa & 2 != 0,
        r.applied_rx_offloads & 8 != 0 <==> f.hw_offload_rx_cksum && caps.rx_offload_capa & 8 != 0,
        r.applied_rx_offloads & 4 != 0 <==> f.hw_offload_rx_cksum && caps.rx_offload_capa & 4 != 0,
        r.applied_rx_offloads & 0x8_0000 != 0 <==> f.hw_offload_rss_hash && caps.rx_offload_capa
            & 0x8_0000 != 0,
        r.applied_rx_offloads & !0x8_000e == 0,
        r.tx_cksum_offload_active <==> r.applied_tx_offloads & 2 != 0 && r.applied_tx_offloads & 8
            != 0,
        r.rx_cksum_offload_active <==> r.applied_rx_offloads & 2 != 0 && r.applied_rx_offloads & 8
            != 0,
        r.rss_hash_offload_active <==> r.applied_rx_offloads & 0x8_0000 != 0,
{
    let t = caps.tx_offload_capa;
    let x = caps.rx_offload_capa;
    let (ff, tc, rc, rs) = (
        f.hw_offload_mbuf_fast_free,
        f.hw_offload_tx_cksum,
        f.hw_offload_rx_cksum,
        f.hw_offload_rss_hash,
    );
    let a = r.applied_tx_offloads;
    let b = r.applied_rx_offloads;
    let t0: u64 = if 0x8000u64 & t == 0 {
        0
    } else {
        0x8000
    };
    let t1: u64 = if !ff || 0x4000u64 & t == 0 {
        0
    } else {
        0x4000
    };
    let t2: u64 = if !tc || 2u64 & t == 0 {
        0
    } else {
        2
    };
    let t3: u64 = if !tc || 8u64 & t == 0 {
        0
    } else {
        8
    };
    let t4: u64 = if !tc || 4u64 & t == 0 {
        0
    } else {
        4
    };
    assert(a == t0 | t1 | (t2 | t3 | t4));
    assert({
        &&& a & 0x8000 != 0 <==> t & 0x8000 != 0
        &&& a & 0x4000 != 0 <==> ff && t & 0x4000 != 0
        &&& a & 2 != 0 <==> tc && t & 2 != 0
        &&& a & 8 != 0 <==> tc && t & 8 != 0
        &&& a & 4 != 0 <==> tc && t & 4 != 0
        &&& a & !0xc00e == 0
        &&& 2u64 & t == t & 2
        &&& 8u64 & t == t & 8
    }) by (bit_vector)
        requires
            a == t0 | t1 | (t2 | t3 | t4),
            t0 == 0 && 0x8000u64 & t == 0 || t0 == 0x8000 && 0x8000u64 & t != 0,
            t1 == 0 && (!ff || 0x4000u64 & t == 0) || t1 == 0x4000 && ff && 0x4000u64 & t != 0,
            t2 == 0 && (!tc || 2u64 & t == 0) || t2 == 2 && tc && 2u64 & t != 0,
            t3 == 0 && (!tc || 8u64 & t == 0) || t3 == 8 && tc && 8u64 & t != 0,
            t4 == 0 && (!tc || 4u64 & t == 0) || t4 == 4 && tc && 4u64 & t != 0,
    ;
    let r0: u64 = if !rc || 2u64 & x == 0 {
        0
    } else {
        2
    };
    let r1: u64 = if !rc || 8u64 & x == 0 {
        0
    } else {
        8
    };
    let r2: u64 = if !rc || 4u64 & x == 0 {
        0
    } else {
        4
    };
    let r3: u64 = if !rs || 0x8_0000u64 & x == 0 {
        0
    } else {
        0x8_0000
    };
    assert(b == r0 | r1 | r2 | r3);
    assert({
        &&& b & 2 != 0 <==> rc && x & 2 != 0
        &&& b & 8 != 0 <==> rc && x & 8 != 0
        &&& b & 4 != 0 <==> rc && x & 4 != 0
        &&& b & 0x8_0000 != 0 <==> rs && x & 0x8_0000 != 0
        &&& b & !0x8_000e == 0
        &&& 2u64 & x == x & 2
        &&& 8u64 & x == x & 8
        &&& 0x8_0000u64 & x == x & 0x8_0000
    }) by (bit_vector)
        requires
            b == r0 | r1 | r2 | r3,
            r0 == 0 && (!rc || 2u64 & x == 0) || r0 == 2 && rc && 2u64 & x != 0,
            r1 == 0 && (!rc || 8u64 & x == 0) || r1 == 8 && rc && 8u64 & x != 0,
            r2 == 0 && (!rc || 4u64 & x == 0) || r2 == 4 && rc && 4u64 & x != 0,
            r3 == 0 && (!rs || 0x8_0000u64 & x == 0) || r3 == 0x8_0000 && rs && 0x8_0000u64 & x
                != 0,
    ;
}

/// Each thing that the engine wants and the port does not offer adds one to its
/// own counter; what the port offers, or the engine does not want, to none.
pub proof fn law_misses_counted(
    cfg: EngineConfig,
    f: Features,
    caps: PortCaps,
    driver: &[u8],
    counters: &mut Counters,
    r: PortConfigOutcome,
)
    requires
        call_ensures(configure_port_offloads, (&cfg, &f, &caps, driver, counters), r),
    ensures
        ({
            let was = old(counters).eth;
            let is = final(counters).eth;
            let t = caps.tx_offload_capa;
            let x = caps.rx_offload_capa;
            &&& is.offload_missing_mbuf_fast_free
                == was.offload_missing_mbuf_fast_free.wrapping_add(
                once(f.hw_offload_mbuf_fast_free && 0x4000 & t == 0),
            )
            &&& is.offload_missing_tx_cksum_ipv4 == was.offload_missing_tx_cksum_ipv4.wrapping_add(
                once(f.hw_offload_tx_cksum && 2 & t == 0),
            )
            &&& is.offload_missing_tx_cksum_tcp == was.offload_missing_tx_cksum_tcp.wrapping_add(
                once(f.hw_offload_tx_cksum && 8 & t == 0),
            )
            &&& is.offload_missing_tx_cksum_udp == was.offload_missing_tx_cksum_udp.wrapping_add(
                once(f.hw_offload_tx_cksum && 4 & t == 0),
            )
            &&& is.offload_missing_rx_cksum_ipv4 == was.offload_missing_rx_cksum_ipv4.wrapping_add(
                once(f.hw_offload_rx_cksum && 2 & x == 0),
            )
            &&& is.offload_missing_rx_cksum_tcp == was.offload_missing_rx_cksum_tcp.wrapping_add(
                once(f.hw_offload_rx_cksum && 8 & x == 0),
            )
            &&& is.offload_missing_rx_cksum_udp == was.offload_missing_rx_cksum_udp.wrapping_add(
                once(f.hw_offload_rx_cksum && 4 & x == 0),
            )
            &&& is.offload_missing_rss_hash == was.offload_missing_rss_hash.wrapping_add(
                once(f.hw_offload_rss_hash && 0x8_0000 & x == 0),
            )
            &&& is.offload_missing_rx_timestamp == was.offload_missing_rx_timestamp
            &&& is.rx_pkts == was.rx_pkts
            &&& is.tx_pkts == was.tx_pkts
            &&& cfg.ena_large_llq_hdr != 0 ==> is.llq_header_overflow_risk
                == was.llq_header_overflow_risk
            &&& final(counters).tcp == old(counters).tcp
            &&& final(counters).ip == old(counters).ip
        }),
{
}

/// The redirection table sends every received segment to the one queue: each
/// group of sixty-four entries is written whole, and the groups cover the table.
pub proof fn law_one_queue(size: u16, r: Option<Vec<u64>>, active: bool, functions: u64)
    requires
        call_ensures(program_rss_reta_single_queue, (size,), r),
        call_ensures(rss_hash_functions, (active,), functions),
    ensures
        size == 0 <==> r is None,
        r matches Some(groups) ==> {
            &&& 64 * groups@.len() >= size
            &&& 64 * groups@.len() < size + 64
        },
        !active ==> functions == 0,
        active ==> functions == 0x8_2000,
{
    assert(0x2000u64 | 0x8_0000u64 == 0x8_2000) by (bit_vector);
}

/// Asking and addressing answer zero where they succeed, and starting and
/// setting up queues a number that is not negative. Each failure names its
/// step, the port, and what is known of the cause.
pub proof fn law_port_steps(step: PortStep, port: u16, rc: i32, errno: i32, r: Result<(), Error>)
    requires
        call_ensures(check_port_step, (step, port, rc, errno), r),
    ensures
        rc == 0 ==> r is Ok,
        rc < 0 ==> r is Err,
        rc > 0 ==> (r is Err <==> step is Info || step is Configure || step is MacAddr),
        r is Err ==> match step {
            PortStep::Info => r->Err_0 == Error::PortInfo(port, rc),
            PortStep::Configure => r->Err_0 == Error::PortConfigure(port, errno),
            PortStep::RxQueueSetup => r->Err_0 == Error::RxQueueSetup(port, errno),
            PortStep::TxQueueSetup => r->Err_0 == Error::TxQueueSetup(port, errno),
            PortStep::Start => r->Err_0 == Error::PortStart(port, errno),
            PortStep::MacAddr => r->Err_0 == Error::MacAddrLookup(port, errno),
        },
{
}

/// The place of receive times is used as far as it was found; where a part of
/// it is missing, that is counted once.
pub proof fn law_receive_times(
    enabled: bool,
    offset: i32,
    bit: i32,
    counters: &mut Counters,
    r: RxTimestamp,
)
    requires
        bit < 64,
        call_ensures(resolve_rx_timestamp, (enabled, offset, bit, counters), r),
    ensures
        r.offset is Some <==> enabled && offset >= 0,
        r.offset is Some ==> r.offset->0 == offset,
        r.flag_mask is Some <==> enabled && bit >= 0,
        r.flag_mask is Some ==> r.flag_mask->0 == vstd::arithmetic::power2::pow2(bit as nat),
        final(counters).eth.offload_missing_rx_timestamp
            == old(counters).eth.offload_missing_rx_timestamp.wrapping_add(once(enabled
                && (offset < 0 || bit < 0))),
        final(counters).eth.rx_pkts == old(counters).eth.rx_pkts,
        final(counters).tcp == old(counters).tcp,
{
    if bit >= 0 {
        let b = bit as u64;
        vstd::bits::lemma_u64_pow2_no_overflow(b as nat);
        vstd::bits::lemma_u64_shl_is_mul(1, b);
    }
}

/// Received frames and data to send have room for the engine's frames and the
/// headroom; headers have a small pool of their own.
pub proof fn law_pools(cfg: EngineConfig, headroom: u16, r: EnginePools, size: u32)
    requires
        cfg.mbuf_data_room + headroom <= u16::MAX,
        call_ensures(engine_pools, (&cfg, headroom), r),
        call_ensures(resolve_rx_mempool_size, (&cfg,), size),
    ensures
        r.rx.data_room_size == cfg.mbuf_data_room + headroom,
        r.tx_data.data_room_size == cfg.mbuf_data_room + headroom,
        r.tx_hdr.data_room_size == 256,
        r.rx.n_elements == size,
        r.tx_hdr.n_elements == 2048,
        r.tx_data.n_elements == 4096,
        r.rx.priv_size == 0 && r.tx_hdr.priv_size == 0 && r.tx_data.priv_size == 0,
        r.rx.cache_size == 256 && r.tx_hdr.cache_size == 64 && r.tx_data.cache_size == 128,
{
}

/// A size that was given for the receive pool is taken. Otherwise the pool
/// holds four rings, and two receive buffers of every connection beside 4096
/// more, as far as the numbers go.
pub proof fn law_receive_pool_suffices(cfg: EngineConfig, r: u32)
    requires
        call_ensures(resolve_rx_mempool_size, (&cfg,), r),
    ensures
        cfg.rx_mempool_size > 0 ==> r == cfg.rx_mempool_size,
        cfg.rx_mempool_size == 0 ==> r >= 4 * cfg.rx_ring_size,
        cfg.rx_mempool_size == 0 && r < u32::MAX && cfg.recv_buffer_bytes < 0x8000_0000 ==> {
            &&& r >= 4096
            &&& r > 4096 || cfg.max_connections == 0 || cfg.recv_buffer_bytes == 0
            &&& (r - 4096) * cfg.mbuf_data_room >= 2 * cfg.max_connections * cfg.recv_buffer_bytes
                || cfg.mbuf_data_room == 0
        },
{
    if cfg.rx_mempool_size == 0 && r < u32::MAX && cfg.recv_buffer_bytes < 0x8000_0000 {
        let room = cfg.mbuf_data_room as int;
        let bytes = cfg.recv_buffer_bytes as int;
        let conns = 2 * cfg.max_connections;
        let d = if room > 1 {
            room
        } else {
            1
        };
        let per = (bytes + d - 1) / d;
        vstd::arithmetic::div_mod::lemma_fundamental_div_mod(bytes + d - 1, d);
        vstd::arithmetic::div_mod::lemma_mod_bound(bytes + d - 1, d);
        assert(d * per >= bytes);
        assert(per >= 0 && (bytes > 0 ==> per >= 1)) by (nonlinear_arith)
            requires
                d * per >= bytes,
                bytes >= 0,
                d >= 1,
        ;
        assert(per <= bytes + d - 1) by (nonlinear_arith)
            requires
                d * per <= bytes + d - 1,
                per >= 0,
                d >= 1,
        ;
        assert(0 <= conns * per) by (nonlinear_arith)
            requires
                conns >= 0,
                per >= 0,
        ;
        if conns > u32::MAX {
            assert(bytes > 0 ==> u32::MAX * per >= u32::MAX) by (nonlinear_arith)
                requires
                    bytes > 0 ==> per >= 1,
            ;
            if bytes == 0 {
                assert(per == 0) by (nonlinear_arith)
                    requires
                        d * per <= d - 1,
                        per >= 0,
                        d >= 1,
                ;
                assert(u32::MAX * per == 0) by (nonlinear_arith)
                    requires
                        per == 0,
                ;
                assert(2 * cfg.max_connections * cfg.recv_buffer_bytes == 0) by (nonlinear_arith)
                    requires
                        cfg.recv_buffer_bytes == 0,
                ;
                assert((r - 4096) * room >= 0) by (nonlinear_arith)
                    requires
                        r >= 4096,
                        room >= 0,
                ;
            }
        } else {
            assert(r >= conns * per + 4096);
            assert(conns > 0 && bytes > 0 ==> conns * per > 0) by (nonlinear_arith)
                requires
                    bytes > 0 ==> per >= 1,
            ;
            if room > 0 {
                assert((r - 4096) * room >= conns * bytes) by (nonlinear_arith)
                    requires
                        r - 4096 >= conns * per,
                        room == d,
                        d * per >= bytes,
                        conns >= 0,
                        d >= 1,
                ;
            }
        }
    }
}

/// Every connection has room for a timer for each full segment that its send
/// buffer holds, and for at least four, and sixteen more are left.
pub proof fn law_timer_room(cfg: EngineConfig, r: usize)
    requires
        call_ensures(timer_slot_hint, (&cfg,), r),
        cfg.max_connections <= 0xff_ffff,
        cfg.send_buffer_bytes <= 0xff,
        cfg.tcp_mss > 0,
    ensures
        r >= 16 + 4 * cfg.max_connections,
        r - 16 >= cfg.max_connections * (cfg.send_buffer_bytes / cfg.tcp_mss),
        cfg.send_buffer_bytes / cfg.tcp_mss <= 4 ==> r == 16 + 4 * cfg.max_connections,
        cfg.send_buffer_bytes / cfg.tcp_mss >= 4 ==> r == 16 + cfg.max_connections * (
        cfg.send_buffer_bytes / cfg.tcp_mss),
{
    let q = (cfg.send_buffer_bytes / cfg.tcp_mss) as int;
    let m = cfg.max_connections as int;
    assert(0 <= q <= 0xff) by (nonlinear_arith)
        requires
            q == cfg.send_buffer_bytes as int / cfg.tcp_mss as int,
            cfg.tcp_mss > 0,
            cfg.send_buffer_bytes <= 0xff,
    ;
    assert(m * q <= 0xff_ffff * 0xff && m * 4 <= m * q + m * 4) by (nonlinear_arith)
        requires
            0 <= m <= 0xff_ffff,
            0 <= q <= 0xff,
    ;
    assert(q <= 4 ==> m * q <= m * 4) by (nonlinear_arith)
        requires
            m >= 0,
    ;
    assert(q >= 4 ==> m * q >= m * 4) by (nonlinear_arith)
        requires
            m >= 0,
    ;
}

/// A port is brought up step by step: it is asked before it is configured, its
/// queues are set up before it starts, and its table, its times and its address
/// are seen to while it runs. Without a port none of these steps is taken.
pub proof fn law_bring_up(stage: BringUpStage, on_port: bool, rss: bool, r: BringUpStage)
    requires
        call_ensures(next_stage, (stage, on_port, rss), r),
    ensures
        r is Info ==> stage is Pools && on_port,
        r is Configure ==> stage is Info,
        r is RxQueue ==> stage is Configure,
        r is TxQueue ==> stage is RxQueue,
        r is Start ==> stage is TxQueue,
        r is Reta ==> stage is Start && rss,
        stage is Start && rss ==> r is Reta,
        r is Timestamp ==> stage is Reta || (stage is Start && !rss) || (stage is Pools
            && !on_port),
        r is Mac ==> stage is Timestamp && on_port,
        r is Stats ==> stage is Mac || (stage is Timestamp && !on_port),
        r is Over <==> stage is Stats || stage is Over,
        !(r is Pools),
{
}

/// Only a server under test does without a port, and only where it names none.
pub proof fn law_port_is_there(f: Features, port: u16, r: bool)
    requires
        call_ensures(has_port, (&f, port), r),
    ensures
        !r <==> f.test_server && port == 0xffff,
{
}

/// Edges are accepted where they ascend, and fifteen zeros stand for the
/// usual edges, of which the least is 50 microseconds and the largest half a
/// second.
pub proof fn law_edges(e: [u32; 15], r: Result<[u32; 15], Error>, i: int)
    requires
        call_ensures(validate_and_default_histogram_edges, (&e,), r),
        0 <= i < 14,
    ensures
        r is Ok ==> (r->Ok_0)[i] < (r->Ok_0)[i + 1],
        e[i] >= e[i + 1] && e[i] > 0 ==> r == Err::<[u32; 15], Error>(
            Error::InvalidHistogramEdges,
        ),
        (forall|k: int| 0 <= k < 14 ==> #[trigger] e[k] < e[k + 1]) ==> r == Ok::<
            [u32; 15],
            Error,
        >(e),
        (forall|k: int| 0 <= k < 15 ==> #[trigger] e[k] == 0) ==> r is Ok && (r->Ok_0)[0] == 50
            && (r->Ok_0)[14] == 500_000,
{
    if crate::engine_config::edges_unset(e) {
        assert(e[i] == 0 && e[i + 1] == 0);
        assert(e[0] == 0 && e[1] == 0);
        crate::engine_config::law_accepted_edges_ascend(
            crate::engine_config::DEFAULT_RTT_HISTOGRAM_EDGES_US,
            i,
            i + 1,
        );
    } else if crate::engine_config::edges_ascend(e) {
        assert(e[i] < e[i + 1]);
        if forall|k: int| 0 <= k < 15 ==> #[trigger] e[k] == 0 {
            assert(crate::engine_config::edges_unset(e));
        }
    } else {
        if forall|k: int| 0 <= k < 14 ==> #[trigger] e[k] < e[k + 1] {
            assert(crate::engine_config::edges_ascend(e));
        }
        if forall|k: int| 0 <= k < 15 ==> #[trigger] e[k] == 0 {
            assert(crate::engine_config::edges_unset(e));
        }
    }
}

/// A deadline moves up to the next tick, ten microseconds apart, and to no
/// later one.
pub proof fn law_ticks(at: u64, r: u64)
    requires
        call_ensures(align_up_to_tick_ns, (at,), r),
    ensures
        r >= at,
        r - at < 10_000,
        r % 10_000 == 0 || r == u64::MAX,
{
    crate::engine_config::law_tick_alignment(at);
}

/// A SYN tells the segment size and the scale, permits selective
/// acknowledgement, and stamps the time in microseconds with nothing to echo.
pub proof fn law_opening_options(bytes: u32, mss: u16, now_ns: u64, r: TcpOpts)
    requires
        call_ensures(build_connect_syn_opts, (bytes, mss, now_ns), r),
        now_ns / 1_000 <= u32::MAX,
    ensures
        r.mss == Some(mss),
        r.sack_permitted,
        r.timestamps == Some(((now_ns / 1_000) as u32, 0u32)),
        r.sack_block_count == 0,
        r.wscale is Some,
        r.wscale->0 <= 14,
        bytes <= 65_535 <==> r.wscale->0 == 0,
{
    let ws = r.wscale->0;
    vstd::arithmetic::power2::lemma2_to64();
    assert(crate::engine_config::window_cap(0) == 65_535);
}

/// The usual settings.
pub proof fn law_usual_settings(c: EngineConfig)
    requires
        call_ensures(EngineConfig::default, (), c),
    ensures
        c.rx_ring_size == 1024 && c.tx_ring_size == 1024,
        c.mbuf_data_room == 2048,
        c.max_connections == 16,
        c.recv_buffer_bytes == 262_144 && c.send_buffer_bytes == 262_144,
        c.tcp_mss == 1460,
        c.tcp_msl_ms == 30_000,
        c.tcp_min_rto_us == 5_000 && c.tcp_initial_rto_us == 5_000,
        c.tcp_max_rto_us == 1_000_000,
        c.tcp_max_retrans_count == 15,
        c.event_queue_soft_cap == 4096,
        c.rx_mempool_size == 0 && c.garp_interval_sec == 0 && c.cc_mode == 0,
        c.local_ip == 0 && c.gateway_ip == 0 && c.port_id == 0 && c.lcore_id == 0,
        c.rx_queue_id == 0 && c.tx_queue_id == 0,
        c.ena_large_llq_hdr == 0 && c.ena_miss_txc_to_sec == 0,
        !c.tcp_nagle && !c.tcp_delayed_ack && !c.tcp_per_packet_events,
        c.secondary_local_ips@.len() == 0,
{
}

} // verus!
