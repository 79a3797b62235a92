//! Bringing a port up: what is asked of it, and what its answers mean.
use vstd::prelude::*;
use vstd::string::StringSliceAdditionalSpecFns;

use crate::counters::{bumped, inc, inc_if, Counters, EthCounters};
use crate::dpdk_consts::{
    RTE_ETH_RSS_NONFRAG_IPV4_TCP, RTE_ETH_RSS_NONFRAG_IPV6_TCP, RTE_ETH_RX_OFFLOAD_IPV4_CKSUM,
    RTE_ETH_RX_OFFLOAD_RSS_HASH, RTE_ETH_RX_OFFLOAD_TCP_CKSUM, RTE_ETH_RX_OFFLOAD_UDP_CKSUM,
    RTE_ETH_TX_OFFLOAD_IPV4_CKSUM, RTE_ETH_TX_OFFLOAD_MBUF_FAST_FREE,
    RTE_ETH_TX_OFFLOAD_MULTI_SEGS, RTE_ETH_TX_OFFLOAD_TCP_CKSUM, RTE_ETH_TX_OFFLOAD_UDP_CKSUM,
};
use crate::ena_xstats::c_text;
use crate::engine_config::{resolve_rx_mempool_size, rx_pool_size_for, EngineConfig};
use crate::error::Error;
use crate::mempool::PoolShape;

verus! {

/// Port number of an engine that has no port.
pub const NO_PORT: u16 = 0xffff;

/// Parts of the engine that can be switched on.
#[derive(Debug, Clone, Copy, PartialEq, Eq, Structural)]
pub struct Features {
    pub hw_offload_mbuf_fast_free: bool,
    pub hw_offload_tx_cksum: bool,
    pub hw_offload_rx_cksum: bool,
    pub hw_offload_rss_hash: bool,
    pub hw_offload_rx_timestamp: bool,
    /// Polls that fill the receive burst are counted.
    pub obs_poll_saturation: bool,
    /// Payload bytes are counted.
    pub obs_byte_counters: bool,
    /// Observation for its own sake is left out: round-trip times are used,
    /// but not sorted into the histogram.
    pub obs_none: bool,
    /// The engine can listen, and can do without a port.
    pub test_server: bool,
}

/// What a port is capable of.
#[derive(Debug, Clone, Copy, PartialEq, Eq, Structural)]
pub struct PortCaps {
    pub rx_offload_capa: u64,
    pub tx_offload_capa: u64,
}

/// What a port is asked for, and which of it the data path may rely on.
#[derive(Debug, Clone, Copy)]
pub struct PortConfigOutcome {
    pub applied_rx_offloads: u64,
    pub applied_tx_offloads: u64,
    /// Checksums of sent segments are left to the port.
    pub tx_cksum_offload_active: bool,
    /// The port's verdict on received checksums is heeded.
    pub rx_cksum_offload_active: bool,
    /// The port's hash of received segments is used.
    pub rss_hash_offload_active: bool,
    pub driver_name: [u8; 32],
}

/// An offload bit, if the port advertises it.
pub open spec fn granted(bit: u64, capa: u64) -> u64 {
    if bit & capa == 0 {
        0
    } else {
        bit
    }
}

/// An offload bit that is asked for, if the port advertises it.
pub open spec fn granted_if(asked: bool, bit: u64, capa: u64) -> u64 {
    if asked {
        granted(bit, capa)
    } else {
        0
    }
}

/// Grants an offload bit that the port advertises; counts one that it does
/// not.
pub fn and_offload_with_miss_counter(
    requested_bit: u64,
    advertised_mask: u64,
    counter: &mut u64,
) -> (r: u64)
    ensures
        r == granted(requested_bit, advertised_mask),
        *final(counter) == bumped(
            *old(counter),
            requested_bit != 0 && requested_bit & advertised_mask == 0,
        ),
{
    if requested_bit == 0 {
        assert(requested_bit & advertised_mask == 0) by (bit_vector)
            requires
                requested_bit == 0,
        ;
        return 0;
    }
    if (requested_bit & advertised_mask) == 0 {
        inc(counter);
        0
    } else {
        requested_bit
    }
}

fn grant_if(asked: bool, bit: u64, capa: u64, counter: &mut u64) -> (r: u64)
    requires
        bit != 0,
    ensures
        r == granted_if(asked, bit, capa),
        *final(counter) == bumped(*old(counter), asked && bit & capa == 0),
{
    if asked {
        and_offload_with_miss_counter(bit, capa, counter)
    } else {
        0
    }
}

/// Asked for and not advertised.
pub open spec fn missed(asked: bool, bit: u64, capa: u64) -> bool {
    asked && bit & capa == 0
}

/// The counters once every offload that is asked for and not advertised has
/// been counted.
pub open spec fn counted_misses(c: EthCounters, f: Features, caps: PortCaps) -> EthCounters {
    EthCounters {
        offload_missing_mbuf_fast_free: bumped(
            c.offload_missing_mbuf_fast_free,
            missed(
                f.hw_offload_mbuf_fast_free,
                RTE_ETH_TX_OFFLOAD_MBUF_FAST_FREE,
                caps.tx_offload_capa,
            ),
        ),
        offload_missing_tx_cksum_ipv4: bumped(
            c.offload_missing_tx_cksum_ipv4,
            missed(f.hw_offload_tx_cksum, RTE_ETH_TX_OFFLOAD_IPV4_CKSUM, caps.tx_offload_capa),
        ),
        offload_missing_tx_cksum_tcp: bumped(
            c.offload_missing_tx_cksum_tcp,
            missed(f.hw_offload_tx_cksum, RTE_ETH_TX_OFFLOAD_TCP_CKSUM, caps.tx_offload_capa),
        ),
        offload_missing_tx_cksum_udp: bumped(
            c.offload_missing_tx_cksum_udp,
            missed(f.hw_offload_tx_cksum, RTE_ETH_TX_OFFLOAD_UDP_CKSUM, caps.tx_offload_capa),
        ),
        offload_missing_rx_cksum_ipv4: bumped(
            c.offload_missing_rx_cksum_ipv4,
            missed(f.hw_offload_rx_cksum, RTE_ETH_RX_OFFLOAD_IPV4_CKSUM, caps.rx_offload_capa),
        ),
        offload_missing_rx_cksum_tcp: bumped(
            c.offload_missing_rx_cksum_tcp,
            missed(f.hw_offload_rx_cksum, RTE_ETH_RX_OFFLOAD_TCP_CKSUM, caps.rx_offload_capa),
        ),
        offload_missing_rx_cksum_udp: bumped(
            c.offload_missing_rx_cksum_udp,
            missed(f.hw_offload_rx_cksum, RTE_ETH_RX_OFFLOAD_UDP_CKSUM, caps.rx_offload_capa),
        ),
        offload_missing_rss_hash: bumped(
            c.offload_missing_rss_hash,
            missed(f.hw_offload_rss_hash, RTE_ETH_RX_OFFLOAD_RSS_HASH, caps.rx_offload_capa),
        ),
        ..c
    }
}

/// The transmit offloads that a port is asked for.
pub open spec fn tx_offloads_for(f: Features, capa: u64) -> u64 {
    granted(RTE_ETH_TX_OFFLOAD_MULTI_SEGS, capa) | granted_if(
        f.hw_offload_mbuf_fast_free,
        RTE_ETH_TX_OFFLOAD_MBUF_FAST_FREE,
        capa,
    ) | (granted_if(f.hw_offload_tx_cksum, RTE_ETH_TX_OFFLOAD_IPV4_CKSUM, capa) | granted_if(
        f.hw_offload_tx_cksum,
        RTE_ETH_TX_OFFLOAD_TCP_CKSUM,
        capa,
    ) | granted_if(f.hw_offload_tx_cksum, RTE_ETH_TX_OFFLOAD_UDP_CKSUM, capa))
}

/// The receive offloads that a port is asked for.
pub open spec fn rx_offloads_for(f: Features, capa: u64) -> u64 {
    granted_if(f.hw_offload_rx_cksum, RTE_ETH_RX_OFFLOAD_IPV4_CKSUM, capa) | granted_if(
        f.hw_offload_rx_cksum,
        RTE_ETH_RX_OFFLOAD_TCP_CKSUM,
        capa,
    ) | granted_if(f.hw_offload_rx_cksum, RTE_ETH_RX_OFFLOAD_UDP_CKSUM, capa) | granted_if(
        f.hw_offload_rss_hash,
        RTE_ETH_RX_OFFLOAD_RSS_HASH,
        capa,
    )
}

/// The name of a driver as far as 31 bytes hold it, followed by zeros.
pub open spec fn is_driver_name(name: Seq<u8>, r: [u8; 32]) -> bool {
    let n = c_text(name);
    &&& forall|i: int| 0 <= i < 32 ==> #[trigger] r[i] == if i < n.len() && i < 31 {
        n[i]
    } else {
        0
    }
}

proof fn lemma_c_text(raw: Seq<u8>, i: int)
    requires
        0 <= i <= raw.len(),
        forall|k: int| 0 <= k < i ==> #[trigger] raw[k] != 0,
    ensures
        c_text(raw).len() >= i,
        c_text(raw).len() <= raw.len(),
        forall|k: int| 0 <= k < i ==> #[trigger] c_text(raw)[k] == raw[k],
        i == raw.len() || raw[i] == 0 ==> c_text(raw).len() == i,
    decreases raw.len(),
{
    if raw.len() > 0 && raw[0] != 0 {
        let t = raw.subrange(1, raw.len() as int);
        let j = if i == 0 {
            0
        } else {
            i - 1
        };
        assert forall|k: int| 0 <= k < j implies #[trigger] t[k] != 0 by {
            assert(t[k] == raw[k + 1]);
        }
        lemma_c_text(t, j);
        assert forall|k: int| 0 <= k < i implies #[trigger] c_text(raw)[k] == raw[k] by {
            if k > 0 {
                assert(t[k - 1] == raw[k]);
                assert(c_text(t)[k - 1] == t[k - 1]);
            }
        }
    }
}

/// Copies the name of a driver, up to a zero byte or 31 bytes.
pub fn capture_driver_name(name: &[u8]) -> (r: [u8; 32])
    ensures
        is_driver_name(name@, r),
{
    let mut out: [u8; 32] = [0; 32];
    let mut i: usize = 0;
    while i < 31 && i < name.len() && name[i] != 0
        invariant
            i <= 31,
            i <= name@.len(),
            forall|k: int| 0 <= k < i ==> #[trigger] name@[k] != 0,
            forall|k: int|
                0 <= k < 32 ==> #[trigger] out[k] == if k < i {
                    name@[k]
                } else {
                    0
                },
        decreases 31 - i,
    {
        out[i] = name[i];
        i += 1;
    }
    proof {
        lemma_c_text(name@, i as int);
        let n = c_text(name@);
        assert forall|k: int| 0 <= k < 32 implies #[trigger] out[k] == if k < n.len() && k < 31 {
            n[k]
        } else {
            0
        } by {
            if k < i {
                assert(n[k] == name@[k]);
            }
        }
    }
    out
}

/// The driver is the one for elastic network adapters.
pub open spec fn is_ena(driver_name: [u8; 32]) -> bool {
    c_text(driver_name@) == "net_ena".spec_bytes()
}

fn ena_driver(driver_name: &[u8; 32]) -> (r: bool)
    ensures
        r == is_ena(*driver_name),
{
    let want: &[u8] = "net_ena".as_bytes();
    let mut n: usize = 0;
    while n < 32 && driver_name[n] != 0
        invariant
            n <= 32,
            forall|k: int| 0 <= k < n ==> #[trigger] driver_name@[k] != 0,
        decreases 32 - n,
    {
        n += 1;
    }
    let ghost t = c_text(driver_name@);
    proof {
        lemma_c_text(driver_name@, n as int);
    }
    if n != want.len() {
        return false;
    }
    let mut i: usize = 0;
    while i < n
        invariant
            i <= n,
            n <= 32,
            n == want@.len(),
            t == c_text(driver_name@),
            t.len() == n,
            want@ == "net_ena".spec_bytes(),
            forall|k: int| 0 <= k < n ==> #[trigger] t[k] == driver_name@[k],
            forall|k: int| 0 <= k < i ==> #[trigger] t[k] == want@[k],
        decreases n - i,
    {
        if driver_name[i] != want[i] {
            assert(t[i as int] == driver_name@[i as int]);
            return false;
        }
        assert(t[i as int] == driver_name@[i as int]);
        i += 1;
    }
    assert(t =~= want@);
    true
}

/// Longest header of a frame: link, network and transport layer, and options.
pub const WORST_CASE_HEADER: u32 = 94;

/// Longest header that a low-latency queue takes unless it is configured for
/// large ones.
pub const LLQ_DEFAULT_HEADER_LIMIT: u32 = 96;

/// How close to the limit the longest header may come.
pub const LLQ_OVERFLOW_MARGIN: u32 = 6;

/// Headers may come too close to the limit of a low-latency queue.
pub open spec fn llq_header_at_risk(driver_name: [u8; 32], ena_large_llq_hdr: u8) -> bool {
    &&& is_ena(driver_name)
    &&& ena_large_llq_hdr == 0
    &&& WORST_CASE_HEADER + LLQ_OVERFLOW_MARGIN > LLQ_DEFAULT_HEADER_LIMIT
}

/// Decides what a port is asked for: every offload that is switched on and
/// that the port advertises. Those that it does not advertise are counted, and
/// so is a header that may be too long.
pub fn configure_port_offloads(
    cfg: &EngineConfig,
    features: &Features,
    caps: &PortCaps,
    driver_name: &[u8],
    counters: &mut Counters,
) -> (r: PortConfigOutcome)
    ensures
        is_driver_name(driver_name@, r.driver_name),
        r.applied_tx_offloads == tx_offloads_for(*features, caps.tx_offload_capa),
        r.applied_rx_offloads == rx_offloads_for(*features, caps.rx_offload_capa),
        r.tx_cksum_offload_active == (features.hw_offload_tx_cksum && granted(
            RTE_ETH_TX_OFFLOAD_IPV4_CKSUM,
            caps.tx_offload_capa,
        ) != 0 && granted(RTE_ETH_TX_OFFLOAD_TCP_CKSUM, caps.tx_offload_capa) != 0),
        r.rx_cksum_offload_active == (features.hw_offload_rx_cksum && granted(
            RTE_ETH_RX_OFFLOAD_IPV4_CKSUM,
            caps.rx_offload_capa,
        ) != 0 && granted(RTE_ETH_RX_OFFLOAD_TCP_CKSUM, caps.rx_offload_capa) != 0),
        r.rss_hash_offload_active == (features.hw_offload_rss_hash && granted(
            RTE_ETH_RX_OFFLOAD_RSS_HASH,
            caps.rx_offload_capa,
        ) != 0),
        *final(counters) == (Counters {
            eth: EthCounters {
                llq_header_overflow_risk: bumped(
                    old(counters).eth.llq_header_overflow_risk,
                    llq_header_at_risk(r.driver_name, cfg.ena_large_llq_hdr),
                ),
                ..counted_misses(old(counters).eth, *features, *caps)
            },
            ..*old(counters)
        }),
{
    let name: [u8; 32] = capture_driver_name(driver_name);
    let at_risk: bool = ena_driver(&name) && cfg.ena_large_llq_hdr == 0 && WORST_CASE_HEADER
        + LLQ_OVERFLOW_MARGIN > LLQ_DEFAULT_HEADER_LIMIT;
    inc_if(&mut counters.eth.llq_header_overflow_risk, at_risk);
    let tx: u64 = caps.tx_offload_capa;
    let rx: u64 = caps.rx_offload_capa;
    let multi: u64 = if RTE_ETH_TX_OFFLOAD_MULTI_SEGS & tx == 0 {
        0
    } else {
        RTE_ETH_TX_OFFLOAD_MULTI_SEGS
    };
    let fast_free: u64 = grant_if(
        features.hw_offload_mbuf_fast_free,
        RTE_ETH_TX_OFFLOAD_MBUF_FAST_FREE,
        tx,
        &mut counters.eth.offload_missing_mbuf_fast_free,
    );
    let tx_ipv4: u64 = grant_if(
        features.hw_offload_tx_cksum,
        RTE_ETH_TX_OFFLOAD_IPV4_CKSUM,
        tx,
        &mut counters.eth.offload_missing_tx_cksum_ipv4,
    );
    let tx_tcp: u64 = grant_if(
        features.hw_offload_tx_cksum,
        RTE_ETH_TX_OFFLOAD_TCP_CKSUM,
        tx,
        &mut counters.eth.offload_missing_tx_cksum_tcp,
    );
    let tx_udp: u64 = grant_if(
        features.hw_offload_tx_cksum,
        RTE_ETH_TX_OFFLOAD_UDP_CKSUM,
        tx,
        &mut counters.eth.offload_missing_tx_cksum_udp,
    );
    let rx_ipv4: u64 = grant_if(
        features.hw_offload_rx_cksum,
        RTE_ETH_RX_OFFLOAD_IPV4_CKSUM,
        rx,
        &mut counters.eth.offload_missing_rx_cksum_ipv4,
    );
    let rx_tcp: u64 = grant_if(
        features.hw_offload_rx_cksum,
        RTE_ETH_RX_OFFLOAD_TCP_CKSUM,
        rx,
        &mut counters.eth.offload_missing_rx_cksum_tcp,
    );
    let rx_udp: u64 = grant_if(
        features.hw_offload_rx_cksum,
        RTE_ETH_RX_OFFLOAD_UDP_CKSUM,
        rx,
        &mut counters.eth.offload_missing_rx_cksum_udp,
    );
    let rss: u64 = grant_if(
        features.hw_offload_rss_hash,
        RTE_ETH_RX_OFFLOAD_RSS_HASH,
        rx,
        &mut counters.eth.offload_missing_rss_hash,
    );
    PortConfigOutcome {
        applied_rx_offloads: rx_ipv4 | rx_tcp | rx_udp | rss,
        applied_tx_offloads: multi | fast_free | (tx_ipv4 | tx_tcp | tx_udp),
        tx_cksum_offload_active: tx_ipv4 != 0 && tx_tcp != 0,
        rx_cksum_offload_active: rx_ipv4 != 0 && rx_tcp != 0,
        rss_hash_offload_active: rss != 0,
        driver_name: name,
    }
}

/// What an engine without a port has in place of a configured one.
pub fn no_port_outcome() -> (r: PortConfigOutcome)
    ensures
        r.applied_rx_offloads == 0,
        r.applied_tx_offloads == 0,
        !r.tx_cksum_offload_active,
        !r.rx_cksum_offload_active,
        !r.rss_hash_offload_active,
        forall|i: int| 0 <= i < 32 ==> #[trigger] r.driver_name[i] == 0,
{
    PortConfigOutcome {
        applied_rx_offloads: 0,
        applied_tx_offloads: 0,
        tx_cksum_offload_active: false,
        rx_cksum_offload_active: false,
        rss_hash_offload_active: false,
        driver_name: [0; 32],
    }
}

/// A port is never asked for an offload that it does not advertise.
pub proof fn law_offloads_are_advertised(f: Features, caps: PortCaps)
    ensures
        tx_offloads_for(f, caps.tx_offload_capa) & !caps.tx_offload_capa == 0,
        rx_offloads_for(f, caps.rx_offload_capa) & !caps.rx_offload_capa == 0,
{
    let t = caps.tx_offload_capa;
    let r = caps.rx_offload_capa;
    assert(1u64 << 1u64 == 0x2 && 1u64 << 2u64 == 0x4 && 1u64 << 3u64 == 0x8 && 1u64 << 14u64
        == 0x4000 && 1u64 << 15u64 == 0x8000 && 1u64 << 19u64 == 0x8_0000) by (bit_vector);
    lemma_granted_within(RTE_ETH_TX_OFFLOAD_MULTI_SEGS, 15, t);
    lemma_granted_within(RTE_ETH_TX_OFFLOAD_MBUF_FAST_FREE, 14, t);
    lemma_granted_within(RTE_ETH_TX_OFFLOAD_IPV4_CKSUM, 1, t);
    lemma_granted_within(RTE_ETH_TX_OFFLOAD_TCP_CKSUM, 3, t);
    lemma_granted_within(RTE_ETH_TX_OFFLOAD_UDP_CKSUM, 2, t);
    lemma_granted_within(RTE_ETH_RX_OFFLOAD_IPV4_CKSUM, 1, r);
    lemma_granted_within(RTE_ETH_RX_OFFLOAD_TCP_CKSUM, 3, r);
    lemma_granted_within(RTE_ETH_RX_OFFLOAD_UDP_CKSUM, 2, r);
    lemma_granted_within(RTE_ETH_RX_OFFLOAD_RSS_HASH, 19, r);
    let a = granted(RTE_ETH_TX_OFFLOAD_MULTI_SEGS, t);
    let b = granted_if(f.hw_offload_mbuf_fast_free, RTE_ETH_TX_OFFLOAD_MBUF_FAST_FREE, t);
    let c = granted_if(f.hw_offload_tx_cksum, RTE_ETH_TX_OFFLOAD_IPV4_CKSUM, t);
    let d = granted_if(f.hw_offload_tx_cksum, RTE_ETH_TX_OFFLOAD_TCP_CKSUM, t);
    let e = granted_if(f.hw_offload_tx_cksum, RTE_ETH_TX_OFFLOAD_UDP_CKSUM, t);
    assert((a | b | (c | d | e)) & !t == 0) by (bit_vector)
        requires
            a & !t == 0,
            b & !t == 0 || b == 0,
            c & !t == 0 || c == 0,
            d & !t == 0 || d == 0,
            e & !t == 0 || e == 0,
    ;
    let g = granted_if(f.hw_offload_rx_cksum, RTE_ETH_RX_OFFLOAD_IPV4_CKSUM, r);
    let h = granted_if(f.hw_offload_rx_cksum, RTE_ETH_RX_OFFLOAD_TCP_CKSUM, r);
    let i = granted_if(f.hw_offload_rx_cksum, RTE_ETH_RX_OFFLOAD_UDP_CKSUM, r);
    let j = granted_if(f.hw_offload_rss_hash, RTE_ETH_RX_OFFLOAD_RSS_HASH, r);
    assert((g | h | i | j) & !r == 0) by (bit_vector)
        requires
            g & !r == 0 || g == 0,
            h & !r == 0 || h == 0,
            i & !r == 0 || i == 0,
            j & !r == 0 || j == 0,
    ;
}

proof fn lemma_granted_within(bit: u64, at: u64, capa: u64)
    requires
        at < 64,
        bit == 1u64 << at,
    ensures
        granted(bit, capa) & !capa == 0,
{
    assert(bit & capa != 0 ==> bit & !capa == 0) by (bit_vector)
        requires
            at < 64,
            bit == 1u64 << at,
    ;
    assert(0u64 & !capa == 0) by (bit_vector);
}

/// The hash functions that a port computes where its hash is used.
pub fn rss_hash_functions(active: bool) -> (r: u64)
    ensures
        r == (if active {
            RTE_ETH_RSS_NONFRAG_IPV4_TCP | RTE_ETH_RSS_NONFRAG_IPV6_TCP
        } else {
            0
        }),
{
    if active {
        RTE_ETH_RSS_NONFRAG_IPV4_TCP | RTE_ETH_RSS_NONFRAG_IPV6_TCP
    } else {
        0
    }
}

/// Groups of 64 slots to be written so that every slot of a redirection table
/// points at the first queue; none where there is no table.
pub fn program_rss_reta_single_queue(reta_size: u16) -> (r: Option<Vec<u64>>)
    ensures
        r is None <==> reta_size == 0,
        r is Some ==> {
            &&& (r->0)@.len() == (reta_size + 63) / 64
            &&& forall|i: int| 0 <= i < (r->0)@.len() ==> #[trigger] (r->0)@[i] == u64::MAX
        },
{
    if reta_size == 0 {
        return None;
    }
    let n: u32 = (reta_size as u32 + 63) / 64;
    let mut masks: Vec<u64> = Vec::new();
    let mut i: u32 = 0;
    while i < n
        invariant
            i <= n,
            masks@.len() == i,
            forall|k: int| 0 <= k < i ==> #[trigger] masks@[k] == u64::MAX,
        decreases n - i,
    {
        masks.push(u64::MAX);
        i += 1;
    }
    Some(masks)
}

/// A step of bringing a port up.
#[derive(Debug, Clone, Copy, PartialEq, Eq, Structural)]
pub enum PortStep {
    Info,
    Configure,
    RxQueueSetup,
    TxQueueSetup,
    Start,
    MacAddr,
}

/// The argument that lets the driver say how it places descriptors.
pub const LLQ_LOG_OVERRIDE: &'static str = "--log-level=pmd.net.ena.driver,info";

/// The arguments that the driver's environment is brought up with: those
/// given, and behind them the one that is needed to see how descriptors are
/// placed, where that is verified.
pub fn eal_args<'a>(args: &[&'a str], verify_llq: bool) -> (r: Vec<&'a str>)
    ensures
        r@ == (if verify_llq {
            args@.push(LLQ_LOG_OVERRIDE)
        } else {
            args@
        }),
{
    let mut out: Vec<&'a str> = Vec::new();
    let mut i: usize = 0;
    assert(args.len() == args@.len());
    while i < args.len()
        invariant
            i <= args@.len(),
            out@ == args@.take(i as int),
        decreases args@.len() - i,
    {
        out.push(args[i]);
        i += 1;
        assert(out@ =~= args@.take(i as int));
    }
    assert(args@.take(i as int) =~= args@);
    if verify_llq {
        out.push(LLQ_LOG_OVERRIDE);
    }
    out
}

/// What bringing up the driver's environment returned.
pub fn check_eal_init(rc: i32, errno: i32) -> (r: Result<(), Error>)
    ensures
        r == (if rc < 0 {
            Err::<(), Error>(Error::EalInit(errno))
        } else {
            Ok(())
        }),
{
    if rc < 0 {
        Err(Error::EalInit(errno))
    } else {
        Ok(())
    }
}

/// The driver's answer to a step is a refusal.
pub open spec fn step_refused(step: PortStep, rc: i32) -> bool {
    match step {
        PortStep::Info | PortStep::Configure | PortStep::MacAddr => rc != 0,
        PortStep::RxQueueSetup | PortStep::TxQueueSetup | PortStep::Start => rc < 0,
    }
}

/// What a step's answer means: the driver's own error number goes with the
/// refusal, except that the query for capabilities returns its error itself.
pub fn check_port_step(step: PortStep, port_id: u16, rc: i32, errno: i32) -> (r: Result<(), Error>)
    ensures
        r == (if !step_refused(step, rc) {
            Ok::<(), Error>(())
        } else {
            match step {
                PortStep::Info => Err(Error::PortInfo(port_id, rc)),
                PortStep::Configure => Err(Error::PortConfigure(port_id, errno)),
                PortStep::RxQueueSetup => Err(Error::RxQueueSetup(port_id, errno)),
                PortStep::TxQueueSetup => Err(Error::TxQueueSetup(port_id, errno)),
                PortStep::Start => Err(Error::PortStart(port_id, errno)),
                PortStep::MacAddr => Err(Error::MacAddrLookup(port_id, errno)),
            }
        }),
{
    match step {
        PortStep::Info => {
            if rc != 0 {
                return Err(Error::PortInfo(port_id, rc));
            }
        },
        PortStep::Configure => {
            if rc != 0 {
                return Err(Error::PortConfigure(port_id, errno));
            }
        },
        PortStep::RxQueueSetup => {
            if rc < 0 {
                return Err(Error::RxQueueSetup(port_id, errno));
            }
        },
        PortStep::TxQueueSetup => {
            if rc < 0 {
                return Err(Error::TxQueueSetup(port_id, errno));
            }
        },
        PortStep::Start => {
            if rc < 0 {
                return Err(Error::PortStart(port_id, errno));
            }
        },
        PortStep::MacAddr => {
            if rc != 0 {
                return Err(Error::MacAddrLookup(port_id, errno));
            }
        },
    }
    Ok(())
}

/// Where the port leaves the time at which it received a frame.
#[derive(Debug, Clone, Copy, PartialEq, Eq, Structural)]
pub struct RxTimestamp {
    /// Offset of the time within a buffer's description.
    pub offset: Option<i32>,
    /// The flag that says that there is one.
    pub flag_mask: Option<u64>,
}

/// What the lookups of the time's offset and flag mean, where times are
/// switched on; a port that does not give times is counted.
pub fn resolve_rx_timestamp(
    enabled: bool,
    offset_rc: i32,
    flag_bit: i32,
    counters: &mut Counters,
) -> (r: RxTimestamp)
    requires
        flag_bit < 64,
    ensures
        r.offset == (if enabled && offset_rc >= 0 {
            Some(offset_rc)
        } else {
            None
        }),
        r.flag_mask == (if enabled && flag_bit >= 0 {
            Some(1u64 << flag_bit as u64)
        } else {
            None
        }),
        *final(counters) == (Counters {
            eth: EthCounters {
                offload_missing_rx_timestamp: bumped(
                    old(counters).eth.offload_missing_rx_timestamp,
                    enabled && (offset_rc < 0 || flag_bit < 0),
                ),
                ..old(counters).eth
            },
            ..*old(counters)
        }),
{
    if !enabled {
        return RxTimestamp { offset: None, flag_mask: None };
    }
    inc_if(&mut counters.eth.offload_missing_rx_timestamp, offset_rc < 0 || flag_bit < 0);
    let offset: Option<i32> = if offset_rc >= 0 {
        Some(offset_rc)
    } else {
        None
    };
    let flag_mask: Option<u64> = if flag_bit >= 0 {
        Some(1u64 << flag_bit as u64)
    } else {
        None
    };
    RxTimestamp { offset, flag_mask }
}

/// The pools of an engine.
#[derive(Debug, Clone, Copy, PartialEq, Eq, Structural)]
pub struct EnginePools {
    pub rx: PoolShape,
    pub tx_hdr: PoolShape,
    pub tx_data: PoolShape,
}

/// The pools that an engine needs, where the driver reserves `headroom` bytes
/// in front of the data.
pub fn engine_pools(cfg: &EngineConfig, headroom: u16) -> (r: EnginePools)
    requires
        cfg.mbuf_data_room + headroom <= u16::MAX,
    ensures
        r == (EnginePools {
            rx: PoolShape {
                n_elements: rx_pool_size_for(*cfg) as u32,
                cache_size: 256,
                priv_size: 0,
                data_room_size: (cfg.mbuf_data_room + headroom) as u16,
            },
            tx_hdr: PoolShape {
                n_elements: 2048,
                cache_size: 64,
                priv_size: 0,
                data_room_size: 256,
            },
            tx_data: PoolShape {
                n_elements: 4096,
                cache_size: 128,
                priv_size: 0,
                data_room_size: (cfg.mbuf_data_room + headroom) as u16,
            },
        }),
{
    let room: u16 = cfg.mbuf_data_room + headroom;
    EnginePools {
        rx: PoolShape {
            n_elements: resolve_rx_mempool_size(cfg),
            cache_size: 256,
            priv_size: 0,
            data_room_size: room,
        },
        tx_hdr: PoolShape { n_elements: 2048, cache_size: 64, priv_size: 0, data_room_size: 256 },
        tx_data: PoolShape {
            n_elements: 4096,
            cache_size: 128,
            priv_size: 0,
            data_room_size: room,
        },
    }
}

/// The address that an engine without a port goes by.
pub const VIRTUAL_MAC: [u8; 6] = [0x02, 0x00, 0x00, 0x00, 0x00, 0x01];

/// The engine runs on a port; only a listening one can do without.
pub open spec fn runs_on_port(features: Features, port_id: u16) -> bool {
    !(features.test_server && port_id == NO_PORT)
}

/// Whether the engine runs on a port.
pub fn has_port(features: &Features, port_id: u16) -> (r: bool)
    ensures
        r == runs_on_port(*features, port_id),
{
    !(features.test_server && port_id == NO_PORT)
}

/// What is done next to bring an engine up.
#[derive(Debug, Clone, Copy, PartialEq, Eq, Structural)]
pub enum BringUpStage {
    /// The buffer pools are created.
    Pools,
    /// The port is asked what it is capable of.
    Info,
    /// The port is configured.
    Configure,
    RxQueue,
    TxQueue,
    Start,
    /// The redirection table is written.
    Reta,
    /// The place of receive times is looked up.
    Timestamp,
    /// The port's address is read.
    Mac,
    /// The statistics are looked up.
    Stats,
    Over,
}

/// The stage behind another one. Without a port there are only pools, times
/// and statistics; the redirection table is written where the port's hash is
/// used.
pub open spec fn stage_behind(
    stage: BringUpStage,
    on_port: bool,
    rss_hash_offload_active: bool,
) -> BringUpStage {
    match stage {
        BringUpStage::Pools => if on_port {
            BringUpStage::Info
        } else {
            BringUpStage::Timestamp
        },
        BringUpStage::Info => BringUpStage::Configure,
        BringUpStage::Configure => BringUpStage::RxQueue,
        BringUpStage::RxQueue => BringUpStage::TxQueue,
        BringUpStage::TxQueue => BringUpStage::Start,
        BringUpStage::Start => if rss_hash_offload_active {
            BringUpStage::Reta
        } else {
            BringUpStage::Timestamp
        },
        BringUpStage::Reta => BringUpStage::Timestamp,
        BringUpStage::Timestamp => if on_port {
            BringUpStage::Mac
        } else {
            BringUpStage::Stats
        },
        BringUpStage::Mac => BringUpStage::Stats,
        BringUpStage::Stats => BringUpStage::Over,
        BringUpStage::Over => BringUpStage::Over,
    }
}

/// How many stages are left at most.
pub open spec fn stages_left(stage: BringUpStage) -> int {
    match stage {
        BringUpStage::Pools => 10,
        BringUpStage::Info => 9,
        BringUpStage::Configure => 8,
        BringUpStage::RxQueue => 7,
        BringUpStage::TxQueue => 6,
        BringUpStage::Start => 5,
        BringUpStage::Reta => 4,
        BringUpStage::Timestamp => 3,
        BringUpStage::Mac => 2,
        BringUpStage::Stats => 1,
        BringUpStage::Over => 0,
    }
}

/// The stage behind another one.
pub fn next_stage(stage: BringUpStage, on_port: bool, rss_hash_offload_active: bool) -> (r:
    BringUpStage)
    ensures
        r == stage_behind(stage, on_port, rss_hash_offload_active),
        stage != BringUpStage::Over ==> stages_left(r) < stages_left(stage),
{
    match stage {
        BringUpStage::Pools => {
            if on_port {
                BringUpStage::Info
            } else {
                BringUpStage::Timestamp
            }
        },
        BringUpStage::Info => BringUpStage::Configure,
        BringUpStage::Configure => BringUpStage::RxQueue,
        BringUpStage::RxQueue => BringUpStage::TxQueue,
        BringUpStage::TxQueue => BringUpStage::Start,
        BringUpStage::Start => {
            if rss_hash_offload_active {
                BringUpStage::Reta
            } else {
                BringUpStage::Timestamp
            }
        },
        BringUpStage::Reta => BringUpStage::Timestamp,
        BringUpStage::Timestamp => {
            if on_port {
                BringUpStage::Mac
            } else {
                BringUpStage::Stats
            }
        },
        BringUpStage::Mac => BringUpStage::Stats,
        BringUpStage::Stats => BringUpStage::Over,
        BringUpStage::Over => BringUpStage::Over,
    }
}

/// An engine without a port is never asked of one.
pub proof fn law_no_port_is_not_touched(stage: BringUpStage, rss_hash_offload_active: bool)
    requires
        stage == BringUpStage::Pools || stage == BringUpStage::Timestamp || stage
            == BringUpStage::Stats,
    ensures
        ({
            let next = stage_behind(stage, false, rss_hash_offload_active);
            next == BringUpStage::Timestamp || next == BringUpStage::Stats || next
                == BringUpStage::Over
        }),
{
}

} // verus!
