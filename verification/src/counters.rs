//! Event counters of one engine.
//!
//! The counters are plain words that their owner bumps through `&mut`. A bump
//! wraps around at the end of the range, as an atomic fetch-and-add does. The
//! groups share one flat naming scheme, `group.field`, which `lookup_counter`
//! resolves.
use vstd::prelude::*;

use crate::tcp_events::LossCause;
use crate::tcp_state::TcpState;
use crate::text::str_eq;

verus! {

/// Ethernet-level counters.
#[derive(Debug, Clone, Copy)]
pub struct EthCounters {
    pub rx_pkts: u64,
    pub rx_bytes: u64,
    pub rx_drop_miss_mac: u64,
    pub rx_drop_nomem: u64,
    pub tx_pkts: u64,
    pub tx_bytes: u64,
    pub tx_drop_full_ring: u64,
    pub tx_drop_nomem: u64,
    pub rx_drop_short: u64,
    pub rx_drop_unknown_ethertype: u64,
    pub rx_arp: u64,
    pub tx_arp: u64,
    /// Requested offloads that the driver did not advertise, one per offload, bumped at bring-up.
    pub offload_missing_rx_cksum_ipv4: u64,
    pub offload_missing_rx_cksum_tcp: u64,
    pub offload_missing_rx_cksum_udp: u64,
    pub offload_missing_tx_cksum_ipv4: u64,
    pub offload_missing_tx_cksum_tcp: u64,
    pub offload_missing_tx_cksum_udp: u64,
    pub offload_missing_mbuf_fast_free: u64,
    pub offload_missing_rss_hash: u64,
    /// The driver is net_ena and advertised low-latency queues that did not activate.
    pub offload_missing_llq: u64,
    /// The receive-timestamp dynamic field or flag is not registered.
    pub offload_missing_rx_timestamp: u64,
    /// Frames that the NIC classified as carrying a bad IP or L4 checksum.
    pub rx_drop_cksum_bad: u64,
    /// The prefetchable BAR of a net_ena port is not mapped write-combining.
    pub llq_wc_missing: u64,
    /// Worst-case header stack is within the margin of the default LLQ header limit.
    pub llq_header_overflow_risk: u64,
    /// ENI allowance snapshots, overwritten by each scrape.
    pub eni_bw_in_allowance_exceeded: u64,
    pub eni_bw_out_allowance_exceeded: u64,
    pub eni_pps_allowance_exceeded: u64,
    pub eni_conntrack_allowance_exceeded: u64,
    pub eni_linklocal_allowance_exceeded: u64,
    /// Queue 0 driver statistics, overwritten by each scrape.
    pub tx_q0_linearize: u64,
    pub tx_q0_doorbells: u64,
    pub tx_q0_missed_tx: u64,
    pub tx_q0_bad_req_id: u64,
    pub rx_q0_refill_partial: u64,
    pub rx_q0_bad_desc_num: u64,
    pub rx_q0_bad_req_id: u64,
    pub rx_q0_mbuf_alloc_fail: u64,
}

/// IPv4-level counters.
#[derive(Debug, Clone, Copy)]
pub struct IpCounters {
    pub rx_csum_bad: u64,
    pub rx_ttl_zero: u64,
    pub rx_frag: u64,
    pub rx_icmp_frag_needed: u64,
    pub pmtud_updates: u64,
    pub rx_drop_short: u64,
    pub rx_drop_bad_version: u64,
    pub rx_drop_bad_hl: u64,
    pub rx_drop_not_ours: u64,
    pub rx_drop_unsupported_proto: u64,
    pub rx_tcp: u64,
    pub rx_icmp: u64,
}

/// TCP-level counters.
#[derive(Debug, Clone, Copy)]
pub struct TcpCounters {
    pub rx_syn_ack: u64,
    pub rx_data: u64,
    pub rx_ack: u64,
    pub rx_rst: u64,
    /// Every retransmitted segment, whatever triggered it.
    pub tx_retrans: u64,
    /// Retransmission-timer fires (one fire may retransmit several segments).
    pub tx_rto: u64,
    /// Tail-loss-probe fires.
    pub tx_tlp: u64,
    /// Retransmitted segments by trigger.
    pub tx_retrans_rto: u64,
    pub tx_retrans_rack: u64,
    pub tx_retrans_tlp: u64,
    pub conn_open: u64,
    pub conn_close: u64,
    pub conn_rst: u64,
    pub send_buf_full: u64,
    pub recv_buf_delivered: u64,
    pub tx_syn: u64,
    pub tx_ack: u64,
    pub tx_data: u64,
    pub tx_fin: u64,
    pub tx_rst: u64,
    pub rx_fin: u64,
    pub rx_unmatched: u64,
    pub rx_bad_csum: u64,
    pub rx_bad_flags: u64,
    pub rx_short: u64,
    /// Bytes that the peer sent beyond the free space of the receive buffer.
    pub recv_buf_drops: u64,
    /// Segments dropped by the timestamp wrap check.
    pub rx_paws_rejected: u64,
    /// Segments whose options did not decode.
    pub rx_bad_option: u64,
    /// Out-of-order segments placed on the reassembly queue.
    pub rx_reassembly_queued: u64,
    /// Holes closed in the reassembly queue.
    pub rx_reassembly_hole_filled: u64,
    /// SACK blocks encoded in outbound ACKs.
    pub tx_sack_blocks: u64,
    /// SACK blocks decoded from inbound ACKs.
    pub rx_sack_blocks: u64,
    /// Segments outside the receive window.
    pub rx_bad_seq: u64,
    /// ACKs of nothing new or of data never sent.
    pub rx_bad_ack: u64,
    pub rx_dup_ack: u64,
    /// The peer advertised a zero window.
    pub rx_zero_window: u64,
    pub rx_urgent_dropped: u64,
    /// We advertised a zero window.
    pub tx_zero_window: u64,
    /// ACKs that reopened a window advertised as zero.
    pub tx_window_update: u64,
    /// Connects refused because the flow table was full.
    pub conn_table_full: u64,
    /// Connections reclaimed at the end of TIME_WAIT.
    pub conn_time_wait_reaped: u64,
    /// TCP payload bytes accepted for transmission.
    pub tx_payload_bytes: u64,
    /// TCP payload bytes accepted from the wire.
    pub rx_payload_bytes: u64,
    /// Connections abandoned after the data retransmit budget.
    pub conn_timeout_retrans: u64,
    /// Connections abandoned after the SYN retransmit budget.
    pub conn_timeout_syn_sent: u64,
    pub rtt_samples: u64,
    pub tx_rack_loss: u64,
    pub rack_reo_wnd_override_active: u64,
    pub rto_no_backoff_active: u64,
    pub rx_ws_shift_clamped: u64,
    pub rx_dsack: u64,
    /// Tail-loss probes that a DSACK later showed to be spurious.
    pub tx_tlp_spurious: u64,
    /// Public timers fired.
    pub tx_api_timers_fired: u64,
    pub ts_recent_expired: u64,
    /// Bursts handed to the driver by the pending-data drain.
    pub tx_flush_bursts: u64,
    /// Packets that those bursts sent.
    pub tx_flush_batched_pkts: u64,
    /// Segments covered by Readable events.
    pub rx_iovec_segs_total: u64,
    /// Readable events that cover more than one segment.
    pub rx_multi_seg_events: u64,
    /// Readable events that split the front segment.
    pub rx_partial_read_splits: u64,
    pub tx_persist: u64,
    /// Handle drops that found an implausible reference count.
    pub mbuf_refcnt_drop_unexpected: u64,
    /// State transitions, indexed by the numbers of the states left and entered.
    pub state_trans: [[u64; 11]; 11],
    /// Last sampled number of free receive buffers.
    pub rx_mempool_avail: u32,
    /// Last sampled number of free transmit data buffers.
    pub tx_data_mempool_avail: u32,
}

/// Poll-loop counters.
#[derive(Debug, Clone, Copy)]
pub struct PollCounters {
    pub iters: u64,
    pub iters_with_rx: u64,
    pub iters_with_tx: u64,
    pub iters_idle: u64,
    /// Iterations whose receive burst was full.
    pub iters_with_rx_burst_max: u64,
}

/// Event-queue counters.
#[derive(Debug, Clone, Copy)]
pub struct ObsCounters {
    /// Events dropped because the queue was at its cap.
    pub events_dropped: u64,
    /// Largest queue depth seen.
    pub events_queue_high_water: u64,
}

/// Fault-injector counters, one per kind of injected fault.
#[derive(Debug, Clone, Copy)]
pub struct FaultInjectorCounters {
    pub drops: u64,
    pub dups: u64,
    pub reorders: u64,
    pub corrupts: u64,
}

/// All counters of one engine.
#[derive(Debug, Clone, Copy)]
pub struct Counters {
    pub eth: EthCounters,
    pub ip: IpCounters,
    pub tcp: TcpCounters,
    pub poll: PollCounters,
    pub obs: ObsCounters,
    pub fault_injector: FaultInjectorCounters,
}

impl EthCounters {
    /// Every counter of the group is zero.
    pub open spec fn is_zero(self) -> bool {
        &&& self.rx_pkts == 0
        &&& self.rx_bytes == 0
        &&& self.rx_drop_miss_mac == 0
        &&& self.rx_drop_nomem == 0
        &&& self.tx_pkts == 0
        &&& self.tx_bytes == 0
        &&& self.tx_drop_full_ring == 0
        &&& self.tx_drop_nomem == 0
        &&& self.rx_drop_short == 0
        &&& self.rx_drop_unknown_ethertype == 0
        &&& self.rx_arp == 0
        &&& self.tx_arp == 0
        &&& self.offload_missing_rx_cksum_ipv4 == 0
        &&& self.offload_missing_rx_cksum_tcp == 0
        &&& self.offload_missing_rx_cksum_udp == 0
        &&& self.offload_missing_tx_cksum_ipv4 == 0
        &&& self.offload_missing_tx_cksum_tcp == 0
        &&& self.offload_missing_tx_cksum_udp == 0
        &&& self.offload_missing_mbuf_fast_free == 0
        &&& self.offload_missing_rss_hash == 0
        &&& self.offload_missing_llq == 0
        &&& self.offload_missing_rx_timestamp == 0
        &&& self.rx_drop_cksum_bad == 0
        &&& self.llq_wc_missing == 0
        &&& self.llq_header_overflow_risk == 0
        &&& self.eni_bw_in_allowance_exceeded == 0
        &&& self.eni_bw_out_allowance_exceeded == 0
        &&& self.eni_pps_allowance_exceeded == 0
        &&& self.eni_conntrack_allowance_exceeded == 0
        &&& self.eni_linklocal_allowance_exceeded == 0
        &&& self.tx_q0_linearize == 0
        &&& self.tx_q0_doorbells == 0
        &&& self.tx_q0_missed_tx == 0
        &&& self.tx_q0_bad_req_id == 0
        &&& self.rx_q0_refill_partial == 0
        &&& self.rx_q0_bad_desc_num == 0
        &&& self.rx_q0_bad_req_id == 0
        &&& self.rx_q0_mbuf_alloc_fail == 0
    }
}

impl Default for EthCounters {
    fn default() -> (r: Self)
        ensures
            r.is_zero(),
    {
        EthCounters {
            rx_pkts: 0,
            rx_bytes: 0,
            rx_drop_miss_mac: 0,
            rx_drop_nomem: 0,
            tx_pkts: 0,
            tx_bytes: 0,
            tx_drop_full_ring: 0,
            tx_drop_nomem: 0,
            rx_drop_short: 0,
            rx_drop_unknown_ethertype: 0,
            rx_arp: 0,
            tx_arp: 0,
            offload_missing_rx_cksum_ipv4: 0,
            offload_missing_rx_cksum_tcp: 0,
            offload_missing_rx_cksum_udp: 0,
            offload_missing_tx_cksum_ipv4: 0,
            offload_missing_tx_cksum_tcp: 0,
            offload_missing_tx_cksum_udp: 0,
            offload_missing_mbuf_fast_free: 0,
            offload_missing_rss_hash: 0,
            offload_missing_llq: 0,
            offload_missing_rx_timestamp: 0,
            rx_drop_cksum_bad: 0,
            llq_wc_missing: 0,
            llq_header_overflow_risk: 0,
            eni_bw_in_allowance_exceeded: 0,
            eni_bw_out_allowance_exceeded: 0,
            eni_pps_allowance_exceeded: 0,
            eni_conntrack_allowance_exceeded: 0,
            eni_linklocal_allowance_exceeded: 0,
            tx_q0_linearize: 0,
            tx_q0_doorbells: 0,
            tx_q0_missed_tx: 0,
            tx_q0_bad_req_id: 0,
            rx_q0_refill_partial: 0,
            rx_q0_bad_desc_num: 0,
            rx_q0_bad_req_id: 0,
            rx_q0_mbuf_alloc_fail: 0,
        }
    }
}

impl IpCounters {
    /// Every counter of the group is zero.
    pub open spec fn is_zero(self) -> bool {
        &&& self.rx_csum_bad == 0
        &&& self.rx_ttl_zero == 0
        &&& self.rx_frag == 0
        &&& self.rx_icmp_frag_needed == 0
        &&& self.pmtud_updates == 0
        &&& self.rx_drop_short == 0
        &&& self.rx_drop_bad_version == 0
        &&& self.rx_drop_bad_hl == 0
        &&& self.rx_drop_not_ours == 0
        &&& self.rx_drop_unsupported_proto == 0
        &&& self.rx_tcp == 0
        &&& self.rx_icmp == 0
    }
}

impl Default for IpCounters {
    fn default() -> (r: Self)
        ensures
            r.is_zero(),
    {
        IpCounters {
            rx_csum_bad: 0,
            rx_ttl_zero: 0,
            rx_frag: 0,
            rx_icmp_frag_needed: 0,
            pmtud_updates: 0,
            rx_drop_short: 0,
            rx_drop_bad_version: 0,
            rx_drop_bad_hl: 0,
            rx_drop_not_ours: 0,
            rx_drop_unsupported_proto: 0,
            rx_tcp: 0,
            rx_icmp: 0,
        }
    }
}

impl TcpCounters {
    /// Every counter of the group is zero.
    pub open spec fn is_zero(self) -> bool {
        &&& self.rx_syn_ack == 0
        &&& self.rx_data == 0
        &&& self.rx_ack == 0
        &&& self.rx_rst == 0
        &&& self.tx_retrans == 0
        &&& self.tx_rto == 0
        &&& self.tx_tlp == 0
        &&& self.tx_retrans_rto == 0
        &&& self.tx_retrans_rack == 0
        &&& self.tx_retrans_tlp == 0
        &&& self.conn_open == 0
        &&& self.conn_close == 0
        &&& self.conn_rst == 0
        &&& self.send_buf_full == 0
        &&& self.recv_buf_delivered == 0
        &&& self.tx_syn == 0
        &&& self.tx_ack == 0
        &&& self.tx_data == 0
        &&& self.tx_fin == 0
        &&& self.tx_rst == 0
        &&& self.rx_fin == 0
        &&& self.rx_unmatched == 0
        &&& self.rx_bad_csum == 0
        &&& self.rx_bad_flags == 0
        &&& self.rx_short == 0
        &&& self.recv_buf_drops == 0
        &&& self.rx_paws_rejected == 0
        &&& self.rx_bad_option == 0
        &&& self.rx_reassembly_queued == 0
        &&& self.rx_reassembly_hole_filled == 0
        &&& self.tx_sack_blocks == 0
        &&& self.rx_sack_blocks == 0
        &&& self.rx_bad_seq == 0
        &&& self.rx_bad_ack == 0
        &&& self.rx_dup_ack == 0
        &&& self.rx_zero_window == 0
        &&& self.rx_urgent_dropped == 0
        &&& self.tx_zero_window == 0
        &&& self.tx_window_update == 0
        &&& self.conn_table_full == 0
        &&& self.conn_time_wait_reaped == 0
        &&& self.tx_payload_bytes == 0
        &&& self.rx_payload_bytes == 0
        &&& self.conn_timeout_retrans == 0
        &&& self.conn_timeout_syn_sent == 0
        &&& self.rtt_samples == 0
        &&& self.tx_rack_loss == 0
        &&& self.rack_reo_wnd_override_active == 0
        &&& self.rto_no_backoff_active == 0
        &&& self.rx_ws_shift_clamped == 0
        &&& self.rx_dsack == 0
        &&& self.tx_tlp_spurious == 0
        &&& self.tx_api_timers_fired == 0
        &&& self.ts_recent_expired == 0
        &&& self.tx_flush_bursts == 0
        &&& self.tx_flush_batched_pkts == 0
        &&& self.rx_iovec_segs_total == 0
        &&& self.rx_multi_seg_events == 0
        &&& self.rx_partial_read_splits == 0
        &&& self.tx_persist == 0
        &&& self.mbuf_refcnt_drop_unexpected == 0
        &&& self.rx_mempool_avail == 0
        &&& self.tx_data_mempool_avail == 0
        &&& forall|i: int, j: int|
            #![trigger self.state_trans[i][j]]
            0 <= i < 11 && 0 <= j < 11 ==> self.state_trans[i][j] == 0
    }
}

impl Default for TcpCounters {
    fn default() -> (r: Self)
        ensures
            r.is_zero(),
    {
        TcpCounters {
            rx_syn_ack: 0,
            rx_data: 0,
            rx_ack: 0,
            rx_rst: 0,
            tx_retrans: 0,
            tx_rto: 0,
            tx_tlp: 0,
            tx_retrans_rto: 0,
            tx_retrans_rack: 0,
            tx_retrans_tlp: 0,
            conn_open: 0,
            conn_close: 0,
            conn_rst: 0,
            send_buf_full: 0,
            recv_buf_delivered: 0,
            tx_syn: 0,
            tx_ack: 0,
            tx_data: 0,
            tx_fin: 0,
            tx_rst: 0,
            rx_fin: 0,
            rx_unmatched: 0,
            rx_bad_csum: 0,
            rx_bad_flags: 0,
            rx_short: 0,
            recv_buf_drops: 0,
            rx_paws_rejected: 0,
            rx_bad_option: 0,
            rx_reassembly_queued: 0,
            rx_reassembly_hole_filled: 0,
            tx_sack_blocks: 0,
            rx_sack_blocks: 0,
            rx_bad_seq: 0,
            rx_bad_ack: 0,
            rx_dup_ack: 0,
            rx_zero_window: 0,
            rx_urgent_dropped: 0,
            tx_zero_window: 0,
            tx_window_update: 0,
            conn_table_full: 0,
            conn_time_wait_reaped: 0,
            tx_payload_bytes: 0,
            rx_payload_bytes: 0,
            conn_timeout_retrans: 0,
            conn_timeout_syn_sent: 0,
            rtt_samples: 0,
            tx_rack_loss: 0,
            rack_reo_wnd_override_active: 0,
            rto_no_backoff_active: 0,
            rx_ws_shift_clamped: 0,
            rx_dsack: 0,
            tx_tlp_spurious: 0,
            tx_api_timers_fired: 0,
            ts_recent_expired: 0,
            tx_flush_bursts: 0,
            tx_flush_batched_pkts: 0,
            rx_iovec_segs_total: 0,
            rx_multi_seg_events: 0,
            rx_partial_read_splits: 0,
            tx_persist: 0,
            mbuf_refcnt_drop_unexpected: 0,
            state_trans: [[0; 11]; 11],
            rx_mempool_avail: 0,
            tx_data_mempool_avail: 0,
        }
    }
}

impl PollCounters {
    /// Every counter of the group is zero.
    pub open spec fn is_zero(self) -> bool {
        &&& self.iters == 0
        &&& self.iters_with_rx == 0
        &&& self.iters_with_tx == 0
        &&& self.iters_idle == 0
        &&& self.iters_with_rx_burst_max == 0
    }
}

impl Default for PollCounters {
    fn default() -> (r: Self)
        ensures
            r.is_zero(),
    {
        PollCounters {
            iters: 0,
            iters_with_rx: 0,
            iters_with_tx: 0,
            iters_idle: 0,
            iters_with_rx_burst_max: 0,
        }
    }
}

impl ObsCounters {
    /// Every counter of the group is zero.
    pub open spec fn is_zero(self) -> bool {
        &&& self.events_dropped == 0
        &&& self.events_queue_high_water == 0
    }
}

impl Default for ObsCounters {
    fn default() -> (r: Self)
        ensures
            r.is_zero(),
    {
        ObsCounters {
            events_dropped: 0,
            events_queue_high_water: 0,
        }
    }
}

impl FaultInjectorCounters {
    /// Every counter of the group is zero.
    pub open spec fn is_zero(self) -> bool {
        &&& self.drops == 0
        &&& self.dups == 0
        &&& self.reorders == 0
        &&& self.corrupts == 0
    }
}

impl Default for FaultInjectorCounters {
    fn default() -> (r: Self)
        ensures
            r.is_zero(),
    {
        FaultInjectorCounters {
            drops: 0,
            dups: 0,
            reorders: 0,
            corrupts: 0,
        }
    }
}

impl Counters {
    /// Every counter is zero.
    pub open spec fn is_zero(self) -> bool {
        &&& self.eth.is_zero()
        &&& self.ip.is_zero()
        &&& self.tcp.is_zero()
        &&& self.poll.is_zero()
        &&& self.obs.is_zero()
        &&& self.fault_injector.is_zero()
    }

    /// A set of counters, all at zero.
    pub fn new() -> (r: Self)
        ensures
            r.is_zero(),
    {
        Counters {
            eth: EthCounters::default(),
            ip: IpCounters::default(),
            tcp: TcpCounters::default(),
            poll: PollCounters::default(),
            obs: ObsCounters::default(),
            fault_injector: FaultInjectorCounters::default(),
        }
    }
}

impl Default for Counters {
    fn default() -> (r: Self)
        ensures
            r.is_zero(),
    {
        Counters::new()
    }
}

impl FaultInjectorCounters {
    /// The group with all counters at zero.
    pub fn new() -> (r: Self)
        ensures
            r.is_zero(),
    {
        FaultInjectorCounters { drops: 0, dups: 0, reorders: 0, corrupts: 0 }
    }
}

/// Adds one to a counter, wrapping around.
pub fn inc(a: &mut u64)
    ensures
        *final(a) == (*old(a)).wrapping_add(1),
{
    *a = (*a).wrapping_add(1);
}

/// One more, if it happened.
pub open spec fn bumped(c: u64, happened: bool) -> u64 {
    if happened {
        c.wrapping_add(1)
    } else {
        c
    }
}

/// Counts one, if it happened.
pub fn inc_if(a: &mut u64, happened: bool)
    ensures
        *final(a) == bumped(*old(a), happened),
{
    if happened {
        *a = a.wrapping_add(1);
    }
}

/// Adds `n` to a counter, wrapping around.
pub fn add(a: &mut u64, n: u64)
    ensures
        *final(a) == (*old(a)).wrapping_add(n),
{
    *a = (*a).wrapping_add(n);
}

/// Counts one segment that the retransmission timer retransmitted: its own counter and
/// the aggregate.
pub fn inc_tx_retrans_rto(t: &mut TcpCounters)
    ensures
        *final(t) == (TcpCounters {
            tx_retrans_rto: old(t).tx_retrans_rto.wrapping_add(1),
            tx_retrans: old(t).tx_retrans.wrapping_add(1),
            ..*old(t)
        }),
{
    inc(&mut t.tx_retrans_rto);
    inc(&mut t.tx_retrans);
}

/// Counts one segment that the loss detector retransmitted: its own counter and
/// the aggregate.
pub fn inc_tx_retrans_rack(t: &mut TcpCounters)
    ensures
        *final(t) == (TcpCounters {
            tx_retrans_rack: old(t).tx_retrans_rack.wrapping_add(1),
            tx_retrans: old(t).tx_retrans.wrapping_add(1),
            ..*old(t)
        }),
{
    inc(&mut t.tx_retrans_rack);
    inc(&mut t.tx_retrans);
}

/// Counts one segment that the tail-loss probe retransmitted: its own counter and
/// the aggregate.
pub fn inc_tx_retrans_tlp(t: &mut TcpCounters)
    ensures
        *final(t) == (TcpCounters {
            tx_retrans_tlp: old(t).tx_retrans_tlp.wrapping_add(1),
            tx_retrans: old(t).tx_retrans.wrapping_add(1),
            ..*old(t)
        }),
{
    inc(&mut t.tx_retrans_tlp);
    inc(&mut t.tx_retrans);
}

/// The segments in the aggregate that none of the three triggers accounts for.
pub open spec fn unattributed_retrans(t: TcpCounters) -> u64 {
    t.tx_retrans.wrapping_sub(t.tx_retrans_rto).wrapping_sub(t.tx_retrans_rack).wrapping_sub(
        t.tx_retrans_tlp,
    )
}

/// The counters after one more segment was sent again, for a loss that `cause`
/// showed.
pub open spec fn retrans_counted(t: TcpCounters, cause: LossCause) -> TcpCounters {
    let tx_retrans = t.tx_retrans.wrapping_add(1);
    match cause {
        LossCause::Rto => TcpCounters {
            tx_retrans_rto: t.tx_retrans_rto.wrapping_add(1),
            tx_retrans,
            ..t
        },
        LossCause::Rack => TcpCounters {
            tx_retrans_rack: t.tx_retrans_rack.wrapping_add(1),
            tx_retrans,
            ..t
        },
        LossCause::Tlp => TcpCounters {
            tx_retrans_tlp: t.tx_retrans_tlp.wrapping_add(1),
            tx_retrans,
            ..t
        },
    }
}

/// Counts one segment that was sent again, under what showed its loss and in
/// the aggregate.
pub fn inc_tx_retrans(t: &mut TcpCounters, cause: LossCause)
    ensures
        *final(t) == retrans_counted(*old(t), cause),
{
    match cause {
        LossCause::Rto => inc_tx_retrans_rto(t),
        LossCause::Rack => inc_tx_retrans_rack(t),
        LossCause::Tlp => inc_tx_retrans_tlp(t),
    }
}

/// The three sub-counters partition the segments that were sent again for a
/// loss: counting one of those leaves the unattributed part of the aggregate
/// unchanged, whatever showed the loss. A handshake segment, which only the
/// aggregate counts, adds one to that part.
pub proof fn law_retrans_partition(t: TcpCounters, cause: LossCause)
    ensures
        unattributed_retrans(retrans_counted(t, cause)) == unattributed_retrans(t),
        unattributed_retrans(TcpCounters { tx_retrans: t.tx_retrans.wrapping_add(1), ..t })
            == unattributed_retrans(t).wrapping_add(1),
{
}

impl TcpCounters {
    /// The counters after one more transition from `from` to `to`, where `m`
    /// is the transition matrix that holds the new count.
    pub open spec fn with_transition(
        self,
        from: TcpState,
        to: TcpState,
        m: [[u64; 11]; 11],
    ) -> bool {
        forall|i: int, j: int|
            #![trigger m[i][j]]
            0 <= i < 11 && 0 <= j < 11 ==> m[i][j] == if i == from.number() && j == to.number() {
                self.state_trans[i][j].wrapping_add(1)
            } else {
                self.state_trans[i][j]
            }
    }

    /// Counts one transition from `from` to `to`.
    pub fn count_transition(&mut self, from: TcpState, to: TcpState)
        ensures
            old(self).with_transition(from, to, final(self).state_trans),
            *final(self) == (TcpCounters { state_trans: final(self).state_trans, ..*old(self) }),
    {
        let i: usize = from.index();
        let j: usize = to.index();
        self.state_trans[i][j] = self.state_trans[i][j].wrapping_add(1);
    }
}

/// Number of names in `ALL_COUNTER_NAMES`.
pub const KNOWN_COUNTER_COUNT: usize = 122;

/// The name of every counter that `lookup_counter` resolves, group by group.
/// The cells of the transition matrix have no name.
pub const ALL_COUNTER_NAMES: [&'static str; 122] = [
    "eth.rx_pkts",
    "eth.rx_bytes",
    "eth.rx_drop_miss_mac",
    "eth.rx_drop_nomem",
    "eth.tx_pkts",
    "eth.tx_bytes",
    "eth.tx_drop_full_ring",
    "eth.tx_drop_nomem",
    "eth.rx_drop_short",
    "eth.rx_drop_unknown_ethertype",
    "eth.rx_arp",
    "eth.tx_arp",
    "eth.offload_missing_rx_cksum_ipv4",
    "eth.offload_missing_rx_cksum_tcp",
    "eth.offload_missing_rx_cksum_udp",
    "eth.offload_missing_tx_cksum_ipv4",
    "eth.offload_missing_tx_cksum_tcp",
    "eth.offload_missing_tx_cksum_udp",
    "eth.offload_missing_mbuf_fast_free",
    "eth.offload_missing_rss_hash",
    "eth.offload_missing_llq",
    "eth.offload_missing_rx_timestamp",
    "eth.rx_drop_cksum_bad",
    "eth.llq_wc_missing",
    "eth.llq_header_overflow_risk",
    "eth.eni_bw_in_allowance_exceeded",
    "eth.eni_bw_out_allowance_exceeded",
    "eth.eni_pps_allowance_exceeded",
    "eth.eni_conntrack_allowance_exceeded",
    "eth.eni_linklocal_allowance_exceeded",
    "eth.tx_q0_linearize",
    "eth.tx_q0_doorbells",
    "eth.tx_q0_missed_tx",
    "eth.tx_q0_bad_req_id",
    "eth.rx_q0_refill_partial",
    "eth.rx_q0_bad_desc_num",
    "eth.rx_q0_bad_req_id",
    "eth.rx_q0_mbuf_alloc_fail",
    "ip.rx_csum_bad",
    "ip.rx_ttl_zero",
    "ip.rx_frag",
    "ip.rx_icmp_frag_needed",
    "ip.pmtud_updates",
    "ip.rx_drop_short",
    "ip.rx_drop_bad_version",
    "ip.rx_drop_bad_hl",
    "ip.rx_drop_not_ours",
    "ip.rx_drop_unsupported_proto",
    "ip.rx_tcp",
    "ip.rx_icmp",
    "tcp.rx_syn_ack",
    "tcp.rx_data",
    "tcp.rx_ack",
    "tcp.rx_rst",
    "tcp.tx_retrans",
    "tcp.tx_rto",
    "tcp.tx_tlp",
    "tcp.tx_retrans_rto",
    "tcp.tx_retrans_rack",
    "tcp.tx_retrans_tlp",
    "tcp.conn_open",
    "tcp.conn_close",
    "tcp.conn_rst",
    "tcp.send_buf_full",
    "tcp.recv_buf_delivered",
    "tcp.tx_syn",
    "tcp.tx_ack",
    "tcp.tx_data",
    "tcp.tx_fin",
    "tcp.tx_rst",
    "tcp.rx_fin",
    "tcp.rx_unmatched",
    "tcp.rx_bad_csum",
    "tcp.rx_bad_flags",
    "tcp.rx_short",
    "tcp.recv_buf_drops",
    "tcp.rx_paws_rejected",
    "tcp.rx_bad_option",
    "tcp.rx_reassembly_queued",
    "tcp.rx_reassembly_hole_filled",
    "tcp.tx_sack_blocks",
    "tcp.rx_sack_blocks",
    "tcp.rx_bad_seq",
    "tcp.rx_bad_ack",
    "tcp.rx_dup_ack",
    "tcp.rx_zero_window",
    "tcp.rx_urgent_dropped",
    "tcp.tx_zero_window",
    "tcp.tx_window_update",
    "tcp.conn_table_full",
    "tcp.conn_time_wait_reaped",
    "tcp.tx_payload_bytes",
    "tcp.rx_payload_bytes",
    "tcp.conn_timeout_retrans",
    "tcp.conn_timeout_syn_sent",
    "tcp.rtt_samples",
    "tcp.tx_rack_loss",
    "tcp.rack_reo_wnd_override_active",
    "tcp.rto_no_backoff_active",
    "tcp.rx_ws_shift_clamped",
    "tcp.rx_dsack",
    "tcp.tx_tlp_spurious",
    "tcp.tx_api_timers_fired",
    "tcp.ts_recent_expired",
    "tcp.tx_flush_bursts",
    "tcp.tx_flush_batched_pkts",
    "tcp.rx_iovec_segs_total",
    "tcp.rx_multi_seg_events",
    "tcp.rx_partial_read_splits",
    "tcp.tx_persist",
    "tcp.mbuf_refcnt_drop_unexpected",
    "poll.iters",
    "poll.iters_with_rx",
    "poll.iters_with_tx",
    "poll.iters_idle",
    "poll.iters_with_rx_burst_max",
    "obs.events_dropped",
    "obs.events_queue_high_water",
    "fault_injector.drops",
    "fault_injector.dups",
    "fault_injector.reorders",
    "fault_injector.corrupts",
];

/// The counter of the `eth` group that a full name stands for.
pub open spec fn eth_counter_named(c: EthCounters, name: Seq<char>) -> Option<u64> {
    if name == "eth.rx_pkts"@ {
        Some(c.rx_pkts)
    } else if name == "eth.rx_bytes"@ {
        Some(c.rx_bytes)
    } else if name == "eth.rx_drop_miss_mac"@ {
        Some(c.rx_drop_miss_mac)
    } else if name == "eth.rx_drop_nomem"@ {
        Some(c.rx_drop_nomem)
    } else if name == "eth.tx_pkts"@ {
        Some(c.tx_pkts)
    } else if name == "eth.tx_bytes"@ {
        Some(c.tx_bytes)
    } else if name == "eth.tx_drop_full_ring"@ {
        Some(c.tx_drop_full_ring)
    } else if name == "eth.tx_drop_nomem"@ {
        Some(c.tx_drop_nomem)
    } else if name == "eth.rx_drop_short"@ {
        Some(c.rx_drop_short)
    } else if name == "eth.rx_drop_unknown_ethertype"@ {
        Some(c.rx_drop_unknown_ethertype)
    } else if name == "eth.rx_arp"@ {
        Some(c.rx_arp)
    } else if name == "eth.tx_arp"@ {
        Some(c.tx_arp)
    } else if name == "eth.offload_missing_rx_cksum_ipv4"@ {
        Some(c.offload_missing_rx_cksum_ipv4)
    } else if name == "eth.offload_missing_rx_cksum_tcp"@ {
        Some(c.offload_missing_rx_cksum_tcp)
    } else if name == "eth.offload_missing_rx_cksum_udp"@ {
        Some(c.offload_missing_rx_cksum_udp)
    } else if name == "eth.offload_missing_tx_cksum_ipv4"@ {
        Some(c.offload_missing_tx_cksum_ipv4)
    } else if name == "eth.offload_missing_tx_cksum_tcp"@ {
        Some(c.offload_missing_tx_cksum_tcp)
    } else if name == "eth.offload_missing_tx_cksum_udp"@ {
        Some(c.offload_missing_tx_cksum_udp)
    } else if name == "eth.offload_missing_mbuf_fast_free"@ {
        Some(c.offload_missing_mbuf_fast_free)
    } else if name == "eth.offload_missing_rss_hash"@ {
        Some(c.offload_missing_rss_hash)
    } else if name == "eth.offload_missing_llq"@ {
        Some(c.offload_missing_llq)
    } else if name == "eth.offload_missing_rx_timestamp"@ {
        Some(c.offload_missing_rx_timestamp)
    } else if name == "eth.rx_drop_cksum_bad"@ {
        Some(c.rx_drop_cksum_bad)
    } else if name == "eth.llq_wc_missing"@ {
        Some(c.llq_wc_missing)
    } else if name == "eth.llq_header_overflow_risk"@ {
        Some(c.llq_header_overflow_risk)
    } else if name == "eth.eni_bw_in_allowance_exceeded"@ {
        Some(c.eni_bw_in_allowance_exceeded)
    } else if name == "eth.eni_bw_out_allowance_exceeded"@ {
        Some(c.eni_bw_out_allowance_exceeded)
    } else if name == "eth.eni_pps_allowance_exceeded"@ {
        Some(c.eni_pps_allowance_exceeded)
    } else if name == "eth.eni_conntrack_allowance_exceeded"@ {
        Some(c.eni_conntrack_allowance_exceeded)
    } else if name == "eth.eni_linklocal_allowance_exceeded"@ {
        Some(c.eni_linklocal_allowance_exceeded)
    } else if name == "eth.tx_q0_linearize"@ {
        Some(c.tx_q0_linearize)
    } else if name == "eth.tx_q0_doorbells"@ {
        Some(c.tx_q0_doorbells)
    } else if name == "eth.tx_q0_missed_tx"@ {
        Some(c.tx_q0_missed_tx)
    } else if name == "eth.tx_q0_bad_req_id"@ {
        Some(c.tx_q0_bad_req_id)
    } else if name == "eth.rx_q0_refill_partial"@ {
        Some(c.rx_q0_refill_partial)
    } else if name == "eth.rx_q0_bad_desc_num"@ {
        Some(c.rx_q0_bad_desc_num)
    } else if name == "eth.rx_q0_bad_req_id"@ {
        Some(c.rx_q0_bad_req_id)
    } else if name == "eth.rx_q0_mbuf_alloc_fail"@ {
        Some(c.rx_q0_mbuf_alloc_fail)
    } else {
        None
    }
}

/// The counter of the `ip` group that a full name stands for.
pub open spec fn ip_counter_named(c: IpCounters, name: Seq<char>) -> Option<u64> {
    if name == "ip.rx_csum_bad"@ {
        Some(c.rx_csum_bad)
    } else if name == "ip.rx_ttl_zero"@ {
        Some(c.rx_ttl_zero)
    } else if name == "ip.rx_frag"@ {
        Some(c.rx_frag)
    } else if name == "ip.rx_icmp_frag_needed"@ {
        Some(c.rx_icmp_frag_needed)
    } else if name == "ip.pmtud_updates"@ {
        Some(c.pmtud_updates)
    } else if name == "ip.rx_drop_short"@ {
        Some(c.rx_drop_short)
    } else if name == "ip.rx_drop_bad_version"@ {
        Some(c.rx_drop_bad_version)
    } else if name == "ip.rx_drop_bad_hl"@ {
        Some(c.rx_drop_bad_hl)
    } else if name == "ip.rx_drop_not_ours"@ {
        Some(c.rx_drop_not_ours)
    } else if name == "ip.rx_drop_unsupported_proto"@ {
        Some(c.rx_drop_unsupported_proto)
    } else if name == "ip.rx_tcp"@ {
        Some(c.rx_tcp)
    } else if name == "ip.rx_icmp"@ {
        Some(c.rx_icmp)
    } else {
        None
    }
}

/// The counter of the `tcp` group that a full name stands for.
pub open spec fn tcp_counter_named(c: TcpCounters, name: Seq<char>) -> Option<u64> {
    if name == "tcp.rx_syn_ack"@ {
        Some(c.rx_syn_ack)
    } else if name == "tcp.rx_data"@ {
        Some(c.rx_data)
    } else if name == "tcp.rx_ack"@ {
        Some(c.rx_ack)
    } else if name == "tcp.rx_rst"@ {
        Some(c.rx_rst)
    } else if name == "tcp.tx_retrans"@ {
        Some(c.tx_retrans)
    } else if name == "tcp.tx_rto"@ {
        Some(c.tx_rto)
    } else if name == "tcp.tx_tlp"@ {
        Some(c.tx_tlp)
    } else if name == "tcp.tx_retrans_rto"@ {
        Some(c.tx_retrans_rto)
    } else if name == "tcp.tx_retrans_rack"@ {
        Some(c.tx_retrans_rack)
    } else if name == "tcp.tx_retrans_tlp"@ {
        Some(c.tx_retrans_tlp)
    } else if name == "tcp.conn_open"@ {
        Some(c.conn_open)
    } else if name == "tcp.conn_close"@ {
        Some(c.conn_close)
    } else if name == "tcp.conn_rst"@ {
        Some(c.conn_rst)
    } else if name == "tcp.send_buf_full"@ {
        Some(c.send_buf_full)
    } else if name == "tcp.recv_buf_delivered"@ {
        Some(c.recv_buf_delivered)
    } else if name == "tcp.tx_syn"@ {
        Some(c.tx_syn)
    } else if name == "tcp.tx_ack"@ {
        Some(c.tx_ack)
    } else if name == "tcp.tx_data"@ {
        Some(c.tx_data)
    } else if name == "tcp.tx_fin"@ {
        Some(c.tx_fin)
    } else if name == "tcp.tx_rst"@ {
        Some(c.tx_rst)
    } else if name == "tcp.rx_fin"@ {
        Some(c.rx_fin)
    } else if name == "tcp.rx_unmatched"@ {
        Some(c.rx_unmatched)
    } else if name == "tcp.rx_bad_csum"@ {
        Some(c.rx_bad_csum)
    } else if name == "tcp.rx_bad_flags"@ {
        Some(c.rx_bad_flags)
    } else if name == "tcp.rx_short"@ {
        Some(c.rx_short)
    } else if name == "tcp.recv_buf_drops"@ {
        Some(c.recv_buf_drops)
    } else if name == "tcp.rx_paws_rejected"@ {
        Some(c.rx_paws_rejected)
    } else if name == "tcp.rx_bad_option"@ {
        Some(c.rx_bad_option)
    } else if name == "tcp.rx_reassembly_queued"@ {
        Some(c.rx_reassembly_queued)
    } else if name == "tcp.rx_reassembly_hole_filled"@ {
        Some(c.rx_reassembly_hole_filled)
    } else if name == "tcp.tx_sack_blocks"@ {
        Some(c.tx_sack_blocks)
    } else if name == "tcp.rx_sack_blocks"@ {
        Some(c.rx_sack_blocks)
    } else if name == "tcp.rx_bad_seq"@ {
        Some(c.rx_bad_seq)
    } else if name == "tcp.rx_bad_ack"@ {
        Some(c.rx_bad_ack)
    } else if name == "tcp.rx_dup_ack"@ {
        Some(c.rx_dup_ack)
    } else if name == "tcp.rx_zero_window"@ {
        Some(c.rx_zero_window)
    } else if name == "tcp.rx_urgent_dropped"@ {
        Some(c.rx_urgent_dropped)
    } else if name == "tcp.tx_zero_window"@ {
        Some(c.tx_zero_window)
    } else if name == "tcp.tx_window_update"@ {
        Some(c.tx_window_update)
    } else if name == "tcp.conn_table_full"@ {
        Some(c.conn_table_full)
    } else if name == "tcp.conn_time_wait_reaped"@ {
        Some(c.conn_time_wait_reaped)
    } else if name == "tcp.tx_payload_bytes"@ {
        Some(c.tx_payload_bytes)
    } else if name == "tcp.rx_payload_bytes"@ {
        Some(c.rx_payload_bytes)
    } else if name == "tcp.conn_timeout_retrans"@ {
        Some(c.conn_timeout_retrans)
    } else if name == "tcp.conn_timeout_syn_sent"@ {
        Some(c.conn_timeout_syn_sent)
    } else if name == "tcp.rtt_samples"@ {
        Some(c.rtt_samples)
    } else if name == "tcp.tx_rack_loss"@ {
        Some(c.tx_rack_loss)
    } else if name == "tcp.rack_reo_wnd_override_active"@ {
        Some(c.rack_reo_wnd_override_active)
    } else if name == "tcp.rto_no_backoff_active"@ {
        Some(c.rto_no_backoff_active)
    } else if name == "tcp.rx_ws_shift_clamped"@ {
        Some(c.rx_ws_shift_clamped)
    } else if name == "tcp.rx_dsack"@ {
        Some(c.rx_dsack)
    } else if name == "tcp.tx_tlp_spurious"@ {
        Some(c.tx_tlp_spurious)
    } else if name == "tcp.tx_api_timers_fired"@ {
        Some(c.tx_api_timers_fired)
    } else if name == "tcp.ts_recent_expired"@ {
        Some(c.ts_recent_expired)
    } else if name == "tcp.tx_flush_bursts"@ {
        Some(c.tx_flush_bursts)
    } else if name == "tcp.tx_flush_batched_pkts"@ {
        Some(c.tx_flush_batched_pkts)
    } else if name == "tcp.rx_iovec_segs_total"@ {
        Some(c.rx_iovec_segs_total)
    } else if name == "tcp.rx_multi_seg_events"@ {
        Some(c.rx_multi_seg_events)
    } else if name == "tcp.rx_partial_read_splits"@ {
        Some(c.rx_partial_read_splits)
    } else if name == "tcp.tx_persist"@ {
        Some(c.tx_persist)
    } else if name == "tcp.mbuf_refcnt_drop_unexpected"@ {
        Some(c.mbuf_refcnt_drop_unexpected)
    } else {
        None
    }
}

/// The counter of the `poll` group that a full name stands for.
pub open spec fn poll_counter_named(c: PollCounters, name: Seq<char>) -> Option<u64> {
    if name == "poll.iters"@ {
        Some(c.iters)
    } else if name == "poll.iters_with_rx"@ {
        Some(c.iters_with_rx)
    } else if name == "poll.iters_with_tx"@ {
        Some(c.iters_with_tx)
    } else if name == "poll.iters_idle"@ {
        Some(c.iters_idle)
    } else if name == "poll.iters_with_rx_burst_max"@ {
        Some(c.iters_with_rx_burst_max)
    } else {
        None
    }
}

/// The counter of the `obs` group that a full name stands for.
pub open spec fn obs_counter_named(c: ObsCounters, name: Seq<char>) -> Option<u64> {
    if name == "obs.events_dropped"@ {
        Some(c.events_dropped)
    } else if name == "obs.events_queue_high_water"@ {
        Some(c.events_queue_high_water)
    } else {
        None
    }
}

/// The counter of the `fault_injector` group that a full name stands for.
pub open spec fn fault_injector_counter_named(
    c: FaultInjectorCounters,
    name: Seq<char>,
) -> Option<u64> {
    if name == "fault_injector.drops"@ {
        Some(c.drops)
    } else if name == "fault_injector.dups"@ {
        Some(c.dups)
    } else if name == "fault_injector.reorders"@ {
        Some(c.reorders)
    } else if name == "fault_injector.corrupts"@ {
        Some(c.corrupts)
    } else {
        None
    }
}

/// The counter that a full name stands for, if it names one.
pub open spec fn counter_named(c: Counters, name: Seq<char>) -> Option<u64> {
    if let Some(v) = eth_counter_named(c.eth, name) {
        Some(v)
    } else if let Some(v) = ip_counter_named(c.ip, name) {
        Some(v)
    } else if let Some(v) = tcp_counter_named(c.tcp, name) {
        Some(v)
    } else if let Some(v) = poll_counter_named(c.poll, name) {
        Some(v)
    } else if let Some(v) = obs_counter_named(c.obs, name) {
        Some(v)
    } else {
        fault_injector_counter_named(c.fault_injector, name)
    }
}

fn lookup_eth<'a>(c: &'a EthCounters, name: &str) -> (r: Option<&'a u64>)
    ensures
        r is Some <==> eth_counter_named(*c, name@) is Some,
        r is Some ==> Some(*r->0) == eth_counter_named(*c, name@),
{
    if str_eq(name, "eth.rx_pkts") {
        return Some(&c.rx_pkts);
    }
    if str_eq(name, "eth.rx_bytes") {
        return Some(&c.rx_bytes);
    }
    if str_eq(name, "eth.rx_drop_miss_mac") {
        return Some(&c.rx_drop_miss_mac);
    }
    if str_eq(name, "eth.rx_drop_nomem") {
        return Some(&c.rx_drop_nomem);
    }
    if str_eq(name, "eth.tx_pkts") {
        return Some(&c.tx_pkts);
    }
    if str_eq(name, "eth.tx_bytes") {
        return Some(&c.tx_bytes);
    }
    if str_eq(name, "eth.tx_drop_full_ring") {
        return Some(&c.tx_drop_full_ring);
    }
    if str_eq(name, "eth.tx_drop_nomem") {
        return Some(&c.tx_drop_nomem);
    }
    if str_eq(name, "eth.rx_drop_short") {
        return Some(&c.rx_drop_short);
    }
    if str_eq(name, "eth.rx_drop_unknown_ethertype") {
        return Some(&c.rx_drop_unknown_ethertype);
    }
    if str_eq(name, "eth.rx_arp") {
        return Some(&c.rx_arp);
    }
    if str_eq(name, "eth.tx_arp") {
        return Some(&c.tx_arp);
    }
    if str_eq(name, "eth.offload_missing_rx_cksum_ipv4") {
        return Some(&c.offload_missing_rx_cksum_ipv4);
    }
    if str_eq(name, "eth.offload_missing_rx_cksum_tcp") {
        return Some(&c.offload_missing_rx_cksum_tcp);
    }
    if str_eq(name, "eth.offload_missing_rx_cksum_udp") {
        return Some(&c.offload_missing_rx_cksum_udp);
    }
    if str_eq(name, "eth.offload_missing_tx_cksum_ipv4") {
        return Some(&c.offload_missing_tx_cksum_ipv4);
    }
    if str_eq(name, "eth.offload_missing_tx_cksum_tcp") {
        return Some(&c.offload_missing_tx_cksum_tcp);
    }
    if str_eq(name, "eth.offload_missing_tx_cksum_udp") {
        return Some(&c.offload_missing_tx_cksum_udp);
    }
    if str_eq(name, "eth.offload_missing_mbuf_fast_free") {
        return Some(&c.offload_missing_mbuf_fast_free);
    }
    if str_eq(name, "eth.offload_missing_rss_hash") {
        return Some(&c.offload_missing_rss_hash);
    }
    if str_eq(name, "eth.offload_missing_llq") {
        return Some(&c.offload_missing_llq);
    }
    if str_eq(name, "eth.offload_missing_rx_timestamp") {
        return Some(&c.offload_missing_rx_timestamp);
    }
    if str_eq(name, "eth.rx_drop_cksum_bad") {
        return Some(&c.rx_drop_cksum_bad);
    }
    if str_eq(name, "eth.llq_wc_missing") {
        return Some(&c.llq_wc_missing);
    }
    if str_eq(name, "eth.llq_header_overflow_risk") {
        return Some(&c.llq_header_overflow_risk);
    }
    if str_eq(name, "eth.eni_bw_in_allowance_exceeded") {
        return Some(&c.eni_bw_in_allowance_exceeded);
    }
    if str_eq(name, "eth.eni_bw_out_allowance_exceeded") {
        return Some(&c.eni_bw_out_allowance_exceeded);
    }
    if str_eq(name, "eth.eni_pps_allowance_exceeded") {
        return Some(&c.eni_pps_allowance_exceeded);
    }
    if str_eq(name, "eth.eni_conntrack_allowance_exceeded") {
        return Some(&c.eni_conntrack_allowance_exceeded);
    }
    if str_eq(name, "eth.eni_linklocal_allowance_exceeded") {
        return Some(&c.eni_linklocal_allowance_exceeded);
    }
    if str_eq(name, "eth.tx_q0_linearize") {
        return Some(&c.tx_q0_linearize);
    }
    if str_eq(name, "eth.tx_q0_doorbells") {
        return Some(&c.tx_q0_doorbells);
    }
    if str_eq(name, "eth.tx_q0_missed_tx") {
        return Some(&c.tx_q0_missed_tx);
    }
    if str_eq(name, "eth.tx_q0_bad_req_id") {
        return Some(&c.tx_q0_bad_req_id);
    }
    if str_eq(name, "eth.rx_q0_refill_partial") {
        return Some(&c.rx_q0_refill_partial);
    }
    if str_eq(name, "eth.rx_q0_bad_desc_num") {
        return Some(&c.rx_q0_bad_desc_num);
    }
    if str_eq(name, "eth.rx_q0_bad_req_id") {
        return Some(&c.rx_q0_bad_req_id);
    }
    if str_eq(name, "eth.rx_q0_mbuf_alloc_fail") {
        return Some(&c.rx_q0_mbuf_alloc_fail);
    }
    None
}

fn lookup_ip<'a>(c: &'a IpCounters, name: &str) -> (r: Option<&'a u64>)
    ensures
        r is Some <==> ip_counter_named(*c, name@) is Some,
        r is Some ==> Some(*r->0) == ip_counter_named(*c, name@),
{
    if str_eq(name, "ip.rx_csum_bad") {
        return Some(&c.rx_csum_bad);
    }
    if str_eq(name, "ip.rx_ttl_zero") {
        return Some(&c.rx_ttl_zero);
    }
    if str_eq(name, "ip.rx_frag") {
        return Some(&c.rx_frag);
    }
    if str_eq(name, "ip.rx_icmp_frag_needed") {
        return Some(&c.rx_icmp_frag_needed);
    }
    if str_eq(name, "ip.pmtud_updates") {
        return Some(&c.pmtud_updates);
    }
    if str_eq(name, "ip.rx_drop_short") {
        return Some(&c.rx_drop_short);
    }
    if str_eq(name, "ip.rx_drop_bad_version") {
        return Some(&c.rx_drop_bad_version);
    }
    if str_eq(name, "ip.rx_drop_bad_hl") {
        return Some(&c.rx_drop_bad_hl);
    }
    if str_eq(name, "ip.rx_drop_not_ours") {
        return Some(&c.rx_drop_not_ours);
    }
    if str_eq(name, "ip.rx_drop_unsupported_proto") {
        return Some(&c.rx_drop_unsupported_proto);
    }
    if str_eq(name, "ip.rx_tcp") {
        return Some(&c.rx_tcp);
    }
    if str_eq(name, "ip.rx_icmp") {
        return Some(&c.rx_icmp);
    }
    None
}

fn lookup_tcp<'a>(c: &'a TcpCounters, name: &str) -> (r: Option<&'a u64>)
    ensures
        r is Some <==> tcp_counter_named(*c, name@) is Some,
        r is Some ==> Some(*r->0) == tcp_counter_named(*c, name@),
{
    if str_eq(name, "tcp.rx_syn_ack") {
        return Some(&c.rx_syn_ack);
    }
    if str_eq(name, "tcp.rx_data") {
        return Some(&c.rx_data);
    }
    if str_eq(name, "tcp.rx_ack") {
        return Some(&c.rx_ack);
    }
    if str_eq(name, "tcp.rx_rst") {
        return Some(&c.rx_rst);
    }
    if str_eq(name, "tcp.tx_retrans") {
        return Some(&c.tx_retrans);
    }
    if str_eq(name, "tcp.tx_rto") {
        return Some(&c.tx_rto);
    }
    if str_eq(name, "tcp.tx_tlp") {
        return Some(&c.tx_tlp);
    }
    if str_eq(name, "tcp.tx_retrans_rto") {
        return Some(&c.tx_retrans_rto);
    }
    if str_eq(name, "tcp.tx_retrans_rack") {
        return Some(&c.tx_retrans_rack);
    }
    if str_eq(name, "tcp.tx_retrans_tlp") {
        return Some(&c.tx_retrans_tlp);
    }
    if str_eq(name, "tcp.conn_open") {
        return Some(&c.conn_open);
    }
    if str_eq(name, "tcp.conn_close") {
        return Some(&c.conn_close);
    }
    if str_eq(name, "tcp.conn_rst") {
        return Some(&c.conn_rst);
    }
    if str_eq(name, "tcp.send_buf_full") {
        return Some(&c.send_buf_full);
    }
    if str_eq(name, "tcp.recv_buf_delivered") {
        return Some(&c.recv_buf_delivered);
    }
    if str_eq(name, "tcp.tx_syn") {
        return Some(&c.tx_syn);
    }
    if str_eq(name, "tcp.tx_ack") {
        return Some(&c.tx_ack);
    }
    if str_eq(name, "tcp.tx_data") {
        return Some(&c.tx_data);
    }
    if str_eq(name, "tcp.tx_fin") {
        return Some(&c.tx_fin);
    }
    if str_eq(name, "tcp.tx_rst") {
        return Some(&c.tx_rst);
    }
    if str_eq(name, "tcp.rx_fin") {
        return Some(&c.rx_fin);
    }
    if str_eq(name, "tcp.rx_unmatched") {
        return Some(&c.rx_unmatched);
    }
    if str_eq(name, "tcp.rx_bad_csum") {
        return Some(&c.rx_bad_csum);
    }
    if str_eq(name, "tcp.rx_bad_flags") {
        return Some(&c.rx_bad_flags);
    }
    if str_eq(name, "tcp.rx_short") {
        return Some(&c.rx_short);
    }
    if str_eq(name, "tcp.recv_buf_drops") {
        return Some(&c.recv_buf_drops);
    }
    if str_eq(name, "tcp.rx_paws_rejected") {
        return Some(&c.rx_paws_rejected);
    }
    if str_eq(name, "tcp.rx_bad_option") {
        return Some(&c.rx_bad_option);
    }
    if str_eq(name, "tcp.rx_reassembly_queued") {
        return Some(&c.rx_reassembly_queued);
    }
    if str_eq(name, "tcp.rx_reassembly_hole_filled") {
        return Some(&c.rx_reassembly_hole_filled);
    }
    if str_eq(name, "tcp.tx_sack_blocks") {
        return Some(&c.tx_sack_blocks);
    }
    if str_eq(name, "tcp.rx_sack_blocks") {
        return Some(&c.rx_sack_blocks);
    }
    if str_eq(name, "tcp.rx_bad_seq") {
        return Some(&c.rx_bad_seq);
    }
    if str_eq(name, "tcp.rx_bad_ack") {
        return Some(&c.rx_bad_ack);
    }
    if str_eq(name, "tcp.rx_dup_ack") {
        return Some(&c.rx_dup_ack);
    }
    if str_eq(name, "tcp.rx_zero_window") {
        return Some(&c.rx_zero_window);
    }
    if str_eq(name, "tcp.rx_urgent_dropped") {
        return Some(&c.rx_urgent_dropped);
    }
    if str_eq(name, "tcp.tx_zero_window") {
        return Some(&c.tx_zero_window);
    }
    if str_eq(name, "tcp.tx_window_update") {
        return Some(&c.tx_window_update);
    }
    if str_eq(name, "tcp.conn_table_full") {
        return Some(&c.conn_table_full);
    }
    if str_eq(name, "tcp.conn_time_wait_reaped") {
        return Some(&c.conn_time_wait_reaped);
    }
    if str_eq(name, "tcp.tx_payload_bytes") {
        return Some(&c.tx_payload_bytes);
    }
    if str_eq(name, "tcp.rx_payload_bytes") {
        return Some(&c.rx_payload_bytes);
    }
    if str_eq(name, "tcp.conn_timeout_retrans") {
        return Some(&c.conn_timeout_retrans);
    }
    if str_eq(name, "tcp.conn_timeout_syn_sent") {
        return Some(&c.conn_timeout_syn_sent);
    }
    if str_eq(name, "tcp.rtt_samples") {
        return Some(&c.rtt_samples);
    }
    if str_eq(name, "tcp.tx_rack_loss") {
        return Some(&c.tx_rack_loss);
    }
    if str_eq(name, "tcp.rack_reo_wnd_override_active") {
        return Some(&c.rack_reo_wnd_override_active);
    }
    if str_eq(name, "tcp.rto_no_backoff_active") {
        return Some(&c.rto_no_backoff_active);
    }
    if str_eq(name, "tcp.rx_ws_shift_clamped") {
        return Some(&c.rx_ws_shift_clamped);
    }
    if str_eq(name, "tcp.rx_dsack") {
        return Some(&c.rx_dsack);
    }
    if str_eq(name, "tcp.tx_tlp_spurious") {
        return Some(&c.tx_tlp_spurious);
    }
    if str_eq(name, "tcp.tx_api_timers_fired") {
        return Some(&c.tx_api_timers_fired);
    }
    if str_eq(name, "tcp.ts_recent_expired") {
        return Some(&c.ts_recent_expired);
    }
    if str_eq(name, "tcp.tx_flush_bursts") {
        return Some(&c.tx_flush_bursts);
    }
    if str_eq(name, "tcp.tx_flush_batched_pkts") {
        return Some(&c.tx_flush_batched_pkts);
    }
    if str_eq(name, "tcp.rx_iovec_segs_total") {
        return Some(&c.rx_iovec_segs_total);
    }
    if str_eq(name, "tcp.rx_multi_seg_events") {
        return Some(&c.rx_multi_seg_events);
    }
    if str_eq(name, "tcp.rx_partial_read_splits") {
        return Some(&c.rx_partial_read_splits);
    }
    if str_eq(name, "tcp.tx_persist") {
        return Some(&c.tx_persist);
    }
    if str_eq(name, "tcp.mbuf_refcnt_drop_unexpected") {
        return Some(&c.mbuf_refcnt_drop_unexpected);
    }
    None
}

fn lookup_poll<'a>(c: &'a PollCounters, name: &str) -> (r: Option<&'a u64>)
    ensures
        r is Some <==> poll_counter_named(*c, name@) is Some,
        r is Some ==> Some(*r->0) == poll_counter_named(*c, name@),
{
    if str_eq(name, "poll.iters") {
        return Some(&c.iters);
    }
    if str_eq(name, "poll.iters_with_rx") {
        return Some(&c.iters_with_rx);
    }
    if str_eq(name, "poll.iters_with_tx") {
        return Some(&c.iters_with_tx);
    }
    if str_eq(name, "poll.iters_idle") {
        return Some(&c.iters_idle);
    }
    if str_eq(name, "poll.iters_with_rx_burst_max") {
        return Some(&c.iters_with_rx_burst_max);
    }
    None
}

fn lookup_obs<'a>(c: &'a ObsCounters, name: &str) -> (r: Option<&'a u64>)
    ensures
        r is Some <==> obs_counter_named(*c, name@) is Some,
        r is Some ==> Some(*r->0) == obs_counter_named(*c, name@),
{
    if str_eq(name, "obs.events_dropped") {
        return Some(&c.events_dropped);
    }
    if str_eq(name, "obs.events_queue_high_water") {
        return Some(&c.events_queue_high_water);
    }
    None
}

fn lookup_fault_injector<'a>(c: &'a FaultInjectorCounters, name: &str) -> (r: Option<&'a u64>)
    ensures
        r is Some <==> fault_injector_counter_named(*c, name@) is Some,
        r is Some ==> Some(*r->0) == fault_injector_counter_named(*c, name@),
{
    if str_eq(name, "fault_injector.drops") {
        return Some(&c.drops);
    }
    if str_eq(name, "fault_injector.dups") {
        return Some(&c.dups);
    }
    if str_eq(name, "fault_injector.reorders") {
        return Some(&c.reorders);
    }
    if str_eq(name, "fault_injector.corrupts") {
        return Some(&c.corrupts);
    }
    None
}

/// Resolves a counter name. `None` for a name that is not in
/// `ALL_COUNTER_NAMES`.
pub fn lookup_counter<'a>(c: &'a Counters, name: &str) -> (r: Option<&'a u64>)
    ensures
        r is Some <==> counter_named(*c, name@) is Some,
        r is Some ==> Some(*r->0) == counter_named(*c, name@),
{
    if let Some(v) = lookup_eth(&c.eth, name) {
        return Some(v);
    }
    if let Some(v) = lookup_ip(&c.ip, name) {
        return Some(v);
    }
    if let Some(v) = lookup_tcp(&c.tcp, name) {
        return Some(v);
    }
    if let Some(v) = lookup_poll(&c.poll, name) {
        return Some(v);
    }
    if let Some(v) = lookup_obs(&c.obs, name) {
        return Some(v);
    }
    lookup_fault_injector(&c.fault_injector, name)
}

/// A name is in `ALL_COUNTER_NAMES`.
pub open spec fn is_counter_name(name: Seq<char>) -> bool {
    exists|i: int| 0 <= i < KNOWN_COUNTER_COUNT && #[trigger] ALL_COUNTER_NAMES[i]@ == name
}

/// Every listed name resolves, and nothing else does.
pub proof fn law_names_resolve(c: Counters, name: Seq<char>)
    ensures
        counter_named(c, name) is Some <==> is_counter_name(name),
{

    assert(ALL_COUNTER_NAMES[0]@ == "eth.rx_pkts"@);
    assert(ALL_COUNTER_NAMES[1]@ == "eth.rx_bytes"@);
    assert(ALL_COUNTER_NAMES[2]@ == "eth.rx_drop_miss_mac"@);
    assert(ALL_COUNTER_NAMES[3]@ == "eth.rx_drop_nomem"@);
    assert(ALL_COUNTER_NAMES[4]@ == "eth.tx_pkts"@);
    assert(ALL_COUNTER_NAMES[5]@ == "eth.tx_bytes"@);
    assert(ALL_COUNTER_NAMES[6]@ == "eth.tx_drop_full_ring"@);
    assert(ALL_COUNTER_NAMES[7]@ == "eth.tx_drop_nomem"@);
    assert(ALL_COUNTER_NAMES[8]@ == "eth.rx_drop_short"@);
    assert(ALL_COUNTER_NAMES[9]@ == "eth.rx_drop_unknown_ethertype"@);
    assert(ALL_COUNTER_NAMES[10]@ == "eth.rx_arp"@);
    assert(ALL_COUNTER_NAMES[11]@ == "eth.tx_arp"@);
    assert(ALL_COUNTER_NAMES[12]@ == "eth.offload_missing_rx_cksum_ipv4"@);
    assert(ALL_COUNTER_NAMES[13]@ == "eth.offload_missing_rx_cksum_tcp"@);
    assert(ALL_COUNTER_NAMES[14]@ == "eth.offload_missing_rx_cksum_udp"@);
    assert(ALL_COUNTER_NAMES[15]@ == "eth.offload_missing_tx_cksum_ipv4"@);
    assert(ALL_COUNTER_NAMES[16]@ == "eth.offload_missing_tx_cksum_tcp"@);
    assert(ALL_COUNTER_NAMES[17]@ == "eth.offload_missing_tx_cksum_udp"@);
    assert(ALL_COUNTER_NAMES[18]@ == "eth.offload_missing_mbuf_fast_free"@);
    assert(ALL_COUNTER_NAMES[19]@ == "eth.offload_missing_rss_hash"@);
    assert(ALL_COUNTER_NAMES[20]@ == "eth.offload_missing_llq"@);
    assert(ALL_COUNTER_NAMES[21]@ == "eth.offload_missing_rx_timestamp"@);
    assert(ALL_COUNTER_NAMES[22]@ == "eth.rx_drop_cksum_bad"@);
    assert(ALL_COUNTER_NAMES[23]@ == "eth.llq_wc_missing"@);
    assert(ALL_COUNTER_NAMES[24]@ == "eth.llq_header_overflow_risk"@);
    assert(ALL_COUNTER_NAMES[25]@ == "eth.eni_bw_in_allowance_exceeded"@);
    assert(ALL_COUNTER_NAMES[26]@ == "eth.eni_bw_out_allowance_exceeded"@);
    assert(ALL_COUNTER_NAMES[27]@ == "eth.eni_pps_allowance_exceeded"@);
    assert(ALL_COUNTER_NAMES[28]@ == "eth.eni_conntrack_allowance_exceeded"@);
    assert(ALL_COUNTER_NAMES[29]@ == "eth.eni_linklocal_allowance_exceeded"@);
    assert(ALL_COUNTER_NAMES[30]@ == "eth.tx_q0_linearize"@);
    assert(ALL_COUNTER_NAMES[31]@ == "eth.tx_q0_doorbells"@);
    assert(ALL_COUNTER_NAMES[32]@ == "eth.tx_q0_missed_tx"@);
    assert(ALL_COUNTER_NAMES[33]@ == "eth.tx_q0_bad_req_id"@);
    assert(ALL_COUNTER_NAMES[34]@ == "eth.rx_q0_refill_partial"@);
    assert(ALL_COUNTER_NAMES[35]@ == "eth.rx_q0_bad_desc_num"@);
    assert(ALL_COUNTER_NAMES[36]@ == "eth.rx_q0_bad_req_id"@);
    assert(ALL_COUNTER_NAMES[37]@ == "eth.rx_q0_mbuf_alloc_fail"@);
    assert(ALL_COUNTER_NAMES[38]@ == "ip.rx_csum_bad"@);
    assert(ALL_COUNTER_NAMES[39]@ == "ip.rx_ttl_zero"@);
    assert(ALL_COUNTER_NAMES[40]@ == "ip.rx_frag"@);
    assert(ALL_COUNTER_NAMES[41]@ == "ip.rx_icmp_frag_needed"@);
    assert(ALL_COUNTER_NAMES[42]@ == "ip.pmtud_updates"@);
    assert(ALL_COUNTER_NAMES[43]@ == "ip.rx_drop_short"@);
    assert(ALL_COUNTER_NAMES[44]@ == "ip.rx_drop_bad_version"@);
    assert(ALL_COUNTER_NAMES[45]@ == "ip.rx_drop_bad_hl"@);
    assert(ALL_COUNTER_NAMES[46]@ == "ip.rx_drop_not_ours"@);
    assert(ALL_COUNTER_NAMES[47]@ == "ip.rx_drop_unsupported_proto"@);
    assert(ALL_COUNTER_NAMES[48]@ == "ip.rx_tcp"@);
    assert(ALL_COUNTER_NAMES[49]@ == "ip.rx_icmp"@);
    assert(ALL_COUNTER_NAMES[50]@ == "tcp.rx_syn_ack"@);
    assert(ALL_COUNTER_NAMES[51]@ == "tcp.rx_data"@);
    assert(ALL_COUNTER_NAMES[52]@ == "tcp.rx_ack"@);
    assert(ALL_COUNTER_NAMES[53]@ == "tcp.rx_rst"@);
    assert(ALL_COUNTER_NAMES[54]@ == "tcp.tx_retrans"@);
    assert(ALL_COUNTER_NAMES[55]@ == "tcp.tx_rto"@);
    assert(ALL_COUNTER_NAMES[56]@ == "tcp.tx_tlp"@);
    assert(ALL_COUNTER_NAMES[57]@ == "tcp.tx_retrans_rto"@);
    assert(ALL_COUNTER_NAMES[58]@ == "tcp.tx_retrans_rack"@);
    assert(ALL_COUNTER_NAMES[59]@ == "tcp.tx_retrans_tlp"@);
    assert(ALL_COUNTER_NAMES[60]@ == "tcp.conn_open"@);
    assert(ALL_COUNTER_NAMES[61]@ == "tcp.conn_close"@);
    assert(ALL_COUNTER_NAMES[62]@ == "tcp.conn_rst"@);
    assert(ALL_COUNTER_NAMES[63]@ == "tcp.send_buf_full"@);
    assert(ALL_COUNTER_NAMES[64]@ == "tcp.recv_buf_delivered"@);
    assert(ALL_COUNTER_NAMES[65]@ == "tcp.tx_syn"@);
    assert(ALL_COUNTER_NAMES[66]@ == "tcp.tx_ack"@);
    assert(ALL_COUNTER_NAMES[67]@ == "tcp.tx_data"@);
    assert(ALL_COUNTER_NAMES[68]@ == "tcp.tx_fin"@);
    assert(ALL_COUNTER_NAMES[69]@ == "tcp.tx_rst"@);
    assert(ALL_COUNTER_NAMES[70]@ == "tcp.rx_fin"@);
    assert(ALL_COUNTER_NAMES[71]@ == "tcp.rx_unmatched"@);
    assert(ALL_COUNTER_NAMES[72]@ == "tcp.rx_bad_csum"@);
    assert(ALL_COUNTER_NAMES[73]@ == "tcp.rx_bad_flags"@);
    assert(ALL_COUNTER_NAMES[74]@ == "tcp.rx_short"@);
    assert(ALL_COUNTER_NAMES[75]@ == "tcp.recv_buf_drops"@);
    assert(ALL_COUNTER_NAMES[76]@ == "tcp.rx_paws_rejected"@);
    assert(ALL_COUNTER_NAMES[77]@ == "tcp.rx_bad_option"@);
    assert(ALL_COUNTER_NAMES[78]@ == "tcp.rx_reassembly_queued"@);
    assert(ALL_COUNTER_NAMES[79]@ == "tcp.rx_reassembly_hole_filled"@);
    assert(ALL_COUNTER_NAMES[80]@ == "tcp.tx_sack_blocks"@);
    assert(ALL_COUNTER_NAMES[81]@ == "tcp.rx_sack_blocks"@);
    assert(ALL_COUNTER_NAMES[82]@ == "tcp.rx_bad_seq"@);
    assert(ALL_COUNTER_NAMES[83]@ == "tcp.rx_bad_ack"@);
    assert(ALL_COUNTER_NAMES[84]@ == "tcp.rx_dup_ack"@);
    assert(ALL_COUNTER_NAMES[85]@ == "tcp.rx_zero_window"@);
    assert(ALL_COUNTER_NAMES[86]@ == "tcp.rx_urgent_dropped"@);
    assert(ALL_COUNTER_NAMES[87]@ == "tcp.tx_zero_window"@);
    assert(ALL_COUNTER_NAMES[88]@ == "tcp.tx_window_update"@);
    assert(ALL_COUNTER_NAMES[89]@ == "tcp.conn_table_full"@);
    assert(ALL_COUNTER_NAMES[90]@ == "tcp.conn_time_wait_reaped"@);
    assert(ALL_COUNTER_NAMES[91]@ == "tcp.tx_payload_bytes"@);
    assert(ALL_COUNTER_NAMES[92]@ == "tcp.rx_payload_bytes"@);
    assert(ALL_COUNTER_NAMES[93]@ == "tcp.conn_timeout_retrans"@);
    assert(ALL_COUNTER_NAMES[94]@ == "tcp.conn_timeout_syn_sent"@);
    assert(ALL_COUNTER_NAMES[95]@ == "tcp.rtt_samples"@);
    assert(ALL_COUNTER_NAMES[96]@ == "tcp.tx_rack_loss"@);
    assert(ALL_COUNTER_NAMES[97]@ == "tcp.rack_reo_wnd_override_active"@);
    assert(ALL_COUNTER_NAMES[98]@ == "tcp.rto_no_backoff_active"@);
    assert(ALL_COUNTER_NAMES[99]@ == "tcp.rx_ws_shift_clamped"@);
    assert(ALL_COUNTER_NAMES[100]@ == "tcp.rx_dsack"@);
    assert(ALL_COUNTER_NAMES[101]@ == "tcp.tx_tlp_spurious"@);
    assert(ALL_COUNTER_NAMES[102]@ == "tcp.tx_api_timers_fired"@);
    assert(ALL_COUNTER_NAMES[103]@ == "tcp.ts_recent_expired"@);
    assert(ALL_COUNTER_NAMES[104]@ == "tcp.tx_flush_bursts"@);
    assert(ALL_COUNTER_NAMES[105]@ == "tcp.tx_flush_batched_pkts"@);
    assert(ALL_COUNTER_NAMES[106]@ == "tcp.rx_iovec_segs_total"@);
    assert(ALL_COUNTER_NAMES[107]@ == "tcp.rx_multi_seg_events"@);
    assert(ALL_COUNTER_NAMES[108]@ == "tcp.rx_partial_read_splits"@);
    assert(ALL_COUNTER_NAMES[109]@ == "tcp.tx_persist"@);
    assert(ALL_COUNTER_NAMES[110]@ == "tcp.mbuf_refcnt_drop_unexpected"@);
    assert(ALL_COUNTER_NAMES[111]@ == "poll.iters"@);
    assert(ALL_COUNTER_NAMES[112]@ == "poll.iters_with_rx"@);
    assert(ALL_COUNTER_NAMES[113]@ == "poll.iters_with_tx"@);
    assert(ALL_COUNTER_NAMES[114]@ == "poll.iters_idle"@);
    assert(ALL_COUNTER_NAMES[115]@ == "poll.iters_with_rx_burst_max"@);
    assert(ALL_COUNTER_NAMES[116]@ == "obs.events_dropped"@);
    assert(ALL_COUNTER_NAMES[117]@ == "obs.events_queue_high_water"@);
    assert(ALL_COUNTER_NAMES[118]@ == "fault_injector.drops"@);
    assert(ALL_COUNTER_NAMES[119]@ == "fault_injector.dups"@);
    assert(ALL_COUNTER_NAMES[120]@ == "fault_injector.reorders"@);
    assert(ALL_COUNTER_NAMES[121]@ == "fault_injector.corrupts"@);
    if counter_named(c, name) is Some {
        assert(is_counter_name(name));
    }
}

/// The counters with the place of each one in the list as its value.
pub open spec fn numbered(c: Counters) -> Counters {
    Counters {
        eth: EthCounters {
            rx_pkts: 0,
            rx_bytes: 1,
            rx_drop_miss_mac: 2,
            rx_drop_nomem: 3,
            tx_pkts: 4,
            tx_bytes: 5,
            tx_drop_full_ring: 6,
            tx_drop_nomem: 7,
            rx_drop_short: 8,
            rx_drop_unknown_ethertype: 9,
            rx_arp: 10,
            tx_arp: 11,
            offload_missing_rx_cksum_ipv4: 12,
            offload_missing_rx_cksum_tcp: 13,
            offload_missing_rx_cksum_udp: 14,
            offload_missing_tx_cksum_ipv4: 15,
            offload_missing_tx_cksum_tcp: 16,
            offload_missing_tx_cksum_udp: 17,
            offload_missing_mbuf_fast_free: 18,
            offload_missing_rss_hash: 19,
            offload_missing_llq: 20,
            offload_missing_rx_timestamp: 21,
            rx_drop_cksum_bad: 22,
            llq_wc_missing: 23,
            llq_header_overflow_risk: 24,
            eni_bw_in_allowance_exceeded: 25,
            eni_bw_out_allowance_exceeded: 26,
            eni_pps_allowance_exceeded: 27,
            eni_conntrack_allowance_exceeded: 28,
            eni_linklocal_allowance_exceeded: 29,
            tx_q0_linearize: 30,
            tx_q0_doorbells: 31,
            tx_q0_missed_tx: 32,
            tx_q0_bad_req_id: 33,
            rx_q0_refill_partial: 34,
            rx_q0_bad_desc_num: 35,
            rx_q0_bad_req_id: 36,
            rx_q0_mbuf_alloc_fail: 37,
        },
        ip: IpCounters {
            rx_csum_bad: 38,
            rx_ttl_zero: 39,
            rx_frag: 40,
            rx_icmp_frag_needed: 41,
            pmtud_updates: 42,
            rx_drop_short: 43,
            rx_drop_bad_version: 44,
            rx_drop_bad_hl: 45,
            rx_drop_not_ours: 46,
            rx_drop_unsupported_proto: 47,
            rx_tcp: 48,
            rx_icmp: 49,
        },
        tcp: TcpCounters {
            rx_syn_ack: 50,
            rx_data: 51,
            rx_ack: 52,
            rx_rst: 53,
            tx_retrans: 54,
            tx_rto: 55,
            tx_tlp: 56,
            tx_retrans_rto: 57,
            tx_retrans_rack: 58,
            tx_retrans_tlp: 59,
            conn_open: 60,
            conn_close: 61,
            conn_rst: 62,
            send_buf_full: 63,
            recv_buf_delivered: 64,
            tx_syn: 65,
            tx_ack: 66,
            tx_data: 67,
            tx_fin: 68,
            tx_rst: 69,
            rx_fin: 70,
            rx_unmatched: 71,
            rx_bad_csum: 72,
            rx_bad_flags: 73,
            rx_short: 74,
            recv_buf_drops: 75,
            rx_paws_rejected: 76,
            rx_bad_option: 77,
            rx_reassembly_queued: 78,
            rx_reassembly_hole_filled: 79,
            tx_sack_blocks: 80,
            rx_sack_blocks: 81,
            rx_bad_seq: 82,
            rx_bad_ack: 83,
            rx_dup_ack: 84,
            rx_zero_window: 85,
            rx_urgent_dropped: 86,
            tx_zero_window: 87,
            tx_window_update: 88,
            conn_table_full: 89,
            conn_time_wait_reaped: 90,
            tx_payload_bytes: 91,
            rx_payload_bytes: 92,
            conn_timeout_retrans: 93,
            conn_timeout_syn_sent: 94,
            rtt_samples: 95,
            tx_rack_loss: 96,
            rack_reo_wnd_override_active: 97,
            rto_no_backoff_active: 98,
            rx_ws_shift_clamped: 99,
            rx_dsack: 100,
            tx_tlp_spurious: 101,
            tx_api_timers_fired: 102,
            ts_recent_expired: 103,
            tx_flush_bursts: 104,
            tx_flush_batched_pkts: 105,
            rx_iovec_segs_total: 106,
            rx_multi_seg_events: 107,
            rx_partial_read_splits: 108,
            tx_persist: 109,
            mbuf_refcnt_drop_unexpected: 110,
            ..c.tcp
        },
        poll: PollCounters {
            iters: 111,
            iters_with_rx: 112,
            iters_with_tx: 113,
            iters_idle: 114,
            iters_with_rx_burst_max: 115,
        },
        obs: ObsCounters {
            events_dropped: 116,
            events_queue_high_water: 117,
        },
        fault_injector: FaultInjectorCounters {
            drops: 118,
            dups: 119,
            reorders: 120,
            corrupts: 121,
        },
    }
}

/// A name that resolves is the one at the counter's place in the list.
proof fn lemma_resolved_name(c: Counters, name: Seq<char>)
    ensures
        counter_named(numbered(c), name) matches Some(v) ==> v < KNOWN_COUNTER_COUNT
            && ALL_COUNTER_NAMES[v as int]@ == name,
{
    assert(ALL_COUNTER_NAMES[0]@ == "eth.rx_pkts"@);
    assert(ALL_COUNTER_NAMES[1]@ == "eth.rx_bytes"@);
    assert(ALL_COUNTER_NAMES[2]@ == "eth.rx_drop_miss_mac"@);
    assert(ALL_COUNTER_NAMES[3]@ == "eth.rx_drop_nomem"@);
    assert(ALL_COUNTER_NAMES[4]@ == "eth.tx_pkts"@);
    assert(ALL_COUNTER_NAMES[5]@ == "eth.tx_bytes"@);
    assert(ALL_COUNTER_NAMES[6]@ == "eth.tx_drop_full_ring"@);
    assert(ALL_COUNTER_NAMES[7]@ == "eth.tx_drop_nomem"@);
    assert(ALL_COUNTER_NAMES[8]@ == "eth.rx_drop_short"@);
    assert(ALL_COUNTER_NAMES[9]@ == "eth.rx_drop_unknown_ethertype"@);
    assert(ALL_COUNTER_NAMES[10]@ == "eth.rx_arp"@);
    assert(ALL_COUNTER_NAMES[11]@ == "eth.tx_arp"@);
    assert(ALL_COUNTER_NAMES[12]@ == "eth.offload_missing_rx_cksum_ipv4"@);
    assert(ALL_COUNTER_NAMES[13]@ == "eth.offload_missing_rx_cksum_tcp"@);
    assert(ALL_COUNTER_NAMES[14]@ == "eth.offload_missing_rx_cksum_udp"@);
    assert(ALL_COUNTER_NAMES[15]@ == "eth.offload_missing_tx_cksum_ipv4"@);
    assert(ALL_COUNTER_NAMES[16]@ == "eth.offload_missing_tx_cksum_tcp"@);
    assert(ALL_COUNTER_NAMES[17]@ == "eth.offload_missing_tx_cksum_udp"@);
    assert(ALL_COUNTER_NAMES[18]@ == "eth.offload_missing_mbuf_fast_free"@);
    assert(ALL_COUNTER_NAMES[19]@ == "eth.offload_missing_rss_hash"@);
    assert(ALL_COUNTER_NAMES[20]@ == "eth.offload_missing_llq"@);
    assert(ALL_COUNTER_NAMES[21]@ == "eth.offload_missing_rx_timestamp"@);
    assert(ALL_COUNTER_NAMES[22]@ == "eth.rx_drop_cksum_bad"@);
    assert(ALL_COUNTER_NAMES[23]@ == "eth.llq_wc_missing"@);
    assert(ALL_COUNTER_NAMES[24]@ == "eth.llq_header_overflow_risk"@);
    assert(ALL_COUNTER_NAMES[25]@ == "eth.eni_bw_in_allowance_exceeded"@);
    assert(ALL_COUNTER_NAMES[26]@ == "eth.eni_bw_out_allowance_exceeded"@);
    assert(ALL_COUNTER_NAMES[27]@ == "eth.eni_pps_allowance_exceeded"@);
    assert(ALL_COUNTER_NAMES[28]@ == "eth.eni_conntrack_allowance_exceeded"@);
    assert(ALL_COUNTER_NAMES[29]@ == "eth.eni_linklocal_allowance_exceeded"@);
    assert(ALL_COUNTER_NAMES[30]@ == "eth.tx_q0_linearize"@);
    assert(ALL_COUNTER_NAMES[31]@ == "eth.tx_q0_doorbells"@);
    assert(ALL_COUNTER_NAMES[32]@ == "eth.tx_q0_missed_tx"@);
    assert(ALL_COUNTER_NAMES[33]@ == "eth.tx_q0_bad_req_id"@);
    assert(ALL_COUNTER_NAMES[34]@ == "eth.rx_q0_refill_partial"@);
    assert(ALL_COUNTER_NAMES[35]@ == "eth.rx_q0_bad_desc_num"@);
    assert(ALL_COUNTER_NAMES[36]@ == "eth.rx_q0_bad_req_id"@);
    assert(ALL_COUNTER_NAMES[37]@ == "eth.rx_q0_mbuf_alloc_fail"@);
    assert(ALL_COUNTER_NAMES[38]@ == "ip.rx_csum_bad"@);
    assert(ALL_COUNTER_NAMES[39]@ == "ip.rx_ttl_zero"@);
    assert(ALL_COUNTER_NAMES[40]@ == "ip.rx_frag"@);
    assert(ALL_COUNTER_NAMES[41]@ == "ip.rx_icmp_frag_needed"@);
    assert(ALL_COUNTER_NAMES[42]@ == "ip.pmtud_updates"@);
    assert(ALL_COUNTER_NAMES[43]@ == "ip.rx_drop_short"@);
    assert(ALL_COUNTER_NAMES[44]@ == "ip.rx_drop_bad_version"@);
    assert(ALL_COUNTER_NAMES[45]@ == "ip.rx_drop_bad_hl"@);
    assert(ALL_COUNTER_NAMES[46]@ == "ip.rx_drop_not_ours"@);
    assert(ALL_COUNTER_NAMES[47]@ == "ip.rx_drop_unsupported_proto"@);
    assert(ALL_COUNTER_NAMES[48]@ == "ip.rx_tcp"@);
    assert(ALL_COUNTER_NAMES[49]@ == "ip.rx_icmp"@);
    assert(ALL_COUNTER_NAMES[50]@ == "tcp.rx_syn_ack"@);
    assert(ALL_COUNTER_NAMES[51]@ == "tcp.rx_data"@);
    assert(ALL_COUNTER_NAMES[52]@ == "tcp.rx_ack"@);
    assert(ALL_COUNTER_NAMES[53]@ == "tcp.rx_rst"@);
    assert(ALL_COUNTER_NAMES[54]@ == "tcp.tx_retrans"@);
    assert(ALL_COUNTER_NAMES[55]@ == "tcp.tx_rto"@);
    assert(ALL_COUNTER_NAMES[56]@ == "tcp.tx_tlp"@);
    assert(ALL_COUNTER_NAMES[57]@ == "tcp.tx_retrans_rto"@);
    assert(ALL_COUNTER_NAMES[58]@ == "tcp.tx_retrans_rack"@);
    assert(ALL_COUNTER_NAMES[59]@ == "tcp.tx_retrans_tlp"@);
    assert(ALL_COUNTER_NAMES[60]@ == "tcp.conn_open"@);
    assert(ALL_COUNTER_NAMES[61]@ == "tcp.conn_close"@);
    assert(ALL_COUNTER_NAMES[62]@ == "tcp.conn_rst"@);
    assert(ALL_COUNTER_NAMES[63]@ == "tcp.send_buf_full"@);
    assert(ALL_COUNTER_NAMES[64]@ == "tcp.recv_buf_delivered"@);
    assert(ALL_COUNTER_NAMES[65]@ == "tcp.tx_syn"@);
    assert(ALL_COUNTER_NAMES[66]@ == "tcp.tx_ack"@);
    assert(ALL_COUNTER_NAMES[67]@ == "tcp.tx_data"@);
    assert(ALL_COUNTER_NAMES[68]@ == "tcp.tx_fin"@);
    assert(ALL_COUNTER_NAMES[69]@ == "tcp.tx_rst"@);
    assert(ALL_COUNTER_NAMES[70]@ == "tcp.rx_fin"@);
    assert(ALL_COUNTER_NAMES[71]@ == "tcp.rx_unmatched"@);
    assert(ALL_COUNTER_NAMES[72]@ == "tcp.rx_bad_csum"@);
    assert(ALL_COUNTER_NAMES[73]@ == "tcp.rx_bad_flags"@);
    assert(ALL_COUNTER_NAMES[74]@ == "tcp.rx_short"@);
    assert(ALL_COUNTER_NAMES[75]@ == "tcp.recv_buf_drops"@);
    assert(ALL_COUNTER_NAMES[76]@ == "tcp.rx_paws_rejected"@);
    assert(ALL_COUNTER_NAMES[77]@ == "tcp.rx_bad_option"@);
    assert(ALL_COUNTER_NAMES[78]@ == "tcp.rx_reassembly_queued"@);
    assert(ALL_COUNTER_NAMES[79]@ == "tcp.rx_reassembly_hole_filled"@);
    assert(ALL_COUNTER_NAMES[80]@ == "tcp.tx_sack_blocks"@);
    assert(ALL_COUNTER_NAMES[81]@ == "tcp.rx_sack_blocks"@);
    assert(ALL_COUNTER_NAMES[82]@ == "tcp.rx_bad_seq"@);
    assert(ALL_COUNTER_NAMES[83]@ == "tcp.rx_bad_ack"@);
    assert(ALL_COUNTER_NAMES[84]@ == "tcp.rx_dup_ack"@);
    assert(ALL_COUNTER_NAMES[85]@ == "tcp.rx_zero_window"@);
    assert(ALL_COUNTER_NAMES[86]@ == "tcp.rx_urgent_dropped"@);
    assert(ALL_COUNTER_NAMES[87]@ == "tcp.tx_zero_window"@);
    assert(ALL_COUNTER_NAMES[88]@ == "tcp.tx_window_update"@);
    assert(ALL_COUNTER_NAMES[89]@ == "tcp.conn_table_full"@);
    assert(ALL_COUNTER_NAMES[90]@ == "tcp.conn_time_wait_reaped"@);
    assert(ALL_COUNTER_NAMES[91]@ == "tcp.tx_payload_bytes"@);
    assert(ALL_COUNTER_NAMES[92]@ == "tcp.rx_payload_bytes"@);
    assert(ALL_COUNTER_NAMES[93]@ == "tcp.conn_timeout_retrans"@);
    assert(ALL_COUNTER_NAMES[94]@ == "tcp.conn_timeout_syn_sent"@);
    assert(ALL_COUNTER_NAMES[95]@ == "tcp.rtt_samples"@);
    assert(ALL_COUNTER_NAMES[96]@ == "tcp.tx_rack_loss"@);
    assert(ALL_COUNTER_NAMES[97]@ == "tcp.rack_reo_wnd_override_active"@);
    assert(ALL_COUNTER_NAMES[98]@ == "tcp.rto_no_backoff_active"@);
    assert(ALL_COUNTER_NAMES[99]@ == "tcp.rx_ws_shift_clamped"@);
    assert(ALL_COUNTER_NAMES[100]@ == "tcp.rx_dsack"@);
    assert(ALL_COUNTER_NAMES[101]@ == "tcp.tx_tlp_spurious"@);
    assert(ALL_COUNTER_NAMES[102]@ == "tcp.tx_api_timers_fired"@);
    assert(ALL_COUNTER_NAMES[103]@ == "tcp.ts_recent_expired"@);
    assert(ALL_COUNTER_NAMES[104]@ == "tcp.tx_flush_bursts"@);
    assert(ALL_COUNTER_NAMES[105]@ == "tcp.tx_flush_batched_pkts"@);
    assert(ALL_COUNTER_NAMES[106]@ == "tcp.rx_iovec_segs_total"@);
    assert(ALL_COUNTER_NAMES[107]@ == "tcp.rx_multi_seg_events"@);
    assert(ALL_COUNTER_NAMES[108]@ == "tcp.rx_partial_read_splits"@);
    assert(ALL_COUNTER_NAMES[109]@ == "tcp.tx_persist"@);
    assert(ALL_COUNTER_NAMES[110]@ == "tcp.mbuf_refcnt_drop_unexpected"@);
    assert(ALL_COUNTER_NAMES[111]@ == "poll.iters"@);
    assert(ALL_COUNTER_NAMES[112]@ == "poll.iters_with_rx"@);
    assert(ALL_COUNTER_NAMES[113]@ == "poll.iters_with_tx"@);
    assert(ALL_COUNTER_NAMES[114]@ == "poll.iters_idle"@);
    assert(ALL_COUNTER_NAMES[115]@ == "poll.iters_with_rx_burst_max"@);
    assert(ALL_COUNTER_NAMES[116]@ == "obs.events_dropped"@);
    assert(ALL_COUNTER_NAMES[117]@ == "obs.events_queue_high_water"@);
    assert(ALL_COUNTER_NAMES[118]@ == "fault_injector.drops"@);
    assert(ALL_COUNTER_NAMES[119]@ == "fault_injector.dups"@);
    assert(ALL_COUNTER_NAMES[120]@ == "fault_injector.reorders"@);
    assert(ALL_COUNTER_NAMES[121]@ == "fault_injector.corrupts"@);
}

/// Two different listed names never resolve to the same counter: there are
/// counters that read differently under them.
pub proof fn law_names_resolve_apart(c: Counters, a: Seq<char>, b: Seq<char>)
    requires
        is_counter_name(a),
        is_counter_name(b),
        a != b,
    ensures
        counter_named(numbered(c), a) is Some,
        counter_named(numbered(c), b) is Some,
        counter_named(numbered(c), a) != counter_named(numbered(c), b),
{
    law_names_resolve(numbered(c), a);
    law_names_resolve(numbered(c), b);
    lemma_resolved_name(c, a);
    lemma_resolved_name(c, b);
}

/// What is found under a name is the value of the counter that the name is made
/// of, group and field.
pub proof fn law_name_means_its_field(c: Counters, name: &str, v: &u64)
    requires
        call_ensures(lookup_counter, (&c, name), Some(v)),
    ensures
        ({
            ||| name@ == "eth.rx_pkts"@ && *v == c.eth.rx_pkts
            ||| name@ == "eth.rx_bytes"@ && *v == c.eth.rx_bytes
            ||| name@ == "eth.rx_drop_miss_mac"@ && *v == c.eth.rx_drop_miss_mac
            ||| name@ == "eth.rx_drop_nomem"@ && *v == c.eth.rx_drop_nomem
            ||| name@ == "eth.tx_pkts"@ && *v == c.eth.tx_pkts
            ||| name@ == "eth.tx_bytes"@ && *v == c.eth.tx_bytes
            ||| name@ == "eth.tx_drop_full_ring"@ && *v == c.eth.tx_drop_full_ring
            ||| name@ == "eth.tx_drop_nomem"@ && *v == c.eth.tx_drop_nomem
            ||| name@ == "eth.rx_drop_short"@ && *v == c.eth.rx_drop_short
            ||| name@ == "eth.rx_drop_unknown_ethertype"@ && *v == c.eth.rx_drop_unknown_ethertype
            ||| name@ == "eth.rx_arp"@ && *v == c.eth.rx_arp
            ||| name@ == "eth.tx_arp"@ && *v == c.eth.tx_arp
            ||| name@ == "eth.offload_missing_rx_cksum_ipv4"@ && *v
                == c.eth.offload_missing_rx_cksum_ipv4
            ||| name@ == "eth.offload_missing_rx_cksum_tcp"@ && *v
                == c.eth.offload_missing_rx_cksum_tcp
            ||| name@ == "eth.offload_missing_rx_cksum_udp"@ && *v
                == c.eth.offload_missing_rx_cksum_udp
            ||| name@ == "eth.offload_missing_tx_cksum_ipv4"@ && *v
                == c.eth.offload_missing_tx_cksum_ipv4
            ||| name@ == "eth.offload_missing_tx_cksum_tcp"@ && *v
                == c.eth.offload_missing_tx_cksum_tcp
            ||| name@ == "eth.offload_missing_tx_cksum_udp"@ && *v
                == c.eth.offload_missing_tx_cksum_udp
            ||| name@ == "eth.offload_missing_mbuf_fast_free"@ && *v
                == c.eth.offload_missing_mbuf_fast_free
            ||| name@ == "eth.offload_missing_rss_hash"@ && *v == c.eth.offload_missing_rss_hash
            ||| name@ == "eth.offload_missing_llq"@ && *v == c.eth.offload_missing_llq
            ||| name@ == "eth.offload_missing_rx_timestamp"@ && *v
                == c.eth.offload_missing_rx_timestamp
            ||| name@ == "eth.rx_drop_cksum_bad"@ && *v == c.eth.rx_drop_cksum_bad
            ||| name@ == "eth.llq_wc_missing"@ && *v == c.eth.llq_wc_missing
            ||| name@ == "eth.llq_header_overflow_risk"@ && *v == c.eth.llq_header_overflow_risk
            ||| name@ == "eth.eni_bw_in_allowance_exceeded"@ && *v
                == c.eth.eni_bw_in_allowance_exceeded
            ||| name@ == "eth.eni_bw_out_allowance_exceeded"@ && *v
                == c.eth.eni_bw_out_allowance_exceeded
            ||| name@ == "eth.eni_pps_allowance_exceeded"@ && *v == c.eth.eni_pps_allowance_exceeded
            ||| name@ == "eth.eni_conntrack_allowance_exceeded"@ && *v
                == c.eth.eni_conntrack_allowance_exceeded
            ||| name@ == "eth.eni_linklocal_allowance_exceeded"@ && *v
                == c.eth.eni_linklocal_allowance_exceeded
            ||| name@ == "eth.tx_q0_linearize"@ && *v == c.eth.tx_q0_linearize
            ||| name@ == "eth.tx_q0_doorbells"@ && *v == c.eth.tx_q0_doorbells
            ||| name@ == "eth.tx_q0_missed_tx"@ && *v == c.eth.tx_q0_missed_tx
            ||| name@ == "eth.tx_q0_bad_req_id"@ && *v == c.eth.tx_q0_bad_req_id
            ||| name@ == "eth.rx_q0_refill_partial"@ && *v == c.eth.rx_q0_refill_partial
            ||| name@ == "eth.rx_q0_bad_desc_num"@ && *v == c.eth.rx_q0_bad_desc_num
            ||| name@ == "eth.rx_q0_bad_req_id"@ && *v == c.eth.rx_q0_bad_req_id
            ||| name@ == "eth.rx_q0_mbuf_alloc_fail"@ && *v == c.eth.rx_q0_mbuf_alloc_fail
            ||| name@ == "ip.rx_csum_bad"@ && *v == c.ip.rx_csum_bad
            ||| name@ == "ip.rx_ttl_zero"@ && *v == c.ip.rx_ttl_zero
            ||| name@ == "ip.rx_frag"@ && *v == c.ip.rx_frag
            ||| name@ == "ip.rx_icmp_frag_needed"@ && *v == c.ip.rx_icmp_frag_needed
            ||| name@ == "ip.pmtud_updates"@ && *v == c.ip.pmtud_updates
            ||| name@ == "ip.rx_drop_short"@ && *v == c.ip.rx_drop_short
            ||| name@ == "ip.rx_drop_bad_version"@ && *v == c.ip.rx_drop_bad_version
            ||| name@ == "ip.rx_drop_bad_hl"@ && *v == c.ip.rx_drop_bad_hl
            ||| name@ == "ip.rx_drop_not_ours"@ && *v == c.ip.rx_drop_not_ours
            ||| name@ == "ip.rx_drop_unsupported_proto"@ && *v == c.ip.rx_drop_unsupported_proto
            ||| name@ == "ip.rx_tcp"@ && *v == c.ip.rx_tcp
            ||| name@ == "ip.rx_icmp"@ && *v == c.ip.rx_icmp
            ||| name@ == "tcp.rx_syn_ack"@ && *v == c.tcp.rx_syn_ack
            ||| name@ == "tcp.rx_data"@ && *v == c.tcp.rx_data
            ||| name@ == "tcp.rx_ack"@ && *v == c.tcp.rx_ack
            ||| name@ == "tcp.rx_rst"@ && *v == c.tcp.rx_rst
            ||| name@ == "tcp.tx_retrans"@ && *v == c.tcp.tx_retrans
            ||| name@ == "tcp.tx_rto"@ && *v == c.tcp.tx_rto
            ||| name@ == "tcp.tx_tlp"@ && *v == c.tcp.tx_tlp
            ||| name@ == "tcp.tx_retrans_rto"@ && *v == c.tcp.tx_retrans_rto
            ||| name@ == "tcp.tx_retrans_rack"@ && *v == c.tcp.tx_retrans_rack
            ||| name@ == "tcp.tx_retrans_tlp"@ && *v == c.tcp.tx_retrans_tlp
            ||| name@ == "tcp.conn_open"@ && *v == c.tcp.conn_open
            ||| name@ == "tcp.conn_close"@ && *v == c.tcp.conn_close
            ||| name@ == "tcp.conn_rst"@ && *v == c.tcp.conn_rst
            ||| name@ == "tcp.send_buf_full"@ && *v == c.tcp.send_buf_full
            ||| name@ == "tcp.recv_buf_delivered"@ && *v == c.tcp.recv_buf_delivered
            ||| name@ == "tcp.tx_syn"@ && *v == c.tcp.tx_syn
            ||| name@ == "tcp.tx_ack"@ && *v == c.tcp.tx_ack
            ||| name@ == "tcp.tx_data"@ && *v == c.tcp.tx_data
            ||| name@ == "tcp.tx_fin"@ && *v == c.tcp.tx_fin
            ||| name@ == "tcp.tx_rst"@ && *v == c.tcp.tx_rst
            ||| name@ == "tcp.rx_fin"@ && *v == c.tcp.rx_fin
            ||| name@ == "tcp.rx_unmatched"@ && *v == c.tcp.rx_unmatched
            ||| name@ == "tcp.rx_bad_csum"@ && *v == c.tcp.rx_bad_csum
            ||| name@ == "tcp.rx_bad_flags"@ && *v == c.tcp.rx_bad_flags
            ||| name@ == "tcp.rx_short"@ && *v == c.tcp.rx_short
            ||| name@ == "tcp.recv_buf_drops"@ && *v == c.tcp.recv_buf_drops
            ||| name@ == "tcp.rx_paws_rejected"@ && *v == c.tcp.rx_paws_rejected
            ||| name@ == "tcp.rx_bad_option"@ && *v == c.tcp.rx_bad_option
            ||| name@ == "tcp.rx_reassembly_queued"@ && *v == c.tcp.rx_reassembly_queued
            ||| name@ == "tcp.rx_reassembly_hole_filled"@ && *v == c.tcp.rx_reassembly_hole_filled
            ||| name@ == "tcp.tx_sack_blocks"@ && *v == c.tcp.tx_sack_blocks
            ||| name@ == "tcp.rx_sack_blocks"@ && *v == c.tcp.rx_sack_blocks
            ||| name@ == "tcp.rx_bad_seq"@ && *v == c.tcp.rx_bad_seq
            ||| name@ == "tcp.rx_bad_ack"@ && *v == c.tcp.rx_bad_ack
            ||| name@ == "tcp.rx_dup_ack"@ && *v == c.tcp.rx_dup_ack
            ||| name@ == "tcp.rx_zero_window"@ && *v == c.tcp.rx_zero_window
            ||| name@ == "tcp.rx_urgent_dropped"@ && *v == c.tcp.rx_urgent_dropped
            ||| name@ == "tcp.tx_zero_window"@ && *v == c.tcp.tx_zero_window
            ||| name@ == "tcp.tx_window_update"@ && *v == c.tcp.tx_window_update
            ||| name@ == "tcp.conn_table_full"@ && *v == c.tcp.conn_table_full
            ||| name@ == "tcp.conn_time_wait_reaped"@ && *v == c.tcp.conn_time_wait_reaped
            ||| name@ == "tcp.tx_payload_bytes"@ && *v == c.tcp.tx_payload_bytes
            ||| name@ == "tcp.rx_payload_bytes"@ && *v == c.tcp.rx_payload_bytes
            ||| name@ == "tcp.conn_timeout_retrans"@ && *v == c.tcp.conn_timeout_retrans
            ||| name@ == "tcp.conn_timeout_syn_sent"@ && *v == c.tcp.conn_timeout_syn_sent
            ||| name@ == "tcp.rtt_samples"@ && *v == c.tcp.rtt_samples
            ||| name@ == "tcp.tx_rack_loss"@ && *v == c.tcp.tx_rack_loss
            ||| name@ == "tcp.rack_reo_wnd_override_active"@ && *v
                == c.tcp.rack_reo_wnd_override_active
            ||| name@ == "tcp.rto_no_backoff_active"@ && *v == c.tcp.rto_no_backoff_active
            ||| name@ == "tcp.rx_ws_shift_clamped"@ && *v == c.tcp.rx_ws_shift_clamped
            ||| name@ == "tcp.rx_dsack"@ && *v == c.tcp.rx_dsack
            ||| name@ == "tcp.tx_tlp_spurious"@ && *v == c.tcp.tx_tlp_spurious
            ||| name@ == "tcp.tx_api_timers_fired"@ && *v == c.tcp.tx_api_timers_fired
            ||| name@ == "tcp.ts_recent_expired"@ && *v == c.tcp.ts_recent_expired
            ||| name@ == "tcp.tx_flush_bursts"@ && *v == c.tcp.tx_flush_bursts
            ||| name@ == "tcp.tx_flush_batched_pkts"@ && *v == c.tcp.tx_flush_batched_pkts
            ||| name@ == "tcp.rx_iovec_segs_total"@ && *v == c.tcp.rx_iovec_segs_total
            ||| name@ == "tcp.rx_multi_seg_events"@ && *v == c.tcp.rx_multi_seg_events
            ||| name@ == "tcp.rx_partial_read_splits"@ && *v == c.tcp.rx_partial_read_splits
            ||| name@ == "tcp.tx_persist"@ && *v == c.tcp.tx_persist
            ||| name@ == "tcp.mbuf_refcnt_drop_unexpected"@ && *v
                == c.tcp.mbuf_refcnt_drop_unexpected
            ||| name@ == "poll.iters"@ && *v == c.poll.iters
            ||| name@ == "poll.iters_with_rx"@ && *v == c.poll.iters_with_rx
            ||| name@ == "poll.iters_with_tx"@ && *v == c.poll.iters_with_tx
            ||| name@ == "poll.iters_idle"@ && *v == c.poll.iters_idle
            ||| name@ == "poll.iters_with_rx_burst_max"@ && *v == c.poll.iters_with_rx_burst_max
            ||| name@ == "obs.events_dropped"@ && *v == c.obs.events_dropped
            ||| name@ == "obs.events_queue_high_water"@ && *v == c.obs.events_queue_high_water
            ||| name@ == "fault_injector.drops"@ && *v == c.fault_injector.drops
            ||| name@ == "fault_injector.dups"@ && *v == c.fault_injector.dups
            ||| name@ == "fault_injector.reorders"@ && *v == c.fault_injector.reorders
            ||| name@ == "fault_injector.corrupts"@ && *v == c.fault_injector.corrupts
        }),
{
}

} // verus!
