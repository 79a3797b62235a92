//! Offload, hash and flag bits of the driver interface.
use vstd::prelude::*;

verus! {

// Transmit offloads of a port.

pub const RTE_ETH_TX_OFFLOAD_IPV4_CKSUM: u64 = 0x0000_0000_0000_0002;

pub const RTE_ETH_TX_OFFLOAD_UDP_CKSUM: u64 = 0x0000_0000_0000_0004;

pub const RTE_ETH_TX_OFFLOAD_TCP_CKSUM: u64 = 0x0000_0000_0000_0008;

pub const RTE_ETH_TX_OFFLOAD_MBUF_FAST_FREE: u64 = 0x0000_0000_0000_4000;

pub const RTE_ETH_TX_OFFLOAD_MULTI_SEGS: u64 = 0x0000_0000_0000_8000;

// Receive offloads of a port.

pub const RTE_ETH_RX_OFFLOAD_IPV4_CKSUM: u64 = 0x0000_0000_0000_0002;

pub const RTE_ETH_RX_OFFLOAD_UDP_CKSUM: u64 = 0x0000_0000_0000_0004;

pub const RTE_ETH_RX_OFFLOAD_TCP_CKSUM: u64 = 0x0000_0000_0000_0008;

pub const RTE_ETH_RX_OFFLOAD_RSS_HASH: u64 = 0x0000_0000_0008_0000;

// Fields that the receive hash covers.

pub const RTE_ETH_RSS_NONFRAG_IPV4_TCP: u64 = 0x0000_0000_0000_2000;

pub const RTE_ETH_RSS_NONFRAG_IPV6_TCP: u64 = 0x0000_0000_0008_0000;

// Flags of a received buffer. The two checksum bits of a layer say: neither,
// unknown; one or the other, bad or good; both, not verified.

pub const RTE_MBUF_F_RX_RSS_HASH: u64 = 0x0000_0000_0000_0002;

pub const RTE_MBUF_F_RX_L4_CKSUM_BAD: u64 = 0x0000_0000_0000_0008;

pub const RTE_MBUF_F_RX_IP_CKSUM_BAD: u64 = 0x0000_0000_0000_0010;

pub const RTE_MBUF_F_RX_L4_CKSUM_GOOD: u64 = 0x0000_0000_0000_0100;

pub const RTE_MBUF_F_RX_IP_CKSUM_GOOD: u64 = 0x0000_0000_0000_0080;

pub const RTE_MBUF_F_RX_IP_CKSUM_MASK: u64 = 0x0000_0000_0000_0090;

pub const RTE_MBUF_F_RX_L4_CKSUM_MASK: u64 = 0x0000_0000_0000_0108;

pub const RTE_MBUF_F_RX_IP_CKSUM_UNKNOWN: u64 = 0x0000_0000_0000_0000;

pub const RTE_MBUF_F_RX_IP_CKSUM_NONE: u64 = 0x0000_0000_0000_0090;

pub const RTE_MBUF_F_RX_L4_CKSUM_UNKNOWN: u64 = 0x0000_0000_0000_0000;

pub const RTE_MBUF_F_RX_L4_CKSUM_NONE: u64 = 0x0000_0000_0000_0108;

// Flags of a buffer to transmit.

pub const RTE_MBUF_F_TX_TCP_CKSUM: u64 = 0x0010_0000_0000_0000;

pub const RTE_MBUF_F_TX_UDP_CKSUM: u64 = 0x0030_0000_0000_0000;

pub const RTE_MBUF_F_TX_L4_MASK: u64 = 0x0030_0000_0000_0000;

pub const RTE_MBUF_F_TX_IP_CKSUM: u64 = 0x0040_0000_0000_0000;

pub const RTE_MBUF_F_TX_IPV4: u64 = 0x0080_0000_0000_0000;

pub const RTE_MBUF_F_TX_IPV6: u64 = 0x0100_0000_0000_0000;

} // verus!
