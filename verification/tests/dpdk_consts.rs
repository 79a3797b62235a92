use dpdk_net_core::dpdk_consts::{
    RTE_ETH_RSS_NONFRAG_IPV4_TCP,
    RTE_ETH_RSS_NONFRAG_IPV6_TCP,
    RTE_ETH_RX_OFFLOAD_IPV4_CKSUM,
    RTE_ETH_RX_OFFLOAD_RSS_HASH,
    RTE_ETH_RX_OFFLOAD_TCP_CKSUM,
    RTE_ETH_RX_OFFLOAD_UDP_CKSUM,
    RTE_ETH_TX_OFFLOAD_IPV4_CKSUM,
    RTE_ETH_TX_OFFLOAD_MBUF_FAST_FREE,
    RTE_ETH_TX_OFFLOAD_MULTI_SEGS,
    RTE_ETH_TX_OFFLOAD_TCP_CKSUM,
    RTE_ETH_TX_OFFLOAD_UDP_CKSUM,
    RTE_MBUF_F_RX_IP_CKSUM_MASK,
    RTE_MBUF_F_RX_L4_CKSUM_MASK,
    RTE_MBUF_F_RX_RSS_HASH,
    RTE_MBUF_F_TX_IPV4,
    RTE_MBUF_F_TX_IPV6,
    RTE_MBUF_F_TX_IP_CKSUM,
    RTE_MBUF_F_TX_L4_MASK,
    RTE_MBUF_F_TX_TCP_CKSUM,
    RTE_MBUF_F_TX_UDP_CKSUM,
};

#[test]
fn bit_positions_match_dpdk_23_11_ethdev_header() {
    assert_eq!(RTE_ETH_TX_OFFLOAD_IPV4_CKSUM, 0x0000_0000_0000_0002);
    assert_eq!(RTE_ETH_TX_OFFLOAD_UDP_CKSUM, 0x0000_0000_0000_0004);
    assert_eq!(RTE_ETH_TX_OFFLOAD_TCP_CKSUM, 0x0000_0000_0000_0008);
    assert_eq!(RTE_ETH_TX_OFFLOAD_MBUF_FAST_FREE, 0x0000_0000_0000_4000);
    assert_eq!(RTE_ETH_TX_OFFLOAD_MULTI_SEGS, 0x0000_0000_0000_8000);
    assert_eq!(RTE_ETH_RX_OFFLOAD_IPV4_CKSUM, 0x0000_0000_0000_0002);
    assert_eq!(RTE_ETH_RX_OFFLOAD_UDP_CKSUM, 0x0000_0000_0000_0004);
    assert_eq!(RTE_ETH_RX_OFFLOAD_TCP_CKSUM, 0x0000_0000_0000_0008);
    assert_eq!(RTE_ETH_RX_OFFLOAD_RSS_HASH, 0x0000_0000_0008_0000);
    assert_eq!(RTE_ETH_RSS_NONFRAG_IPV4_TCP, 0x0000_0000_0000_2000);
    assert_eq!(RTE_ETH_RSS_NONFRAG_IPV6_TCP, 0x0000_0000_0008_0000);
    assert_eq!(RTE_MBUF_F_RX_RSS_HASH, 0x0000_0000_0000_0002);
    assert_eq!(RTE_MBUF_F_RX_IP_CKSUM_MASK, 0x0000_0000_0000_0090);
    assert_eq!(RTE_MBUF_F_RX_L4_CKSUM_MASK, 0x0000_0000_0000_0108);
    assert_eq!(RTE_MBUF_F_TX_TCP_CKSUM, 0x0010_0000_0000_0000);
    assert_eq!(RTE_MBUF_F_TX_UDP_CKSUM, 0x0030_0000_0000_0000);
    assert_eq!(RTE_MBUF_F_TX_L4_MASK, 0x0030_0000_0000_0000);
    assert_eq!(RTE_MBUF_F_TX_IP_CKSUM, 0x0040_0000_0000_0000);
    assert_eq!(RTE_MBUF_F_TX_IPV4, 0x0080_0000_0000_0000);
    assert_eq!(RTE_MBUF_F_TX_IPV6, 0x0100_0000_0000_0000);
}
