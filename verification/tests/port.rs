use dpdk_net_core::bench_alloc_audit::{sample_decision, AllocCounts, BACKTRACE_SAMPLE_CAP};
use dpdk_net_core::counters::{Counters, TcpCounters};
use dpdk_net_core::dpdk_consts::{
    RTE_ETH_RX_OFFLOAD_IPV4_CKSUM, RTE_ETH_RX_OFFLOAD_RSS_HASH, RTE_ETH_RX_OFFLOAD_TCP_CKSUM,
    RTE_ETH_RX_OFFLOAD_UDP_CKSUM, RTE_ETH_TX_OFFLOAD_IPV4_CKSUM,
    RTE_ETH_TX_OFFLOAD_MBUF_FAST_FREE, RTE_ETH_TX_OFFLOAD_MULTI_SEGS,
    RTE_ETH_TX_OFFLOAD_TCP_CKSUM,
};
use dpdk_net_core::engine_config::{resolve_rx_mempool_size, timer_slot_hint, EngineConfig};
use dpdk_net_core::engine_port::{
    check_eal_init, check_port_step, configure_port_offloads, eal_args, engine_pools,
    program_rss_reta_single_queue, resolve_rx_timestamp, rss_hash_functions, Features, PortCaps,
    PortStep, RxTimestamp, LLQ_LOG_OVERRIDE,
};
use dpdk_net_core::errno;
use dpdk_net_core::error::Error;
use dpdk_net_core::mempool::{note_handle_drop, rx_pool_shape, PoolShape};

fn all_on() -> Features {
    Features {
        hw_offload_mbuf_fast_free: true,
        hw_offload_tx_cksum: true,
        hw_offload_rx_cksum: true,
        hw_offload_rss_hash: true,
        hw_offload_rx_timestamp: true,
        obs_poll_saturation: true,
        obs_byte_counters: true,
        obs_none: false,
        test_server: false,
    }
}

#[test]
fn a_port_gets_what_it_advertises() {
    let mut c = Counters::new();
    let caps = PortCaps {
        rx_offload_capa: RTE_ETH_RX_OFFLOAD_IPV4_CKSUM
            | RTE_ETH_RX_OFFLOAD_TCP_CKSUM
            | RTE_ETH_RX_OFFLOAD_UDP_CKSUM
            | RTE_ETH_RX_OFFLOAD_RSS_HASH,
        tx_offload_capa: RTE_ETH_TX_OFFLOAD_MULTI_SEGS
            | RTE_ETH_TX_OFFLOAD_IPV4_CKSUM
            | RTE_ETH_TX_OFFLOAD_TCP_CKSUM,
    };
    let cfg = EngineConfig::default();
    let o = configure_port_offloads(&cfg, &all_on(), &caps, b"net_ixgbe", &mut c);
    assert_eq!(o.applied_rx_offloads, caps.rx_offload_capa);
    assert_eq!(o.applied_tx_offloads, caps.tx_offload_capa);
    assert!(o.tx_cksum_offload_active);
    assert!(o.rx_cksum_offload_active);
    assert!(o.rss_hash_offload_active);
    assert_eq!(c.eth.offload_missing_mbuf_fast_free, 1);
    assert_eq!(c.eth.offload_missing_tx_cksum_udp, 1);
    assert_eq!(c.eth.offload_missing_tx_cksum_ipv4, 0);
    assert_eq!(c.eth.offload_missing_rss_hash, 0);
    assert_eq!(c.eth.llq_header_overflow_risk, 0);
    assert_eq!(&o.driver_name[..9], b"net_ixgbe");
    assert_eq!(o.driver_name[9], 0);
}

#[test]
fn a_port_without_capabilities_gets_nothing() {
    let mut c = Counters::new();
    let caps = PortCaps { rx_offload_capa: 0, tx_offload_capa: 0 };
    let cfg = EngineConfig::default();
    let o = configure_port_offloads(&cfg, &all_on(), &caps, b"net_ena", &mut c);
    assert_eq!(o.applied_rx_offloads, 0);
    assert_eq!(o.applied_tx_offloads, 0);
    assert!(!o.tx_cksum_offload_active && !o.rx_cksum_offload_active);
    assert_eq!(c.eth.offload_missing_rx_cksum_tcp, 1);
    assert_eq!(c.eth.offload_missing_tx_cksum_tcp, 1);
    assert_eq!(c.eth.offload_missing_rss_hash, 1);
    assert_eq!(c.eth.llq_header_overflow_risk, 1);
    let off = Features {
        hw_offload_mbuf_fast_free: false,
        hw_offload_tx_cksum: false,
        hw_offload_rx_cksum: false,
        hw_offload_rss_hash: false,
        ..all_on()
    };
    let mut c = Counters::new();
    let caps = PortCaps {
        rx_offload_capa: u64::MAX,
        tx_offload_capa: RTE_ETH_TX_OFFLOAD_MBUF_FAST_FREE,
    };
    let large = EngineConfig { ena_large_llq_hdr: 1, ..EngineConfig::default() };
    let o = configure_port_offloads(&large, &off, &caps, b"net_ena", &mut c);
    assert_eq!(o.applied_rx_offloads, 0);
    assert_eq!(o.applied_tx_offloads, 0);
    assert_eq!(c.eth.offload_missing_rss_hash, 0);
    assert_eq!(c.eth.llq_header_overflow_risk, 0);
}

#[test]
fn every_refused_step_has_its_error() {
    let p = 3u16;
    assert!(check_port_step(PortStep::Info, p, 0, 9).is_ok());
    assert!(check_port_step(PortStep::Start, p, 4, 9).is_ok());
    assert!(matches!(check_port_step(PortStep::Info, p, -5, 9), Err(Error::PortInfo(3, -5))));
    assert!(matches!(
        check_port_step(PortStep::Configure, p, 1, 9),
        Err(Error::PortConfigure(3, 9))
    ));
    assert!(matches!(
        check_port_step(PortStep::RxQueueSetup, p, -1, 9),
        Err(Error::RxQueueSetup(3, 9))
    ));
    assert!(matches!(
        check_port_step(PortStep::TxQueueSetup, p, -1, 9),
        Err(Error::TxQueueSetup(3, 9))
    ));
    assert!(matches!(check_port_step(PortStep::Start, p, -1, 9), Err(Error::PortStart(3, 9))));
    assert!(matches!(
        check_port_step(PortStep::MacAddr, p, -1, 9),
        Err(Error::MacAddrLookup(3, 9))
    ));
    assert!(check_eal_init(0, 9).is_ok());
    assert!(matches!(check_eal_init(-1, 9), Err(Error::EalInit(9))));
}

#[test]
fn a_redirection_table_is_written_in_groups() {
    assert_eq!(program_rss_reta_single_queue(0), None);
    assert_eq!(program_rss_reta_single_queue(1), Some(vec![u64::MAX]));
    assert_eq!(program_rss_reta_single_queue(128), Some(vec![u64::MAX; 2]));
    assert_eq!(program_rss_reta_single_queue(129), Some(vec![u64::MAX; 3]));
    assert_eq!(rss_hash_functions(false), 0);
    assert_ne!(rss_hash_functions(true), 0);
}

#[test]
fn the_environment_is_asked_to_log_placement() {
    assert_eq!(eal_args(&["app", "-l", "1"], false), vec!["app", "-l", "1"]);
    assert_eq!(eal_args(&["app"], true), vec!["app", LLQ_LOG_OVERRIDE]);
    assert_eq!(LLQ_LOG_OVERRIDE, "--log-level=pmd.net.ena.driver,info");
}

#[test]
fn receive_times_need_both_lookups() {
    let mut c = Counters::new();
    let both = resolve_rx_timestamp(true, 40, 3, &mut c);
    assert_eq!(both, RxTimestamp { offset: Some(40), flag_mask: Some(8) });
    assert_eq!(c.eth.offload_missing_rx_timestamp, 0);
    let none = resolve_rx_timestamp(true, -1, 3, &mut c);
    assert_eq!(none, RxTimestamp { offset: None, flag_mask: Some(8) });
    assert_eq!(c.eth.offload_missing_rx_timestamp, 1);
    let off = resolve_rx_timestamp(false, 40, 3, &mut c);
    assert_eq!(off, RxTimestamp { offset: None, flag_mask: None });
    assert_eq!(c.eth.offload_missing_rx_timestamp, 1);
}

#[test]
fn pools_are_sized_by_the_configuration() {
    let cfg = EngineConfig::default();
    let per_conn = (cfg.recv_buffer_bytes + cfg.mbuf_data_room as u32 - 1)
        / cfg.mbuf_data_room as u32;
    let want = (2 * cfg.max_connections * per_conn + 4096).max(4 * cfg.rx_ring_size as u32);
    assert_eq!(resolve_rx_mempool_size(&cfg), want);
    let fixed = EngineConfig { rx_mempool_size: 77, ..EngineConfig::default() };
    assert_eq!(resolve_rx_mempool_size(&fixed), 77);
    let huge = EngineConfig {
        max_connections: u32::MAX,
        recv_buffer_bytes: u32::MAX,
        ..EngineConfig::default()
    };
    assert_eq!(resolve_rx_mempool_size(&huge), u32::MAX);
    let pools = engine_pools(&fixed, 128);
    assert_eq!(pools.rx.n_elements, 77);
    assert_eq!(pools.rx.data_room_size, fixed.mbuf_data_room + 128);
    assert_eq!(pools.tx_hdr.n_elements, 2048);
    assert_eq!(pools.tx_data.n_elements, 4096);
    assert_eq!(timer_slot_hint(&cfg), 16 * (256 * 1024 / 1460) + 16);
}

#[test]
fn receive_pools_have_a_default_shape() {
    assert_eq!(
        rx_pool_shape(512, 128),
        Some(PoolShape {
            n_elements: 512,
            cache_size: 256,
            priv_size: 0,
            data_room_size: 2176,
        })
    );
    assert_eq!(rx_pool_shape(512, 65_000), None);
}

#[test]
fn odd_reference_counts_are_noticed() {
    let mut c = TcpCounters::default();
    note_handle_drop(1, &mut c);
    note_handle_drop(9, &mut c);
    assert_eq!(c.mbuf_refcnt_drop_unexpected, 0);
    note_handle_drop(10, &mut c);
    note_handle_drop(0, &mut c);
    assert_eq!(c.mbuf_refcnt_drop_unexpected, 2);
}

#[test]
fn error_numbers_are_those_of_the_system() {
    assert_eq!(errno::EPERM, libc::EPERM);
    assert_eq!(errno::ENOMEM, libc::ENOMEM);
    assert_eq!(errno::ETIMEDOUT, libc::ETIMEDOUT);
}

#[test]
fn heap_traffic_is_counted() {
    let mut c = AllocCounts::new();
    c.on_alloc(10);
    c.on_realloc(30);
    c.on_dealloc();
    assert_eq!(c.snapshot(), (2, 2, 40));
    assert_eq!(sample_decision(false, false, 0), (false, 0));
    assert_eq!(sample_decision(true, true, 0), (false, 0));
    assert_eq!(sample_decision(true, false, 31), (true, 32));
    assert_eq!(sample_decision(true, false, BACKTRACE_SAMPLE_CAP), (false, 33));
}
