use dpdk_net_core::error::Error;

#[test]
fn a3_variants_format_cleanly() {
    assert!(Error::TooManyConns.message().contains("too many"));
    assert!(Error::InvalidConnHandle(0).message().contains("0"));
    assert!(Error::PeerUnreachable(0xdeadbeef).message().contains("deadbeef"));
    assert!(Error::SendBufferFull.message().contains("buffer"));
}

#[test]
fn every_error_has_its_words() {
    let cases: Vec<(Error, &str)> = vec![
        (Error::NoInvariantTsc, "invariant TSC not supported on this CPU"),
        (Error::EalInit(-7), "DPDK EAL init failed: rte_errno=-7"),
        (Error::MempoolCreate("no room"), "mempool creation failed: no room"),
        (Error::PortInfo(1, -2), "port 1 dev_info query failed: rte_errno=-2"),
        (Error::PortConfigure(1, 2), "port 1 configure failed: rte_errno=2"),
        (Error::RxQueueSetup(65535, 0), "port 65535 rx queue setup failed: rte_errno=0"),
        (
            Error::TxQueueSetup(1, i32::MIN),
            "port 1 tx queue setup failed: rte_errno=-2147483648",
        ),
        (Error::PortStart(10, 2), "port 10 start failed: rte_errno=2"),
        (Error::InvalidLcore(4), "invalid lcore 4"),
        (
            Error::GatewayMacNotFound(0x0a000001),
            "gateway MAC not found in /proc/net/arp for ip 0xa000001",
        ),
        (Error::ProcArpRead("gone".to_string()), "failed to read /proc/net/arp: gone"),
        (
            Error::GatewayIpNotFound(None),
            "default gateway not found in /proc/net/route (iface filter: None)",
        ),
        (
            Error::GatewayIpNotFound(Some("a\"b".to_string())),
            "default gateway not found in /proc/net/route (iface filter: Some(\"a\\\"b\"))",
        ),
        (Error::ProcRouteRead("x".to_string()), "failed to read /proc/net/route: x"),
        (Error::MacAddrLookup(2, 3), "could not read NIC MAC for port 2: rte_errno=3"),
        (Error::TooManyConns, "too many open connections (max_connections reached)"),
        (Error::InvalidConnHandle(u64::MAX), "invalid connection handle: 18446744073709551615"),
        (Error::PeerUnreachable(0), "peer unreachable: ip=0x0"),
        (Error::SendBufferFull, "send buffer full for this connection"),
        (
            Error::LlqActivationFailed(2),
            "LLQ activation failed on port 2: no activation marker found in PMD log",
        ),
        (Error::LogCaptureInit("f".to_string()), "log capture init failed: f"),
        (Error::InvalidHistogramEdges, "invalid histogram edges (not strictly monotonic)"),
        (
            Error::InvalidLocalAddr(0xdead_beef),
            "invalid local source IP for connect: 0xdeadbeef",
        ),
    ];
    for (e, words) in cases {
        assert_eq!(e.message(), words);
    }
}
