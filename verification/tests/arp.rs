use dpdk_net_core::arp::{
    arp_decode, build_arp_reply, build_arp_request, build_gratuitous_arp, classify_arp,
    default_gateway_in_table, gateway_mac_in_table, parse_proc_arp_line, parse_proc_route_line,
    ArpAction, ArpDrop, ArpPacket, ARP_FRAME_LEN, ARP_HDR_LEN, ARP_OP_REPLY, ARP_OP_REQUEST,
};
use dpdk_net_core::error::Error;

const ARP_TABLE: &str = "IP address       HW type     Flags       HW address            Mask     Device
10.0.0.1         0x1         0x2         aa:bb:cc:dd:ee:ff     *        eth0
10.0.0.9         0x1         0x0         00:00:00:00:00:00     *        eth0
10.0.0.1         0x1         0x2         11:22:33:44:55:66     *        eth1
";

const ROUTE_TABLE: &str = "Iface\tDestination\tGateway\tFlags\tRefCnt\tUse\tMetric\tMask\tMTU\tWindow\tIRTT
eth0\t0000000A\t00000000\t0001\t0\t0\t0\t00FFFFFF\t0\t0\t0
eth0\t00000000\t0100000A\t0003\t0\t0\t0\t00000000\t0\t0\t0
eth1\t00000000\t0101A8C0\t0003\t0\t0\t100\t00000000\t0\t0\t0
";

fn sample_request() -> ArpPacket {
    ArpPacket {
        op: ARP_OP_REQUEST,
        sender_mac: [0xaa, 0xbb, 0xcc, 0xdd, 0xee, 0xff],
        sender_ip: 0x0a_00_00_01,
        target_mac: [0u8; 6],
        target_ip: 0x0a_00_00_02,
    }
}

#[test]
fn short_rejected() {
    assert_eq!(arp_decode(&[0u8; 10]), Err(ArpDrop::Short));
}

#[test]
fn roundtrip_reply() {
    let req = sample_request();
    let mut buf = [0u8; ARP_FRAME_LEN];
    let n = build_arp_reply([1, 2, 3, 4, 5, 6], 0x0a_00_00_02, &req, &mut buf).unwrap();
    assert_eq!(n, ARP_FRAME_LEN);
    let decoded = arp_decode(&buf[14..]).expect("decode");
    assert_eq!(decoded.op, ARP_OP_REPLY);
    assert_eq!(decoded.sender_mac, [1, 2, 3, 4, 5, 6]);
    assert_eq!(decoded.sender_ip, 0x0a_00_00_02);
    assert_eq!(decoded.target_mac, req.sender_mac);
    assert_eq!(decoded.target_ip, req.sender_ip);
    assert_eq!(&buf[0..6], &req.sender_mac);
    assert_eq!(&buf[6..12], &[1, 2, 3, 4, 5, 6]);
    assert_eq!(&buf[12..14], &0x0806u16.to_be_bytes());
}

#[test]
fn roundtrip_gratuitous() {
    let mut buf = [0u8; ARP_FRAME_LEN];
    let n = build_gratuitous_arp([1, 2, 3, 4, 5, 6], 0x0a_00_00_02, &mut buf).unwrap();
    assert_eq!(n, ARP_FRAME_LEN);
    let decoded = arp_decode(&buf[14..]).expect("decode");
    assert_eq!(decoded.op, ARP_OP_REQUEST);
    assert_eq!(decoded.sender_ip, 0x0a_00_00_02);
    assert_eq!(decoded.target_ip, 0x0a_00_00_02);
    assert_eq!(&buf[0..6], &[0xff; 6]);
}

#[test]
fn reply_is_padded_to_ethernet_minimum() {
    let req = sample_request();
    let mut buf = [0u8; ARP_FRAME_LEN];
    let n = build_arp_reply([1, 2, 3, 4, 5, 6], 0x0a_00_00_02, &req, &mut buf).unwrap();
    assert_eq!(
        n, 60,
        "ARP reply must be Ethernet-min (60 bytes) to avoid runts"
    );
    assert_eq!(ARP_FRAME_LEN, 60);
    for (i, &b) in buf[42..].iter().enumerate() {
        assert_eq!(b, 0, "pad byte {i} not zero");
    }
}

#[test]
fn gratuitous_is_padded_to_ethernet_minimum() {
    let mut buf = [0u8; ARP_FRAME_LEN];
    let n = build_gratuitous_arp([1, 2, 3, 4, 5, 6], 0x0a_00_00_02, &mut buf).unwrap();
    assert_eq!(n, 60);
    for (i, &b) in buf[42..].iter().enumerate() {
        assert_eq!(b, 0, "pad byte {i} not zero");
    }
}

#[test]
fn wrong_htype_rejected() {
    let mut body = [0u8; ARP_HDR_LEN];
    body[0..2].copy_from_slice(&5u16.to_be_bytes());
    body[4] = 6;
    body[5] = 4;
    assert_eq!(arp_decode(&body), Err(ArpDrop::UnsupportedHardware));
}

#[test]
fn wrong_op_rejected() {
    let req = sample_request();
    let mut buf = [0u8; ARP_FRAME_LEN];
    build_arp_reply([1, 2, 3, 4, 5, 6], 0x0a_00_00_02, &req, &mut buf).unwrap();
    buf[14 + 7] = 0x09;
    assert_eq!(arp_decode(&buf[14..]), Err(ArpDrop::UnsupportedOp));
}

#[test]
fn buffer_too_small_for_reply() {
    let req = sample_request();
    let mut buf = [0u8; 10];
    assert!(build_arp_reply([1; 6], 0, &req, &mut buf).is_none());
}

#[test]
fn parse_proc_arp_line_sample() {
    let line = "10.0.0.1         0x1         0x2         aa:bb:cc:dd:ee:ff     *        eth0\n";
    let (ip, mac) = parse_proc_arp_line(line).expect("parsed");
    assert_eq!(ip, 0x0a_00_00_01);
    assert_eq!(mac, [0xaa, 0xbb, 0xcc, 0xdd, 0xee, 0xff]);
}

#[test]
fn parse_proc_arp_incomplete_entry_rejected() {
    let line = "10.0.0.9         0x1         0x0         00:00:00:00:00:00     *        eth0\n";
    assert!(parse_proc_arp_line(line).is_none());
}

#[test]
fn resolve_from_proc_arp_missing_returns_not_found() {
    let err = gateway_mac_in_table(ARP_TABLE, 0x0000_0001).unwrap_err();
    assert!(matches!(err, Error::GatewayMacNotFound(_)));
}

const ROUTE_DEFAULT_ETH0: &str =
    "eth0\t00000000\t0100000A\t0003\t0\t0\t0\t00000000\t0\t0\t0";
const ROUTE_SUBNET_ETH0: &str =
    "eth0\t0000000A\t00000000\t0001\t0\t0\t0\t00FFFFFF\t0\t0\t0";
const ROUTE_DEFAULT_ETH1: &str =
    "eth1\t00000000\t0101A8C0\t0003\t0\t0\t100\t00000000\t0\t0\t0";

#[test]
fn parse_proc_route_default_gateway() {
    let got = parse_proc_route_line(ROUTE_DEFAULT_ETH0, None).expect("parsed");
    assert_eq!(got, 0x0a000001);
}

#[test]
fn parse_proc_route_ignores_non_default() {
    assert!(parse_proc_route_line(ROUTE_SUBNET_ETH0, None).is_none());
}

#[test]
fn parse_proc_route_ignores_non_gateway_flag() {
    let line = "eth0\t00000000\t0100000A\t0001\t0\t0\t0\t00000000\t0\t0\t0";
    assert!(parse_proc_route_line(line, None).is_none());
}

#[test]
fn parse_proc_route_iface_filter() {
    let eth0 = parse_proc_route_line(ROUTE_DEFAULT_ETH0, Some("eth0"));
    assert_eq!(eth0, Some(0x0a000001));
    let eth1 = parse_proc_route_line(ROUTE_DEFAULT_ETH1, Some("eth1"));
    assert_eq!(eth1, Some(0xc0a80101));
    assert!(parse_proc_route_line(ROUTE_DEFAULT_ETH0, Some("eth1")).is_none());
    assert!(parse_proc_route_line(ROUTE_DEFAULT_ETH1, Some("eth0")).is_none());
}

#[test]
fn parse_proc_route_header_rejected() {
    let hdr = "Iface\tDestination\tGateway\tFlags\tRefCnt\tUse\tMetric\tMask\tMTU\tWindow\tIRTT";
    assert!(parse_proc_route_line(hdr, None).is_none());
}

#[test]
fn read_default_gateway_ip_missing_iface_returns_not_found() {
    let err = default_gateway_in_table(ROUTE_TABLE, Some("nope_xxxxx")).unwrap_err();
    assert!(matches!(err, Error::GatewayIpNotFound(_)));
}

const LOCAL_IP: u32 = 0x0a_00_00_02;
const GATEWAY_IP: u32 = 0x0a_00_00_01;
const PEER_MAC: [u8; 6] = [0xaa, 0xbb, 0xcc, 0xdd, 0xee, 0xff];

#[test]
fn classify_arp_request_for_us_sends_reply() {
    let pkt = ArpPacket {
        op: ARP_OP_REQUEST,
        sender_mac: PEER_MAC,
        sender_ip: 0x0a_00_00_05,
        target_mac: [0u8; 6],
        target_ip: LOCAL_IP,
    };
    assert_eq!(
        classify_arp(&pkt, LOCAL_IP, GATEWAY_IP),
        ArpAction::SendReply
    );
}

#[test]
fn classify_arp_reply_from_gateway_updates_mac() {
    let pkt = ArpPacket {
        op: ARP_OP_REPLY,
        sender_mac: PEER_MAC,
        sender_ip: GATEWAY_IP,
        target_mac: [1, 2, 3, 4, 5, 6],
        target_ip: LOCAL_IP,
    };
    assert_eq!(
        classify_arp(&pkt, LOCAL_IP, GATEWAY_IP),
        ArpAction::UpdateGatewayMac(PEER_MAC)
    );
}

#[test]
fn classify_arp_gratuitous_from_gateway_updates_mac() {
    let pkt = ArpPacket {
        op: ARP_OP_REQUEST,
        sender_mac: PEER_MAC,
        sender_ip: GATEWAY_IP,
        target_mac: [0u8; 6],
        target_ip: GATEWAY_IP,
    };
    assert_eq!(
        classify_arp(&pkt, LOCAL_IP, GATEWAY_IP),
        ArpAction::UpdateGatewayMac(PEER_MAC)
    );
}

#[test]
fn classify_arp_reply_from_non_gateway_ignored() {
    let pkt = ArpPacket {
        op: ARP_OP_REPLY,
        sender_mac: PEER_MAC,
        sender_ip: 0x0a_00_00_09,
        target_mac: [1, 2, 3, 4, 5, 6],
        target_ip: LOCAL_IP,
    };
    assert_eq!(
        classify_arp(&pkt, LOCAL_IP, GATEWAY_IP),
        ArpAction::Ignore
    );
}

#[test]
fn classify_arp_zero_gateway_ip_never_updates() {
    let pkt = ArpPacket {
        op: ARP_OP_REPLY,
        sender_mac: PEER_MAC,
        sender_ip: GATEWAY_IP,
        target_mac: [0u8; 6],
        target_ip: LOCAL_IP,
    };
    assert_eq!(
        classify_arp(&pkt, LOCAL_IP, 0),
        ArpAction::Ignore
    );
}

#[test]
fn classify_arp_request_for_non_local_ignored() {
    let pkt = ArpPacket {
        op: ARP_OP_REQUEST,
        sender_mac: PEER_MAC,
        sender_ip: 0x0a_00_00_05,
        target_mac: [0u8; 6],
        target_ip: 0x0a_00_00_09,
    };
    assert_eq!(
        classify_arp(&pkt, LOCAL_IP, GATEWAY_IP),
        ArpAction::Ignore
    );
}

#[test]
fn classify_arp_zero_local_ip_does_not_send_reply_to_zero_target() {
    let pkt = ArpPacket {
        op: ARP_OP_REQUEST,
        sender_mac: PEER_MAC,
        sender_ip: 0x0a_00_00_05,
        target_mac: [0u8; 6],
        target_ip: 0,
    };
    assert_eq!(
        classify_arp(&pkt, 0, GATEWAY_IP),
        ArpAction::Ignore
    );
}

#[test]
fn build_arp_request_roundtrip() {
    let mut buf = [0u8; ARP_FRAME_LEN];
    let n = build_arp_request(
        [1, 2, 3, 4, 5, 6],
        LOCAL_IP,
        GATEWAY_IP,
        &mut buf,
    )
    .expect("built");
    assert_eq!(n, ARP_FRAME_LEN);
    assert_eq!(&buf[0..6], &[0xff; 6]);
    assert_eq!(&buf[6..12], &[1, 2, 3, 4, 5, 6]);
    assert_eq!(&buf[12..14], &0x0806u16.to_be_bytes());
    let decoded = arp_decode(&buf[14..]).expect("decode");
    assert_eq!(decoded.op, ARP_OP_REQUEST);
    assert_eq!(decoded.sender_mac, [1, 2, 3, 4, 5, 6]);
    assert_eq!(decoded.sender_ip, LOCAL_IP);
    assert_eq!(decoded.target_mac, [0u8; 6]);
    assert_eq!(decoded.target_ip, GATEWAY_IP);
    for (i, &b) in buf[42..].iter().enumerate() {
        assert_eq!(b, 0, "pad byte {i} not zero");
    }
}

#[test]
fn build_arp_request_buffer_too_small() {
    let mut buf = [0u8; 10];
    assert!(build_arp_request([1; 6], LOCAL_IP, GATEWAY_IP, &mut buf).is_none());
}

#[test]
fn gateway_mac_is_the_first_complete_entry() {
    assert_eq!(
        gateway_mac_in_table(ARP_TABLE, 0x0a00_0001).unwrap(),
        [0xaa, 0xbb, 0xcc, 0xdd, 0xee, 0xff]
    );
    assert!(matches!(
        gateway_mac_in_table(ARP_TABLE, 0x0a00_0009),
        Err(Error::GatewayMacNotFound(0x0a00_0009))
    ));
}

#[test]
fn default_gateway_is_the_first_default_route() {
    assert_eq!(default_gateway_in_table(ROUTE_TABLE, None).unwrap(), 0x0a00_0001);
    assert_eq!(default_gateway_in_table(ROUTE_TABLE, Some("eth1")).unwrap(), 0xc0a8_0101);
}
