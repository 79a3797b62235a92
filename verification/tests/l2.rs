use dpdk_net_core::l2::{
    l2_decode, L2Drop, BROADCAST_MAC, ETHERTYPE_ARP, ETHERTYPE_IPV4,
};

fn frame(dst: [u8; 6], src: [u8; 6], et: u16, payload: &[u8]) -> Vec<u8> {
    let mut v = Vec::with_capacity(14 + payload.len());
    v.extend_from_slice(&dst);
    v.extend_from_slice(&src);
    v.extend_from_slice(&et.to_be_bytes());
    v.extend_from_slice(payload);
    v
}

#[test]
fn short_frame_dropped() {
    assert_eq!(l2_decode(&[0u8; 10], [1; 6]), Err(L2Drop::Short));
}

#[test]
fn wrong_dst_mac_dropped() {
    let us = [0x11, 0x22, 0x33, 0x44, 0x55, 0x66];
    let wrong = [0xaa; 6];
    let f = frame(wrong, [0; 6], ETHERTYPE_IPV4, &[]);
    assert_eq!(l2_decode(&f, us), Err(L2Drop::MissMac));
}

#[test]
fn correct_dst_mac_accepted() {
    let us = [0x11, 0x22, 0x33, 0x44, 0x55, 0x66];
    let f = frame(us, [0; 6], ETHERTYPE_IPV4, &[0xde, 0xad]);
    let d = l2_decode(&f, us).expect("accepted");
    assert_eq!(d.ethertype, ETHERTYPE_IPV4);
    assert_eq!(d.payload_offset, 14);
}

#[test]
fn broadcast_accepted_for_arp() {
    let us = [0x11, 0x22, 0x33, 0x44, 0x55, 0x66];
    let f = frame(BROADCAST_MAC, [0; 6], ETHERTYPE_ARP, &[]);
    assert!(l2_decode(&f, us).is_ok());
}

#[test]
fn unknown_ethertype_dropped() {
    let us = [0x11, 0x22, 0x33, 0x44, 0x55, 0x66];
    let f = frame(us, [0; 6], 0x86DD, &[]);
    assert_eq!(l2_decode(&f, us), Err(L2Drop::UnknownEthertype));
}

#[test]
fn zero_our_mac_accepts_any() {
    let dst = [0x99; 6];
    let f = frame(dst, [0; 6], ETHERTYPE_IPV4, &[]);
    assert!(l2_decode(&f, [0; 6]).is_ok());
}
