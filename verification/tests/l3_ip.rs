use dpdk_net_core::dpdk_consts::{
    RTE_MBUF_F_RX_IP_CKSUM_BAD, RTE_MBUF_F_RX_IP_CKSUM_GOOD, RTE_MBUF_F_RX_IP_CKSUM_NONE,
    RTE_MBUF_F_RX_IP_CKSUM_UNKNOWN, RTE_MBUF_F_RX_L4_CKSUM_BAD, RTE_MBUF_F_RX_L4_CKSUM_GOOD,
    RTE_MBUF_F_RX_L4_CKSUM_NONE, RTE_MBUF_F_RX_L4_CKSUM_UNKNOWN,
};
use dpdk_net_core::l3_ip::{
    classify_ip_rx_cksum, classify_l4_rx_cksum, internet_checksum, ip_decode, CksumOutcome, L3Drop,
    IPPROTO_ICMP, IPPROTO_TCP,
};

fn build_ip_hdr(proto: u8, src: u32, dst: u32, payload_len: usize, bad_csum: bool) -> Vec<u8> {
    let total = 20 + payload_len;
    let mut v = vec![
        0x45,
        0x00,
        (total >> 8) as u8,
        (total & 0xff) as u8,
        0x00,
        0x01,
        0x40,
        0x00,
        0x40,
        proto,
        0x00,
        0x00,
    ];
    v.extend_from_slice(&src.to_be_bytes());
    v.extend_from_slice(&dst.to_be_bytes());
    let cksum = internet_checksum(&[&v]);
    v[10] = (cksum >> 8) as u8;
    v[11] = (cksum & 0xff) as u8;
    if bad_csum {
        v[10] ^= 0xff;
    }
    v.resize(total, 0);
    v
}

#[test]
fn checksum_folds_correctly() {
    let h = build_ip_hdr(IPPROTO_TCP, 0x0a000001, 0x0a000002, 0, false);
    let mut s = h[..20].to_vec();
    s[10] = 0;
    s[11] = 0;
    let computed = internet_checksum(&[&s]);
    let stored = u16::from_be_bytes([h[10], h[11]]);
    assert_eq!(computed, stored);
}

#[test]
fn short_packet_dropped() {
    assert_eq!(ip_decode(&[0u8; 10], 0, true), Err(L3Drop::Short));
}

#[test]
fn bad_version_dropped() {
    let mut h = build_ip_hdr(IPPROTO_TCP, 1, 2, 0, false);
    h[0] = 0x65;
    assert_eq!(ip_decode(&h, 0, true), Err(L3Drop::BadVersion));
}

#[test]
fn bad_header_len_dropped() {
    let mut h = build_ip_hdr(IPPROTO_TCP, 1, 2, 0, false);
    h[0] = 0x44;
    assert_eq!(ip_decode(&h, 0, true), Err(L3Drop::BadHeaderLen));
}

#[test]
fn bad_total_len_dropped() {
    let mut h = build_ip_hdr(IPPROTO_TCP, 1, 2, 0, false);
    h[2] = 0x00;
    h[3] = 0x10;
    assert_eq!(ip_decode(&h, 0, true), Err(L3Drop::BadTotalLen));
}

#[test]
fn fragment_dropped_mf() {
    let mut h = build_ip_hdr(IPPROTO_TCP, 1, 2, 0, false);
    h[6] = 0x20;
    assert_eq!(ip_decode(&h, 0, true), Err(L3Drop::Fragment));
}

#[test]
fn fragment_dropped_offset() {
    let mut h = build_ip_hdr(IPPROTO_TCP, 1, 2, 0, false);
    h[6] = 0x00;
    h[7] = 0x01;
    assert_eq!(ip_decode(&h, 0, true), Err(L3Drop::Fragment));
}

#[test]
fn ttl_zero_dropped() {
    let mut h = build_ip_hdr(IPPROTO_TCP, 1, 2, 0, false);
    h[8] = 0;
    h[10] = 0;
    h[11] = 0;
    let cks = internet_checksum(&[&h[..20]]);
    h[10] = (cks >> 8) as u8;
    h[11] = (cks & 0xff) as u8;
    assert_eq!(ip_decode(&h, 0, true), Err(L3Drop::TtlZero));
}

#[test]
fn bad_csum_dropped_when_verifying() {
    let h = build_ip_hdr(IPPROTO_TCP, 1, 2, 0, true);
    assert_eq!(ip_decode(&h, 0, false), Err(L3Drop::CsumBad));
}

#[test]
fn bad_csum_passes_when_nic_ok() {
    let h = build_ip_hdr(IPPROTO_TCP, 1, 2, 0, true);
    assert!(ip_decode(&h, 0, true).is_ok());
}

#[test]
fn not_ours_dropped() {
    let h = build_ip_hdr(IPPROTO_TCP, 1, 2, 0, false);
    assert_eq!(ip_decode(&h, 99, true), Err(L3Drop::NotOurs));
}

#[test]
fn unsupported_proto_dropped() {
    let h = build_ip_hdr(17 /* UDP */, 1, 2, 0, false);
    assert_eq!(ip_decode(&h, 0, true), Err(L3Drop::UnsupportedProto));
}

#[test]
fn tcp_accepted() {
    let h = build_ip_hdr(IPPROTO_TCP, 1, 2, 10, false);
    let d = ip_decode(&h, 0, true).expect("accepted");
    assert_eq!(d.protocol, IPPROTO_TCP);
    assert_eq!(d.header_len, 20);
    assert_eq!(d.total_len, 30);
}

#[test]
fn icmp_accepted() {
    let h = build_ip_hdr(IPPROTO_ICMP, 1, 2, 4, false);
    let d = ip_decode(&h, 0, true).expect("accepted");
    assert_eq!(d.protocol, IPPROTO_ICMP);
}

#[test]
fn classify_ip_cksum_from_ol_flags() {
    assert_eq!(
        classify_ip_rx_cksum(RTE_MBUF_F_RX_IP_CKSUM_GOOD),
        CksumOutcome::Good
    );
    assert_eq!(
        classify_ip_rx_cksum(RTE_MBUF_F_RX_IP_CKSUM_BAD),
        CksumOutcome::Bad
    );
    assert_eq!(
        classify_ip_rx_cksum(RTE_MBUF_F_RX_IP_CKSUM_UNKNOWN),
        CksumOutcome::Unknown
    );
    assert_eq!(
        classify_ip_rx_cksum(RTE_MBUF_F_RX_IP_CKSUM_NONE),
        CksumOutcome::NotVerified
    );
}

#[test]
fn classify_l4_cksum_from_ol_flags() {
    assert_eq!(
        classify_l4_rx_cksum(RTE_MBUF_F_RX_L4_CKSUM_GOOD),
        CksumOutcome::Good
    );
    assert_eq!(
        classify_l4_rx_cksum(RTE_MBUF_F_RX_L4_CKSUM_BAD),
        CksumOutcome::Bad
    );
    assert_eq!(
        classify_l4_rx_cksum(RTE_MBUF_F_RX_L4_CKSUM_UNKNOWN),
        CksumOutcome::Unknown
    );
    assert_eq!(
        classify_l4_rx_cksum(RTE_MBUF_F_RX_L4_CKSUM_NONE),
        CksumOutcome::NotVerified
    );
}

fn internet_checksum_ref(chunks: &[&[u8]]) -> u16 {
    let mut sum: u64 = 0;
    let mut carry: Option<u8> = None;
    for chunk in chunks {
        let mut i = 0usize;
        if let Some(high) = carry.take() {
            if let Some(&low) = chunk.first() {
                sum = sum.wrapping_add(u16::from_be_bytes([high, low]) as u64);
                i = 1;
            } else {
                carry = Some(high);
                continue;
            }
        }
        while i + 1 < chunk.len() {
            sum = sum.wrapping_add(u16::from_be_bytes([chunk[i], chunk[i + 1]]) as u64);
            i += 2;
        }
        if i < chunk.len() {
            carry = Some(chunk[i]);
        }
    }
    if let Some(tail) = carry {
        sum = sum.wrapping_add((tail as u64) << 8);
    }
    while sum >> 16 != 0 {
        sum = (sum & 0xffff) + (sum >> 16);
    }
    !(sum as u16)
}

#[test]
fn po3_edge_cases_empty_list() {
    assert_eq!(internet_checksum(&[]), 0xffff);
    assert_eq!(internet_checksum(&[]), internet_checksum_ref(&[]));
}

#[test]
fn po3_edge_cases_empty_chunks() {
    assert_eq!(internet_checksum(&[&[]]), 0xffff);
    assert_eq!(internet_checksum(&[&[], &[], &[]]), 0xffff);
    assert_eq!(
        internet_checksum(&[&[], &[1, 2, 3], &[]]),
        internet_checksum_ref(&[&[], &[1, 2, 3], &[]])
    );
}

#[test]
fn po3_edge_cases_single_byte() {
    for b in [0x00u8, 0x01, 0x7f, 0x80, 0xab, 0xff] {
        let cs_opt = internet_checksum(&[&[b]]);
        let cs_ref = internet_checksum_ref(&[&[b]]);
        assert_eq!(cs_opt, cs_ref, "single byte 0x{:02x}", b);
    }
}

#[test]
fn po3_edge_cases_small_chunk_sizes() {
    let patterns: [&[u8]; 9] = [
        &[],
        &[0xde],
        &[0xde, 0xad],
        &[0xde, 0xad, 0xbe],
        &[0xde, 0xad, 0xbe, 0xef],
        &[0xde, 0xad, 0xbe, 0xef, 0xfe],
        &[0xde, 0xad, 0xbe, 0xef, 0xfe, 0xed],
        &[0xde, 0xad, 0xbe, 0xef, 0xfe, 0xed, 0xfa],
        &[0xde, 0xad, 0xbe, 0xef, 0xfe, 0xed, 0xfa, 0xce],
    ];
    for p in patterns {
        assert_eq!(
            internet_checksum(&[p]),
            internet_checksum_ref(&[p]),
            "len {}",
            p.len()
        );
    }
}

#[test]
fn po3_edge_cases_odd_then_even_boundary() {
    let c1: &[u8] = &[0xa1];
    let c2: &[u8] = &[0xb2, 0xc3, 0xd4, 0xe5];
    assert_eq!(
        internet_checksum(&[c1, c2]),
        internet_checksum_ref(&[c1, c2])
    );
    let c3: &[u8] = &[0xb2, 0xc3, 0xd4, 0xe5, 0xf6];
    assert_eq!(
        internet_checksum(&[c1, c3]),
        internet_checksum_ref(&[c1, c3])
    );
    let a: &[u8] = &[0x11];
    let b: &[u8] = &[0x22, 0x33, 0x44];
    let c: &[u8] = &[0x55, 0x66, 0x77, 0x88, 0x99];
    assert_eq!(
        internet_checksum(&[a, b, c]),
        internet_checksum_ref(&[a, b, c])
    );
}

#[test]
fn po3_edge_cases_three_byte_chunk_pairs() {
    let c: &[u8] = &[0xaa, 0xbb, 0xcc];
    assert_eq!(internet_checksum(&[c]), internet_checksum_ref(&[c]));
    let d: &[u8] = &[0x11, 0x22, 0x33];
    let e: &[u8] = &[0x44, 0x55, 0x66];
    assert_eq!(
        internet_checksum(&[d, e]),
        internet_checksum_ref(&[d, e])
    );
}

#[test]
fn po3_large_input_u64_widening_no_overflow() {
    let big: Vec<u8> = vec![0xFFu8; 65538 * 2];
    let chunks: [&[u8]; 1] = [big.as_slice()];
    let got = internet_checksum(&chunks);
    assert_eq!(got, 0x0000, "u64 RFC 1071 fold result");
    let got_ref = internet_checksum_ref(&chunks);
    assert_eq!(got_ref, 0x0000, "u64 reference fold result");
    assert_eq!(got, got_ref);
}

fn xorshift64star_next(state: &mut u64) -> u64 {
    let mut x = *state;
    x ^= x >> 12;
    x ^= x << 25;
    x ^= x >> 27;
    *state = x;
    x.wrapping_mul(0x2545F4914F6CDD1D)
}

#[test]
fn po3_property_random_chunks_match_reference() {
    let mut rng: u64 = 0xdeadbeefcafef00d;
    for iter in 0..5000 {
        let r = xorshift64star_next(&mut rng);
        let n_chunks = ((r & 0x7) % 5) as usize + 1;
        let mut bufs: Vec<Vec<u8>> = Vec::with_capacity(n_chunks);
        for _ in 0..n_chunks {
            let r2 = xorshift64star_next(&mut rng);
            let len = (r2 % 201) as usize;
            let mut buf = Vec::with_capacity(len);
            for _ in 0..len {
                let rb = xorshift64star_next(&mut rng);
                buf.push(rb as u8);
            }
            bufs.push(buf);
        }
        let slices: Vec<&[u8]> = bufs.iter().map(|v| v.as_slice()).collect();
        let opt = internet_checksum(&slices);
        let reference = internet_checksum_ref(&slices);
        assert_eq!(
            opt, reference,
            "iter {} diverged: chunks={:?}",
            iter,
            bufs.iter().map(|v| v.len()).collect::<Vec<_>>()
        );
    }
}

#[test]
fn po3_property_random_includes_carry_boundaries() {
    let mut rng: u64 = 0x0123456789abcdef;
    for iter in 0..5000 {
        let r = xorshift64star_next(&mut rng);
        let n_chunks = ((r & 0x7) % 4) as usize + 2;
        let mut bufs: Vec<Vec<u8>> = Vec::with_capacity(n_chunks);
        for idx in 0..n_chunks {
            let r2 = xorshift64star_next(&mut rng);
            let force_zero = (r2 & 0xff) < 16;
            let len = if force_zero {
                0
            } else {
                let raw = (r2 % 100) as usize;
                raw * 2 + 1
            };
            let _ = idx;
            let mut buf = Vec::with_capacity(len);
            for _ in 0..len {
                let rb = xorshift64star_next(&mut rng);
                buf.push(rb as u8);
            }
            bufs.push(buf);
        }
        let slices: Vec<&[u8]> = bufs.iter().map(|v| v.as_slice()).collect();
        let opt = internet_checksum(&slices);
        let reference = internet_checksum_ref(&slices);
        assert_eq!(
            opt, reference,
            "carry-iter {} diverged: chunks={:?}",
            iter,
            bufs.iter().map(|v| v.len()).collect::<Vec<_>>()
        );
    }
}
