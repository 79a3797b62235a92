use dpdk_net_core::counters::Counters;
use dpdk_net_core::ena_xstats::{resolve_xstat_ids, scrape, xstat_query, XstatMap, XSTAT_NAMES};
use dpdk_net_core::flow_table::{FlowTable, FourTuple};
use dpdk_net_core::l2::l2_decode;
use dpdk_net_core::l3_ip::{internet_checksum, ip_decode};
use dpdk_net_core::mempool::Mbuf;
use dpdk_net_core::tcp_conn::TcpConn;
use dpdk_net_core::tcp_retrans::{RetransEntry, SendRetrans};
use dpdk_net_core::tcp_rtt::RttEstimator;
use dpdk_net_core::tcp_seq::{seq_le, seq_lt};
use dpdk_net_core::tcp_state::{state_from_byte, TcpState, TCP_STATE_COUNT};
use dpdk_net_core::tcp_timer_wheel::{TimerKind, TimerNode, TimerWheel};

fn node(fire_at_ns: u64, user_data: u64) -> TimerNode {
    TimerNode { fire_at_ns, owner_handle: 0, kind: TimerKind::ApiPublic, user_data }
}

#[test]
fn numbers_are_ordered_round_the_circle() {
    assert!(seq_lt(1, 2));
    assert!(!seq_lt(2, 1));
    assert!(seq_lt(u32::MAX, 0));
    assert!(seq_le(7, 7));
    assert!(!seq_lt(7, 7));
    assert!(seq_lt(5, 5 + 0x7fff_ffff));
    assert!(!seq_lt(5, 5 + 0x8000_0000));
    assert!(seq_lt(1u32.wrapping_sub(9), 2u32.wrapping_sub(9)));
}

#[test]
fn states_are_numbered() {
    for b in 0..=255u8 {
        let s = state_from_byte(b);
        assert_eq!(s.index(), b as usize % TCP_STATE_COUNT);
    }
    assert_eq!(TcpState::TimeWait.index(), 10);
}

#[test]
fn a_cancelled_timer_never_fires() {
    let mut w = TimerWheel::new(4);
    let a = w.add(node(10, 1));
    let b = w.add(node(20, 2));
    assert!(w.cancel(a));
    assert!(!w.cancel(a));
    let c = w.add(node(10, 3));
    assert_ne!(a, c);
    assert_eq!(a.slot, c.slot);
    let fired = w.advance(15);
    assert_eq!(fired, vec![(c, node(10, 3))]);
    assert_eq!(w.advance(20), vec![(b, node(20, 2))]);
    assert!(w.advance(u64::MAX).is_empty());
    assert!(w.has_room());
}

fn entry(seq: u32, len: u16, id: u64) -> RetransEntry {
    RetransEntry {
        seq,
        len,
        mbuf: Mbuf::from_id(id),
        first_tx_ts_ns: 0,
        xmit_count: 1,
        sacked: false,
        lost: false,
        xmit_ts_ns: 0,
        hdrs_len: 54,
    }
}

#[test]
fn only_what_is_acknowledged_leaves_the_flight() {
    let mut r = SendRetrans::with_capacity(4);
    r.push_after_tx(entry(u32::MAX - 9, 10, 1));
    r.push_after_tx(entry(0, 10, 2));
    r.push_after_tx(entry(10, 10, 3));
    assert_eq!(r.flight_size(), 3);
    assert_eq!(r.prune_below(5), vec![Mbuf::from_id(1)]);
    assert_eq!(r.front().unwrap().end_seq(), 10);
    r.mark_lost(&[1, 9]);
    assert!(!r.get(0).unwrap().lost);
    assert!(r.get(1).unwrap().lost);
    assert_eq!(r.prune_below(20), vec![Mbuf::from_id(2), Mbuf::from_id(3)]);
    assert!(r.is_empty());
}

#[test]
fn timeouts_follow_the_samples() {
    let mut e = RttEstimator::new(1_000, 5_000, 100_000);
    assert_eq!(e.rto_us(), 5_000);
    assert_eq!(e.srtt_us(), None);
    e.sample(8_000);
    assert_eq!(e.srtt_us(), Some(8_000));
    assert_eq!(e.rttvar_us(), 4_000);
    assert_eq!(e.rto_us(), 24_000);
    e.apply_backoff();
    assert_eq!(e.rto_us(), 48_000);
    e.apply_backoff();
    e.apply_backoff();
    assert_eq!(e.rto_us(), 100_000);
}

#[test]
fn handles_are_given_out_from_the_lowest() {
    let t = |p: u16| FourTuple { local_ip: 1, local_port: p, peer_ip: 2, peer_port: 3 };
    let c = |p: u16| TcpConn::new_client(t(p), 0, 1460, 1024, 1024, 5_000, 5_000, 1_000_000);
    let mut ft = FlowTable::new(2);
    assert_eq!(ft.insert(c(10)), Some(1));
    assert_eq!(ft.insert(c(11)), Some(2));
    assert_eq!(ft.insert(c(12)), None);
    assert_eq!(ft.lookup(&t(11)), Some(2));
    ft.remove(1);
    assert_eq!(ft.lookup(&t(10)), None);
    assert!(ft.get(0).is_none());
    assert_eq!(ft.insert(c(13)), Some(1));
    assert_eq!(ft.handles(), vec![1, 2]);
}

fn text(name: &str) -> [u8; 64] {
    let mut t = [0u8; 64];
    t[..name.len()].copy_from_slice(name.as_bytes());
    t
}

#[test]
fn statistics_are_found_by_name() {
    let names = [text("other"), text(XSTAT_NAMES[1]), text(XSTAT_NAMES[0])];
    let map = resolve_xstat_ids(3, &names, 3);
    assert_eq!(map.ids[0], Some(2));
    assert_eq!(map.ids[1], Some(1));
    assert_eq!(map.ids[2], None);
    assert_eq!(xstat_query(&map), vec![2, 1]);
    let short = resolve_xstat_ids(3, &names, 2);
    assert_eq!(short.ids[0], None);
    let none = resolve_xstat_ids(-1, &names, 3);
    assert!(none.ids.iter().all(|i| i.is_none()));
}

#[test]
fn a_failed_read_keeps_the_totals() {
    let map = XstatMap::from_lookup(|n| {
        if n == XSTAT_NAMES[0] {
            Some(9)
        } else if n == XSTAT_NAMES[5] {
            Some(4)
        } else {
            None
        }
    });
    let mut c = Counters::new();
    scrape(&map, 2, &[77, 88], &mut c);
    assert_eq!(c.eth.eni_bw_in_allowance_exceeded, 77);
    assert_eq!(c.eth.tx_q0_linearize, 88);
    scrape(&map, 1, &[5, 6], &mut c);
    scrape(&map, -22, &[5, 6], &mut c);
    assert_eq!(c.eth.eni_bw_in_allowance_exceeded, 0);
    assert_eq!(c.eth.tx_q0_linearize, 88);
}

#[test]
fn a_checksum_does_not_depend_on_the_pieces() {
    let whole = [1u8, 2, 3, 4, 5];
    let sum = internet_checksum(&[&whole]);
    assert_eq!(sum, internet_checksum(&[&whole[..1], &whole[1..4], &[], &whole[4..]]));
    assert_eq!(sum, !(0x0102u16 + 0x0304 + 0x0500));
    assert_eq!(internet_checksum(&[]), 0xffff);
}

#[test]
fn bytes_that_carry_their_checksum_sum_to_zero() {
    let mut bytes = vec![0x45u8, 0, 0, 40, 0, 0, 9, 200, 255, 255, 3];
    let sum = internet_checksum(&[&bytes]);
    bytes[4] = (sum >> 8) as u8;
    bytes[5] = sum as u8;
    assert_eq!(internet_checksum(&[&bytes]), 0);
}

#[test]
fn arbitrary_bytes_are_read_without_harm() {
    for n in 0..64usize {
        for fill in [0u8, 0x45, 0xff] {
            let data = vec![fill; n];
            let _ = l2_decode(&data, [0; 6]);
            let _ = l2_decode(&data, [0xde, 0xad, 0xbe, 0xef, 0, 1]);
            let _ = ip_decode(&data, 0, true);
            let _ = ip_decode(&data, 0, false);
            let _ = ip_decode(&data, 0x0a00_0001, true);
        }
    }
}
