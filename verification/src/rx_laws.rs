//! Which frames, packets and segments are taken in, and as what.
use vstd::prelude::*;

use crate::arp::{arp_decode, classify_arp, ArpAction, ArpDrop, ArpPacket};
use crate::counters::Counters;
use crate::engine::Engine;
use crate::engine_rx::{mbuf_insert_ctx, ChecksumGate, RxStep, SegmentTarget};
use crate::flow_table::{ConnHandle, FlowTable, FourTuple};
use crate::icmp::{IcmpResult, PmtuTable};
use crate::l2::{l2_decode, L2Decoded, L2Drop};
use crate::l3_ip::{ip_decode, ip_decode_offload_aware, L3Decoded, L3Drop};
use crate::mempool::{note_handle_drop, Mbuf};
use crate::tcp_input::{MbufInsertCtx, ParsedSegment, TcpParseError};

verus! {

/// The 16-bit number at a place, the more significant byte first.
pub open spec fn word_at(s: Seq<u8>, i: int) -> int {
    s[i] * 256 + s[i + 1]
}

/// The 32-bit number at a place, the most significant byte first.
pub open spec fn dword_at(s: Seq<u8>, i: int) -> int {
    word_at(s, i) * 0x1_0000 + word_at(s, i + 2)
}

/// The six bytes at a place are a hardware address.
pub open spec fn address_at(s: Seq<u8>, i: int, mac: [u8; 6]) -> bool {
    forall|k: int| 0 <= k < 6 ==> #[trigger] mac[k] == s[i + k]
}

/// A hardware address made of one byte.
pub open spec fn all_bytes(mac: [u8; 6], b: u8) -> bool {
    forall|k: int| 0 <= k < 6 ==> #[trigger] mac[k] == b
}

/// A frame is taken in where it is long enough, for us or for everyone (or we
/// do not know our address yet), and of IPv4 or ARP; its addresses and type are
/// where Ethernet has them. Otherwise the first of these that fails is why.
pub proof fn law_frames_taken(frame: &[u8], our_mac: [u8; 6], r: Result<L2Decoded, L2Drop>)
    requires
        call_ensures(l2_decode, (frame, our_mac), r),
    ensures
        ({
            let f = frame@;
            let for_us = address_at(f, 0, our_mac) || all_bytes(our_mac, 0) || (forall|k: int|
                0 <= k < 6 ==> #[trigger] f[k] == 0xff);
            &&& f.len() < 14 <==> r == Err::<L2Decoded, L2Drop>(L2Drop::Short)
            &&& f.len() >= 14 && !for_us <==> r == Err::<L2Decoded, L2Drop>(L2Drop::MissMac)
            &&& f.len() >= 14 && for_us && word_at(f, 12) != 0x0800 && word_at(f, 12) != 0x0806
                <==> r == Err::<L2Decoded, L2Drop>(L2Drop::UnknownEthertype)
            &&& r matches Ok(d) ==> {
                &&& d.ethertype == word_at(f, 12)
                &&& address_at(f, 0, d.dst_mac)
                &&& address_at(f, 6, d.src_mac)
                &&& d.payload_offset == 14
            }
        }),
{
    let f = frame@;
    if f.len() >= 14 {
        let d = f.subrange(0, 6);
        if address_at(f, 0, our_mac) {
            assert(our_mac@ =~= d);
        }
        if our_mac@ == d {
            assert forall|k: int| 0 <= k < 6 implies #[trigger] our_mac[k] == f[0 + k] by {
                assert(our_mac@[k] == d[k]);
            }
        }
        let bc = crate::l2::BROADCAST_MAC;
        if forall|k: int| 0 <= k < 6 ==> #[trigger] f[k] == 0xff {
            assert(bc@ =~= d);
        }
        if bc@ == d {
            assert forall|k: int| 0 <= k < 6 implies #[trigger] f[k] == 0xff by {
                assert(bc@[k] == d[k]);
            }
        }
        assert(crate::bytes::is_zero_mac(our_mac) <==> all_bytes(our_mac, 0)) by {
            if all_bytes(our_mac, 0) {
                assert(our_mac[0] == 0 && our_mac[1] == 0 && our_mac[2] == 0 && our_mac[3] == 0
                    && our_mac[4] == 0 && our_mac[5] == 0);
            }
        }
        if r is Ok {
            let x = r->Ok_0;
            assert forall|k: int| 0 <= k < 6 implies #[trigger] x.dst_mac[k] == f[0 + k] by {
                assert(x.dst_mac@[k] == f.subrange(0, 6)[k]);
            }
            assert forall|k: int| 0 <= k < 6 implies #[trigger] x.src_mac[k] == f[6 + k] by {
                assert(x.src_mac@[k] == f.subrange(6, 12)[k]);
            }
        }
    }
}

/// A packet that is taken in is an IPv4 packet of TCP or ICMP for us, whole and
/// alive. Its addresses, protocol, lifetime and lengths are where the header
/// has them. Unless the port vouched for it, its header sums to zero with its
/// own checksum in place.
pub proof fn law_packets_taken(pkt: &[u8], our_ip: u32, nic_csum_ok: bool, d: L3Decoded)
    requires
        call_ensures(ip_decode, (pkt, our_ip, nic_csum_ok), Ok::<L3Decoded, L3Drop>(d)),
    ensures
        ({
            let p = pkt@;
            &&& p.len() >= 20
            &&& p[0] / 16 == 4
            &&& d.header_len == 4 * (p[0] % 16)
            &&& d.header_len >= 20
            &&& d.total_len == word_at(p, 2)
            &&& d.header_len <= d.total_len <= p.len()
            &&& word_at(p, 6) % 0x4000 == 0
            &&& d.ttl == p[8] && d.ttl > 0
            &&& d.protocol == p[9] && (d.protocol == 6 || d.protocol == 1)
            &&& d.src_ip == dword_at(p, 12)
            &&& d.dst_ip == dword_at(p, 16)
            &&& our_ip != 0 ==> d.dst_ip == our_ip
            &&& !nic_csum_ok ==> crate::l3_ip::checksum_of(p.take(d.header_len as int)) == 0
        }),
{
    let p = pkt@;
    assert(p[0] % 16 <= 15);
    if !nic_csum_ok {
        let hl = d.header_len as int;
        let z = crate::l3_ip::header_to_sum(p);
        let a = p[10];
        let b = p[11];
        crate::l3_ip::law_own_checksum_gives_zero(z, 10, a, b);
        assert(z.update(10, a).update(11, b) =~= p.take(hl));
    }
}

proof fn lemma_ip_layout(p: Seq<u8>, our_ip: u32, nic_csum_ok: bool)
    ensures
        crate::l3_ip::ip_decoded(p, our_ip, nic_csum_ok) matches Ok(d) ==> {
            &&& p.len() >= 20
            &&& d.header_len == 4 * (p[0] % 16)
            &&& d.total_len == word_at(p, 2)
            &&& d.header_len <= d.total_len <= p.len()
            &&& word_at(p, 6) % 0x4000 == 0
            &&& p[8] > 0
            &&& d.protocol == p[9] && (d.protocol == 6 || d.protocol == 1)
            &&& d.src_ip == dword_at(p, 12)
            &&& d.dst_ip == dword_at(p, 16)
            &&& our_ip != 0 ==> d.dst_ip == our_ip
        },
{
    assert(p[0] % 16 <= 15);
}

/// A packet is dropped for the first of these that is wrong: its length, its
/// version, the length of its header, its total length, that it is a fragment,
/// its lifetime, its checksum, its destination, its protocol.
pub proof fn law_packets_dropped(pkt: &[u8], our_ip: u32, nic_csum_ok: bool, e: L3Drop)
    requires
        call_ensures(ip_decode, (pkt, our_ip, nic_csum_ok), Err::<L3Decoded, L3Drop>(e)),
    ensures
        ({
            let p = pkt@;
            let hl: int = 4 * (p[0] % 16);
            &&& e == L3Drop::Short <==> p.len() < 20
            &&& e == L3Drop::BadVersion <==> p.len() >= 20 && p[0] / 16 != 4
            &&& e == L3Drop::BadHeaderLen ==> hl < 20 || hl > p.len()
            &&& p.len() >= 20 && p[0] / 16 == 4 && (hl < 20 || hl > p.len()) ==> e
                == L3Drop::BadHeaderLen
            &&& e == L3Drop::BadTotalLen ==> word_at(p, 2) < hl || word_at(p, 2) > p.len()
            &&& e == L3Drop::Fragment ==> word_at(p, 6) % 0x4000 != 0
            &&& e == L3Drop::TtlZero ==> p[8] == 0 && word_at(p, 6) % 0x4000 == 0
            &&& e == L3Drop::CsumBad ==> !nic_csum_ok && p[8] != 0
            &&& e == L3Drop::NotOurs ==> our_ip != 0 && dword_at(p, 16) != our_ip
            &&& e == L3Drop::UnsupportedProto ==> p[9] != 6 && p[9] != 1
        }),
{
}

/// Where the port judges checksums, a packet that it found wrong is dropped,
/// and one that it found right is not summed again; else the header decides.
pub proof fn law_port_judges_packets(
    pkt: &[u8],
    our_ip: u32,
    ol_flags: u64,
    active: bool,
    c: &mut Counters,
    r: Result<L3Decoded, L3Drop>,
    plain: Result<L3Decoded, L3Drop>,
    vouched: Result<L3Decoded, L3Drop>,
)
    requires
        call_ensures(ip_decode_offload_aware, (pkt, our_ip, ol_flags, active, c), r),
        call_ensures(ip_decode, (pkt, our_ip, false), plain),
        call_ensures(ip_decode, (pkt, our_ip, true), vouched),
    ensures
        !active ==> r == plain && *final(c) == *old(c),
        active && ol_flags & 0x90 == 0x10 ==> {
            &&& r == Err::<L3Decoded, L3Drop>(L3Drop::CsumBad)
            &&& final(c).eth.rx_drop_cksum_bad == old(c).eth.rx_drop_cksum_bad.wrapping_add(1)
            &&& final(c).ip.rx_csum_bad == old(c).ip.rx_csum_bad.wrapping_add(1)
        },
        active && ol_flags & 0x90 == 0x80 ==> r == vouched && *final(c) == *old(c),
        active && ol_flags & 0x90 != 0x10 && ol_flags & 0x90 != 0x80 ==> r == plain && *final(c)
            == *old(c),
{
}

/// Where the port judges checksums, a segment that it found wrong is dropped
/// and counted once, one that it found right is believed, and any other is
/// verified; where it does not, every segment is verified.
pub proof fn law_port_judges_segments(e: &mut Engine, ol_flags: u64, r: ChecksumGate)
    requires
        call_ensures(Engine::checksum_gate, (e, ol_flags), r),
    ensures
        ({
            let active = old(e).rx_cksum_offload_active;
            let bad = active && ol_flags & 0x108 == 0x08;
            &&& r == ChecksumGate::Drop <==> bad
            &&& r == ChecksumGate::Trust <==> active && ol_flags & 0x108 == 0x100
            &&& bad ==> final(e).counters.eth.rx_drop_cksum_bad
                == old(e).counters.eth.rx_drop_cksum_bad.wrapping_add(1)
                && final(e).counters.tcp.rx_bad_csum
                    == old(e).counters.tcp.rx_bad_csum.wrapping_add(
                1,
            )
            &&& !bad ==> final(e).counters == old(e).counters
            &&& final(e).flow_table == old(e).flow_table
        }),
{
}

/// What the engine hands on as a segment is exactly the payload of an IPv4
/// packet of TCP for us, within the frame; as an ICMP message likewise. Nothing
/// but counters changes.
pub proof fn law_frames_handed_on(e: &mut Engine, frame: &[u8], ol_flags: u64, r: RxStep)
    requires
        call_ensures(Engine::rx_frame, (e, frame, ol_flags), r),
    ensures
        ({
            let f = frame@;
            &&& r matches RxStep::Tcp { ip, tcp_start, tcp_end } ==> {
                &&& f.len() >= 34
                &&& word_at(f, 12) == 0x0800
                &&& f[23] == 6
                &&& tcp_start == 14 + 4 * (f[14] % 16)
                &&& tcp_end == 14 + word_at(f, 16)
                &&& tcp_start <= tcp_end <= f.len()
                &&& ip.src_ip == dword_at(f, 26)
                &&& ip.dst_ip == dword_at(f, 30)
                &&& old(e).cfg.local_ip != 0 ==> ip.dst_ip == old(e).cfg.local_ip
                &&& word_at(f, 20) % 0x4000 == 0
                &&& f[22] > 0
                &&& final(e).counters.ip.rx_tcp == old(e).counters.ip.rx_tcp.wrapping_add(1)
            }
            &&& r matches RxStep::Icmp { start, end } ==> {
                &&& word_at(f, 12) == 0x0800
                &&& f[23] == 1
                &&& start == 14 + 4 * (f[14] % 16)
                &&& end == 14 + word_at(f, 16)
                &&& start <= end <= f.len()
                &&& final(e).counters.ip.rx_icmp == old(e).counters.ip.rx_icmp.wrapping_add(1)
            }
            &&& r is ArpReply ==> word_at(f, 12) == 0x0806
            &&& f.len() < 14 ==> r is Done && final(e).counters.eth.rx_drop_short
                == old(e).counters.eth.rx_drop_short.wrapping_add(1)
            &&& *final(e) == (Engine { counters: final(e).counters, ..*old(e) })
        }),
{
    let f = frame@;
    if f.len() >= 14 {
        let p = crate::engine_rx::frame_payload(f);
        assert forall|i: int| 0 <= i < p.len() implies #[trigger] p[i] == f[i + 14] by {}
        if p.len() >= 20 {
            assert(p[0] == f[14] && p[2] == f[16] && p[3] == f[17] && p[6] == f[20] && p[7]
                == f[21] && p[8] == f[22] && p[9] == f[23]);
            assert(p[12] == f[26] && p[13] == f[27] && p[14] == f[28] && p[15] == f[29]);
            assert(p[16] == f[30] && p[17] == f[31] && p[18] == f[32] && p[19] == f[33]);
        }
        lemma_ip_layout(p, old(e).cfg.local_ip, false);
        lemma_ip_layout(p, old(e).cfg.local_ip, true);
        if p.len() >= 28 {
            lemma_packet_there(p);
        }
    }
}

/// An address request for us is answered to the one who asked, with our
/// hardware address for the address asked for. No other packet is answered.
pub proof fn law_requests_answered(
    e: Engine,
    payload: &[u8],
    d: Result<ArpPacket, ArpDrop>,
    r: RxStep,
)
    requires
        call_ensures(arp_decode, (payload,), d),
        call_ensures(Engine::handle_arp, (&e, payload), r),
    ensures
        ({
            let p = payload@;
            let asked = p.len() >= 28 && word_at(p, 0) == 1 && word_at(p, 2) == 0x0800 && p[4] == 6
                && p[5] == 4 && word_at(p, 6) == 1 && dword_at(p, 24) == e.cfg.local_ip
                && e.cfg.local_ip != 0;
            &&& r is ArpReply <==> asked
            &&& !asked ==> r is Done
            &&& r matches RxStep::ArpReply(f) ==> {
                &&& f@.len() == 60
                &&& f@.subrange(0, 6) == p.subrange(8, 14)
                &&& f@.subrange(6, 12) == e.our_mac@
                &&& word_at(f@, 12) == 0x0806
                &&& word_at(f@, 14) == 1
                &&& word_at(f@, 16) == 0x0800
                &&& f@[18] == 6 && f@[19] == 4
                &&& word_at(f@, 20) == 2
                &&& f@.subrange(22, 28) == e.our_mac@
                &&& dword_at(f@, 28) == e.cfg.local_ip
                &&& f@.subrange(32, 38) == p.subrange(8, 14)
                &&& dword_at(f@, 38) == dword_at(p, 14)
            }
        }),
{
    let p = payload@;
    if d is Ok {
        let pkt = d->Ok_0;
        assert(crate::arp::carries(p, pkt));
        if r is ArpReply {
            lemma_reply_layout(
                p,
                pkt,
                e.our_mac,
                e.cfg.local_ip,
                (r->ArpReply_0)@,
            );
        }
    }
}

/// Where the fields of an address packet stand in the frame that carries it.
#[verifier::rlimit(40)]
pub proof fn law_address_frame_layout(dst: [u8; 6], src: [u8; 6], pkt: ArpPacket)
    ensures
        ({
            let f = crate::arp::arp_frame(dst, src, pkt);
            &&& f.len() == 60
            &&& f.subrange(0, 6) == dst@
            &&& f.subrange(6, 12) == src@
            &&& word_at(f, 12) == 0x0806
            &&& word_at(f, 14) == 1
            &&& word_at(f, 16) == 0x0800
            &&& f[18] == 6 && f[19] == 4
            &&& word_at(f, 20) == pkt.op
            &&& f.subrange(22, 28) == pkt.sender_mac@
            &&& dword_at(f, 28) == pkt.sender_ip
            &&& f.subrange(32, 38) == pkt.target_mac@
            &&& dword_at(f, 38) == pkt.target_ip
            &&& forall|i: int| 42 <= i < 60 ==> #[trigger] f[i] == 0
        }),
{
    let f = crate::arp::arp_frame(dst, src, pkt);
    assert(f.subrange(0, 6) =~= dst@);
    assert(f.subrange(6, 12) =~= src@);
    assert(f.subrange(22, 28) =~= pkt.sender_mac@);
    assert(f.subrange(32, 38) =~= pkt.target_mac@);
    crate::bytes::law_bytes_round_trip(pkt.op, pkt.sender_ip);
    crate::bytes::law_bytes_round_trip(pkt.op, pkt.target_ip);
}

proof fn lemma_reply_layout(
    p: Seq<u8>,
    pkt: ArpPacket,
    our_mac: [u8; 6],
    our_ip: u32,
    f: Seq<u8>,
)
    requires
        p.len() >= 28,
        crate::arp::carries(p, pkt),
        f == crate::arp::arp_frame(
            pkt.sender_mac,
            our_mac,
            crate::arp::reply_packet(our_mac, our_ip, pkt),
        ),
    ensures
        f.len() == 60,
        f.subrange(0, 6) == p.subrange(8, 14),
        f.subrange(6, 12) == our_mac@,
        word_at(f, 12) == 0x0806,
        word_at(f, 14) == 1,
        word_at(f, 16) == 0x0800,
        f[18] == 6 && f[19] == 4,
        word_at(f, 20) == 2,
        f.subrange(22, 28) == our_mac@,
        dword_at(f, 28) == our_ip,
        f.subrange(32, 38) == p.subrange(8, 14),
        dword_at(f, 38) == dword_at(p, 14),
{
    law_address_frame_layout(
        pkt.sender_mac,
        our_mac,
        crate::arp::reply_packet(our_mac, our_ip, pkt),
    );
}

proof fn lemma_packet_there(p: Seq<u8>)
    requires
        p.len() >= 28,
    ensures
        exists|pkt: ArpPacket| #[trigger] crate::arp::carries(p, pkt),
{
    let sender_mac: [u8; 6] = [p[8], p[9], p[10], p[11], p[12], p[13]];
    let target_mac: [u8; 6] = [p[18], p[19], p[20], p[21], p[22], p[23]];
    let pkt = ArpPacket {
        op: crate::bytes::be16_of(p[6], p[7]),
        sender_mac,
        sender_ip: crate::bytes::be32_of(p[14], p[15], p[16], p[17]),
        target_mac,
        target_ip: crate::bytes::be32_of(p[24], p[25], p[26], p[27]),
    };
    assert(sender_mac@ =~= p.subrange(8, 14));
    assert(target_mac@ =~= p.subrange(18, 24));
    assert(crate::arp::carries(p, pkt));
}

/// A segment is handed to the connection with just its addresses and ports, as
/// seen from our end; where there are several, to the one with the lowest
/// handle. One that opens a connection goes to the slot that listens at its
/// destination, where the engine listens at all. Any other belongs to nobody.
pub proof fn law_segments_find_their_target(
    e: &mut Engine,
    src_ip: u32,
    dst_ip: u32,
    p: ParsedSegment,
    r: SegmentTarget,
)
    requires
        call_ensures(Engine::match_segment, (e, src_ip, dst_ip, &p), r),
    ensures
        r matches SegmentTarget::Conn(h) ==> {
            let t = old(e).conn(h).four_tuple;
            &&& old(e).has(h)
            &&& t.local_ip == dst_ip && t.local_port == p.dst_port
            &&& t.peer_ip == src_ip && t.peer_port == p.src_port
            &&& final(e).counters.tcp.rx_unmatched == old(e).counters.tcp.rx_unmatched
            &&& final(e).counters.tcp.rx_ack == old(e).counters.tcp.rx_ack.wrapping_add(
                if p.flags & 0x10 != 0 {
                    1
                } else {
                    0
                },
            )
            &&& final(e).counters.tcp.rx_fin == old(e).counters.tcp.rx_fin.wrapping_add(
                if p.flags & 0x01 != 0 {
                    1
                } else {
                    0
                },
            )
            &&& final(e).counters.tcp.rx_rst == old(e).counters.tcp.rx_rst.wrapping_add(
                if p.flags & 0x04 != 0 {
                    1
                } else {
                    0
                },
            )
            &&& final(e).counters.tcp.rx_data == old(e).counters.tcp.rx_data.wrapping_add(
                if p.payload_len > 0 {
                    1
                } else {
                    0
                },
            )
        },
        !(r is Conn) ==> forall|h: ConnHandle| #[trigger]
            old(e).has(h) ==> {
                let t = old(e).conn(h).four_tuple;
                !(t.local_ip == dst_ip && t.local_port == p.dst_port && t.peer_ip == src_ip
                    && t.peer_port == p.src_port)
            },
        r matches SegmentTarget::Listener(l) ==> {
            &&& old(e).features.test_server
            &&& p.flags & 0x02 != 0 && p.flags & 0x10 == 0
            &&& exists|i: int|
                0 <= i < old(e).listen_slots@.len() && (#[trigger] old(e).listen_slots@[i]).0 == l
                    && old(e).listen_slots@[i].1.local_ip == dst_ip
                    && old(e).listen_slots@[i].1.local_port == p.dst_port
        },
        r is Nobody && old(e).features.test_server && p.flags & 0x02 != 0 && p.flags & 0x10 == 0
            ==> forall|i: int|
            0 <= i < old(e).listen_slots@.len() ==> !((
            #[trigger] old(e).listen_slots@[i]).1.local_ip == dst_ip
                && old(e).listen_slots@[i].1.local_port == p.dst_port),
        r is Nobody ==> final(e).counters.tcp.rx_unmatched
            == old(e).counters.tcp.rx_unmatched.wrapping_add(1),
        final(e).flow_table == old(e).flow_table,
        final(e).listen_slots == old(e).listen_slots,
{
    if r is Listener {
        let i = choose|i: int|
            #[trigger] crate::engine_rx::slot_at(*old(e), dst_ip, p.dst_port, i)
                && old(e).listen_slots@[i].0 == r->Listener_0;
        assert(old(e).listen_slots@[i].0 == r->Listener_0);
    }
    if r is Nobody {
        assert forall|i: int| 0 <= i < old(e).listen_slots@.len() && old(
            e,
        ).features.test_server && p.flags & 0x02 != 0 && p.flags & 0x10 == 0 implies !((
        #[trigger] old(e).listen_slots@[i]).1.local_ip == dst_ip
            && old(e).listen_slots@[i].1.local_port == p.dst_port) by {
            assert(!crate::engine_rx::slot_at(*old(e), dst_ip, p.dst_port, i));
        }
    }
}

/// The payload of a segment begins behind the segment's header in its frame;
/// nothing is kept of a segment without payload.
pub proof fn law_payload_place(
    rx: Option<Mbuf>,
    tcp_start: u16,
    p: ParsedSegment,
    r: Option<MbufInsertCtx>,
)
    requires
        call_ensures(mbuf_insert_ctx, (rx, tcp_start, &p), r),
    ensures
        r is Some <==> rx is Some && p.payload_len > 0,
        r matches Some(c) ==> {
            &&& Some(c.mbuf) == rx
            &&& tcp_start + p.header_len <= u16::MAX ==> c.payload_offset == tcp_start
                + p.header_len
        },
{
}

/// What an address packet makes us do: answer a request for our address, take
/// over the gateway's hardware address from its replies and announcements, and
/// nothing otherwise.
pub proof fn law_address_packets(pkt: ArpPacket, local_ip: u32, gateway_ip: u32, r: ArpAction)
    requires
        call_ensures(classify_arp, (&pkt, local_ip, gateway_ip), r),
    ensures
        r is SendReply <==> pkt.op == 1 && pkt.target_ip == local_ip && local_ip != 0,
        r matches ArpAction::UpdateGatewayMac(m) ==> m == pkt.sender_mac && pkt.sender_ip
            == gateway_ip && gateway_ip != 0,
        pkt.op == 2 && pkt.sender_ip == gateway_ip && gateway_ip != 0 ==> r is UpdateGatewayMac,
        pkt.op == 1 && pkt.sender_ip == gateway_ip && gateway_ip != 0 && pkt.target_ip
            == gateway_ip && local_ip != gateway_ip ==> r is UpdateGatewayMac,
        pkt.op != 1 && pkt.op != 2 ==> r is Ignore,
{
}

/// What is known of a path only ever shrinks, and only by a message that tells
/// of something smaller; other paths are left alone.
pub proof fn law_paths_shrink(t: &mut PmtuTable, ip: u32, mtu: u16, other: u32, r: bool)
    requires
        call_ensures(PmtuTable::shrink, (t, ip, mtu), r),
    ensures
        final(t)@.contains_key(ip),
        final(t)@[ip] <= mtu,
        old(t)@.contains_key(ip) ==> final(t)@[ip] <= old(t)@[ip],
        final(t)@[ip] == mtu || (old(t)@.contains_key(ip) && final(t)@[ip] == old(t)@[ip]),
        r <==> !old(t)@.contains_key(ip) || mtu < old(t)@[ip],
        other != ip ==> (final(t)@.contains_key(other) <==> old(t)@.contains_key(other)),
        other != ip && old(t)@.contains_key(other) ==> final(t)@[other] == old(t)@[other],
{
}

/// A table gives a connection a handle that was free, and finds it again under
/// its addresses: no other connection with them has a lower handle.
pub proof fn law_table_lookup(t: FlowTable, tuple: FourTuple, r: Option<ConnHandle>)
    requires
        call_ensures(FlowTable::lookup, (&t, &tuple), r),
    ensures
        r matches Some(h) ==> t@.contains_key(h) && t@[h].four_tuple == tuple,
        r is None ==> forall|h: ConnHandle| #[trigger]
            t@.contains_key(h) ==> t@[h].four_tuple != tuple,
        r matches Some(h) ==> forall|k: ConnHandle| #[trigger]
            t@.contains_key(k) && t@[k].four_tuple == tuple ==> h <= k,
{
}

/// Segments that cannot be read are counted by what is wrong with them.
pub proof fn law_unreadable_counted(e: &mut Engine, why: TcpParseError)
    requires
        call_ensures(Engine::segment_unreadable, (e, why), ()),
    ensures
        ({
            let a = old(e).counters.tcp;
            let b = final(e).counters.tcp;
            &&& why == TcpParseError::BadFlags ==> b.rx_bad_flags == a.rx_bad_flags.wrapping_add(1)
                && b.rx_short == a.rx_short && b.rx_bad_csum == a.rx_bad_csum
            &&& why == TcpParseError::Csum ==> b.rx_bad_csum == a.rx_bad_csum.wrapping_add(1)
                && b.rx_short == a.rx_short && b.rx_bad_flags == a.rx_bad_flags
            &&& why == TcpParseError::Short || why == TcpParseError::BadDataOffset ==> b.rx_short
                == a.rx_short.wrapping_add(1) && b.rx_bad_csum == a.rx_bad_csum && b.rx_bad_flags
                == a.rx_bad_flags
        }),
{
}

/// Messages that tell of a smaller path are counted, and those that made a
/// difference are counted as such; no other message is.
pub proof fn law_path_messages_counted(e: &mut Engine, res: IcmpResult)
    requires
        call_ensures(Engine::icmp_done, (e, res), ()),
    ensures
        ({
            let a = old(e).counters.ip;
            let b = final(e).counters.ip;
            &&& res == IcmpResult::FragNeededPmtuUpdated ==> b.rx_icmp_frag_needed
                == a.rx_icmp_frag_needed.wrapping_add(1) && b.pmtud_updates
                == a.pmtud_updates.wrapping_add(1)
            &&& res == IcmpResult::FragNeededNoShrink ==> b.rx_icmp_frag_needed
                == a.rx_icmp_frag_needed.wrapping_add(1) && b.pmtud_updates == a.pmtud_updates
            &&& res == IcmpResult::OtherDropped || res == IcmpResult::Malformed ==> b == a
        }),
{
}

/// A reference that is dropped is suspect where there was none left, or more
/// than a buffer is ever held by.
pub proof fn law_suspect_drops(refs: u16, c: &mut crate::counters::TcpCounters)
    requires
        call_ensures(note_handle_drop, (refs, c), ()),
    ensures
        refs == 0 || refs > 9 ==> final(c).mbuf_refcnt_drop_unexpected == old(
            c,
        ).mbuf_refcnt_drop_unexpected.wrapping_add(1),
        1 <= refs <= 9 ==> *final(c) == *old(c),
{
}

} // verus!
