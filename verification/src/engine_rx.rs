//! Received frames, down to the connection that a segment belongs to.
use vstd::prelude::*;
use vstd::slice::slice_subrange;

use crate::arp::{
    arp_decode, arp_drop, arp_frame, build_arp_reply, carries, reply_packet, ArpPacket,
    ARP_OP_REQUEST,
};
use crate::counters::{bumped, inc, inc_if, Counters, EthCounters, IpCounters, TcpCounters};
use crate::engine::Engine;
use crate::flow_table::{ConnHandle, FourTuple};
use crate::icmp::IcmpResult;
use crate::l2::{
    ethertype_of, is_for, l2_decode, L2Drop, ETHERTYPE_ARP, ETHERTYPE_IPV4, ETH_HDR_LEN,
};
use crate::l3_ip::{
    classify_ip_rx_cksum, classify_l4_rx_cksum, counted_offload, ip_decode_offload_aware,
    ip_decoded_offload, l4_verdict, nic_rejects, CksumOutcome, L3Decoded, L3Drop, IPPROTO_TCP,
};
use crate::mempool::Mbuf;
use crate::tcp_input::{tuple_from_segment, MbufInsertCtx, ParsedSegment, TcpParseError};
use crate::tcp_output::{has_flag, TCP_ACK, TCP_FIN, TCP_RST, TCP_SYN};
use crate::test_server::ListenHandle;

verus! {

/// What a received frame calls for.
#[derive(Debug)]
pub enum RxStep {
    /// Nothing more.
    Done,
    /// This frame is to be sent, as an answer to an address request.
    ArpReply(Vec<u8>),
    /// A segment: `tcp_start..tcp_end` of the frame. `ip` is its packet's
    /// header.
    Tcp { ip: L3Decoded, tcp_start: usize, tcp_end: usize },
    /// An ICMP message: `start..end` of the frame.
    Icmp { start: usize, end: usize },
}

/// The reason to drop a frame, if there is one.
pub open spec fn frame_drop(frame: Seq<u8>, our_mac: [u8; 6]) -> Option<L2Drop> {
    if frame.len() < ETH_HDR_LEN {
        Some(L2Drop::Short)
    } else if !is_for(frame, our_mac) {
        Some(L2Drop::MissMac)
    } else if ethertype_of(frame) != ETHERTYPE_IPV4 && ethertype_of(frame) != ETHERTYPE_ARP {
        Some(L2Drop::UnknownEthertype)
    } else {
        None
    }
}

/// What a frame carries behind its header.
pub open spec fn frame_payload(frame: Seq<u8>) -> Seq<u8> {
    frame.subrange(ETH_HDR_LEN as int, frame.len() as int)
}

/// The counters once a frame was dropped for a reason.
pub open spec fn counted_frame_drop(c: EthCounters, d: L2Drop) -> EthCounters {
    EthCounters {
        rx_drop_short: bumped(c.rx_drop_short, d == L2Drop::Short),
        rx_drop_miss_mac: bumped(c.rx_drop_miss_mac, d == L2Drop::MissMac),
        rx_drop_unknown_ethertype: bumped(
            c.rx_drop_unknown_ethertype,
            d == L2Drop::UnknownEthertype,
        ),
        ..c
    }
}

/// The counters once a packet was dropped for a reason.
pub open spec fn counted_packet_drop(c: IpCounters, d: L3Drop) -> IpCounters {
    IpCounters {
        rx_drop_short: bumped(
            c.rx_drop_short,
            d == L3Drop::Short || d == L3Drop::BadTotalLen,
        ),
        rx_drop_bad_version: bumped(c.rx_drop_bad_version, d == L3Drop::BadVersion),
        rx_drop_bad_hl: bumped(c.rx_drop_bad_hl, d == L3Drop::BadHeaderLen),
        rx_csum_bad: bumped(c.rx_csum_bad, d == L3Drop::CsumBad),
        rx_ttl_zero: bumped(c.rx_ttl_zero, d == L3Drop::TtlZero),
        rx_frag: bumped(c.rx_frag, d == L3Drop::Fragment),
        rx_drop_not_ours: bumped(c.rx_drop_not_ours, d == L3Drop::NotOurs),
        rx_drop_unsupported_proto: bumped(
            c.rx_drop_unsupported_proto,
            d == L3Drop::UnsupportedProto,
        ),
        ..c
    }
}

/// An address request asks for us.
pub open spec fn asks_for_us(pkt: ArpPacket, local_ip: u32) -> bool {
    pkt.op == ARP_OP_REQUEST && pkt.target_ip == local_ip && local_ip != 0
}

/// The answer to the address packet that a payload holds: the frame that
/// answers a request for us, and nothing otherwise.
pub open spec fn is_arp_answer(p: Seq<u8>, our_mac: [u8; 6], local_ip: u32, r: RxStep) -> bool {
    if arp_drop(p) is Some {
        r == RxStep::Done
    } else {
        forall|pkt: ArpPacket| #[trigger]
            carries(p, pkt) ==> if asks_for_us(pkt, local_ip) {
                r matches RxStep::ArpReply(f) && f@ == arp_frame(
                    pkt.sender_mac,
                    our_mac,
                    reply_packet(our_mac, local_ip, pkt),
                )
            } else {
                r == RxStep::Done
            }
    }
}

/// How the port's verdict on a segment's checksum is taken.
#[derive(Debug, Clone, Copy, PartialEq, Eq, Structural)]
pub enum ChecksumGate {
    /// The checksum has to be verified.
    Verify,
    /// The port verified it.
    Trust,
    /// The port found it wrong: the segment is dropped.
    Drop,
}

/// Where a segment belongs.
#[derive(Debug, Clone, Copy, PartialEq, Eq, Structural)]
pub enum SegmentTarget {
    /// To a connection.
    Conn(ConnHandle),
    /// To a listening slot: it opens a connection.
    Listener(ListenHandle),
    /// To nothing: it is answered by a reset.
    Nobody,
}

/// `h` is the lowest handle of a connection with these addresses and ports.
pub open spec fn is_match(e: Engine, t: FourTuple, h: ConnHandle) -> bool {
    &&& e.has(h)
    &&& e.conn(h).four_tuple == t
    &&& forall|k: ConnHandle| #[trigger] e.has(k) && k < h ==> e.conn(k).four_tuple != t
}

/// No connection has these addresses and ports.
pub open spec fn unmatched(e: Engine, t: FourTuple) -> bool {
    forall|k: ConnHandle| #[trigger] e.has(k) ==> e.conn(k).four_tuple != t
}

/// A slot that listens at an address.
pub open spec fn slot_at(e: Engine, ip: u32, port: u16, i: int) -> bool {
    &&& 0 <= i < e.listen_slots@.len()
    &&& e.listen_slots@[i].1.local_ip == ip
    &&& e.listen_slots@[i].1.local_port == port
}

/// The first slot that listens at an address, if any.
pub open spec fn is_listener(e: Engine, ip: u32, port: u16, r: Option<ListenHandle>) -> bool {
    match r {
        Some(h) => exists|i: int|
            {
                &&& #[trigger] slot_at(e, ip, port, i)
                &&& e.listen_slots@[i].0 == h
                &&& forall|k: int| 0 <= k < i ==> !#[trigger] slot_at(e, ip, port, k)
            },
        None => forall|k: int| !#[trigger] slot_at(e, ip, port, k),
    }
}

/// The segment opens a connection.
pub open spec fn is_opening(flags: u8) -> bool {
    has_flag(flags, TCP_SYN) && !has_flag(flags, TCP_ACK)
}

/// The counters once a segment of a connection was received.
pub open spec fn counted_segment(c: TcpCounters, p: ParsedSegment) -> TcpCounters {
    TcpCounters {
        rx_syn_ack: bumped(
            c.rx_syn_ack,
            has_flag(p.flags, TCP_SYN) && has_flag(p.flags, TCP_ACK),
        ),
        rx_ack: bumped(c.rx_ack, has_flag(p.flags, TCP_ACK)),
        rx_fin: bumped(c.rx_fin, has_flag(p.flags, TCP_FIN)),
        rx_rst: bumped(c.rx_rst, has_flag(p.flags, TCP_RST)),
        rx_data: bumped(c.rx_data, p.payload_len > 0),
        ..c
    }
}

impl Engine {
    /// Takes a received frame as far as its transport layer. Whatever is
    /// dropped on the way is counted.
    pub fn rx_frame(&mut self, frame: &[u8], ol_flags: u64) -> (r: RxStep)
        ensures
            match frame_drop(frame@, old(self).our_mac) {
                Some(d) => {
                    &&& r == RxStep::Done
                    &&& *final(self) == (Engine {
                        counters: Counters {
                            eth: counted_frame_drop(old(self).counters.eth, d),
                            ..old(self).counters
                        },
                        ..*old(self)
                    })
                },
                None => if ethertype_of(frame@) == ETHERTYPE_ARP {
                    &&& is_arp_answer(
                        frame_payload(frame@),
                        old(self).our_mac,
                        old(self).cfg.local_ip,
                        r,
                    )
                    &&& *final(self) == (Engine {
                        counters: Counters {
                            eth: EthCounters {
                                rx_arp: old(self).counters.eth.rx_arp.wrapping_add(1),
                                ..old(self).counters.eth
                            },
                            ..old(self).counters
                        },
                        ..*old(self)
                    })
                } else {
                    ipv4_handled(
                        *old(self),
                        *final(self),
                        frame_payload(frame@),
                        ol_flags,
                        ETH_HDR_LEN,
                        r,
                    )
                },
            },
    {
        match l2_decode(frame, self.our_mac) {
            Err(d) => {
                inc_if(&mut self.counters.eth.rx_drop_short, d == L2Drop::Short);
                inc_if(&mut self.counters.eth.rx_drop_miss_mac, d == L2Drop::MissMac);
                inc_if(
                    &mut self.counters.eth.rx_drop_unknown_ethertype,
                    d == L2Drop::UnknownEthertype,
                );
                RxStep::Done
            },
            Ok(l2) => {
                let payload = slice_subrange(frame, ETH_HDR_LEN, frame.len());
                if l2.ethertype == ETHERTYPE_ARP {
                    inc(&mut self.counters.eth.rx_arp);
                    self.handle_arp(payload)
                } else {
                    self.handle_ipv4(payload, ol_flags, ETH_HDR_LEN)
                }
            },
        }
    }

    /// The answer to an address packet.
    pub fn handle_arp(&self, payload: &[u8]) -> (r: RxStep)
        ensures
            is_arp_answer(payload@, self.our_mac, self.cfg.local_ip, r),
    {
        let pkt: ArpPacket = match arp_decode(payload) {
            Ok(p) => p,
            Err(_) => {
                return RxStep::Done;
            },
        };
        proof {
            assert forall|q: ArpPacket| #[trigger] carries(payload@, q) implies q == pkt by {
                lemma_carries_once(payload@, q, pkt);
            }
        }
        if pkt.op == ARP_OP_REQUEST && pkt.target_ip == self.cfg.local_ip && self.cfg.local_ip
            != 0 {
            let mut buf: Vec<u8> = vec![0; 60];
            let _ = build_arp_reply(self.our_mac, self.cfg.local_ip, &pkt, buf.as_mut_slice());
            assert(buf@ =~= arp_frame(
                pkt.sender_mac,
                self.our_mac,
                reply_packet(self.our_mac, self.cfg.local_ip, pkt),
            ));
            RxStep::ArpReply(buf)
        } else {
            RxStep::Done
        }
    }

    /// Counts an answer to an address request that was sent.
    pub fn arp_reply_sent(&mut self)
        ensures
            *final(self) == (Engine {
                counters: Counters {
                    eth: EthCounters {
                        tx_arp: old(self).counters.eth.tx_arp.wrapping_add(1),
                        ..old(self).counters.eth
                    },
                    ..old(self).counters
                },
                ..*old(self)
            }),
    {
        inc(&mut self.counters.eth.tx_arp);
    }

    /// Takes a packet that begins at `offset` of its frame as far as its
    /// transport layer.
    pub fn handle_ipv4(&mut self, payload: &[u8], ol_flags: u64, offset: usize) -> (r: RxStep)
        requires
            offset + payload@.len() <= usize::MAX,
        ensures
            ipv4_handled(*old(self), *final(self), payload@, ol_flags, offset, r),
    {
        match ip_decode_offload_aware(
            payload,
            self.cfg.local_ip,
            ol_flags,
            self.rx_cksum_offload_active,
            &mut self.counters,
        ) {
            Err(d) => {
                let counted: bool = self.rx_cksum_offload_active && classify_ip_rx_cksum(ol_flags)
                    == CksumOutcome::Bad;
                if !counted {
                    self.count_packet_drop(d);
                }
                RxStep::Done
            },
            Ok(ip) => {
                proof {
                    crate::l3_ip::law_ip_payload_in_packet(payload@, self.cfg.local_ip, false);
                    crate::l3_ip::law_ip_payload_in_packet(payload@, self.cfg.local_ip, true);
                }
                assert(payload.len() == payload@.len());
                if ip.protocol == IPPROTO_TCP {
                    inc(&mut self.counters.ip.rx_tcp);
                    RxStep::Tcp {
                        ip,
                        tcp_start: offset + ip.header_len,
                        tcp_end: offset + ip.total_len,
                    }
                } else {
                    inc(&mut self.counters.ip.rx_icmp);
                    RxStep::Icmp { start: offset + ip.header_len, end: offset + ip.total_len }
                }
            },
        }
    }

    fn count_packet_drop(&mut self, d: L3Drop)
        ensures
            *final(self) == (Engine {
                counters: Counters {
                    ip: counted_packet_drop(old(self).counters.ip, d),
                    ..old(self).counters
                },
                ..*old(self)
            }),
    {
        inc_if(
            &mut self.counters.ip.rx_drop_short,
            d == L3Drop::Short || d == L3Drop::BadTotalLen,
        );
        inc_if(&mut self.counters.ip.rx_drop_bad_version, d == L3Drop::BadVersion);
        inc_if(&mut self.counters.ip.rx_drop_bad_hl, d == L3Drop::BadHeaderLen);
        inc_if(&mut self.counters.ip.rx_csum_bad, d == L3Drop::CsumBad);
        inc_if(&mut self.counters.ip.rx_ttl_zero, d == L3Drop::TtlZero);
        inc_if(&mut self.counters.ip.rx_frag, d == L3Drop::Fragment);
        inc_if(&mut self.counters.ip.rx_drop_not_ours, d == L3Drop::NotOurs);
        inc_if(
            &mut self.counters.ip.rx_drop_unsupported_proto,
            d == L3Drop::UnsupportedProto,
        );
    }

    /// Counts what an ICMP message led to.
    pub fn icmp_done(&mut self, res: IcmpResult)
        ensures
            *final(self) == (Engine {
                counters: Counters {
                    ip: IpCounters {
                        rx_icmp_frag_needed: bumped(
                            old(self).counters.ip.rx_icmp_frag_needed,
                            res == IcmpResult::FragNeededPmtuUpdated || res
                                == IcmpResult::FragNeededNoShrink,
                        ),
                        pmtud_updates: bumped(
                            old(self).counters.ip.pmtud_updates,
                            res == IcmpResult::FragNeededPmtuUpdated,
                        ),
                        ..old(self).counters.ip
                    },
                    ..old(self).counters
                },
                ..*old(self)
            }),
    {
        inc_if(
            &mut self.counters.ip.rx_icmp_frag_needed,
            res == IcmpResult::FragNeededPmtuUpdated || res == IcmpResult::FragNeededNoShrink,
        );
        inc_if(
            &mut self.counters.ip.pmtud_updates,
            res == IcmpResult::FragNeededPmtuUpdated,
        );
    }

    /// Decides how a segment's checksum is taken; one that the port found
    /// wrong is counted.
    pub fn checksum_gate(&mut self, ol_flags: u64) -> (r: ChecksumGate)
        ensures
            r == (if !old(self).rx_cksum_offload_active {
                ChecksumGate::Verify
            } else {
                match l4_verdict(ol_flags) {
                    CksumOutcome::Good => ChecksumGate::Trust,
                    CksumOutcome::Bad => ChecksumGate::Drop,
                    _ => ChecksumGate::Verify,
                }
            }),
            *final(self) == (Engine {
                counters: Counters {
                    eth: EthCounters {
                        rx_drop_cksum_bad: bumped(
                            old(self).counters.eth.rx_drop_cksum_bad,
                            r == ChecksumGate::Drop,
                        ),
                        ..old(self).counters.eth
                    },
                    tcp: TcpCounters {
                        rx_bad_csum: bumped(
                            old(self).counters.tcp.rx_bad_csum,
                            r == ChecksumGate::Drop,
                        ),
                        ..old(self).counters.tcp
                    },
                    ..old(self).counters
                },
                ..*old(self)
            }),
    {
        if !self.rx_cksum_offload_active {
            return ChecksumGate::Verify;
        }
        match classify_l4_rx_cksum(ol_flags) {
            CksumOutcome::Good => ChecksumGate::Trust,
            CksumOutcome::Bad => {
                inc(&mut self.counters.eth.rx_drop_cksum_bad);
                inc(&mut self.counters.tcp.rx_bad_csum);
                ChecksumGate::Drop
            },
            _ => ChecksumGate::Verify,
        }
    }

    /// Counts a segment that could not be read.
    pub fn segment_unreadable(&mut self, e: TcpParseError)
        ensures
            *final(self) == (Engine {
                counters: Counters {
                    tcp: TcpCounters {
                        rx_short: bumped(
                            old(self).counters.tcp.rx_short,
                            e == TcpParseError::Short || e == TcpParseError::BadDataOffset,
                        ),
                        rx_bad_flags: bumped(
                            old(self).counters.tcp.rx_bad_flags,
                            e == TcpParseError::BadFlags,
                        ),
                        rx_bad_csum: bumped(
                            old(self).counters.tcp.rx_bad_csum,
                            e == TcpParseError::Csum,
                        ),
                        ..old(self).counters.tcp
                    },
                    ..old(self).counters
                },
                ..*old(self)
            }),
    {
        inc_if(
            &mut self.counters.tcp.rx_short,
            e == TcpParseError::Short || e == TcpParseError::BadDataOffset,
        );
        inc_if(&mut self.counters.tcp.rx_bad_flags, e == TcpParseError::BadFlags);
        inc_if(&mut self.counters.tcp.rx_bad_csum, e == TcpParseError::Csum);
    }

    /// The slot that listens at an address.
    pub fn match_listen_slot(&self, dst_ip: u32, dst_port: u16) -> (r: Option<ListenHandle>)
        ensures
            is_listener(*self, dst_ip, dst_port, r),
    {
        let mut i: usize = 0;
        while i < self.listen_slots.len()
            invariant
                i <= self.listen_slots@.len(),
                forall|k: int| 0 <= k < i ==> !#[trigger] slot_at(*self, dst_ip, dst_port, k),
            decreases self.listen_slots@.len() - i,
        {
            let (h, s) = self.listen_slots[i];
            if s.local_ip == dst_ip && s.local_port == dst_port {
                assert(slot_at(*self, dst_ip, dst_port, i as int));
                return Some(h);
            }
            assert(!slot_at(*self, dst_ip, dst_port, i as int));
            i += 1;
        }
        None
    }

    /// Finds where a segment from `src_ip` to `dst_ip` belongs, and counts it.
    pub fn match_segment(&mut self, src_ip: u32, dst_ip: u32, parsed: &ParsedSegment) -> (r:
        SegmentTarget)
        requires
            old(self).wf(),
        ensures
            final(self).wf(),
            ({
                let t = FourTuple {
                    local_ip: dst_ip,
                    local_port: parsed.dst_port,
                    peer_ip: src_ip,
                    peer_port: parsed.src_port,
                };
                let may_listen = old(self).features.test_server && is_opening(parsed.flags);
                match r {
                    SegmentTarget::Conn(h) => {
                        &&& is_match(*old(self), t, h)
                        &&& *final(self) == (Engine {
                            counters: Counters {
                                tcp: counted_segment(old(self).counters.tcp, *parsed),
                                ..old(self).counters
                            },
                            ..*old(self)
                        })
                    },
                    SegmentTarget::Listener(l) => {
                        &&& unmatched(*old(self), t)
                        &&& may_listen
                        &&& is_listener(*old(self), dst_ip, parsed.dst_port, Some(l))
                        &&& *final(self) == (Engine {
                            counters: Counters {
                                tcp: TcpCounters {
                                    rx_syn_ack: old(self).counters.tcp.rx_syn_ack.wrapping_add(1),
                                    ..old(self).counters.tcp
                                },
                                ..old(self).counters
                            },
                            ..*old(self)
                        })
                    },
                    SegmentTarget::Nobody => {
                        &&& unmatched(*old(self), t)
                        &&& !may_listen || is_listener(*old(self), dst_ip, parsed.dst_port, None)
                        &&& *final(self) == (Engine {
                            counters: Counters {
                                tcp: TcpCounters {
                                    rx_unmatched: old(self).counters.tcp.rx_unmatched.wrapping_add(
                                        1,
                                    ),
                                    ..old(self).counters.tcp
                                },
                                ..old(self).counters
                            },
                            ..*old(self)
                        })
                    },
                }
            }),
    {
        let tuple = tuple_from_segment(src_ip, dst_ip, parsed);
        let ack: bool = parsed.flags & TCP_ACK != 0;
        let syn: bool = parsed.flags & TCP_SYN != 0;
        let fin: bool = parsed.flags & TCP_FIN != 0;
        let rst: bool = parsed.flags & TCP_RST != 0;
        match self.flow_table.lookup(&tuple) {
            Some(h) => {
                assert(is_match(*self, tuple, h)) by {
                    assert forall|k: ConnHandle| #[trigger] self.has(k) && k < h implies self.conn(
                        k,
                    ).four_tuple != tuple by {
                        assert(self.flow_table@.contains_key(k));
                    }
                }
                inc_if(&mut self.counters.tcp.rx_syn_ack, syn && ack);
                inc_if(&mut self.counters.tcp.rx_ack, ack);
                inc_if(&mut self.counters.tcp.rx_fin, fin);
                inc_if(&mut self.counters.tcp.rx_rst, rst);
                inc_if(&mut self.counters.tcp.rx_data, parsed.payload_len > 0);
                SegmentTarget::Conn(h)
            },
            None => {
                assert(unmatched(*self, tuple)) by {
                    assert forall|k: ConnHandle| #[trigger] self.has(k) implies self.conn(
                        k,
                    ).four_tuple != tuple by {
                        assert(self.flow_table@.contains_key(k));
                    }
                }
                if self.features.test_server && syn && !ack {
                    if let Some(l) = self.match_listen_slot(dst_ip, parsed.dst_port) {
                        inc(&mut self.counters.tcp.rx_syn_ack);
                        return SegmentTarget::Listener(l);
                    }
                }
                inc(&mut self.counters.tcp.rx_unmatched);
                SegmentTarget::Nobody
            },
        }
    }
}

/// A payload holds one packet.
proof fn lemma_carries_once(p: Seq<u8>, a: ArpPacket, b: ArpPacket)
    requires
        carries(p, a),
        carries(p, b),
    ensures
        a == b,
{
    assert(a.sender_mac@ == b.sender_mac@);
    assert(a.target_mac@ == b.target_mac@);
    assert forall|i: int| 0 <= i < 6 implies a.sender_mac[i] == b.sender_mac[i] by {
        assert(a.sender_mac@[i] == b.sender_mac@[i]);
    }
    assert forall|i: int| 0 <= i < 6 implies a.target_mac[i] == b.target_mac[i] by {
        assert(a.target_mac@[i] == b.target_mac@[i]);
    }
    assert(a.sender_mac =~= b.sender_mac);
    assert(a.target_mac =~= b.target_mac);
}

/// What becomes of a packet that begins at `offset` of its frame. A packet
/// that the port found wrong is counted when it is decoded, every other one
/// that is dropped when it is dropped: each once.
pub open spec fn ipv4_handled(
    a: Engine,
    b: Engine,
    payload: Seq<u8>,
    ol_flags: u64,
    offset: usize,
    r: RxStep,
) -> bool {
    let c = counted_offload(a.counters, ol_flags, a.rx_cksum_offload_active);
    match ip_decoded_offload(payload, a.cfg.local_ip, ol_flags, a.rx_cksum_offload_active) {
        Err(d) => {
            &&& r == RxStep::Done
            &&& b == (Engine {
                counters: if nic_rejects(ol_flags, a.rx_cksum_offload_active) {
                    c
                } else {
                    Counters { ip: counted_packet_drop(c.ip, d), ..c }
                },
                ..a
            })
        },
        Ok(ip) => if ip.protocol == IPPROTO_TCP {
            &&& r matches RxStep::Tcp { ip: i, tcp_start, tcp_end } && i == ip && tcp_start
                == offset + ip.header_len && tcp_end == offset + ip.total_len
            &&& b == (Engine {
                counters: Counters {
                    ip: IpCounters { rx_tcp: c.ip.rx_tcp.wrapping_add(1), ..c.ip },
                    ..c
                },
                ..a
            })
        } else {
            &&& r matches RxStep::Icmp { start, end } && start == offset + ip.header_len && end
                == offset + ip.total_len
            &&& b == (Engine {
                counters: Counters {
                    ip: IpCounters { rx_icmp: c.ip.rx_icmp.wrapping_add(1), ..c.ip },
                    ..c
                },
                ..a
            })
        },
    }
}

/// A packet that is dropped for its checksum is counted as such once, whoever
/// found the checksum wrong; it is counted as rejected by the port only where
/// the port did.
pub proof fn law_bad_checksum_counted_once(
    a: Engine,
    b: Engine,
    payload: Seq<u8>,
    ol_flags: u64,
    offset: usize,
    r: RxStep,
)
    requires
        ipv4_handled(a, b, payload, ol_flags, offset, r),
        ip_decoded_offload(payload, a.cfg.local_ip, ol_flags, a.rx_cksum_offload_active) == Err::<
            L3Decoded,
            L3Drop,
        >(L3Drop::CsumBad),
    ensures
        r == RxStep::Done,
        b.counters.ip.rx_csum_bad == a.counters.ip.rx_csum_bad.wrapping_add(1),
        b.counters.eth.rx_drop_cksum_bad == bumped(
            a.counters.eth.rx_drop_cksum_bad,
            nic_rejects(ol_flags, a.rx_cksum_offload_active),
        ),
        b == (Engine {
            counters: Counters {
                eth: EthCounters {
                    rx_drop_cksum_bad: b.counters.eth.rx_drop_cksum_bad,
                    ..a.counters.eth
                },
                ip: IpCounters { rx_csum_bad: b.counters.ip.rx_csum_bad, ..a.counters.ip },
                ..a.counters
            },
            ..a
        }),
{
}

/// Where a segment's payload lies in the buffer of its frame, for a segment
/// that has any; the headers in front are counted up to what 16 bits hold.
pub fn mbuf_insert_ctx(
    rx_mbuf: Option<Mbuf>,
    tcp_start: u16,
    parsed: &ParsedSegment,
) -> (r: Option<MbufInsertCtx>)
    ensures
        r == (match rx_mbuf {
            Some(m) => if parsed.payload_len > 0 {
                Some(
                    MbufInsertCtx {
                        mbuf: m,
                        payload_offset: tcp_start.saturating_add(parsed.header_len),
                    },
                )
            } else {
                None
            },
            None => None,
        }),
{
    match rx_mbuf {
        Some(m) => {
            if parsed.payload_len > 0 {
                Some(
                    MbufInsertCtx {
                        mbuf: m,
                        payload_offset: tcp_start.saturating_add(parsed.header_len),
                    },
                )
            } else {
                None
            }
        },
        None => None,
    }
}

} // verus!
