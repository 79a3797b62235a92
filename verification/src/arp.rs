//! Address resolution with a static gateway.
use vstd::prelude::*;

use crate::bytes::{be16, be16_of, be32, be32_of, u16_byte, u16_bytes, u32_byte, u32_bytes};
use crate::error::Error;
use crate::l2::{ethertype_of, mac_at, BROADCAST_MAC, ETHERTYPE_ARP};
use crate::text::{
    chars_eq, chars_of, fields_of, number_in, parse_number, parts_of, piece, split_at_sep,
    split_fields, texts,
};

verus! {

pub const ARP_HDR_LEN: usize = 28;

/// Padding behind the packet, up to the shortest Ethernet frame.
pub const ARP_PAD_LEN: usize = 18;

pub const ARP_FRAME_LEN: usize = 60;

pub const ARP_HTYPE_ETH: u16 = 1;

pub const ARP_PTYPE_IPV4: u16 = 0x0800;

pub const ARP_OP_REQUEST: u16 = 1;

pub const ARP_OP_REPLY: u16 = 2;

/// A decoded packet; addresses in host byte order.
#[derive(Debug, Clone, Copy, PartialEq, Eq)]
pub struct ArpPacket {
    pub op: u16,
    pub sender_mac: [u8; 6],
    pub sender_ip: u32,
    pub target_mac: [u8; 6],
    pub target_ip: u32,
}

/// Why a packet is dropped.
#[derive(Debug, Clone, Copy, PartialEq, Eq, Structural)]
pub enum ArpDrop {
    Short,
    UnsupportedHardware,
    UnsupportedProtocol,
    UnsupportedOp,
}

/// The reason to drop a packet, if there is one.
pub open spec fn arp_drop(p: Seq<u8>) -> Option<ArpDrop> {
    if p.len() < ARP_HDR_LEN {
        Some(ArpDrop::Short)
    } else if be16_of(p[0], p[1]) != ARP_HTYPE_ETH || p[4] != 6 {
        Some(ArpDrop::UnsupportedHardware)
    } else if be16_of(p[2], p[3]) != ARP_PTYPE_IPV4 || p[5] != 4 {
        Some(ArpDrop::UnsupportedProtocol)
    } else if be16_of(p[6], p[7]) != ARP_OP_REQUEST && be16_of(p[6], p[7]) != ARP_OP_REPLY {
        Some(ArpDrop::UnsupportedOp)
    } else {
        None
    }
}

/// The bytes `p` carry the packet `d`.
pub open spec fn carries(p: Seq<u8>, d: ArpPacket) -> bool {
    &&& d.op == be16_of(p[6], p[7])
    &&& mac_at(p, 8, d.sender_mac)
    &&& d.sender_ip == be32_of(p[14], p[15], p[16], p[17])
    &&& mac_at(p, 18, d.target_mac)
    &&& d.target_ip == be32_of(p[24], p[25], p[26], p[27])
}

fn mac_from(p: &[u8], at: usize) -> (r: [u8; 6])
    requires
        at + 6 <= p@.len(),
    ensures
        mac_at(p@, at as int, r),
{
    assert(p.len() == p@.len());
    let r: [u8; 6] = [p[at], p[at + 1], p[at + 2], p[at + 3], p[at + 4], p[at + 5]];
    assert(r@ =~= p@.subrange(at as int, at + 6));
    r
}

/// Decodes the packet that a frame's payload begins with.
pub fn arp_decode(eth_payload: &[u8]) -> (r: Result<ArpPacket, ArpDrop>)
    ensures
        match r {
            Ok(d) => arp_drop(eth_payload@) is None && carries(eth_payload@, d),
            Err(e) => arp_drop(eth_payload@) == Some(e),
        },
{
    if eth_payload.len() < ARP_HDR_LEN {
        return Err(ArpDrop::Short);
    }
    let htype: u16 = be16(eth_payload[0], eth_payload[1]);
    let ptype: u16 = be16(eth_payload[2], eth_payload[3]);
    let hlen: u8 = eth_payload[4];
    let plen: u8 = eth_payload[5];
    if htype != ARP_HTYPE_ETH || hlen != 6 {
        return Err(ArpDrop::UnsupportedHardware);
    }
    if ptype != ARP_PTYPE_IPV4 || plen != 4 {
        return Err(ArpDrop::UnsupportedProtocol);
    }
    let op: u16 = be16(eth_payload[6], eth_payload[7]);
    if op != ARP_OP_REQUEST && op != ARP_OP_REPLY {
        return Err(ArpDrop::UnsupportedOp);
    }
    let sender_mac: [u8; 6] = mac_from(eth_payload, 8);
    let sender_ip: u32 = be32(eth_payload[14], eth_payload[15], eth_payload[16], eth_payload[17]);
    let target_mac: [u8; 6] = mac_from(eth_payload, 18);
    let target_ip: u32 = be32(eth_payload[24], eth_payload[25], eth_payload[26], eth_payload[27]);
    Ok(ArpPacket { op, sender_mac, sender_ip, target_mac, target_ip })
}

/// What to do about a packet.
#[derive(Debug, Clone, Copy, PartialEq, Eq)]
pub enum ArpAction {
    /// Nothing.
    Ignore,
    /// Answer it: it asks for our address.
    SendReply,
    /// Remember the gateway's hardware address.
    UpdateGatewayMac([u8; 6]),
}

/// What a packet calls for: a request for our address is answered; a reply by
/// the gateway, or its announcement of itself, tells its hardware address.
/// Address 0 is nobody's.
pub open spec fn arp_action(pkt: ArpPacket, local_ip: u32, gateway_ip: u32) -> ArpAction {
    if pkt.op == ARP_OP_REQUEST && local_ip != 0 && pkt.target_ip == local_ip {
        ArpAction::SendReply
    } else if gateway_ip != 0 && pkt.sender_ip == gateway_ip && (pkt.op == ARP_OP_REPLY || (pkt.op
        == ARP_OP_REQUEST && pkt.target_ip == gateway_ip)) {
        ArpAction::UpdateGatewayMac(pkt.sender_mac)
    } else {
        ArpAction::Ignore
    }
}

/// Decides what to do about a packet.
pub fn classify_arp(pkt: &ArpPacket, local_ip: u32, gateway_ip: u32) -> (r: ArpAction)
    ensures
        r == arp_action(*pkt, local_ip, gateway_ip),
{
    if pkt.op == ARP_OP_REQUEST && local_ip != 0 && pkt.target_ip == local_ip {
        return ArpAction::SendReply;
    }
    if gateway_ip != 0 && pkt.sender_ip == gateway_ip {
        let is_reply: bool = pkt.op == ARP_OP_REPLY;
        let is_gratuitous: bool = pkt.op == ARP_OP_REQUEST && pkt.target_ip == gateway_ip;
        if is_reply || is_gratuitous {
            return ArpAction::UpdateGatewayMac(pkt.sender_mac);
        }
    }
    ArpAction::Ignore
}

/// The bytes of a 16-bit number.
pub open spec fn seq16(x: u16) -> Seq<u8> {
    seq![u16_byte(x, 0), u16_byte(x, 1)]
}

/// The bytes of a 32-bit number.
pub open spec fn seq32(x: u32) -> Seq<u8> {
    seq![u32_byte(x, 0), u32_byte(x, 1), u32_byte(x, 2), u32_byte(x, 3)]
}

/// The frame that carries a packet from `src` to `dst`, padded to the shortest
/// Ethernet frame.
pub open spec fn arp_frame(dst: [u8; 6], src: [u8; 6], pkt: ArpPacket) -> Seq<u8> {
    dst@ + src@ + seq16(ETHERTYPE_ARP) + seq16(ARP_HTYPE_ETH) + seq16(ARP_PTYPE_IPV4) + seq![
        6u8,
        4u8,
    ] + seq16(pkt.op) + pkt.sender_mac@ + seq32(pkt.sender_ip) + pkt.target_mac@ + seq32(
        pkt.target_ip,
    ) + Seq::new(18, |i: int| 0u8)
}

/// What is in front of `out` once `frame` was written there.
pub open spec fn written_over(out: Seq<u8>, frame: Seq<u8>) -> Seq<u8> {
    frame + out.subrange(frame.len() as int, out.len() as int)
}

fn write_arp_body(dst: [u8; 6], src: [u8; 6], pkt: &ArpPacket, out: &mut [u8])
    requires
        old(out)@.len() >= ARP_FRAME_LEN,
    ensures
        final(out)@ == written_over(old(out)@, arp_frame(dst, src, *pkt)),
        arp_frame(dst, src, *pkt).len() == ARP_FRAME_LEN,
{
    let op: [u8; 2] = u16_bytes(pkt.op);
    let sip: [u8; 4] = u32_bytes(pkt.sender_ip);
    let tip: [u8; 4] = u32_bytes(pkt.target_ip);
    let sm: [u8; 6] = pkt.sender_mac;
    let tm: [u8; 6] = pkt.target_mac;
    let f: [u8; 60] = [
        dst[0],
        dst[1],
        dst[2],
        dst[3],
        dst[4],
        dst[5],
        src[0],
        src[1],
        src[2],
        src[3],
        src[4],
        src[5],
        0x08,
        0x06,
        0,
        1,
        0x08,
        0,
        6,
        4,
        op[0],
        op[1],
        sm[0],
        sm[1],
        sm[2],
        sm[3],
        sm[4],
        sm[5],
        sip[0],
        sip[1],
        sip[2],
        sip[3],
        tm[0],
        tm[1],
        tm[2],
        tm[3],
        tm[4],
        tm[5],
        tip[0],
        tip[1],
        tip[2],
        tip[3],
        0,
        0,
        0,
        0,
        0,
        0,
        0,
        0,
        0,
        0,
        0,
        0,
        0,
        0,
        0,
        0,
        0,
        0,
    ];
    assert(f@ =~= arp_frame(dst, src, *pkt));
    let mut i: usize = 0;
    let ghost o = out@;
    while i < 60
        invariant
            i <= 60,
            out@.len() == o.len(),
            o.len() >= 60,
            forall|k: int| 0 <= k < i ==> #[trigger] out@[k] == f@[k],
            forall|k: int| i <= k < o.len() ==> #[trigger] out@[k] == o[k],
        decreases 60 - i,
    {
        out[i] = f[i];
        i += 1;
    }
    assert(out@ =~= written_over(o, f@));
}

/// The answer to a request.
pub open spec fn reply_packet(our_mac: [u8; 6], our_ip: u32, request: ArpPacket) -> ArpPacket {
    ArpPacket {
        op: ARP_OP_REPLY,
        sender_mac: our_mac,
        sender_ip: our_ip,
        target_mac: request.sender_mac,
        target_ip: request.sender_ip,
    }
}

/// A request for an address, the hardware address still unknown.
pub open spec fn is_request_packet(
    p: ArpPacket,
    our_mac: [u8; 6],
    our_ip: u32,
    target_ip: u32,
) -> bool {
    &&& p.op == ARP_OP_REQUEST
    &&& p.sender_mac == our_mac
    &&& p.sender_ip == our_ip
    &&& p.target_mac@ == Seq::new(6, |i: int| 0u8)
    &&& p.target_ip == target_ip
}

/// Builds the frame that answers a request, in front of `out`; nothing is
/// written where it does not fit.
pub fn build_arp_reply(
    our_mac: [u8; 6],
    our_ip: u32,
    request: &ArpPacket,
    out: &mut [u8],
) -> (r: Option<usize>)
    ensures
        r == (if old(out)@.len() < ARP_FRAME_LEN {
            None
        } else {
            Some(ARP_FRAME_LEN)
        }),
        r is None ==> final(out)@ == old(out)@,
        r is Some ==> final(out)@ == written_over(
            old(out)@,
            arp_frame(request.sender_mac, our_mac, reply_packet(our_mac, our_ip, *request)),
        ),
{
    if out.len() < ARP_FRAME_LEN {
        return None;
    }
    let pkt = ArpPacket {
        op: ARP_OP_REPLY,
        sender_mac: our_mac,
        sender_ip: our_ip,
        target_mac: request.sender_mac,
        target_ip: request.sender_ip,
    };
    write_arp_body(request.sender_mac, our_mac, &pkt, out);
    Some(ARP_FRAME_LEN)
}

/// Builds a frame that asks everyone for `target_ip`'s hardware address.
pub fn build_arp_request(
    our_mac: [u8; 6],
    our_ip: u32,
    target_ip: u32,
    out: &mut [u8],
) -> (r: Option<usize>)
    ensures
        r == (if old(out)@.len() < ARP_FRAME_LEN {
            None
        } else {
            Some(ARP_FRAME_LEN)
        }),
        r is None ==> final(out)@ == old(out)@,
        r is Some ==> exists|p: ArpPacket|
            {
                &&& #[trigger] is_request_packet(p, our_mac, our_ip, target_ip)
                &&& final(out)@ == written_over(old(out)@, arp_frame(BROADCAST_MAC, our_mac, p))
            },
{
    if out.len() < ARP_FRAME_LEN {
        return None;
    }
    let pkt = ArpPacket {
        op: ARP_OP_REQUEST,
        sender_mac: our_mac,
        sender_ip: our_ip,
        target_mac: [0; 6],
        target_ip,
    };
    write_arp_body(BROADCAST_MAC, our_mac, &pkt, out);
    proof {
        assert(pkt.target_mac@ =~= Seq::new(6, |i: int| 0u8));
        assert(is_request_packet(pkt, our_mac, our_ip, target_ip));
    }
    Some(ARP_FRAME_LEN)
}

/// Builds a frame that announces our own address to everyone: a request for
/// it.
pub fn build_gratuitous_arp(our_mac: [u8; 6], our_ip: u32, out: &mut [u8]) -> (r: Option<usize>)
    ensures
        r == (if old(out)@.len() < ARP_FRAME_LEN {
            None
        } else {
            Some(ARP_FRAME_LEN)
        }),
        r is None ==> final(out)@ == old(out)@,
        r is Some ==> exists|p: ArpPacket|
            {
                &&& #[trigger] is_request_packet(p, our_mac, our_ip, our_ip)
                &&& final(out)@ == written_over(old(out)@, arp_frame(BROADCAST_MAC, our_mac, p))
            },
{
    build_arp_request(our_mac, our_ip, our_ip, out)
}

/// A frame that was built is read back as the packet it was built for.
pub proof fn law_arp_round_trip(dst: [u8; 6], src: [u8; 6], pkt: ArpPacket)
    requires
        pkt.op == ARP_OP_REQUEST || pkt.op == ARP_OP_REPLY,
    ensures
        ({
            let f = arp_frame(dst, src, pkt);
            &&& f.len() == ARP_FRAME_LEN
            &&& ethertype_of(f) == ETHERTYPE_ARP
            &&& mac_at(f, 0, dst)
            &&& mac_at(f, 6, src)
            &&& arp_drop(f.subrange(14, 60)) is None
            &&& carries(f.subrange(14, 60), pkt)
        }),
{
    let f = arp_frame(dst, src, pkt);
    let p = f.subrange(14, 60);
    assert(dst@ =~= f.subrange(0, 6));
    assert(src@ =~= f.subrange(6, 12));
    assert(pkt.sender_mac@ =~= p.subrange(8, 14));
    assert(pkt.target_mac@ =~= p.subrange(18, 24));
    assert(p[6] == u16_byte(pkt.op, 0) && p[7] == u16_byte(pkt.op, 1));
}

/// What we send in answer to a request tells the one who asked our hardware
/// address: read back there, it is a reply by the address asked for.
pub proof fn law_reply_answers(our_mac: [u8; 6], request: ArpPacket, asker_ip: u32)
    requires
        request.sender_ip == asker_ip,
        request.target_ip != 0,
        asker_ip != 0,
    ensures
        arp_action(
            reply_packet(our_mac, request.target_ip, request),
            asker_ip,
            request.target_ip,
        ) == ArpAction::UpdateGatewayMac(our_mac),
{
}

/// One line of the kernel's neighbour table, as fields: the address and the
/// hardware address of a complete entry.
pub open spec fn arp_line_entry(f: Seq<Seq<char>>) -> Option<(u32, Seq<int>)> {
    if f.len() < 4 || f[2].len() < 2 || f[2][0] != '0' || f[2][1] != 'x' {
        None
    } else {
        let flags = number_in(f[2].subrange(2, f[2].len() as int), 16, u32::MAX as int);
        let ip = dotted_quad(f[0]);
        let mac = colon_bytes(f[3]);
        if flags is Some && (flags->0 / 2) % 2 == 1 && ip is Some && mac is Some {
            Some((ip->0, mac->0))
        } else {
            None
        }
    }
}

/// The address that four decimal bytes between dots stand for; what follows
/// the fourth is passed over.
pub open spec fn dotted_quad(s: Seq<char>) -> Option<u32> {
    let o = parts_of(s, '.');
    if o.len() >= 4 && number_in(o[0], 10, 255) is Some && number_in(o[1], 10, 255) is Some
        && number_in(o[2], 10, 255) is Some && number_in(o[3], 10, 255) is Some {
        Some(
            be32_of(
                number_in(o[0], 10, 255)->0 as u8,
                number_in(o[1], 10, 255)->0 as u8,
                number_in(o[2], 10, 255)->0 as u8,
                number_in(o[3], 10, 255)->0 as u8,
            ),
        )
    } else {
        None
    }
}

/// The six hexadecimal bytes between colons; what follows the sixth is passed
/// over.
pub open spec fn colon_bytes(s: Seq<char>) -> Option<Seq<int>> {
    let o = parts_of(s, ':');
    if o.len() >= 6 && (forall|i: int| 0 <= i < 6 ==> number_in(#[trigger] o[i], 16, 255) is Some) {
        Some(Seq::new(6, |i: int| number_in(o[i], 16, 255)->0))
    } else {
        None
    }
}

/// The bytes of a hardware address as numbers.
pub open spec fn mac_ints(m: [u8; 6]) -> Seq<int> {
    Seq::new(6, |i: int| m[i] as int)
}

fn parse_dotted_quad(s: &[char]) -> (r: Option<u32>)
    ensures
        r == dotted_quad(s@),
{
    let o: Vec<Vec<char>> = split_at_sep(s, '.');
    let ghost t = texts(o@);
    if o.len() < 4 {
        return None;
    }
    assert(t[0] == o@[0]@ && t[1] == o@[1]@ && t[2] == o@[2]@ && t[3] == o@[3]@);
    let a: u64 = match parse_number(o[0].as_slice(), 10, 255) {
        Some(v) => v,
        None => return None,
    };
    let b: u64 = match parse_number(o[1].as_slice(), 10, 255) {
        Some(v) => v,
        None => return None,
    };
    let c: u64 = match parse_number(o[2].as_slice(), 10, 255) {
        Some(v) => v,
        None => return None,
    };
    let d: u64 = match parse_number(o[3].as_slice(), 10, 255) {
        Some(v) => v,
        None => return None,
    };
    Some(be32(a as u8, b as u8, c as u8, d as u8))
}

fn parse_colon_bytes(s: &[char]) -> (r: Option<[u8; 6]>)
    ensures
        match r {
            Some(m) => colon_bytes(s@) == Some(mac_ints(m)),
            None => colon_bytes(s@) is None,
        },
{
    let o: Vec<Vec<char>> = split_at_sep(s, ':');
    let ghost t = texts(o@);
    if o.len() < 6 {
        return None;
    }
    let mut m: [u8; 6] = [0; 6];
    let mut i: usize = 0;
    while i < 6
        invariant
            i <= 6,
            o@.len() >= 6,
            t == texts(o@),
            t == parts_of(s@, ':'),
            forall|k: int| 0 <= k < i ==> number_in(#[trigger] t[k], 16, 255) == Some(m[k] as int),
        decreases 6 - i,
    {
        assert(t[i as int] == o@[i as int]@);
        match parse_number(o[i].as_slice(), 16, 255) {
            Some(v) => {
                m[i] = v as u8;
            },
            None => {
                return None;
            },
        }
        i += 1;
    }
    proof {
        assert forall|k: int| 0 <= k < 6 implies number_in(#[trigger] t[k], 16, 255) is Some by {
            assert(number_in(t[k], 16, 255) == Some(m[k] as int));
        }
        assert(Seq::new(6, |k: int| number_in(t[k], 16, 255)->0) =~= mac_ints(m));
    }
    Some(m)
}

/// Reads one line of the kernel's neighbour table. `None` for the heading and
/// for incomplete entries.
pub fn parse_proc_arp_line(line: &str) -> (r: Option<(u32, [u8; 6])>)
    ensures
        match r {
            Some(e) => arp_line_entry(fields_of(line@)) == Some((e.0, mac_ints(e.1))),
            None => arp_line_entry(fields_of(line@)) is None,
        },
{
    let cs: Vec<char> = chars_of(line);
    parse_arp_chars(cs.as_slice())
}

fn parse_arp_chars(line: &[char]) -> (r: Option<(u32, [u8; 6])>)
    ensures
        match r {
            Some(e) => arp_line_entry(fields_of(line@)) == Some((e.0, mac_ints(e.1))),
            None => arp_line_entry(fields_of(line@)) is None,
        },
{
    let f: Vec<Vec<char>> = split_fields(line);
    let ghost t = texts(f@);
    if f.len() < 4 {
        return None;
    }
    assert(t[0] == f@[0]@ && t[2] == f@[2]@ && t[3] == f@[3]@);
    if f[2].len() < 2 || f[2][0] != '0' || f[2][1] != 'x' {
        return None;
    }
    let hex: Vec<char> = piece(f[2].as_slice(), 2, f[2].len());
    let flags: u64 = match parse_number(hex.as_slice(), 16, u32::MAX as u64) {
        Some(v) => v,
        None => return None,
    };
    if (flags / 2) % 2 != 1 {
        return None;
    }
    let ip: u32 = match parse_dotted_quad(f[0].as_slice()) {
        Some(v) => v,
        None => return None,
    };
    match parse_colon_bytes(f[3].as_slice()) {
        Some(m) => Some((ip, m)),
        None => None,
    }
}

/// The entry that line `i` of a neighbour table holds for `ip`.
pub open spec fn line_gives(lines: Seq<Seq<char>>, i: int, ip: u32) -> bool {
    arp_line_entry(fields_of(lines[i])) matches Some(e) && e.0 == ip
}

/// Finds the hardware address of `ip` in the text of the kernel's neighbour
/// table: the first complete entry for it below the heading.
pub fn gateway_mac_in_table(text: &str, ip: u32) -> (r: Result<[u8; 6], Error>)
    ensures
        ({
            let lines = parts_of(text@, '\n');
            match r {
                Ok(m) => exists|i: int|
                    {
                        &&& 1 <= i < lines.len()
                        &&& #[trigger] line_gives(lines, i, ip)
                        &&& (arp_line_entry(fields_of(lines[i]))->0).1 == mac_ints(m)
                        &&& forall|j: int| 1 <= j < i ==> !#[trigger] line_gives(lines, j, ip)
                    },
                Err(e) => {
                    &&& e == Error::GatewayMacNotFound(ip)
                    &&& forall|j: int| 1 <= j < lines.len() ==> !#[trigger] line_gives(lines, j, ip)
                },
            }
        }),
{
    let cs: Vec<char> = chars_of(text);
    let lines: Vec<Vec<char>> = split_at_sep(cs.as_slice(), '\n');
    let ghost t = texts(lines@);
    let mut i: usize = 1;
    while i < lines.len()
        invariant
            1 <= i,
            t == texts(lines@),
            t == parts_of(text@, '\n'),
            forall|j: int| 1 <= j < i && j < lines@.len() ==> !#[trigger] line_gives(t, j, ip),
        decreases lines@.len() - i,
    {
        assert(t[i as int] == lines@[i as int]@);
        if let Some(e) = parse_arp_chars(lines[i].as_slice()) {
            if e.0 == ip {
                assert(line_gives(t, i as int, ip));
                return Ok(e.1);
            }
        }
        i += 1;
    }
    Err(Error::GatewayMacNotFound(ip))
}

/// The bits of a route's flags: it is up, and leads through a gateway.
pub const RTF_UP_AND_GATEWAY: u32 = 3;

/// A number with its bytes in the opposite order.
pub open spec fn bytes_swapped(x: u32) -> u32 {
    be32_of(u32_byte(x, 3), u32_byte(x, 2), u32_byte(x, 1), u32_byte(x, 0))
}

/// The gateway of one line of the kernel's route table, as fields: that of a
/// default route that is up, on the wanted interface if one is wanted.
pub open spec fn route_gateway(f: Seq<Seq<char>>, iface: Option<Seq<char>>) -> Option<u32> {
    if f.len() < 8 {
        None
    } else {
        let dest = number_in(f[1], 16, u32::MAX as int);
        let gw = number_in(f[2], 16, u32::MAX as int);
        let flags = number_in(f[3], 16, u32::MAX as int);
        let mask = number_in(f[7], 16, u32::MAX as int);
        if (iface is None || iface->0 == f[0]) && dest == Some(0int) && mask == Some(0int)
            && flags is Some && flags->0 % 4 == RTF_UP_AND_GATEWAY && gw is Some {
            Some(bytes_swapped(gw->0 as u32))
        } else {
            None
        }
    }
}

/// The wanted interface's name.
pub open spec fn filter_text(iface_filter: Option<&str>) -> Option<Seq<char>> {
    match iface_filter {
        Some(n) => Some(n@),
        None => None,
    }
}

/// Reads one line of the kernel's route table.
pub fn parse_proc_route_line(line: &str, iface_filter: Option<&str>) -> (r: Option<u32>)
    ensures
        r == route_gateway(fields_of(line@), filter_text(iface_filter)),
{
    let cs: Vec<char> = chars_of(line);
    parse_route_chars(cs.as_slice(), iface_filter)
}

fn parse_route_chars(line: &[char], iface_filter: Option<&str>) -> (r: Option<u32>)
    ensures
        r == route_gateway(fields_of(line@), filter_text(iface_filter)),
{
    let f: Vec<Vec<char>> = split_fields(line);
    let ghost t = texts(f@);
    if f.len() < 8 {
        return None;
    }
    assert(t[0] == f@[0]@ && t[1] == f@[1]@ && t[2] == f@[2]@ && t[3] == f@[3]@ && t[7]
        == f@[7]@);
    if let Some(want) = iface_filter {
        let w: Vec<char> = chars_of(want);
        if !chars_eq(f[0].as_slice(), w.as_slice()) {
            return None;
        }
    }
    let dest: u64 = match parse_number(f[1].as_slice(), 16, u32::MAX as u64) {
        Some(v) => v,
        None => return None,
    };
    let mask: u64 = match parse_number(f[7].as_slice(), 16, u32::MAX as u64) {
        Some(v) => v,
        None => return None,
    };
    let flags: u64 = match parse_number(f[3].as_slice(), 16, u32::MAX as u64) {
        Some(v) => v,
        None => return None,
    };
    if dest != 0 || mask != 0 {
        return None;
    }
    if flags % 4 != RTF_UP_AND_GATEWAY as u64 {
        return None;
    }
    let gw: u64 = match parse_number(f[2].as_slice(), 16, u32::MAX as u64) {
        Some(v) => v,
        None => return None,
    };
    let b: [u8; 4] = u32_bytes(gw as u32);
    Some(be32(b[3], b[2], b[1], b[0]))
}

/// The gateway that line `i` of a route table gives.
pub open spec fn line_gateway(
    lines: Seq<Seq<char>>,
    i: int,
    iface: Option<Seq<char>>,
) -> Option<u32> {
    route_gateway(fields_of(lines[i]), iface)
}

/// Finds the default gateway in the text of the kernel's route table: that of
/// the first line that gives one.
pub fn default_gateway_in_table(text: &str, iface_filter: Option<&str>) -> (r: Result<u32, Error>)
    ensures
        ({
            let lines = parts_of(text@, '\n');
            let want = filter_text(iface_filter);
            match r {
                Ok(gw) => exists|i: int|
                    {
                        &&& 0 <= i < lines.len()
                        &&& #[trigger] line_gateway(lines, i, want) == Some(gw)
                        &&& forall|j: int|
                            0 <= j < i ==> #[trigger] line_gateway(lines, j, want) is None
                    },
                Err(e) => {
                    &&& e matches Error::GatewayIpNotFound(f) && (match f {
                        Some(name) => want == Some(name@),
                        None => want is None,
                    })
                    &&& forall|j: int|
                        0 <= j < lines.len() ==> #[trigger] line_gateway(lines, j, want) is None
                },
            }
        }),
{
    let cs: Vec<char> = chars_of(text);
    let lines: Vec<Vec<char>> = split_at_sep(cs.as_slice(), '\n');
    let ghost t = texts(lines@);
    let ghost want = filter_text(iface_filter);
    let mut i: usize = 0;
    while i < lines.len()
        invariant
            i <= lines@.len(),
            t == texts(lines@),
            t == parts_of(text@, '\n'),
            want == filter_text(iface_filter),
            forall|j: int| 0 <= j < i ==> #[trigger] line_gateway(t, j, want) is None,
        decreases lines@.len() - i,
    {
        assert(t[i as int] == lines@[i as int]@);
        if let Some(gw) = parse_route_chars(lines[i].as_slice(), iface_filter) {
            assert(line_gateway(t, i as int, want) == Some(gw));
            return Ok(gw);
        }
        assert(line_gateway(t, i as int, want) is None);
        i += 1;
    }
    match iface_filter {
        Some(n) => Err(Error::GatewayIpNotFound(Some(n.to_owned()))),
        None => Err(Error::GatewayIpNotFound(None)),
    }
}

} // verus!
