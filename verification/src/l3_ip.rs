//! IPv4 headers and the Internet checksum.
use vstd::prelude::*;

use crate::bytes::{be16, be16_of, be32, be32_of};
use crate::counters::{inc, Counters, EthCounters, IpCounters};
use crate::dpdk_consts::{
    RTE_MBUF_F_RX_IP_CKSUM_BAD, RTE_MBUF_F_RX_IP_CKSUM_GOOD, RTE_MBUF_F_RX_IP_CKSUM_MASK,
    RTE_MBUF_F_RX_IP_CKSUM_NONE, RTE_MBUF_F_RX_L4_CKSUM_BAD, RTE_MBUF_F_RX_L4_CKSUM_GOOD,
    RTE_MBUF_F_RX_L4_CKSUM_MASK, RTE_MBUF_F_RX_L4_CKSUM_NONE,
};

verus! {

pub const IPPROTO_ICMP: u8 = 1;

pub const IPPROTO_TCP: u8 = 6;

/// A decoded IPv4 header; addresses in host byte order.
#[derive(Debug, Clone, Copy, PartialEq, Eq, Structural)]
pub struct L3Decoded {
    pub protocol: u8,
    pub src_ip: u32,
    pub dst_ip: u32,
    pub header_len: usize,
    pub total_len: usize,
    pub ttl: u8,
}

/// Why a packet is dropped.
#[derive(Debug, Clone, Copy, PartialEq, Eq, Structural)]
pub enum L3Drop {
    /// Fewer than 20 bytes.
    Short,
    /// The version is not 4.
    BadVersion,
    /// The header is too short, or longer than the packet.
    BadHeaderLen,
    /// The total length is below the header's or beyond the packet.
    BadTotalLen,
    /// The checksum does not match.
    CsumBad,
    /// The time to live is zero.
    TtlZero,
    /// A fragment.
    Fragment,
    /// Addressed to someone else.
    NotOurs,
    /// Neither TCP nor ICMP.
    UnsupportedProto,
}

/// The sum of the 16-bit words of a text, the last byte padded with zero if it
/// is alone.
pub open spec fn word_sum(s: Seq<u8>) -> nat
    decreases s.len(),
{
    if s.len() == 0 {
        0
    } else if s.len() == 1 {
        (s[0] * 256) as nat
    } else {
        (s[0] * 256 + s[1]) as nat + word_sum(s.subrange(2, s.len() as int))
    }
}

/// A sum with its carries added back in until it fits 16 bits: zero for zero,
/// else the number from 1 to 65535 that it equals modulo 65535.
pub open spec fn folded(n: nat) -> nat {
    if n == 0 {
        0
    } else {
        ((n - 1) as nat % 65535) + 1
    }
}

/// The Internet checksum: the complement of the folded sum.
pub open spec fn checksum_of(s: Seq<u8>) -> u16 {
    (65535 - folded(word_sum(s))) as u16
}

/// The pieces put together.
pub open spec fn joined(chunks: Seq<&[u8]>) -> Seq<u8>
    decreases chunks.len(),
{
    if chunks.len() == 0 {
        Seq::empty()
    } else {
        joined(chunks.drop_last()) + chunks.last()@
    }
}

/// Two more bytes behind an even number of them add one word.
pub proof fn lemma_word_sum_pair(s: Seq<u8>, a: u8, b: u8)
    requires
        s.len() % 2 == 0,
    ensures
        word_sum(s.push(a).push(b)) == word_sum(s) + (a * 256 + b),
    decreases s.len(),
{
    let t = s.push(a).push(b);
    if s.len() == 0 {
        assert(t.subrange(2, t.len() as int) =~= Seq::empty());
        assert(word_sum(t.subrange(2, t.len() as int)) == 0);
    } else {
        lemma_word_sum_pair(s.subrange(2, s.len() as int), a, b);
        assert(t.subrange(2, t.len() as int) =~= s.subrange(2, s.len() as int).push(a).push(b));
    }
}

/// One more byte behind an even number of them adds a padded word.
pub proof fn lemma_word_sum_last(s: Seq<u8>, a: u8)
    requires
        s.len() % 2 == 0,
    ensures
        word_sum(s.push(a)) == word_sum(s) + a * 256,
    decreases s.len(),
{
    let t = s.push(a);
    if s.len() > 0 {
        lemma_word_sum_last(s.subrange(2, s.len() as int), a);
        assert(t.subrange(2, t.len() as int) =~= s.subrange(2, s.len() as int).push(a));
    }
}

/// `sum` stands for `n`: equal modulo 65535, and zero together.
pub open spec fn stands_for(sum: int, n: int) -> bool {
    &&& sum % 65535 == n % 65535
    &&& (sum == 0 <==> n == 0)
}

proof fn lemma_stands_for_add(sum: int, n: int, w: int)
    requires
        stands_for(sum, n),
        0 <= sum,
        0 <= n,
        0 <= w,
    ensures
        stands_for(sum + w, n + w),
{
    vstd::arithmetic::div_mod::lemma_add_mod_noop(sum, w, 65535);
    vstd::arithmetic::div_mod::lemma_add_mod_noop(n, w, 65535);
}

proof fn lemma_stands_for_fold(sum: int)
    requires
        0 <= sum,
    ensures
        stands_for(sum % 65536 + sum / 65536, sum),
        sum >= 65536 ==> sum % 65536 + sum / 65536 < sum,
{
    let lo = sum % 65536;
    let hi = sum / 65536;
    assert(sum == hi * 65535 + (lo + hi));
    vstd::arithmetic::div_mod::lemma_mod_multiples_vanish(hi, lo + hi, 65535);
}

proof fn lemma_folded_unique(sum: int, n: int)
    requires
        0 <= sum <= 65535,
        0 <= n,
        stands_for(sum, n),
    ensures
        folded(n as nat) == sum,
{
    if n > 0 {
        vstd::arithmetic::div_mod::lemma_sub_mod_noop(sum, 1, 65535);
        vstd::arithmetic::div_mod::lemma_sub_mod_noop(n, 1, 65535);
    }
}

fn add_word(sum: u64, w: u16) -> (r: u64)
    requires
        sum <= 0x1_0000_0000,
    ensures
        r <= 0x1_0000_0000,
        stands_for(r as int, sum + w),
{
    let t: u64 = sum + w as u64;
    proof {
        lemma_stands_for_fold(t as int);
    }
    if t >= 0x1_0000_0000 {
        t % 65536 + t / 65536
    } else {
        t
    }
}

/// The Internet checksum of the pieces put together. Where a piece ends on an
/// odd byte, the next one goes on with the other half of the word.
pub fn internet_checksum(chunks: &[&[u8]]) -> (r: u16)
    ensures
        r == checksum_of(joined(chunks@)),
{
    let mut sum: u64 = 0;
    let mut carry: Option<u8> = None;
    let ghost mut whole: Seq<u8> = Seq::empty();
    let mut c: usize = 0;
    assert(chunks@.take(0) =~= Seq::empty());
    while c < chunks.len()
        invariant
            c <= chunks@.len(),
            sum <= 0x1_0000_0000,
            whole.len() % 2 == 0,
            stands_for(sum as int, word_sum(whole) as int),
            joined(chunks@.take(c as int)) == (match carry {
                Some(b) => whole.push(b),
                None => whole,
            }),
        decreases chunks@.len() - c,
    {
        let chunk: &[u8] = chunks[c];
        let ghost before = joined(chunks@.take(c as int));
        let mut i: usize = 0;
        assert(before + chunk@.take(0) =~= before);
        while i < chunk.len()
            invariant
                i <= chunk@.len(),
                sum <= 0x1_0000_0000,
                whole.len() % 2 == 0,
                stands_for(sum as int, word_sum(whole) as int),
                before + chunk@.take(i as int) == (match carry {
                    Some(b) => whole.push(b),
                    None => whole,
                }),
            decreases chunk@.len() - i,
        {
            let b: u8 = chunk[i];
            assert(before + chunk@.take(i + 1) =~= (before + chunk@.take(i as int)).push(b));
            match carry {
                Some(high) => {
                    let w: u16 = be16(high, b);
                    proof {
                        lemma_word_sum_pair(whole, high, b);
                        lemma_stands_for_add(sum as int, word_sum(whole) as int, w as int);
                        whole = whole.push(high).push(b);
                    }
                    sum = add_word(sum, w);
                    carry = None;
                },
                None => {
                    carry = Some(b);
                },
            }
            i += 1;
        }
        proof {
            assert(chunk@.take(i as int) =~= chunk@);
            assert(chunks@.take(c + 1).drop_last() =~= chunks@.take(c as int));
            assert(chunks@.take(c + 1).last() == chunk);
        }
        c += 1;
    }
    let ghost text = joined(chunks@);
    assert(chunks@.take(c as int) =~= chunks@);
    if let Some(last) = carry {
        proof {
            lemma_word_sum_last(whole, last);
            lemma_stands_for_add(sum as int, word_sum(whole) as int, last * 256);
        }
        sum = add_word(sum, be16(last, 0));
    }
    while sum >= 65536
        invariant
            stands_for(sum as int, word_sum(text) as int),
        decreases sum,
    {
        proof {
            lemma_stands_for_fold(sum as int);
        }
        sum = sum % 65536 + sum / 65536;
    }
    proof {
        lemma_folded_unique(sum as int, word_sum(text) as int);
    }
    65535 - sum as u16
}

/// How the text is cut into pieces does not matter.
pub proof fn law_checksum_of_pieces(chunks: Seq<&[u8]>, whole: &[u8])
    requires
        joined(chunks) == whole@,
    ensures
        checksum_of(joined(chunks)) == checksum_of(joined(seq![whole])),
{
    assert(joined(seq![whole]) =~= whole@) by {
        assert(seq![whole].drop_last() =~= Seq::empty());
        assert(joined(seq![whole].drop_last()) =~= Seq::<u8>::empty());
    }
}

proof fn lemma_word_sum_update(s: Seq<u8>, i: int, a: u8, b: u8)
    requires
        0 <= i,
        i % 2 == 0,
        i + 1 < s.len(),
    ensures
        word_sum(s.update(i, a).update(i + 1, b)) == word_sum(s) - (s[i] * 256 + s[i + 1]) + (a
            * 256 + b),
    decreases s.len(),
{
    let t = s.update(i, a).update(i + 1, b);
    let rest = s.subrange(2, s.len() as int);
    if i == 0 {
        assert(t.subrange(2, t.len() as int) =~= rest);
    } else {
        lemma_word_sum_update(rest, i - 2, a, b);
        assert(t.subrange(2, t.len() as int) =~= rest.update(i - 2, a).update(i - 1, b));
    }
}

/// A text that carries its own checksum, in a word that was zero when the
/// checksum was taken, has the checksum zero.
pub proof fn law_own_checksum_gives_zero(s: Seq<u8>, i: int, a: u8, b: u8)
    requires
        0 <= i,
        i % 2 == 0,
        i + 1 < s.len(),
        s[i] == 0,
        s[i + 1] == 0,
        be16_of(a, b) == checksum_of(s),
    ensures
        checksum_of(s.update(i, a).update(i + 1, b)) == 0,
{
    lemma_word_sum_update(s, i, a, b);
    let n = word_sum(s) as int;
    let c = 65535 - folded(word_sum(s)) as int;
    assert(a * 256 + b == c);
    if n > 0 {
        let q = (n - 1) / 65535;
        assert(n + c == (q + 1) * 65535);
        assert(n + c - 1 == 65535 * q + 65534);
        vstd::arithmetic::div_mod::lemma_fundamental_div_mod_converse(n + c - 1, 65535, q, 65534);
    }
    assert(folded((n + c) as nat) == 65535);
}

/// The length of an IPv4 header.
pub open spec fn header_len_of(pkt: Seq<u8>) -> int {
    (pkt[0] % 16) * 4
}

/// The header with its checksum field zeroed.
pub open spec fn header_to_sum(pkt: Seq<u8>) -> Seq<u8> {
    pkt.take(header_len_of(pkt)).update(10, 0u8).update(11, 0u8)
}

/// The header's checksum field matches the header.
pub open spec fn header_sum_ok(pkt: Seq<u8>) -> bool {
    checksum_of(header_to_sum(pkt)) == be16_of(pkt[10], pkt[11])
}

/// The packet is a fragment: more follow, or it is not the first.
pub open spec fn is_fragment(pkt: Seq<u8>) -> bool {
    let f = be16_of(pkt[6], pkt[7]);
    (f / 0x2000) % 2 == 1 || f % 0x2000 != 0
}

/// What decoding a packet yields: the first reason to drop it, if there is one.
pub open spec fn ip_decoded(pkt: Seq<u8>, our_ip: u32, nic_csum_ok: bool) -> Result<
    L3Decoded,
    L3Drop,
> {
    let hl = header_len_of(pkt);
    let tl = be16_of(pkt[2], pkt[3]);
    let dst = be32_of(pkt[16], pkt[17], pkt[18], pkt[19]);
    if pkt.len() < 20 {
        Err(L3Drop::Short)
    } else if pkt[0] / 16 != 4 {
        Err(L3Drop::BadVersion)
    } else if hl < 20 || hl > pkt.len() {
        Err(L3Drop::BadHeaderLen)
    } else if tl < hl || tl > pkt.len() {
        Err(L3Drop::BadTotalLen)
    } else if is_fragment(pkt) {
        Err(L3Drop::Fragment)
    } else if pkt[8] == 0 {
        Err(L3Drop::TtlZero)
    } else if !nic_csum_ok && !header_sum_ok(pkt) {
        Err(L3Drop::CsumBad)
    } else if our_ip != 0 && dst != our_ip {
        Err(L3Drop::NotOurs)
    } else if pkt[9] != IPPROTO_TCP && pkt[9] != IPPROTO_ICMP {
        Err(L3Drop::UnsupportedProto)
    } else {
        Ok(
            L3Decoded {
                protocol: pkt[9],
                src_ip: be32_of(pkt[12], pkt[13], pkt[14], pkt[15]),
                dst_ip: dst,
                header_len: hl as usize,
                total_len: tl as usize,
                ttl: pkt[8],
            },
        )
    }
}

fn header_checksum(pkt: &[u8], header_len: usize) -> (r: u16)
    requires
        20 <= header_len <= pkt@.len(),
        header_len == header_len_of(pkt@),
    ensures
        r == checksum_of(header_to_sum(pkt@)),
{
    let mut scratch: Vec<u8> = Vec::new();
    let mut i: usize = 0;
    while i < header_len
        invariant
            20 <= header_len <= pkt@.len(),
            i <= header_len,
            scratch@.len() == i,
            forall|k: int|
                0 <= k < i ==> #[trigger] scratch@[k] == if k == 10 || k == 11 {
                    0
                } else {
                    pkt@[k]
                },
        decreases header_len - i,
    {
        if i == 10 || i == 11 {
            scratch.push(0);
        } else {
            scratch.push(pkt[i]);
        }
        i += 1;
    }
    assert(scratch@ =~= header_to_sum(pkt@));
    let piece: &[u8] = scratch.as_slice();
    let pieces: [&[u8]; 1] = [piece];
    proof {
        let s = pieces@;
        assert(s.drop_last() =~= Seq::empty());
        assert(joined(s.drop_last()) =~= Seq::<u8>::empty());
        assert(joined(s) =~= piece@);
    }
    internet_checksum(&pieces)
}

/// Decodes an IPv4 packet. With `our_ip` 0 every destination is accepted; with
/// `nic_csum_ok` the header checksum is taken as verified.
pub fn ip_decode(pkt: &[u8], our_ip: u32, nic_csum_ok: bool) -> (r: Result<L3Decoded, L3Drop>)
    ensures
        r == ip_decoded(pkt@, our_ip, nic_csum_ok),
{
    if pkt.len() < 20 {
        return Err(L3Drop::Short);
    }
    if pkt[0] / 16 != 4 {
        return Err(L3Drop::BadVersion);
    }
    let ihl: usize = (pkt[0] % 16) as usize;
    let header_len: usize = ihl * 4;
    if ihl < 5 || header_len > pkt.len() {
        return Err(L3Drop::BadHeaderLen);
    }
    let total_len: usize = be16(pkt[2], pkt[3]) as usize;
    if total_len < header_len || total_len > pkt.len() {
        return Err(L3Drop::BadTotalLen);
    }
    let flags_frag: u16 = be16(pkt[6], pkt[7]);
    let mf: bool = (flags_frag / 0x2000) % 2 == 1;
    let frag_off: u16 = flags_frag % 0x2000;
    if mf || frag_off != 0 {
        return Err(L3Drop::Fragment);
    }
    let ttl: u8 = pkt[8];
    if ttl == 0 {
        return Err(L3Drop::TtlZero);
    }
    if !nic_csum_ok {
        let computed: u16 = header_checksum(pkt, header_len);
        let stored: u16 = be16(pkt[10], pkt[11]);
        if computed != stored {
            return Err(L3Drop::CsumBad);
        }
    }
    let protocol: u8 = pkt[9];
    let src_ip: u32 = be32(pkt[12], pkt[13], pkt[14], pkt[15]);
    let dst_ip: u32 = be32(pkt[16], pkt[17], pkt[18], pkt[19]);
    if our_ip != 0 && dst_ip != our_ip {
        return Err(L3Drop::NotOurs);
    }
    if protocol != IPPROTO_TCP && protocol != IPPROTO_ICMP {
        return Err(L3Drop::UnsupportedProto);
    }
    Ok(L3Decoded { protocol, src_ip, dst_ip, header_len, total_len, ttl })
}

/// An accepted packet's payload lies within the packet, behind its header.
pub proof fn law_ip_payload_in_packet(pkt: Seq<u8>, our_ip: u32, nic_csum_ok: bool)
    ensures
        ip_decoded(pkt, our_ip, nic_csum_ok) matches Ok(d) ==> {
            &&& 20 <= d.header_len <= 60
            &&& d.header_len <= d.total_len <= pkt.len()
            &&& d.total_len <= 65535
        },
{
}

/// A packet whose checksum holds is decoded the same whether or not the
/// checksum was taken as verified.
pub proof fn law_ip_nic_verdict(pkt: Seq<u8>, our_ip: u32)
    requires
        header_sum_ok(pkt),
    ensures
        ip_decoded(pkt, our_ip, true) == ip_decoded(pkt, our_ip, false),
{
}

/// What the NIC says of a checksum.
#[derive(Debug, Clone, Copy, PartialEq, Eq, Structural)]
pub enum CksumOutcome {
    /// It does not know.
    Unknown,
    /// It verified it and it is wrong.
    Bad,
    /// It verified it and it is right.
    Good,
    /// It did not verify it.
    NotVerified,
}

/// The verdict that two masked flag bits stand for.
pub open spec fn verdict(m: u64, good: u64, bad: u64, none: u64) -> CksumOutcome {
    if m == good {
        CksumOutcome::Good
    } else if m == bad {
        CksumOutcome::Bad
    } else if m == none {
        CksumOutcome::NotVerified
    } else {
        CksumOutcome::Unknown
    }
}

/// The NIC's verdict on the IP checksum.
pub open spec fn ip_verdict(ol_flags: u64) -> CksumOutcome {
    verdict(
        ol_flags & RTE_MBUF_F_RX_IP_CKSUM_MASK,
        RTE_MBUF_F_RX_IP_CKSUM_GOOD,
        RTE_MBUF_F_RX_IP_CKSUM_BAD,
        RTE_MBUF_F_RX_IP_CKSUM_NONE,
    )
}

/// The NIC's verdict on the TCP checksum.
pub open spec fn l4_verdict(ol_flags: u64) -> CksumOutcome {
    verdict(
        ol_flags & RTE_MBUF_F_RX_L4_CKSUM_MASK,
        RTE_MBUF_F_RX_L4_CKSUM_GOOD,
        RTE_MBUF_F_RX_L4_CKSUM_BAD,
        RTE_MBUF_F_RX_L4_CKSUM_NONE,
    )
}

/// Reads the NIC's verdict on the IP checksum.
pub fn classify_ip_rx_cksum(ol_flags: u64) -> (r: CksumOutcome)
    ensures
        r == ip_verdict(ol_flags),
{
    let m: u64 = ol_flags & RTE_MBUF_F_RX_IP_CKSUM_MASK;
    if m == RTE_MBUF_F_RX_IP_CKSUM_GOOD {
        CksumOutcome::Good
    } else if m == RTE_MBUF_F_RX_IP_CKSUM_BAD {
        CksumOutcome::Bad
    } else if m == RTE_MBUF_F_RX_IP_CKSUM_NONE {
        CksumOutcome::NotVerified
    } else {
        CksumOutcome::Unknown
    }
}

/// Reads the NIC's verdict on the TCP checksum.
pub fn classify_l4_rx_cksum(ol_flags: u64) -> (r: CksumOutcome)
    ensures
        r == l4_verdict(ol_flags),
{
    let m: u64 = ol_flags & RTE_MBUF_F_RX_L4_CKSUM_MASK;
    if m == RTE_MBUF_F_RX_L4_CKSUM_GOOD {
        CksumOutcome::Good
    } else if m == RTE_MBUF_F_RX_L4_CKSUM_BAD {
        CksumOutcome::Bad
    } else if m == RTE_MBUF_F_RX_L4_CKSUM_NONE {
        CksumOutcome::NotVerified
    } else {
        CksumOutcome::Unknown
    }
}

/// What decoding yields where the NIC's verdict counts.
pub open spec fn ip_decoded_offload(
    pkt: Seq<u8>,
    our_ip: u32,
    ol_flags: u64,
    rx_cksum_offload_active: bool,
) -> Result<L3Decoded, L3Drop> {
    if !rx_cksum_offload_active {
        ip_decoded(pkt, our_ip, false)
    } else if ip_verdict(ol_flags) == CksumOutcome::Bad {
        Err(L3Drop::CsumBad)
    } else {
        ip_decoded(pkt, our_ip, ip_verdict(ol_flags) == CksumOutcome::Good)
    }
}

/// The NIC found the packet's checksum wrong, and its verdict counts.
pub open spec fn nic_rejects(ol_flags: u64, rx_cksum_offload_active: bool) -> bool {
    rx_cksum_offload_active && ip_verdict(ol_flags) == CksumOutcome::Bad
}

/// The counters once a packet with these flags was decoded.
pub open spec fn counted_offload(
    c: Counters,
    ol_flags: u64,
    rx_cksum_offload_active: bool,
) -> Counters {
    if nic_rejects(ol_flags, rx_cksum_offload_active) {
        Counters {
            eth: EthCounters {
                rx_drop_cksum_bad: c.eth.rx_drop_cksum_bad.wrapping_add(1),
                ..c.eth
            },
            ip: IpCounters { rx_csum_bad: c.ip.rx_csum_bad.wrapping_add(1), ..c.ip },
            ..c
        }
    } else {
        c
    }
}

/// Decodes a packet, trusting the NIC's verdict on the checksum where checksum
/// offload is active: verified packets skip the check, rejected ones are
/// dropped and counted.
pub fn ip_decode_offload_aware(
    pkt: &[u8],
    our_ip: u32,
    ol_flags: u64,
    rx_cksum_offload_active: bool,
    counters: &mut Counters,
) -> (r: Result<L3Decoded, L3Drop>)
    ensures
        r == ip_decoded_offload(pkt@, our_ip, ol_flags, rx_cksum_offload_active),
        *final(counters) == counted_offload(*old(counters), ol_flags, rx_cksum_offload_active),
{
    if !rx_cksum_offload_active {
        return ip_decode(pkt, our_ip, false);
    }
    match classify_ip_rx_cksum(ol_flags) {
        CksumOutcome::Good => ip_decode(pkt, our_ip, true),
        CksumOutcome::Bad => {
            inc(&mut counters.eth.rx_drop_cksum_bad);
            inc(&mut counters.ip.rx_csum_bad);
            Err(L3Drop::CsumBad)
        },
        _ => ip_decode(pkt, our_ip, false),
    }
}

} // verus!
