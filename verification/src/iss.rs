//! Initial sequence numbers.
use vstd::prelude::*;

use crate::bytes::{u16_bytes, u32_bytes};
use crate::arp::{seq16, seq32};
use crate::flow_table::FourTuple;
use crate::num::{low32, low32_of};
use crate::siphash24::{siphash24, siphash_of};
use crate::tcp_seq::{precedes, seq_distance};
use crate::text::{chars_of, trim, trimmed};

verus! {

/// Generator of initial sequence numbers: a keyed hash of the connection, plus
/// a clock that ticks every four microseconds.
#[derive(Debug, Clone, Copy)]
pub struct IssGen {
    pub secret: [u8; 16],
    pub boot_nonce: [u8; 16],
}

/// The hashed message: addresses and ports, padding, and the boot nonce.
pub open spec fn iss_message(t: FourTuple, boot_nonce: [u8; 16]) -> Seq<u8> {
    seq32(t.local_ip) + seq16(t.local_port) + seq32(t.peer_ip) + seq16(t.peer_port) + Seq::new(
        8,
        |i: int| 0u8,
    ) + boot_nonce@
}

/// The number of four-microsecond ticks at a time.
pub open spec fn iss_ticks(now_ns: u64) -> int {
    (now_ns / 4_000) as int
}

impl IssGen {
    /// The part of the number that depends on the connection.
    pub open spec fn offset_for(self, t: FourTuple) -> u32 {
        low32_of(siphash_of(self.secret@, iss_message(t, self.boot_nonce)) as int)
    }

    /// The initial sequence number of a connection opened at a time.
    pub open spec fn iss_at(self, t: FourTuple, now_ns: u64) -> u32 {
        self.offset_for(t).wrapping_add(low32_of(iss_ticks(now_ns)))
    }

    /// A generator with a given secret and boot nonce.
    pub fn new(secret: [u8; 16], boot_nonce: [u8; 16]) -> (r: Self)
        ensures
            r.secret == secret,
            r.boot_nonce == boot_nonce,
    {
        IssGen { secret, boot_nonce }
    }

    /// A generator whose numbers can be reproduced.
    pub fn new_deterministic_for_test(secret: [u8; 16], boot_nonce: [u8; 16]) -> (r: Self)
        ensures
            r.secret == secret,
            r.boot_nonce == boot_nonce,
    {
        IssGen { secret, boot_nonce }
    }

    /// The initial sequence number of a connection opened at `now_ns`.
    pub fn next(&self, tuple: &FourTuple, now_ns: u64) -> (r: u32)
        ensures
            r == self.iss_at(*tuple, now_ns),
    {
        let a: [u8; 4] = u32_bytes(tuple.local_ip);
        let p: [u8; 2] = u16_bytes(tuple.local_port);
        let b: [u8; 4] = u32_bytes(tuple.peer_ip);
        let q: [u8; 2] = u16_bytes(tuple.peer_port);
        let n: [u8; 16] = self.boot_nonce;
        let msg: [u8; 36] = [
            a[0],
            a[1],
            a[2],
            a[3],
            p[0],
            p[1],
            b[0],
            b[1],
            b[2],
            b[3],
            q[0],
            q[1],
            0,
            0,
            0,
            0,
            0,
            0,
            0,
            0,
            n[0],
            n[1],
            n[2],
            n[3],
            n[4],
            n[5],
            n[6],
            n[7],
            n[8],
            n[9],
            n[10],
            n[11],
            n[12],
            n[13],
            n[14],
            n[15],
        ];
        assert(msg@ =~= iss_message(*tuple, self.boot_nonce));
        let hash_low32: u32 = low32(siphash24(&self.secret, msg.as_slice()));
        let clock_4us: u32 = low32(now_ns / 4_000);
        hash_low32.wrapping_add(clock_4us)
    }
}

/// Later numbers of the same connection lie ahead of earlier ones by the ticks
/// that have passed, and follow them as sequence numbers for as long as that is
/// less than half the circle.
pub proof fn law_iss_advances(g: IssGen, t: FourTuple, earlier_ns: u64, later_ns: u64)
    requires
        iss_ticks(earlier_ns) <= iss_ticks(later_ns),
    ensures
        ({
            let ticks = iss_ticks(later_ns) - iss_ticks(earlier_ns);
            let a = g.iss_at(t, earlier_ns);
            let b = g.iss_at(t, later_ns);
            &&& seq_distance(a, b) == ticks % 0x1_0000_0000
            &&& 0 < ticks < 0x8000_0000 ==> precedes(a, b)
        }),
{
    let x = iss_ticks(earlier_ns);
    let y = iss_ticks(later_ns);
    let m = 0x1_0000_0000int;
    vstd::arithmetic::div_mod::lemma_fundamental_div_mod(x, m);
    vstd::arithmetic::div_mod::lemma_fundamental_div_mod(y, m);
    let d = y % m - x % m;
    let k = y / m - x / m;
    assert(y - x == m * k + d);
    if d >= 0 {
        vstd::arithmetic::div_mod::lemma_fundamental_div_mod_converse(y - x, m, k, d);
    } else {
        assert(y - x == m * (k - 1) + (d + m));
        vstd::arithmetic::div_mod::lemma_fundamental_div_mod_converse(y - x, m, k - 1, d + m);
    }
}

/// The hashed message tells connections apart: two that have the same message
/// under boot nonces are the same connection, and the nonces are the same. So
/// every part of the addresses and of the nonce goes into the number.
pub proof fn law_message_identifies_connection(
    t: FourTuple,
    u: FourTuple,
    nonce: [u8; 16],
    other: [u8; 16],
)
    requires
        iss_message(t, nonce) == iss_message(u, other),
    ensures
        t == u,
        nonce@ == other@,
{
    let a = iss_message(t, nonce);
    let b = iss_message(u, other);
    assert(a.subrange(0, 4) =~= seq32(t.local_ip));
    assert(b.subrange(0, 4) =~= seq32(u.local_ip));
    assert(a.subrange(4, 6) =~= seq16(t.local_port));
    assert(b.subrange(4, 6) =~= seq16(u.local_port));
    assert(a.subrange(6, 10) =~= seq32(t.peer_ip));
    assert(b.subrange(6, 10) =~= seq32(u.peer_ip));
    assert(a.subrange(10, 12) =~= seq16(t.peer_port));
    assert(b.subrange(10, 12) =~= seq16(u.peer_port));
    assert(a.subrange(20, 36) =~= nonce@);
    assert(b.subrange(20, 36) =~= other@);
    crate::bytes::law_bytes_round_trip(t.local_port, t.local_ip);
    crate::bytes::law_bytes_round_trip(u.local_port, u.local_ip);
    crate::bytes::law_bytes_round_trip(t.peer_port, t.peer_ip);
    crate::bytes::law_bytes_round_trip(u.peer_port, u.peer_ip);
}

proof fn lemma_wrapped_sum(x: int, n: int)
    requires
        x >= 0,
        n >= 0,
    ensures
        low32_of(x).wrapping_add(low32_of(n)) == (x + n) % 0x1_0000_0000,
{
    let m = 0x1_0000_0000int;
    vstd::arithmetic::div_mod::lemma_add_mod_noop(x, n, m);
}

proof fn lemma_sum_gap(x: int, k: int)
    requires
        x >= 0,
        k >= 0,
    ensures
        ((x + k) % 0x1_0000_0000) as u32 == (((x % 0x1_0000_0000) as u32) + k) % 0x1_0000_0000,
        (((x + k) % 0x1_0000_0000) as u32).wrapping_sub((x % 0x1_0000_0000) as u32) == k
            % 0x1_0000_0000,
{
    let m = 0x1_0000_0000int;
    vstd::arithmetic::div_mod::lemma_add_mod_noop(x, k, m);
    vstd::arithmetic::div_mod::lemma_add_mod_noop(x % m, k, m);
}

proof fn lemma_sums_agree(x: int, y: int, n: int)
    requires
        x >= 0,
        y >= 0,
        n >= 0,
    ensures
        (x + n) % 0x1_0000_0000 == (y + n) % 0x1_0000_0000 <==> x % 0x1_0000_0000 == y
            % 0x1_0000_0000,
{
    let m = 0x1_0000_0000int;
    vstd::arithmetic::div_mod::lemma_add_mod_noop(x, n, m);
    vstd::arithmetic::div_mod::lemma_add_mod_noop(y, n, m);
    if (x + n) % m == (y + n) % m {
        vstd::arithmetic::div_mod::lemma_mod_equivalence(x + n, y + n, m);
        vstd::arithmetic::div_mod::lemma_mod_equivalence(x, y, m);
    }
}

/// The numbers of one connection advance by one every four microseconds, round
/// the circle; at one time they differ between connections exactly as the
/// hashes of their messages do.
pub proof fn law_iss_follows_clock_and_hash(
    g: IssGen,
    t: FourTuple,
    u: FourTuple,
    now_ns: u64,
    steps: u64,
    first: u32,
    later_on: u32,
    elsewhere: u32,
)
    requires
        now_ns + 4_000 * steps <= u64::MAX,
        call_ensures(IssGen::next, (&g, &t, now_ns), first),
        call_ensures(IssGen::next, (&g, &t, (now_ns + 4_000 * steps) as u64), later_on),
        call_ensures(IssGen::next, (&g, &u, now_ns), elsewhere),
    ensures
        later_on.wrapping_sub(first) == steps % 0x1_0000_0000,
        first == elsewhere <==> siphash_of(g.secret@, iss_message(t, g.boot_nonce))
            % 0x1_0000_0000 == siphash_of(g.secret@, iss_message(u, g.boot_nonce))
            % 0x1_0000_0000,
        first == (siphash_of(g.secret@, iss_message(t, g.boot_nonce)) + now_ns / 4_000)
            % 0x1_0000_0000,
{
    let later = (now_ns + 4_000 * steps) as u64;
    assert(later / 4_000 == now_ns / 4_000 + steps);
    let m = 0x1_0000_0000int;
    let x = siphash_of(g.secret@, iss_message(t, g.boot_nonce)) as int;
    let y = siphash_of(g.secret@, iss_message(u, g.boot_nonce)) as int;
    let n = (now_ns / 4_000) as int;
    lemma_wrapped_sum(x, n);
    lemma_wrapped_sum(x, n + steps);
    lemma_wrapped_sum(y, n);
    lemma_sum_gap(x + n, steps as int);
    lemma_sums_agree(x, y, n);
}

/// The value of a hexadecimal digit.
pub open spec fn hex_value(c: int) -> Option<int> {
    if 0x30 <= c <= 0x39 {
        Some(c - 0x30)
    } else if 0x61 <= c <= 0x66 {
        Some(c - 0x61 + 10)
    } else if 0x41 <= c <= 0x46 {
        Some(c - 0x41 + 10)
    } else {
        None
    }
}

/// The value of a hexadecimal digit.
pub fn hex_digit(c: u8) -> (r: Option<u8>)
    ensures
        match r {
            Some(v) => hex_value(c as int) == Some(v as int) && v < 16,
            None => hex_value(c as int) is None,
        },
{
    if 0x30 <= c && c <= 0x39 {
        Some(c - 0x30)
    } else if 0x61 <= c && c <= 0x66 {
        Some(c - 0x61 + 10)
    } else if 0x41 <= c && c <= 0x46 {
        Some(c - 0x41 + 10)
    } else {
        None
    }
}

/// A text without its dashes.
pub open spec fn without_dashes(s: Seq<char>) -> Seq<char>
    decreases s.len(),
{
    if s.len() == 0 {
        Seq::empty()
    } else if s.last() == '-' {
        without_dashes(s.drop_last())
    } else {
        without_dashes(s.drop_last()).push(s.last())
    }
}

fn strip_dashes(s: &[char]) -> (r: Vec<char>)
    ensures
        r@ == without_dashes(s@),
{
    let mut out: Vec<char> = Vec::new();
    let mut i: usize = 0;
    assert(s@.take(0) =~= Seq::<char>::empty());
    while i < s.len()
        invariant
            i <= s@.len(),
            out@ == without_dashes(s@.take(i as int)),
        decreases s@.len() - i,
    {
        assert(s@.take(i + 1).drop_last() =~= s@.take(i as int));
        assert(s@.take(i + 1).last() == s@[i as int]);
        if s[i] != '-' {
            out.push(s[i]);
        }
        i += 1;
    }
    assert(s@.take(i as int) =~= s@);
    out
}

/// The value of a character that is a hexadecimal digit.
pub open spec fn digit_value(c: char) -> Option<int> {
    hex_value(c as u32 as int)
}

fn char_digit(c: char) -> (r: Option<u8>)
    ensures
        match r {
            Some(v) => digit_value(c) == Some(v as int) && v < 16,
            None => digit_value(c) is None,
        },
{
    let u: u32 = c as u32;
    if u < 128 {
        hex_digit(u as u8)
    } else {
        None
    }
}

/// The text is made of 32 hexadecimal digits.
pub open spec fn is_hex_id(s: Seq<char>) -> bool {
    &&& s.len() == 32
    &&& forall|i: int| 0 <= i < 32 ==> digit_value(#[trigger] s[i]) is Some
}

/// The 16 bytes that the text of a boot identifier spells: without white space
/// around it and without its dashes it is 32 hexadecimal digits, two to a
/// byte. Any other text spells none.
pub open spec fn boot_id_bytes(text: Seq<char>) -> Option<Seq<int>> {
    let d = without_dashes(trimmed(text));
    if is_hex_id(d) {
        Some(Seq::new(16, |i: int| digit_value(d[2 * i])->0 * 16 + digit_value(d[2 * i + 1])->0))
    } else {
        None
    }
}

/// Reads the text of a boot identifier.
pub fn parse_boot_id(text: &str) -> (r: Option<[u8; 16]>)
    ensures
        match r {
            Some(b) => boot_id_bytes(text@) == Some(Seq::new(16, |i: int| b[i] as int)),
            None => boot_id_bytes(text@) is None,
        },
{
    let cs: Vec<char> = chars_of(text);
    let t: Vec<char> = trim(cs.as_slice());
    let d: Vec<char> = strip_dashes(t.as_slice());
    if d.len() != 32 {
        return None;
    }
    let mut out: [u8; 16] = [0; 16];
    let mut i: usize = 0;
    while i < 16
        invariant
            i <= 16,
            d@.len() == 32,
            d@ == without_dashes(trimmed(text@)),
            forall|k: int| 0 <= k < 2 * i ==> digit_value(#[trigger] d@[k]) is Some,
            forall|k: int|
                0 <= k < i ==> #[trigger] out[k] == digit_value(d@[2 * k])->0 * 16 + digit_value(
                    d@[2 * k + 1],
                )->0,
        decreases 16 - i,
    {
        let hi: Option<u8> = char_digit(d[2 * i]);
        let lo: Option<u8> = char_digit(d[2 * i + 1]);
        match (hi, lo) {
            (Some(h), Some(l)) => {
                out[i] = h * 16 + l;
            },
            _ => {
                assert(digit_value(d@[2 * i as int]) is None || digit_value(d@[2 * i + 1]) is None);
                return None;
            },
        }
        i += 1;
    }
    proof {
        let a = Seq::new(16, |i: int| out[i] as int);
        let b = Seq::new(
            16,
            |i: int| digit_value(d@[2 * i])->0 * 16 + digit_value(d@[2 * i + 1])->0,
        );
        assert forall|k: int| 0 <= k < 16 implies a[k] == b[k] by {
            assert(out[k] == digit_value(d@[2 * k])->0 * 16 + digit_value(d@[2 * k + 1])->0);
        }
        assert(a =~= b);
    }
    Some(out)
}

/// The eight bytes of a word, the least significant first.
pub open spec fn le_byte(x: u64, i: int) -> u8 {
    if i == 0 {
        (x % 0x100) as u8
    } else if i == 1 {
        (x / 0x100 % 0x100) as u8
    } else if i == 2 {
        (x / 0x1_0000 % 0x100) as u8
    } else if i == 3 {
        (x / 0x100_0000 % 0x100) as u8
    } else if i == 4 {
        (x / 0x1_0000_0000 % 0x100) as u8
    } else if i == 5 {
        (x / 0x100_0000_0000 % 0x100) as u8
    } else if i == 6 {
        (x / 0x1_0000_0000_0000 % 0x100) as u8
    } else {
        (x / 0x100_0000_0000_0000) as u8
    }
}

fn le_bytes_of(x: u64) -> (r: [u8; 8])
    ensures
        forall|i: int| 0 <= i < 8 ==> #[trigger] r[i] == le_byte(x, i),
{
    [
        (x % 0x100) as u8,
        (x / 0x100 % 0x100) as u8,
        (x / 0x1_0000 % 0x100) as u8,
        (x / 0x100_0000 % 0x100) as u8,
        (x / 0x1_0000_0000 % 0x100) as u8,
        (x / 0x100_0000_0000 % 0x100) as u8,
        (x / 0x1_0000_0000_0000 % 0x100) as u8,
        (x / 0x100_0000_0000_0000) as u8,
    ]
}

/// A secret made of the time alone, for when the system gives no random bytes.
pub fn fallback_secret(now_ns: u64) -> (r: [u8; 16])
    ensures
        ({
            let a = now_ns.wrapping_mul(0x9E37_79B9_7F4A_7C15);
            let b = now_ns.wrapping_add(0xBF58_476D_1CE4_E5B9) ^ now_ns.wrapping_mul(
                0x6A09_E667_F3BC_C908,
            );
            forall|i: int|
                0 <= i < 16 ==> #[trigger] r[i] == if i < 8 {
                    le_byte(a, i)
                } else {
                    le_byte(b, i - 8)
                }
        }),
{
    let t2: u64 = now_ns.wrapping_mul(0x9E37_79B9_7F4A_7C15);
    let t3: u64 = now_ns.wrapping_add(0xBF58_476D_1CE4_E5B9);
    let t4: u64 = now_ns.wrapping_mul(0x6A09_E667_F3BC_C908);
    let a: [u8; 8] = le_bytes_of(t2);
    let b: [u8; 8] = le_bytes_of(t3 ^ t4);
    let r: [u8; 16] = [
        a[0],
        a[1],
        a[2],
        a[3],
        a[4],
        a[5],
        a[6],
        a[7],
        b[0],
        b[1],
        b[2],
        b[3],
        b[4],
        b[5],
        b[6],
        b[7],
    ];
    proof {
        assert forall|i: int| 0 <= i < 16 implies #[trigger] r[i] == if i < 8 {
            le_byte(t2, i)
        } else {
            le_byte(t3 ^ t4, i - 8)
        } by {
            if i < 8 {
                assert(r[i] == a[i]);
            } else {
                assert(r[i] == b[i - 8]);
            }
        }
    }
    r
}

} // verus!
