//! SipHash-2-4, a keyed hash.
use vstd::prelude::*;

verus! {

/// The four words of state.
pub struct SipState {
    pub v0: u64,
    pub v1: u64,
    pub v2: u64,
    pub v3: u64,
}

/// A word rotated left by `n` bits, for `n` from 1 to 63.
pub open spec fn rotated(x: u64, n: u64) -> u64 {
    (x << n) | (x >> ((64 - n) as u64))
}

fn rotl(x: u64, n: u64) -> (r: u64)
    requires
        0 < n < 64,
    ensures
        r == rotated(x, n),
{
    (x << n) | (x >> (64 - n))
}

/// One round.
pub open spec fn round(s: SipState) -> SipState {
    let a0 = s.v0.wrapping_add(s.v1);
    let a1 = rotated(s.v1, 13) ^ a0;
    let b0 = rotated(a0, 32);
    let a2 = s.v2.wrapping_add(s.v3);
    let a3 = rotated(s.v3, 16) ^ a2;
    let c0 = b0.wrapping_add(a3);
    let b3 = rotated(a3, 21) ^ c0;
    let b2 = a2.wrapping_add(a1);
    let b1 = rotated(a1, 17) ^ b2;
    SipState { v0: c0, v1: b1, v2: rotated(b2, 32), v3: b3 }
}

/// One message word taken in.
pub open spec fn absorbed(s: SipState, m: u64) -> SipState {
    let t = round(round(SipState { v3: s.v3 ^ m, ..s }));
    SipState { v0: t.v0 ^ m, ..t }
}

/// The word whose bytes are `s[i..]`, the least significant first, counting
/// only the first `n` of them.
pub open spec fn le_value(s: Seq<u8>, i: int, n: int) -> int
    decreases n,
{
    if n <= 0 {
        0
    } else {
        s[i] + 256 * le_value(s, i + 1, n - 1)
    }
}

/// The state after the first `n` whole words of a message.
pub open spec fn absorbed_words(s: SipState, msg: Seq<u8>, n: int) -> SipState
    decreases n,
{
    if n <= 0 {
        s
    } else {
        absorbed(absorbed_words(s, msg, n - 1), le_value(msg, 8 * (n - 1), 8) as u64)
    }
}

/// The state that a key starts from.
pub open spec fn keyed(key: Seq<u8>) -> SipState {
    let k0 = le_value(key, 0, 8) as u64;
    let k1 = le_value(key, 8, 8) as u64;
    SipState {
        v0: k0 ^ 0x736f_6d65_7073_6575,
        v1: k1 ^ 0x646f_7261_6e64_6f6d,
        v2: k0 ^ 0x6c79_6765_6e65_7261,
        v3: k1 ^ 0x7465_6462_7974_6573,
    }
}

/// The last word: the bytes left over, and the length in the top byte.
pub open spec fn last_word(msg: Seq<u8>) -> u64 {
    let n = msg.len() as int / 8;
    let tail = le_value(msg, 8 * n, msg.len() as int % 8);
    (tail + (msg.len() as int % 256) * 0x100_0000_0000_0000) as u64
}

/// The hash of a message under a key.
pub open spec fn siphash_of(key: Seq<u8>, msg: Seq<u8>) -> u64 {
    let s = absorbed(
        absorbed_words(keyed(key), msg, msg.len() as int / 8),
        last_word(msg),
    );
    let t = round(round(round(round(SipState { v2: s.v2 ^ 0xff, ..s }))));
    t.v0 ^ t.v1 ^ t.v2 ^ t.v3
}

fn sipround(s: &mut SipState)
    ensures
        *final(s) == round(*old(s)),
{
    s.v0 = s.v0.wrapping_add(s.v1);
    s.v1 = rotl(s.v1, 13);
    s.v1 = s.v1 ^ s.v0;
    s.v0 = rotl(s.v0, 32);
    s.v2 = s.v2.wrapping_add(s.v3);
    s.v3 = rotl(s.v3, 16);
    s.v3 = s.v3 ^ s.v2;
    s.v0 = s.v0.wrapping_add(s.v3);
    s.v3 = rotl(s.v3, 21);
    s.v3 = s.v3 ^ s.v0;
    s.v2 = s.v2.wrapping_add(s.v1);
    s.v1 = rotl(s.v1, 17);
    s.v1 = s.v1 ^ s.v2;
    s.v2 = rotl(s.v2, 32);
}

fn absorb(s: &mut SipState, m: u64)
    ensures
        *final(s) == absorbed(*old(s), m),
{
    s.v3 = s.v3 ^ m;
    sipround(s);
    sipround(s);
    s.v0 = s.v0 ^ m;
}

/// The largest value of `n` bytes.
pub open spec fn byte_limit(n: int) -> int {
    if n <= 0 {
        1
    } else if n == 1 {
        0x100
    } else if n == 2 {
        0x1_0000
    } else if n == 3 {
        0x100_0000
    } else if n == 4 {
        0x1_0000_0000
    } else if n == 5 {
        0x100_0000_0000
    } else if n == 6 {
        0x1_0000_0000_0000
    } else if n == 7 {
        0x100_0000_0000_0000
    } else {
        0x1_0000_0000_0000_0000
    }
}

fn le_bytes(s: &[u8], i: usize, n: usize) -> (r: u64)
    requires
        n <= 8,
        i + n <= s@.len(),
    ensures
        r == le_value(s@, i as int, n as int),
        r < byte_limit(n as int),
    decreases n,
{
    if n == 0 {
        0
    } else {
        assert(s.len() == s@.len());
        let h: u64 = le_bytes(s, i + 1, n - 1);
        s[i] as u64 + 256 * h
    }
}

/// Hashes a message under a 16-byte key.
pub fn siphash24(key: &[u8; 16], msg: &[u8]) -> (r: u64)
    ensures
        r == siphash_of(key@, msg@),
{
    let k: &[u8] = key.as_slice();
    let k0: u64 = le_bytes(k, 0, 8);
    let k1: u64 = le_bytes(k, 8, 8);
    let mut s = SipState {
        v0: k0 ^ 0x736f_6d65_7073_6575,
        v1: k1 ^ 0x646f_7261_6e64_6f6d,
        v2: k0 ^ 0x6c79_6765_6e65_7261,
        v3: k1 ^ 0x7465_6462_7974_6573,
    };
    let n: usize = msg.len() / 8;
    let mut w: usize = 0;
    while w < n
        invariant
            w <= n,
            n == msg@.len() / 8,
            s == absorbed_words(keyed(key@), msg@, w as int),
        decreases n - w,
    {
        assert(msg.len() == msg@.len());
        let m: u64 = le_bytes(msg, 8 * w, 8);
        absorb(&mut s, m);
        w += 1;
    }
    let tail: u64 = le_bytes(msg, 8 * n, msg.len() % 8);
    let len_byte: u64 = (msg.len() % 256) as u64;
    let last: u64 = tail + len_byte * 0x100_0000_0000_0000;
    absorb(&mut s, last);
    s.v2 = s.v2 ^ 0xff;
    sipround(&mut s);
    sipround(&mut s);
    sipround(&mut s);
    sipround(&mut s);
    s.v0 ^ s.v1 ^ s.v2 ^ s.v3
}

} // verus!
