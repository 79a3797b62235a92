//! What reading text keeps to: words, parts, numbers, and the lines of the
//! system's tables.
use vstd::prelude::*;

use crate::arp::{
    arp_line_entry, colon_bytes, dotted_quad, parse_proc_arp_line, parse_proc_route_line,
    route_gateway,
};
use crate::error::{digit_char, written};
use crate::fault_injector::{
    FaultConfig, FaultConfigParseError, FaultEntry, FaultInjector, FaultKind,
};
use crate::iss::parse_boot_id;
use crate::text::{
    digit_of, digits_value, fields_of, is_space, leading_space, leading_word, number_in, parts_of,
    run_without, trimmed, trimmed_end,
};

verus! {

/// Parts put together again, with the separator between each two.
pub open spec fn joined(parts: Seq<Seq<char>>, sep: char) -> Seq<char>
    decreases parts.len(),
{
    if parts.len() == 0 {
        Seq::empty()
    } else if parts.len() == 1 {
        parts[0]
    } else {
        parts[0] + seq![sep] + joined(parts.subrange(1, parts.len() as int), sep)
    }
}

/// Splitting loses nothing: the parts put together again are the text, and the
/// separator is in none of them.
pub proof fn law_parts_rejoin(s: Seq<char>, sep: char)
    ensures
        parts_of(s, sep).len() >= 1,
        joined(parts_of(s, sep), sep) == s,
        forall|i: int| 0 <= i < parts_of(s, sep).len()
            ==> !(#[trigger] parts_of(s, sep)[i]).contains(sep),
    decreases s.len(),
{
    let n = run_without(s, sep);
    lemma_run(s, sep);
    if n < s.len() {
        let rest = s.subrange(n + 1, s.len() as int);
        law_parts_rejoin(rest, sep);
        let tail = parts_of(rest, sep);
        let all = parts_of(s, sep);
        assert(all == seq![s.take(n)] + tail);
        assert(all.subrange(1, all.len() as int) =~= tail);
        assert(s =~= s.take(n) + seq![sep] + rest);
        assert forall|i: int| 0 <= i < all.len() implies !(#[trigger] all[i]).contains(sep) by {
            if i > 0 {
                assert(all[i] == tail[i - 1]);
            }
        }
    } else {
        assert(s.take(n) =~= s);
    }
}

proof fn lemma_run(s: Seq<char>, sep: char)
    ensures
        0 <= run_without(s, sep) <= s.len(),
        !s.take(run_without(s, sep)).contains(sep),
        run_without(s, sep) < s.len() ==> s[run_without(s, sep)] == sep,
    decreases s.len(),
{
    let n = run_without(s, sep);
    if s.len() > 0 && s[0] != sep {
        let rest = s.subrange(1, s.len() as int);
        lemma_run(rest, sep);
        if s.take(n).contains(sep) {
            let k = s.take(n).index_of(sep);
            assert(rest.take(n - 1)[k - 1] == sep);
        }
    }
}

/// The characters of a text that are no space, in order.
pub open spec fn without_spaces(s: Seq<char>) -> Seq<char>
    decreases s.len(),
{
    if s.len() == 0 {
        Seq::empty()
    } else if is_space(s[0]) {
        without_spaces(s.subrange(1, s.len() as int))
    } else {
        seq![s[0]] + without_spaces(s.subrange(1, s.len() as int))
    }
}

/// All words in a row.
pub open spec fn run_together(words: Seq<Seq<char>>) -> Seq<char>
    decreases words.len(),
{
    if words.len() == 0 {
        Seq::empty()
    } else {
        words[0] + run_together(words.subrange(1, words.len() as int))
    }
}

/// Words are what lies between spaces: none is empty, none has a space in it,
/// and together they hold every other character in order.
pub proof fn law_words(s: Seq<char>)
    ensures
        run_together(fields_of(s)) == without_spaces(s),
        forall|i: int| 0 <= i < fields_of(s).len() ==> (#[trigger] fields_of(s)[i]).len() > 0,
        forall|i: int, k: int|
            0 <= i < fields_of(s).len() && 0 <= k < fields_of(s)[i].len() ==> !is_space(
                #[trigger] fields_of(s)[i][k],
            ),
    decreases s.len(),
{
    let a = leading_space(s);
    lemma_leading_space(s);
    let rest = s.subrange(a, s.len() as int);
    let w = leading_word(rest);
    lemma_leading_word(rest);
    lemma_spaces_skipped(s, a);
    if w > 0 {
        let behind = rest.subrange(w, rest.len() as int);
        law_words(behind);
        lemma_word_kept(rest, w);
        let all = fields_of(s);
        let tail = fields_of(behind);
        assert(all == seq![rest.take(w)] + tail);
        assert(all.subrange(1, all.len() as int) =~= tail);
        assert forall|i: int| 0 <= i < all.len() implies (#[trigger] all[i]).len() > 0 by {
            if i > 0 {
                assert(all[i] == tail[i - 1]);
            }
        }
        assert forall|i: int, k: int| 0 <= i < all.len() && 0 <= k < all[i].len() implies !is_space(
            #[trigger] all[i][k],
        ) by {
            if i > 0 {
                assert(all[i] == tail[i - 1]);
                assert(!is_space(tail[i - 1][k]));
            } else {
                assert(!is_space(rest[k]));
            }
        }
    } else {
        assert(rest.len() == 0);
        assert(without_spaces(rest) == Seq::<char>::empty());
    }
}

proof fn lemma_leading_space(s: Seq<char>)
    ensures
        0 <= leading_space(s) <= s.len(),
        forall|k: int| 0 <= k < leading_space(s) ==> is_space(#[trigger] s[k]),
        leading_space(s) < s.len() ==> !is_space(s[leading_space(s)]),
    decreases s.len(),
{
    if s.len() > 0 && is_space(s[0]) {
        let rest = s.subrange(1, s.len() as int);
        lemma_leading_space(rest);
        assert forall|k: int| 0 <= k < leading_space(s) implies is_space(#[trigger] s[k]) by {
            if k > 0 {
                assert(is_space(rest[k - 1]));
            }
        }
    }
}

proof fn lemma_leading_word(s: Seq<char>)
    ensures
        0 <= leading_word(s) <= s.len(),
        forall|k: int| 0 <= k < leading_word(s) ==> !is_space(#[trigger] s[k]),
        s.len() > 0 && !is_space(s[0]) ==> leading_word(s) > 0,
        leading_word(s) < s.len() ==> is_space(s[leading_word(s)]),
    decreases s.len(),
{
    if s.len() > 0 && !is_space(s[0]) {
        let rest = s.subrange(1, s.len() as int);
        lemma_leading_word(rest);
        assert forall|k: int| 0 <= k < leading_word(s) implies !is_space(#[trigger] s[k]) by {
            if k > 0 {
                assert(!is_space(rest[k - 1]));
            }
        }
    }
}

proof fn lemma_spaces_skipped(s: Seq<char>, n: int)
    requires
        0 <= n <= s.len(),
        forall|k: int| 0 <= k < n ==> is_space(#[trigger] s[k]),
    ensures
        without_spaces(s) == without_spaces(s.subrange(n, s.len() as int)),
    decreases n,
{
    if n > 0 {
        let rest = s.subrange(1, s.len() as int);
        assert(is_space(s[0]));
        assert forall|k: int| 0 <= k < n - 1 implies is_space(#[trigger] rest[k]) by {
            assert(is_space(s[k + 1]));
        }
        lemma_spaces_skipped(rest, n - 1);
        assert(rest.subrange(n - 1, rest.len() as int) =~= s.subrange(n, s.len() as int));
    } else {
        assert(s.subrange(0, s.len() as int) =~= s);
    }
}

proof fn lemma_word_kept(s: Seq<char>, n: int)
    requires
        0 <= n <= s.len(),
        forall|k: int| 0 <= k < n ==> !is_space(#[trigger] s[k]),
    ensures
        without_spaces(s) == s.take(n) + without_spaces(s.subrange(n, s.len() as int)),
    decreases n,
{
    if n > 0 {
        let rest = s.subrange(1, s.len() as int);
        assert(!is_space(s[0]));
        assert forall|k: int| 0 <= k < n - 1 implies !is_space(#[trigger] rest[k]) by {
            assert(!is_space(s[k + 1]));
        }
        lemma_word_kept(rest, n - 1);
        assert(rest.subrange(n - 1, rest.len() as int) =~= s.subrange(n, s.len() as int));
        assert(s.take(n) =~= seq![s[0]] + rest.take(n - 1));
    } else {
        assert(s.subrange(0, s.len() as int) =~= s);
        assert(s.take(0) =~= Seq::<char>::empty());
    }
}

/// Trimming takes spaces off both ends and nothing else.
pub proof fn law_trimmed(s: Seq<char>)
    ensures
        exists|i: int, j: int|
            {
                &&& 0 <= i <= j <= s.len()
                &&& trimmed(s) == #[trigger] s.subrange(i, j)
                &&& forall|k: int| 0 <= k < i || j <= k < s.len() ==> is_space(#[trigger] s[k])
                &&& i < j ==> !is_space(s[i]) && !is_space(s[j - 1])
            },
{
    let i = leading_space(s);
    lemma_leading_space(s);
    let t = s.subrange(i, s.len() as int);
    lemma_trimmed_end(t);
    let n = trimmed_end(t).len() as int;
    let j = i + n;
    assert(trimmed(s) =~= s.subrange(i, j));
    assert forall|k: int| 0 <= k < i || j <= k < s.len() implies is_space(#[trigger] s[k]) by {
        if k >= j {
            assert(is_space(t[k - i]));
        }
    }
    if i < j {
        assert(t[n - 1] == s[j - 1]);
    }
}

proof fn lemma_trimmed_end(s: Seq<char>)
    ensures
        trimmed_end(s).len() <= s.len(),
        trimmed_end(s) == s.take(trimmed_end(s).len() as int),
        forall|k: int| trimmed_end(s).len() <= k < s.len() ==> is_space(#[trigger] s[k]),
        trimmed_end(s).len() > 0 ==> !is_space(s[trimmed_end(s).len() - 1]),
    decreases s.len(),
{
    if s.len() > 0 && is_space(s.last()) {
        let rest = s.drop_last();
        lemma_trimmed_end(rest);
        let n = trimmed_end(s).len() as int;
        assert(rest.take(n) =~= s.take(n));
        assert forall|k: int| n <= k < s.len() implies is_space(#[trigger] s[k]) by {
            if k < rest.len() {
                assert(is_space(rest[k]));
            }
        }
    } else {
        assert(s.take(s.len() as int) =~= s);
    }
}

/// A number that was written down is read back, in tens and in sixteens.
pub proof fn law_number_reads_back(n: nat, radix: nat, most: int)
    requires
        radix == 10 || radix == 16,
        n <= most,
    ensures
        number_in(written(n, radix), radix as int, most) == Some(n as int),
{
    lemma_written_value(n, radix);
    let s = written(n, radix);
    lemma_no_sign(n, radix);
}

proof fn lemma_digit(d: int, radix: int)
    requires
        0 <= d < radix,
        radix == 10 || radix == 16,
    ensures
        digit_char(d).len() == 1,
        digit_char(d)[0] != '+',
        digit_of(digit_char(d)[0], radix) == Some(d),
{
    reveal_strlit("0");
    reveal_strlit("1");
    reveal_strlit("2");
    reveal_strlit("3");
    reveal_strlit("4");
    reveal_strlit("5");
    reveal_strlit("6");
    reveal_strlit("7");
    reveal_strlit("8");
    reveal_strlit("9");
    reveal_strlit("a");
    reveal_strlit("b");
    reveal_strlit("c");
    reveal_strlit("d");
    reveal_strlit("e");
    reveal_strlit("f");
}

proof fn lemma_written_value(n: nat, radix: nat)
    requires
        radix == 10 || radix == 16,
    ensures
        written(n, radix).len() > 0,
        digits_value(written(n, radix), radix as int) == Some(n as int),
    decreases n,
{
    if n < radix {
        lemma_digit(n as int, radix as int);
    } else {
        let head = written(n / radix, radix);
        let d = (n % radix) as int;
        assert(n / radix < n) by (nonlinear_arith)
            requires
                n >= radix,
                radix >= 2,
        ;
        lemma_written_value(n / radix, radix);
        lemma_digit(d, radix as int);
        let s = written(n, radix);
        assert(s =~= head + digit_char(d));
        assert(s.drop_last() =~= head);
        assert(s.last() == digit_char(d)[0]);
        assert((n / radix) as int * radix as int + d == n) by {
            vstd::arithmetic::div_mod::lemma_fundamental_div_mod(n as int, radix as int);
            vstd::arithmetic::mul::lemma_mul_is_commutative((n / radix) as int, radix as int);
        }
    }
}

proof fn lemma_no_sign(n: nat, radix: nat)
    requires
        radix == 10 || radix == 16,
    ensures
        written(n, radix).len() > 0,
        written(n, radix)[0] != '+',
    decreases n,
{
    if n < radix {
        lemma_digit(n as int, radix as int);
    } else {
        assert(n / radix < n) by (nonlinear_arith)
            requires
                n >= radix,
                radix >= 2,
        ;
        lemma_no_sign(n / radix, radix);
    }
}

/// Capitals are digits like the small letters, a plus sign may stand in front,
/// and text without a digit is no number.
pub proof fn law_number_forms(s: Seq<char>, radix: int, most: int, d: int)
    requires
        10 <= d < 16,
    ensures
        digit_of((0x41 + d - 10) as char, 16) == Some(d),
        digit_of((0x61 + d - 10) as char, 16) == Some(d),
        digit_of((0x41 + d - 10) as char, 10) is None,
        digit_of((0x61 + d - 10) as char, 10) is None,
        number_in(Seq::empty(), radix, most) is None,
        s.len() > 0 && s[0] != '+' ==> number_in(seq!['+'] + s, radix, most) == number_in(
            s,
            radix,
            most,
        ),
        number_in(s, radix, most) matches Some(v) ==> v <= most,
{
    assert((seq!['+'] + s).subrange(1, (s.len() + 1) as int) =~= s);
}

/// A line of the neighbour table gives an entry exactly where it is marked as
/// complete and its address and its hardware address can be read; both are
/// read from its first and its fourth word.
pub proof fn law_neighbour_line(line: &str, r: Option<(u32, [u8; 6])>, k: int)
    requires
        call_ensures(parse_proc_arp_line, (line,), r),
        0 <= k < 6,
    ensures
        r matches Some(e) ==> {
            let f = fields_of(line@);
            let o = parts_of(f[0], '.');
            let flags = number_in(f[2].subrange(2, f[2].len() as int), 16, u32::MAX as int);
            &&& f.len() >= 4
            &&& o.len() >= 4
            &&& number_in(o[0], 10, 255) == Some(e.0 as int / 0x100_0000)
            &&& number_in(o[1], 10, 255) == Some(e.0 as int / 0x1_0000 % 256)
            &&& number_in(o[2], 10, 255) == Some(e.0 as int / 0x100 % 256)
            &&& number_in(o[3], 10, 255) == Some(e.0 as int % 256)
            &&& parts_of(f[3], ':').len() >= 6
            &&& number_in(parts_of(f[3], ':')[k], 16, 255) == Some(e.1[k] as int)
            &&& flags is Some
            &&& (flags->0 / 2) % 2 == 1
            &&& f[2][0] == '0'
            &&& f[2][1] == 'x'
        },
        r is None ==> {
            let f = fields_of(line@);
            ||| f.len() < 4
            ||| f[2].len() < 2
            ||| f[2][0] != '0'
            ||| f[2][1] != 'x'
            ||| number_in(f[2].subrange(2, f[2].len() as int), 16, u32::MAX as int) is None
            ||| (number_in(f[2].subrange(2, f[2].len() as int), 16, u32::MAX as int)->0 / 2) % 2
                == 0
            ||| dotted_quad(f[0]) is None
            ||| colon_bytes(f[3]) is None
        },
{
    if let Some(e) = r {
        let f = fields_of(line@);
        assert(arp_line_entry(f) is Some);
        lemma_quad_numbers(f[0], e.0);
        lemma_colon_numbers(f[3], e.1, k);
    }
}

proof fn lemma_quad_numbers(s: Seq<char>, ip: u32)
    requires
        dotted_quad(s) == Some(ip),
    ensures
        ({
            let o = parts_of(s, '.');
            &&& o.len() >= 4
            &&& number_in(o[0], 10, 255) == Some(ip as int / 0x100_0000)
            &&& number_in(o[1], 10, 255) == Some(ip as int / 0x1_0000 % 256)
            &&& number_in(o[2], 10, 255) == Some(ip as int / 0x100 % 256)
            &&& number_in(o[3], 10, 255) == Some(ip as int % 256)
        }),
{
    let o = parts_of(s, '.');
    lemma_number_bounds(o[0]);
    lemma_number_bounds(o[1]);
    lemma_number_bounds(o[2]);
    lemma_number_bounds(o[3]);
    let a = number_in(o[0], 10, 255)->0;
    let b = number_in(o[1], 10, 255)->0;
    let c = number_in(o[2], 10, 255)->0;
    let d = number_in(o[3], 10, 255)->0;
    lemma_four_bytes(a, b, c, d, ip as int);
}

proof fn lemma_four_bytes(a: int, b: int, c: int, d: int, n: int)
    requires
        0 <= a < 256,
        0 <= b < 256,
        0 <= c < 256,
        0 <= d < 256,
        n == a * 0x100_0000 + b * 0x1_0000 + c * 0x100 + d,
    ensures
        a == n / 0x100_0000,
        b == n / 0x1_0000 % 256,
        c == n / 0x100 % 256,
        d == n % 256,
{
    let low = b * 0x1_0000 + c * 0x100 + d;
    vstd::arithmetic::div_mod::lemma_fundamental_div_mod_converse(n, 0x100_0000, a, low);
    let high = a * 256 + b;
    vstd::arithmetic::div_mod::lemma_fundamental_div_mod_converse(n, 0x1_0000, high, c * 0x100 + d);
    vstd::arithmetic::div_mod::lemma_fundamental_div_mod_converse(high, 256, a, b);
    let most = a * 0x1_0000 + b * 256 + c;
    vstd::arithmetic::div_mod::lemma_fundamental_div_mod_converse(n, 0x100, most, d);
    vstd::arithmetic::div_mod::lemma_fundamental_div_mod_converse(most, 256, high, c);
}

proof fn lemma_colon_numbers(s: Seq<char>, mac: [u8; 6], k: int)
    requires
        colon_bytes(s) == Some(crate::arp::mac_ints(mac)),
        0 <= k < 6,
    ensures
        parts_of(s, ':').len() >= 6,
        number_in(parts_of(s, ':')[k], 16, 255) == Some(mac[k] as int),
{
    let m = colon_bytes(s)->0;
    assert(m[k] == crate::arp::mac_ints(mac)[k]);
    assert(number_in(parts_of(s, ':')[k], 16, 255) is Some);
}

proof fn lemma_number_bounds(s: Seq<char>)
    ensures
        number_in(s, 10, 255) matches Some(v) ==> 0 <= v <= 255,
{
    let d = if s.len() > 0 && s[0] == '+' {
        s.subrange(1, s.len() as int)
    } else {
        s
    };
    lemma_digits_positive(d, 10);
}

proof fn lemma_digits_positive(s: Seq<char>, radix: int)
    requires
        radix == 10 || radix == 16,
    ensures
        digits_value(s, radix) matches Some(v) ==> v >= 0,
    decreases s.len(),
{
    if s.len() > 1 {
        lemma_digits_positive(s.drop_last(), radix);
    }
}

/// A line of the routing table names a gateway only where it is a default
/// route, with destination and mask zero, that is up and leads through a
/// gateway, on the interface that was asked for. The bytes of the number come
/// in reverse order.
pub proof fn law_route_line(line: &str, iface: Option<&str>, r: Option<u32>)
    requires
        call_ensures(parse_proc_route_line, (line, iface), r),
    ensures
        ({
            let f = fields_of(line@);
            let flags = number_in(f[3], 16, u32::MAX as int);
            let gw = number_in(f[2], 16, u32::MAX as int);
            let default_route = f.len() >= 8 && number_in(f[1], 16, u32::MAX as int) == Some(0int)
                && number_in(f[7], 16, u32::MAX as int) == Some(0int) && flags is Some
                && flags->0 % 2 == 1 && (flags->0 / 2) % 2 == 1;
            let wanted = iface is None || (iface->0)@ == f[0];
            &&& r is Some <==> default_route && wanted && gw is Some
            &&& r is Some ==> {
                &&& r->0 as int / 0x100_0000 == gw->0 % 256
                &&& r->0 as int / 0x1_0000 % 256 == gw->0 / 0x100 % 256
                &&& r->0 as int / 0x100 % 256 == gw->0 / 0x1_0000 % 256
                &&& r->0 as int % 256 == gw->0 / 0x100_0000
            }
        }),
{
    let f = fields_of(line@);
    assert(r == route_gateway(f, crate::arp::filter_text(iface)));
    let d = if f[2].len() > 0 && f[2][0] == '+' {
        f[2].subrange(1, f[2].len() as int)
    } else {
        f[2]
    };
    lemma_digits_positive(d, 16);
    if let Some(x) = r {
        lemma_swapped(number_in(f[2], 16, u32::MAX as int)->0 as u32, x);
    }
}

proof fn lemma_swapped(x: u32, y: u32)
    requires
        y == crate::arp::bytes_swapped(x),
    ensures
        y as int / 0x100_0000 == x as int % 256,
        y as int / 0x1_0000 % 256 == x as int / 0x100 % 256,
        y as int / 0x100 % 256 == x as int / 0x1_0000 % 256,
        y as int % 256 == x as int / 0x100_0000,
{
    let a = x as int % 256;
    let b = x as int / 0x100 % 256;
    let c = x as int / 0x1_0000 % 256;
    let d = x as int / 0x100_0000;
    assert(0 <= d < 256);
    lemma_four_bytes(a, b, c, d, y as int);
}

/// Fault settings are read entry by entry: each sets what it names, in place of
/// what an earlier one said, and nothing else. Rates are from zero to one, and
/// without an entry there are no faults.
pub proof fn law_fault_settings(
    front: &[FaultEntry],
    front_bits: &[Option<u32>],
    before: Result<FaultConfig, FaultConfigParseError>,
    entries: &[FaultEntry],
    bits: &[Option<u32>],
    r: Result<FaultConfig, FaultConfigParseError>,
)
    requires
        entries@.len() > 0,
        entries@.len() == bits@.len(),
        front@ == entries@.drop_last(),
        front_bits@ == bits@.drop_last(),
        call_ensures(FaultConfig::parse, (front, front_bits), before),
        call_ensures(FaultConfig::parse, (entries, bits), r),
        before is Ok,
    ensures
        front@.len() == 0 ==> {
            let c = before->Ok_0;
            &&& c.drop_rate == 0 && c.dup_rate == 0 && c.reorder_rate == 0 && c.corrupt_rate == 0
            &&& c.seed == 0
        },
        entries@.last() is Bad ==> r is Err,
        entries@.last() matches FaultEntry::Seed(n) ==> r is Ok && same_rates(
            r->Ok_0,
            before->Ok_0,
            None,
        ) && (r->Ok_0).seed == n,
        entries@.last() matches FaultEntry::Rate { kind, value } ==> match bits@.last() {
            Some(b) => if b <= 0x3f80_0000 || b == 0x8000_0000 {
                &&& r is Ok
                &&& same_rates(r->Ok_0, before->Ok_0, Some(kind))
                &&& (r->Ok_0).seed == (before->Ok_0).seed
                &&& b == match kind {
                    FaultKind::Drop => (r->Ok_0).drop_rate,
                    FaultKind::Dup => (r->Ok_0).dup_rate,
                    FaultKind::Reorder => (r->Ok_0).reorder_rate,
                    FaultKind::Corrupt => (r->Ok_0).corrupt_rate,
                }
            } else {
                r is Err && r->Err_0 is RateOutOfRange
            },
            None => r is Err && r->Err_0 is InvalidValue,
        },
{
    let n = entries@.len() - 1;
    assert(crate::fault_injector::good_up_to(front@, front_bits@, n));
    if r is Ok {
        assert(crate::fault_injector::entry_good(entries@[n], bits@[n]));
    } else {
        let i = choose|i: int|
            0 <= i < entries@.len() && crate::fault_injector::good_up_to(entries@, bits@, i)
                && crate::fault_injector::entry_error(#[trigger] entries@[i], bits@[i], r->Err_0);
        if i < n {
            assert(front@[i] == entries@[i] && front_bits@[i] == bits@[i]);
            assert(crate::fault_injector::entry_good(front@[i], front_bits@[i]));
        }
        assert(i == n);
    }
}

/// All rates but one are the same.
pub open spec fn same_rates(a: FaultConfig, b: FaultConfig, but: Option<FaultKind>) -> bool {
    &&& but == Some(FaultKind::Drop) || a.drop_rate == b.drop_rate
    &&& but == Some(FaultKind::Dup) || a.dup_rate == b.dup_rate
    &&& but == Some(FaultKind::Reorder) || a.reorder_rate == b.reorder_rate
    &&& but == Some(FaultKind::Corrupt) || a.corrupt_rate == b.corrupt_rate
}

/// A seed that was given is used, and otherwise the one of this start.
pub proof fn law_fault_seed(cfg: FaultConfig, nonce: u64, r: FaultInjector)
    requires
        call_ensures(FaultInjector::new, (cfg, nonce), r),
    ensures
        cfg.seed != 0 ==> r.rng.seed == cfg.seed,
        cfg.seed == 0 ==> r.rng.seed == nonce,
        r.cfg == cfg,
        r.reorder_ring is None,
{
}

/// The bytes of a start's number are pairs of hexadecimal digits, the first of
/// each pair being the higher one, with dashes left out.
pub proof fn law_start_number(text: &str, r: Option<[u8; 16]>, i: int)
    requires
        call_ensures(parse_boot_id, (text,), r),
        0 <= i < 16,
    ensures
        r matches Some(b) ==> {
            let d = crate::iss::without_dashes(trimmed(text@));
            &&& d.len() == 32
            &&& digit_of(d[2 * i], 16) == Some(b[i] as int / 16)
            &&& digit_of(d[2 * i + 1], 16) == Some(b[i] as int % 16)
        },
{
    if let Some(b) = r {
        let d = crate::iss::without_dashes(trimmed(text@));
        let s = crate::iss::boot_id_bytes(text@)->0;
        assert(s[i] == b[i] as int);
        assert(crate::iss::digit_value(d[2 * i]) is Some);
        assert(crate::iss::digit_value(d[2 * i + 1]) is Some);
    }
}

/// A secret made of the time holds two numbers of eight bytes each, the least
/// significant byte first.
pub proof fn law_secret_of_the_time(now_ns: u64, r: [u8; 16])
    requires
        call_ensures(crate::iss::fallback_secret, (now_ns,), r),
    ensures
        little_endian(r, 0) == now_ns.wrapping_mul(0x9E37_79B9_7F4A_7C15),
        little_endian(r, 8) == now_ns.wrapping_add(0xBF58_476D_1CE4_E5B9) ^ now_ns.wrapping_mul(
            0x6A09_E667_F3BC_C908,
        ),
{
    let a = now_ns.wrapping_mul(0x9E37_79B9_7F4A_7C15);
    let b = now_ns.wrapping_add(0xBF58_476D_1CE4_E5B9) ^ now_ns.wrapping_mul(
        0x6A09_E667_F3BC_C908,
    );
    lemma_eight_bytes(a);
    lemma_eight_bytes(b);
    assert(r[0] == crate::iss::le_byte(a, 0) && r[1] == crate::iss::le_byte(a, 1));
    assert(r[2] == crate::iss::le_byte(a, 2) && r[3] == crate::iss::le_byte(a, 3));
    assert(r[4] == crate::iss::le_byte(a, 4) && r[5] == crate::iss::le_byte(a, 5));
    assert(r[6] == crate::iss::le_byte(a, 6) && r[7] == crate::iss::le_byte(a, 7));
    assert(r[8] == crate::iss::le_byte(b, 0) && r[9] == crate::iss::le_byte(b, 1));
    assert(r[10] == crate::iss::le_byte(b, 2) && r[11] == crate::iss::le_byte(b, 3));
    assert(r[12] == crate::iss::le_byte(b, 4) && r[13] == crate::iss::le_byte(b, 5));
    assert(r[14] == crate::iss::le_byte(b, 6) && r[15] == crate::iss::le_byte(b, 7));
}

/// The number that eight bytes from `at` on hold, the least significant first.
pub open spec fn little_endian(r: [u8; 16], at: int) -> int {
    r[at] + 0x100 * r[at + 1] + 0x1_0000 * r[at + 2] + 0x100_0000 * r[at + 3] + 0x1_0000_0000 * r[at
        + 4] + 0x100_0000_0000 * r[at + 5] + 0x1_0000_0000_0000 * r[at + 6] + 0x100_0000_0000_0000
        * r[at + 7]
}

proof fn lemma_eight_bytes(x: u64)
    ensures
        x == crate::iss::le_byte(x, 0) + 0x100 * crate::iss::le_byte(x, 1) + 0x1_0000
            * crate::iss::le_byte(x, 2) + 0x100_0000 * crate::iss::le_byte(x, 3) + 0x1_0000_0000
            * crate::iss::le_byte(x, 4) + 0x100_0000_0000 * crate::iss::le_byte(x, 5)
            + 0x1_0000_0000_0000 * crate::iss::le_byte(x, 6) + 0x100_0000_0000_0000
            * crate::iss::le_byte(x, 7),
{
    let q1 = x / 0x100;
    let q2 = x / 0x1_0000;
    let q3 = x / 0x100_0000;
    let q4 = x / 0x1_0000_0000;
    let q5 = x / 0x100_0000_0000;
    let q6 = x / 0x1_0000_0000_0000;
    let q7 = x / 0x100_0000_0000_0000;
    assert(q2 == q1 / 0x100);
    assert(q3 == q2 / 0x100);
    assert(q4 == q3 / 0x100);
    assert(q5 == q4 / 0x100);
    assert(q6 == q5 / 0x100);
    assert(q7 == q6 / 0x100);
    assert(q7 < 0x100);
}

} // verus!
