//! Text: comparison, fields, numbers.
use vstd::prelude::*;
use vstd::string::StringSliceAdditionalSpecFns;

verus! {

/// Whether two texts are the same.
pub fn str_eq(a: &str, b: &str) -> (r: bool)
    ensures
        r == (a@ == b@),
{
    let x: &[u8] = a.as_bytes();
    let y: &[u8] = b.as_bytes();
    proof {
        vstd::utf8::encode_utf8_decode_utf8(a@);
        vstd::utf8::encode_utf8_decode_utf8(b@);
    }
    if x.len() != y.len() {
        return false;
    }
    let mut i: usize = 0;
    while i < x.len()
        invariant
            i <= x.len(),
            x.len() == y.len(),
            x@ == a.spec_bytes(),
            y@ == b.spec_bytes(),
            forall|k: int| 0 <= k < i ==> x[k] == y[k],
        decreases x.len() - i,
    {
        if x[i] != y[i] {
            return false;
        }
        i += 1;
    }
    assert(x@ =~= y@);
    true
}

/// The characters of a text.
pub fn chars_of(s: &str) -> (r: Vec<char>)
    ensures
        r@ == s@,
{
    let mut out: Vec<char> = Vec::new();
    for c in it: s.chars()
        invariant
            it.seq() == s@,
            out@ == it.seq().take(it.index()),
    {
        out.push(c);
        assert(it.seq().take(it.index() + 1) =~= it.seq().take(it.index()).push(c));
    }
    assert(s@.take(s@.len() as int) =~= s@);
    out
}

/// Whether two runs of characters are the same.
pub fn chars_eq(a: &[char], b: &[char]) -> (r: bool)
    ensures
        r == (a@ == b@),
{
    if a.len() != b.len() {
        return false;
    }
    let mut i: usize = 0;
    while i < a.len()
        invariant
            i <= a.len(),
            a.len() == b.len(),
            forall|k: int| 0 <= k < i ==> a[k] == b[k],
        decreases a.len() - i,
    {
        if a[i] != b[i] {
            return false;
        }
        i += 1;
    }
    assert(a@ =~= b@);
    true
}

/// A white-space character, as Unicode defines it.
pub open spec fn is_space(c: char) -> bool {
    let u = c as u32;
    ||| 0x9 <= u <= 0xd
    ||| u == 0x20
    ||| u == 0x85
    ||| u == 0xa0
    ||| u == 0x1680
    ||| 0x2000 <= u <= 0x200a
    ||| u == 0x2028
    ||| u == 0x2029
    ||| u == 0x202f
    ||| u == 0x205f
    ||| u == 0x3000
}

/// Whether a character is white space.
pub fn space(c: char) -> (r: bool)
    ensures
        r == is_space(c),
{
    let u: u32 = c as u32;
    (0x9 <= u && u <= 0xd) || u == 0x20 || u == 0x85 || u == 0xa0 || u == 0x1680 || (0x2000 <= u
        && u <= 0x200a) || u == 0x2028 || u == 0x2029 || u == 0x202f || u == 0x205f || u == 0x3000
}

/// The length of the run of white space that a text begins with.
pub open spec fn leading_space(s: Seq<char>) -> int
    decreases s.len(),
{
    if s.len() > 0 && is_space(s[0]) {
        1 + leading_space(s.subrange(1, s.len() as int))
    } else {
        0
    }
}

/// The length of the run without white space that a text begins with.
pub open spec fn leading_word(s: Seq<char>) -> int
    decreases s.len(),
{
    if s.len() > 0 && !is_space(s[0]) {
        1 + leading_word(s.subrange(1, s.len() as int))
    } else {
        0
    }
}

proof fn lemma_leading_bounds(s: Seq<char>)
    ensures
        0 <= leading_space(s) <= s.len(),
        0 <= leading_word(s) <= s.len(),
    decreases s.len(),
{
    if s.len() > 0 {
        lemma_leading_bounds(s.subrange(1, s.len() as int));
    }
}

/// The fields of a text, which white space separates.
pub open spec fn fields_of(s: Seq<char>) -> Seq<Seq<char>>
    decreases s.len(),
{
    let a = leading_space(s);
    let rest = s.subrange(a, s.len() as int);
    let w = leading_word(rest);
    if 0 <= a <= s.len() && 0 < w <= rest.len() {
        seq![rest.take(w)] + fields_of(rest.subrange(w, rest.len() as int))
    } else {
        Seq::empty()
    }
}

/// The texts that a list of runs of characters holds.
pub open spec fn texts(v: Seq<Vec<char>>) -> Seq<Seq<char>> {
    Seq::new(v.len(), |i: int| v[i]@)
}

fn skip_space(s: &[char], from: usize) -> (r: usize)
    requires
        from <= s@.len(),
    ensures
        from <= r <= s@.len(),
        r - from == leading_space(s@.subrange(from as int, s@.len() as int)),
{
    let mut i: usize = from;
    let ghost rest = s@.subrange(from as int, s@.len() as int);
    assert(s@.subrange(from as int, s@.len() as int) =~= rest);
    while i < s.len() && space(s[i])
        invariant
            from <= i <= s@.len(),
            leading_space(rest) == (i - from) + leading_space(
                s@.subrange(i as int, s@.len() as int),
            ),
        decreases s@.len() - i,
    {
        let ghost t = s@.subrange(i as int, s@.len() as int);
        assert(t[0] == s@[i as int]);
        assert(t.subrange(1, t.len() as int) =~= s@.subrange(i + 1, s@.len() as int));
        i += 1;
    }
    proof {
        let t = s@.subrange(i as int, s@.len() as int);
        if t.len() > 0 {
            assert(t[0] == s@[i as int]);
        }
    }
    i
}

fn skip_word(s: &[char], from: usize) -> (r: usize)
    requires
        from <= s@.len(),
    ensures
        from <= r <= s@.len(),
        r - from == leading_word(s@.subrange(from as int, s@.len() as int)),
{
    let mut i: usize = from;
    let ghost rest = s@.subrange(from as int, s@.len() as int);
    assert(s@.subrange(from as int, s@.len() as int) =~= rest);
    while i < s.len() && !space(s[i])
        invariant
            from <= i <= s@.len(),
            leading_word(rest) == (i - from) + leading_word(
                s@.subrange(i as int, s@.len() as int),
            ),
        decreases s@.len() - i,
    {
        let ghost t = s@.subrange(i as int, s@.len() as int);
        assert(t[0] == s@[i as int]);
        assert(t.subrange(1, t.len() as int) =~= s@.subrange(i + 1, s@.len() as int));
        i += 1;
    }
    proof {
        let t = s@.subrange(i as int, s@.len() as int);
        if t.len() > 0 {
            assert(t[0] == s@[i as int]);
        }
    }
    i
}

/// A copy of the characters from `from` up to `to`.
pub fn piece(s: &[char], from: usize, to: usize) -> (r: Vec<char>)
    requires
        from <= to <= s@.len(),
    ensures
        r@ == s@.subrange(from as int, to as int),
{
    let mut out: Vec<char> = Vec::new();
    let mut i: usize = from;
    while i < to
        invariant
            from <= i <= to <= s@.len(),
            out@ == s@.subrange(from as int, i as int),
        decreases to - i,
    {
        out.push(s[i]);
        assert(s@.subrange(from as int, i + 1) =~= s@.subrange(from as int, i as int).push(
            s@[i as int],
        ));
        i += 1;
    }
    out
}

/// Splits a text into its fields.
pub fn split_fields(s: &[char]) -> (r: Vec<Vec<char>>)
    ensures
        texts(r@) == fields_of(s@),
{
    let mut out: Vec<Vec<char>> = Vec::new();
    let mut i: usize = 0;
    let ghost all = fields_of(s@);
    proof {
        assert(s@.subrange(0, s@.len() as int) =~= s@);
        assert(texts(out@) + all =~= all);
    }
    loop
        invariant
            i <= s@.len(),
            texts(out@) + fields_of(s@.subrange(i as int, s@.len() as int)) == all,
        ensures
            texts(out@) == all,
        decreases s@.len() - i,
    {
        let a: usize = skip_space(s, i);
        let b: usize = skip_word(s, a);
        let ghost t = s@.subrange(i as int, s@.len() as int);
        let ghost rest = t.subrange(leading_space(t), t.len() as int);
        proof {
            lemma_leading_bounds(t);
            assert(rest =~= s@.subrange(a as int, s@.len() as int));
            lemma_leading_bounds(rest);
        }
        if a == b {
            assert(texts(out@) + Seq::<Seq<char>>::empty() =~= texts(out@));
            break;
        }
        let ghost before = texts(out@);
        out.push(piece(s, a, b));
        proof {
            let w = leading_word(rest);
            assert(rest.take(w) =~= s@.subrange(a as int, b as int));
            assert(rest.subrange(w, rest.len() as int) =~= s@.subrange(b as int, s@.len() as int));
            assert(texts(out@) =~= before.push(s@.subrange(a as int, b as int)));
            let tail = fields_of(s@.subrange(b as int, s@.len() as int));
            assert(before + (seq![rest.take(w)] + tail) =~= texts(out@) + tail);
        }
        i = b;
    }
    out
}

/// The parts of a text between the occurrences of `sep`: one more part than
/// there are occurrences.
pub open spec fn parts_of(s: Seq<char>, sep: char) -> Seq<Seq<char>>
    decreases s.len(),
{
    let n = run_without(s, sep);
    if 0 <= n < s.len() {
        seq![s.take(n)] + parts_of(s.subrange(n + 1, s.len() as int), sep)
    } else {
        seq![s]
    }
}

/// The length of the run without `sep` that a text begins with.
pub open spec fn run_without(s: Seq<char>, sep: char) -> int
    decreases s.len(),
{
    if s.len() > 0 && s[0] != sep {
        1 + run_without(s.subrange(1, s.len() as int), sep)
    } else {
        0
    }
}

proof fn lemma_run_without_bounds(s: Seq<char>, sep: char)
    ensures
        0 <= run_without(s, sep) <= s.len(),
    decreases s.len(),
{
    if s.len() > 0 {
        lemma_run_without_bounds(s.subrange(1, s.len() as int), sep);
    }
}

/// Finds the next `sep` from `from` on; the length if there is none.
pub fn find_sep(s: &[char], from: usize, sep: char) -> (r: usize)
    requires
        from <= s@.len(),
    ensures
        from <= r <= s@.len(),
        r - from == run_without(s@.subrange(from as int, s@.len() as int), sep),
{
    let mut i: usize = from;
    let ghost rest = s@.subrange(from as int, s@.len() as int);
    assert(s@.subrange(from as int, s@.len() as int) =~= rest);
    while i < s.len() && s[i] != sep
        invariant
            from <= i <= s@.len(),
            run_without(rest, sep) == (i - from) + run_without(
                s@.subrange(i as int, s@.len() as int),
                sep,
            ),
        decreases s@.len() - i,
    {
        let ghost t = s@.subrange(i as int, s@.len() as int);
        assert(t[0] == s@[i as int]);
        assert(t.subrange(1, t.len() as int) =~= s@.subrange(i + 1, s@.len() as int));
        i += 1;
    }
    proof {
        let t = s@.subrange(i as int, s@.len() as int);
        if t.len() > 0 {
            assert(t[0] == s@[i as int]);
        }
    }
    i
}

/// Splits a text at every `sep`.
pub fn split_at_sep(s: &[char], sep: char) -> (r: Vec<Vec<char>>)
    ensures
        texts(r@) == parts_of(s@, sep),
{
    let mut out: Vec<Vec<char>> = Vec::new();
    let mut i: usize = 0;
    let ghost all = parts_of(s@, sep);
    proof {
        assert(s@.subrange(0, s@.len() as int) =~= s@);
        assert(texts(out@) + all =~= all);
    }
    loop
        invariant_except_break
            i <= s@.len(),
            texts(out@) + parts_of(s@.subrange(i as int, s@.len() as int), sep) == all,
        ensures
            texts(out@) == all,
        decreases s@.len() - i,
    {
        let b: usize = find_sep(s, i, sep);
        let ghost t = s@.subrange(i as int, s@.len() as int);
        let ghost before = texts(out@);
        out.push(piece(s, i, b));
        proof {
            lemma_run_without_bounds(t, sep);
            assert(texts(out@) =~= before.push(s@.subrange(i as int, b as int)));
        }
        if b == s.len() {
            proof {
                assert(t =~= s@.subrange(i as int, b as int));
                assert(before + seq![t] =~= texts(out@));
            }
            break;
        }
        proof {
            let n = run_without(t, sep);
            assert(t.take(n) =~= s@.subrange(i as int, b as int));
            assert(t.subrange(n + 1, t.len() as int) =~= s@.subrange(b + 1, s@.len() as int));
            let tail = parts_of(s@.subrange(b + 1, s@.len() as int), sep);
            assert(before + (seq![t.take(n)] + tail) =~= texts(out@) + tail);
        }
        i = b + 1;
    }
    out
}

/// A text without the white space at both its ends.
pub open spec fn trimmed(s: Seq<char>) -> Seq<char> {
    let t = s.subrange(leading_space(s), s.len() as int);
    trimmed_end(t)
}

/// A text without the white space at its end.
pub open spec fn trimmed_end(s: Seq<char>) -> Seq<char>
    decreases s.len(),
{
    if s.len() > 0 && is_space(s.last()) {
        trimmed_end(s.drop_last())
    } else {
        s
    }
}

/// Takes the white space off both ends of a text.
pub fn trim(s: &[char]) -> (r: Vec<char>)
    ensures
        r@ == trimmed(s@),
{
    let a: usize = skip_space(s, 0);
    let mut b: usize = s.len();
    let ghost t = s@.subrange(a as int, s@.len() as int);
    proof {
        assert(s@.subrange(0, s@.len() as int) =~= s@);
        assert(t =~= s@.subrange(a as int, b as int));
    }
    while b > a && space(s[b - 1])
        invariant
            a <= b <= s@.len(),
            trimmed_end(t) == trimmed_end(s@.subrange(a as int, b as int)),
        decreases b,
    {
        let ghost u = s@.subrange(a as int, b as int);
        assert(u.last() == s@[b - 1]);
        assert(u.drop_last() =~= s@.subrange(a as int, b - 1));
        b -= 1;
    }
    proof {
        let u = s@.subrange(a as int, b as int);
        if u.len() > 0 {
            assert(u.last() == s@[b - 1]);
        }
    }
    piece(s, a, b)
}

/// The value of a digit in a base up to 16, if it is one.
pub open spec fn digit_of(c: char, radix: int) -> Option<int> {
    let u = c as u32;
    let v = if '0' as u32 <= u <= '9' as u32 {
        u - '0' as u32
    } else if 'a' as u32 <= u <= 'f' as u32 {
        u - 'a' as u32 + 10
    } else if 'A' as u32 <= u <= 'F' as u32 {
        u - 'A' as u32 + 10
    } else {
        99
    };
    if v < radix {
        Some(v)
    } else {
        None
    }
}

/// The number that a run of digits stands for; none for an empty run or one
/// with another character in it.
pub open spec fn digits_value(s: Seq<char>, radix: int) -> Option<int>
    decreases s.len(),
{
    if s.len() == 0 {
        None
    } else if s.len() == 1 {
        digit_of(s[0], radix)
    } else {
        match (digits_value(s.drop_last(), radix), digit_of(s.last(), radix)) {
            (Some(h), Some(d)) => Some(h * radix + d),
            _ => None,
        }
    }
}

/// The number that a text stands for: digits, behind a plus sign or not, and
/// not above `max`.
pub open spec fn number_in(s: Seq<char>, radix: int, max: int) -> Option<int> {
    let d = if s.len() > 0 && s[0] == '+' {
        s.subrange(1, s.len() as int)
    } else {
        s
    };
    match digits_value(d, radix) {
        Some(v) => if v <= max {
            Some(v)
        } else {
            None
        },
        None => None,
    }
}

fn digit(c: char, radix: u64) -> (r: Option<u64>)
    requires
        2 <= radix <= 16,
    ensures
        match r {
            Some(v) => digit_of(c, radix as int) == Some(v as int) && v < radix,
            None => digit_of(c, radix as int) is None,
        },
{
    let u: u32 = c as u32;
    let v: u32 = if '0' as u32 <= u && u <= '9' as u32 {
        u - '0' as u32
    } else if 'a' as u32 <= u && u <= 'f' as u32 {
        u - 'a' as u32 + 10
    } else if 'A' as u32 <= u && u <= 'F' as u32 {
        u - 'A' as u32 + 10
    } else {
        99
    };
    if (v as u64) < radix {
        Some(v as u64)
    } else {
        None
    }
}

proof fn lemma_digits_prefix(s: Seq<char>, radix: int, n: int)
    requires
        2 <= radix,
        1 <= n <= s.len(),
        digits_value(s, radix) is Some,
    ensures
        digits_value(s.take(n), radix) is Some,
        0 <= digits_value(s.take(n), radix)->0 <= digits_value(s, radix)->0,
    decreases s.len(),
{
    lemma_digits_nonneg(s, radix);
    if n == s.len() {
        assert(s.take(n) =~= s);
    } else {
        lemma_digits_prefix(s.drop_last(), radix, n);
        lemma_digits_nonneg(s.drop_last(), radix);
        assert(s.drop_last().take(n) =~= s.take(n));
        let h = digits_value(s.drop_last(), radix)->0;
        let d = digit_of(s.last(), radix)->0;
        assert(h <= h * radix + d) by (nonlinear_arith)
            requires
                h >= 0,
                radix >= 2,
                d >= 0,
        ;
    }
}

proof fn lemma_digits_nonneg(s: Seq<char>, radix: int)
    requires
        2 <= radix,
    ensures
        digits_value(s, radix) is Some ==> digits_value(s, radix)->0 >= 0,
    decreases s.len(),
{
    if s.len() > 1 {
        lemma_digits_nonneg(s.drop_last(), radix);
        if digits_value(s, radix) is Some {
            let h = digits_value(s.drop_last(), radix)->0;
            let d = digit_of(s.last(), radix)->0;
            assert(h * radix + d >= 0) by (nonlinear_arith)
                requires
                    h >= 0,
                    radix >= 2,
                    d >= 0,
            ;
        }
    }
}

/// Reads a number that does not exceed `max`, in base 10 or 16 or another up
/// to 16.
pub fn parse_number(s: &[char], radix: u64, max: u64) -> (r: Option<u64>)
    requires
        2 <= radix <= 16,
    ensures
        match r {
            Some(v) => number_in(s@, radix as int, max as int) == Some(v as int) && v <= max,
            None => number_in(s@, radix as int, max as int) is None,
        },
{
    let start: usize = if s.len() > 0 && s[0] == '+' {
        1
    } else {
        0
    };
    let ghost d = if s@.len() > 0 && s@[0] == '+' {
        s@.subrange(1, s@.len() as int)
    } else {
        s@
    };
    assert(d =~= s@.subrange(start as int, s@.len() as int));
    if start == s.len() {
        return None;
    }
    let mut i: usize = start;
    let mut v: u128 = 0;
    while i < s.len()
        invariant
            start <= i <= s@.len(),
            start < s@.len(),
            2 <= radix <= 16,
            v <= max,
            d == s@.subrange(start as int, s@.len() as int),
            number_in(s@, radix as int, max as int) == (match digits_value(d, radix as int) {
                Some(x) => if x <= max {
                    Some(x)
                } else {
                    None
                },
                None => None,
            }),
            i > start ==> digits_value(d.take(i - start), radix as int) == Some(v as int),
            i == start ==> v == 0,
        decreases s@.len() - i,
    {
        let ghost p = d.take(i - start + 1);
        proof {
            assert(p.drop_last() =~= d.take(i - start));
            assert(p.last() == s@[i as int]);
            if digits_value(d, radix as int) is Some {
                lemma_digits_prefix(d, radix as int, i - start + 1);
            }
        }
        match digit(s[i], radix) {
            None => {
                return None;
            },
            Some(k) => {
                assert(0 <= v * radix <= 0xffff_ffff_ffff_ffff * 16) by (nonlinear_arith)
                    requires
                        0 <= v <= 0xffff_ffff_ffff_ffff,
                        0 <= radix <= 16,
                ;
                let n: u128 = v * radix as u128 + k as u128;
                assert(digits_value(p, radix as int) == Some(n as int)) by {
                    if i == start {
                        assert(p.len() == 1);
                        assert(v * radix == 0) by (nonlinear_arith)
                            requires
                                v == 0,
                        ;
                    }
                }
                if n > max as u128 {
                    return None;
                }
                v = n;
            },
        }
        i += 1;
    }
    assert(d.take(i - start) =~= d);
    Some(v as u64)
}

/// `String::push`: appends one character.
pub assume_specification[ String::push ](s: &mut String, ch: char)
    ensures
        final(s)@ == old(s)@.push(ch),
;

/// The text made of these characters.
pub fn string_of(chars: &[char]) -> (r: String)
    ensures
        r@ == chars@,
{
    let mut out: String = String::new();
    let mut i: usize = 0;
    while i < chars.len()
        invariant
            i <= chars@.len(),
            out@ == chars@.take(i as int),
        decreases chars@.len() - i,
    {
        out.push(chars[i]);
        assert(chars@.take(i + 1) =~= chars@.take(i as int).push(chars@[i as int]));
        i += 1;
    }
    assert(chars@.take(i as int) =~= chars@);
    out
}

} // verus!
