//! Small character-level helpers shared by the string-producing modules:
//! reading a `str` as characters, building a `String` from characters,
//! decimal rendering and parsing, and Unicode whitespace trimming.

use vstd::prelude::*;
use vstd::string::StrSliceExecFns;

verus! {

/// Builds a `String` holding exactly the characters `v` (std's
/// `FromIterator<char>` for `String`: the characters in order).
#[verifier::external_body]
pub(crate) fn string_from_chars(v: &[char]) -> (r: String)
    ensures
        r@ == v@,
{
    v.iter().collect()
}

/// `char::from_u32`: the character with scalar value `v`, or `None` for a
/// surrogate (`0xD800..=0xDFFF`) or a value above `0x10FFFF`.
#[verifier::external_body]
pub(crate) fn char_from_u32(v: u32) -> (r: Option<char>)
    ensures
        r is Some <==> (v <= 0x10FFFF && !(0xD800 <= v <= 0xDFFF)),
        r matches Some(c) ==> c == v as char,
{
    char::from_u32(v)
}

/// The characters of `s`, in order.
pub fn to_chars(s: &str) -> (r: Vec<char>)
    ensures
        r@ == s@,
{
    let n = s.unicode_len();
    let mut v: Vec<char> = Vec::with_capacity(n);
    let mut i: usize = 0;
    while i < n
        invariant
            n == s@.len(),
            i <= n,
            v@ == s@.take(i as int),
        decreases n - i,
    {
        v.push(s.get_char(i));
        i = i + 1;
        assert(v@ =~= s@.take(i as int));
    }
    assert(s@.take(n as int) =~= s@);
    v
}

/// Whether `a` and `b` hold the same characters.
pub fn str_eq(a: &str, b: &str) -> (r: bool)
    ensures
        r == (a@ == b@),
{
    let n = a.unicode_len();
    if n != b.unicode_len() {
        return false;
    }
    let mut i: usize = 0;
    while i < n
        invariant
            n == a@.len(),
            n == b@.len(),
            i <= n,
            forall|k: int| 0 <= k < i ==> a@[k] == b@[k],
        decreases n - i,
    {
        if a.get_char(i) != b.get_char(i) {
            return false;
        }
        i = i + 1;
    }
    assert(a@ =~= b@);
    true
}

/// Whether `c` is an ASCII digit.
pub open spec fn is_digit(c: char) -> bool {
    '0' <= c <= '9'
}

pub fn is_digit_exec(c: char) -> (r: bool)
    ensures
        r == is_digit(c),
{
    '0' <= c && c <= '9'
}

/// The value of decimal digit `c`.
pub open spec fn digit_value(c: char) -> int {
    c as int - '0' as int
}

/// The value of the decimal digits `s[a..b]`.
pub open spec fn digits_value(s: Seq<char>, a: int, b: int) -> int
    decreases b - a,
{
    if b <= a {
        0
    } else {
        digits_value(s, a, b - 1) * 10 + digit_value(s[b - 1])
    }
}

/// The decimal digits of `v` (no leading zeros; `0` is `"0"`).
pub open spec fn decimal(v: nat) -> Seq<char>
    decreases v,
{
    if v < 10 {
        seq![(v + '0' as int) as char]
    } else {
        decimal(v / 10).push(((v % 10) + '0' as int) as char)
    }
}

/// The decimal digits of `v` left-padded with `'0'` to at least `width`.
pub open spec fn zero_padded(v: nat, width: int) -> Seq<char> {
    let d = decimal(v);
    if d.len() < width {
        Seq::new((width - d.len()) as nat, |i: int| '0') + d
    } else {
        d
    }
}

/// The decimal digits of `v`.
pub fn decimal_chars(v: u64) -> (r: Vec<char>)
    ensures
        r@ == decimal(v as nat),
    decreases v,
{
    if v < 10 {
        let c = digit_char(v);
        let mut r = Vec::new();
        r.push(c);
        assert(r@ =~= decimal(v as nat));
        r
    } else {
        let mut r = decimal_chars(v / 10);
        r.push(digit_char(v % 10));
        r
    }
}

/// The decimal digits of a 128-bit `v`.
pub fn decimal_chars_wide(v: u128) -> (r: Vec<char>)
    ensures
        r@ == decimal(v as nat),
    decreases v,
{
    if v < 10 {
        let c = digit_char(v as u64);
        let mut r = Vec::new();
        r.push(c);
        assert(r@ =~= decimal(v as nat));
        r
    } else {
        let mut r = decimal_chars_wide(v / 10);
        r.push(digit_char((v % 10) as u64));
        r
    }
}

/// The character of decimal digit `d`.
pub fn digit_char(d: u64) -> (c: char)
    requires
        d < 10,
    ensures
        c == (d + '0' as int) as char,
{
    if d == 0 {
        '0'
    } else if d == 1 {
        '1'
    } else if d == 2 {
        '2'
    } else if d == 3 {
        '3'
    } else if d == 4 {
        '4'
    } else if d == 5 {
        '5'
    } else if d == 6 {
        '6'
    } else if d == 7 {
        '7'
    } else if d == 8 {
        '8'
    } else {
        '9'
    }
}

/// Appends the decimal digits of `v`, left-padded with `'0'` to `width`.
pub fn push_zero_padded(out: &mut Vec<char>, v: u64, width: usize)
    ensures
        final(out)@ == old(out)@ + zero_padded(v as nat, width as int),
{
    let d = decimal_chars(v);
    let ghost start = out@;
    if d.len() < width {
        let pad = width - d.len();
        let mut i: usize = 0;
        while i < pad
            invariant
                i <= pad,
                out@ == start + Seq::new(i as nat, |j: int| '0'),
            decreases pad - i,
        {
            out.push('0');
            i = i + 1;
            assert(out@ =~= start + Seq::new(i as nat, |j: int| '0'));
        }
    }
    let mut j: usize = 0;
    let ghost mid = out@;
    while j < d.len()
        invariant
            j <= d@.len(),
            out@ == mid + d@.take(j as int),
        decreases d@.len() - j,
    {
        out.push(d[j]);
        j = j + 1;
        assert(out@ =~= mid + d@.take(j as int));
    }
    assert(d@.take(d@.len() as int) =~= d@);
    assert(out@ =~= start + zero_padded(v as nat, width as int));
}

/// `s` split at every `sep` (as `str::split` does: `n` separators give
/// `n + 1` pieces, empty ones included).
pub open spec fn split_on(s: Seq<char>, sep: char) -> Seq<Seq<char>>
    decreases s.len(),
{
    if s.len() == 0 {
        seq![Seq::empty()]
    } else {
        let p = split_on(s.drop_last(), sep);
        if s.last() == sep {
            p.push(Seq::empty())
        } else {
            p.update(p.len() - 1, p.last().push(s.last()))
        }
    }
}

/// The pieces of `s` between separators `sep`, as `str::split` yields them.
pub fn split_chars(s: &[char], sep: char) -> (r: Vec<Vec<char>>)
    ensures
        r@.len() == split_on(s@, sep).len(),
        forall|i: int| 0 <= i < r@.len() ==> #[trigger] r@[i]@ == split_on(s@, sep)[i],
{
    let mut out: Vec<Vec<char>> = Vec::new();
    let mut cur: Vec<char> = Vec::new();
    let mut i: usize = 0;
    while i < s.len()
        invariant
            i <= s@.len(),
            split_on(s@.take(i as int), sep).len() == out@.len() + 1,
            forall|j: int| 0 <= j < out@.len() ==> #[trigger] out@[j]@ == split_on(s@.take(i as int), sep)[j],
            split_on(s@.take(i as int), sep).last() == cur@,
        decreases s@.len() - i,
    {
        let c = s[i];
        assert(s@.take(i + 1).drop_last() =~= s@.take(i as int));
        assert(s@.take(i + 1).last() == c);
        if c == sep {
            out.push(cur);
            cur = Vec::new();
            assert(cur@ =~= Seq::<char>::empty());
        } else {
            cur.push(c);
        }
        i = i + 1;
    }
    assert(s@.take(s@.len() as int) =~= s@);
    out.push(cur);
    out
}

/// The value `str::parse` gives for an unsigned integer type whose largest
/// value is `max`: an optional leading `+`, then one or more ASCII digits,
/// the value no larger than `max`.
pub open spec fn parse_uint(s: Seq<char>, max: int) -> Option<int> {
    let a: int = if s.len() > 0 && s[0] == '+' {
        1
    } else {
        0
    };
    if s.len() == 0 || a == s.len() {
        None
    } else if !(forall|i: int| a <= i < s.len() ==> is_digit(#[trigger] s[i])) {
        None
    } else if digits_value(s, a, s.len() as int) > max {
        None
    } else {
        Some(digits_value(s, a, s.len() as int))
    }
}

proof fn lemma_digits_value_nonneg(s: Seq<char>, a: int, b: int)
    requires
        forall|i: int| a <= i < b ==> is_digit(#[trigger] s[i]),
    ensures
        digits_value(s, a, b) >= 0,
    decreases b - a,
{
    if b > a {
        lemma_digits_value_nonneg(s, a, b - 1);
    }
}

/// Parses `s` as an unsigned integer no larger than `max`, as `str::parse`
/// does for the unsigned type whose largest value is `max`.
pub fn parse_uint_exec(s: &[char], max: u64) -> (r: Option<u64>)
    ensures
        match r {
            Some(v) => parse_uint(s@, max as int) == Some(v as int),
            None => parse_uint(s@, max as int) is None,
        },
{
    let n = s.len();
    let a: usize = if n > 0 && s[0] == '+' {
        1
    } else {
        0
    };
    if n == 0 || a == n {
        return None;
    }
    let mut v: u64 = 0;
    let mut over = false;
    let mut i = a;
    while i < n
        invariant
            n == s@.len(),
            0 < n,
            a < n,
            a as int == (if s@[0] == '+' {
                1int
            } else {
                0int
            }),
            a <= i <= n,
            forall|j: int| a <= j < i ==> is_digit(#[trigger] s@[j]),
            over ==> digits_value(s@, a as int, i as int) > max,
            !over ==> v == digits_value(s@, a as int, i as int),
            !over ==> v <= max,
        decreases n - i,
    {
        let c = s[i];
        if !is_digit_exec(c) {
            assert(!is_digit(s@[i as int]));
            return None;
        }
        let d = (c as u32 - '0' as u32) as u64;
        proof {
            lemma_digits_value_nonneg(s@, a as int, i as int);
        }
        if !over {
            if d > max || v > (max - d) / 10 {
                proof {
                    assert(v * 10 + d > max) by (nonlinear_arith)
                        requires
                            d > max || v > (max - d) / 10,
                            d <= 9,
                            v >= 0,
                    ;
                }
                over = true;
            } else {
                proof {
                    assert(v * 10 + d <= max) by (nonlinear_arith)
                        requires
                            v <= (max - d) / 10,
                            d <= max,
                            d <= 9,
                    ;
                }
                v = v * 10 + d;
            }
        }
        i = i + 1;
    }
    assert(forall|j: int| a <= j < s@.len() ==> is_digit(#[trigger] s@[j]));
    if over {
        None
    } else {
        Some(v)
    }
}

/// Whether `c` has the Unicode `White_Space` property (what `str::trim`
/// removes).
pub open spec fn is_whitespace(c: char) -> bool {
    ||| '\u{9}' <= c <= '\u{D}'
    ||| c == ' '
    ||| c == '\u{85}'
    ||| c == '\u{A0}'
    ||| c == '\u{1680}'
    ||| '\u{2000}' <= c <= '\u{200A}'
    ||| c == '\u{2028}'
    ||| c == '\u{2029}'
    ||| c == '\u{202F}'
    ||| c == '\u{205F}'
    ||| c == '\u{3000}'
}

pub fn is_whitespace_exec(c: char) -> (r: bool)
    ensures
        r == is_whitespace(c),
{
    ('\u{9}' <= c && c <= '\u{D}') || c == ' ' || c == '\u{85}' || c == '\u{A0}' || c
        == '\u{1680}' || ('\u{2000}' <= c && c <= '\u{200A}') || c == '\u{2028}' || c == '\u{2029}'
        || c == '\u{202F}' || c == '\u{205F}' || c == '\u{3000}'
}

/// Index of the first non-whitespace character of `s` at or after `i`.
pub open spec fn skip_ws_from(s: Seq<char>, i: int) -> int
    decreases s.len() - i,
{
    if i < s.len() && is_whitespace(s[i]) {
        skip_ws_from(s, i + 1)
    } else {
        i
    }
}

/// One past the last non-whitespace character of `s` before `j`, no lower
/// than `lo`.
pub open spec fn trim_end_from(s: Seq<char>, lo: int, j: int) -> int
    decreases j - lo,
{
    if j > lo && is_whitespace(s[j - 1]) {
        trim_end_from(s, lo, j - 1)
    } else {
        j
    }
}

/// `s` without leading and trailing whitespace.
pub open spec fn trimmed(s: Seq<char>) -> Seq<char> {
    let a = skip_ws_from(s, 0);
    let b = trim_end_from(s, a, s.len() as int);
    s.subrange(a, b)
}

proof fn lemma_skip_ws_bounds(s: Seq<char>, i: int)
    requires
        0 <= i <= s.len(),
    ensures
        i <= skip_ws_from(s, i) <= s.len(),
    decreases s.len() - i,
{
    if i < s.len() && is_whitespace(s[i]) {
        lemma_skip_ws_bounds(s, i + 1);
    }
}

proof fn lemma_trim_end_bounds(s: Seq<char>, lo: int, j: int)
    requires
        lo <= j,
    ensures
        lo <= trim_end_from(s, lo, j) <= j,
    decreases j - lo,
{
    if j > lo && is_whitespace(s[j - 1]) {
        lemma_trim_end_bounds(s, lo, j - 1);
    }
}

/// The characters of `s` without leading and trailing whitespace.
pub fn trim_chars(s: &[char]) -> (r: Vec<char>)
    ensures
        r@ == trimmed(s@),
{
    let n = s.len();
    let mut a: usize = 0;
    while a < n && is_whitespace_exec(s[a])
        invariant
            n == s@.len(),
            a <= n,
            skip_ws_from(s@, 0) == skip_ws_from(s@, a as int),
        decreases n - a,
    {
        a = a + 1;
    }
    let mut b: usize = n;
    while b > a && is_whitespace_exec(s[b - 1])
        invariant
            n == s@.len(),
            a <= b <= n,
            a == skip_ws_from(s@, 0),
            trim_end_from(s@, a as int, n as int) == trim_end_from(s@, a as int, b as int),
        decreases b - a,
    {
        b = b - 1;
    }
    let mut r: Vec<char> = Vec::with_capacity(b - a);
    let mut i = a;
    while i < b
        invariant
            a <= i <= b <= n,
            n == s@.len(),
            r@ == s@.subrange(a as int, i as int),
        decreases b - i,
    {
        r.push(s[i]);
        i = i + 1;
        assert(r@ =~= s@.subrange(a as int, i as int));
    }
    r
}

/// `a` followed by the characters `b`.
pub fn push_all(out: &mut Vec<char>, b: &[char])
    ensures
        final(out)@ == old(out)@ + b@,
{
    let ghost start = out@;
    let mut i: usize = 0;
    while i < b.len()
        invariant
            i <= b@.len(),
            out@ == start + b@.take(i as int),
        decreases b@.len() - i,
    {
        out.push(b[i]);
        i = i + 1;
        assert(out@ =~= start + b@.take(i as int));
    }
    assert(b@.take(b@.len() as int) =~= b@);
}

/// Appends the characters of `s`.
pub fn push_str(out: &mut Vec<char>, s: &str)
    ensures
        final(out)@ == old(out)@ + s@,
{
    let v = to_chars(s);
    push_all(out, v.as_slice());
}


/// Whether `x` appears in `t` starting at index `a`.
pub open spec fn occurs_at(t: Seq<char>, a: int, x: Seq<char>) -> bool {
    0 <= a && a + x.len() <= t.len() && t.subrange(a, a + x.len()) == x
}

/// Whether `x` appears somewhere in `t`.
pub open spec fn contains_text(t: Seq<char>, x: Seq<char>) -> bool {
    exists|a: int| #[trigger] occurs_at(t, a, x)
}

} // verus!
