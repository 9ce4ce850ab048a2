//! Filename templates for saved captures.
//!
//! A template mixes `strftime` date/time specifiers (expanded by `chrono`)
//! with counter tokens `%[#][0-9]*n`: `%n` is a collision-avoidance counter,
//! `%#n` a persistent counter, and the optional digits give the zero-padded
//! width (4 when omitted). Counter tokens are first replaced by private-use
//! placeholder characters so the date expansion cannot touch them, then
//! substituted with their values; finally characters that Windows forbids
//! in filenames become `_`.

use std::fmt::Write;

use vstd::prelude::*;
use vstd::string::StringExecFns;

use crate::text::{
    char_from_u32, decimal, digit_value, digits_value, is_digit, is_digit_exec, push_zero_padded,
    string_from_chars, to_chars, zero_padded,
};

verus! {

/// One counter token of a template (the parse of `%[#][0-9]*n`).
#[derive(Clone, Copy, Debug, PartialEq, Eq)]
pub struct CounterToken {
    /// Whether it has a `#` (persistent counter).
    pub persistent: bool,
    /// Zero-padding width (the `4` in `%04n`; 4 when omitted).
    pub width: usize,
}

/// The largest token index that still has a placeholder character.
pub const MAX_PLACEHOLDER_INDEX: usize = 0x101FFF;

/// The placeholder character standing for token `i` (a Unicode private-use
/// code point, which never collides with a `strftime` specifier or with
/// ordinary input).
pub open spec fn placeholder(i: int) -> char {
    (0xE000 + i) as char
}

/// The placeholder character for counter token `i`.
pub fn placeholder_char(i: usize) -> (c: char)
    requires
        i <= MAX_PLACEHOLDER_INDEX,
    ensures
        c == placeholder(i as int),
{
    match char_from_u32(0xE000 + i as u32) {
        Some(c) => c,
        None => '\u{E000}',
    }
}

/// End index (exclusive) of the run of ASCII digits starting at `j`.
pub open spec fn digits_end(t: Seq<char>, j: int) -> int
    decreases t.len() - j,
{
    if 0 <= j < t.len() && is_digit(t[j]) {
        digits_end(t, j + 1)
    } else {
        j
    }
}

/// The counter token starting with the `%` at `t[i]`: `(characters
/// consumed, token)`, or `None` when `t[i..]` is not `%[#][0-9]*n` or its
/// width does not fit a `usize`.
pub open spec fn token_at(t: Seq<char>, i: int) -> Option<(int, CounterToken)> {
    let persistent = i + 1 < t.len() && t[i + 1] == '#';
    let j = if persistent {
        i + 2
    } else {
        i + 1
    };
    let k = digits_end(t, j);
    let width = if k > j {
        digits_value(t, j, k)
    } else {
        4
    };
    if width > usize::MAX {
        None
    } else if k < t.len() && t[k] == 'n' {
        Some((k + 1 - i, CounterToken { persistent, width: width as usize }))
    } else {
        None
    }
}

/// The skeleton and tokens of `t[i..]`, numbering placeholders from `n`.
pub open spec fn extract_from(t: Seq<char>, i: int, n: nat) -> (Seq<char>, Seq<CounterToken>)
    decreases t.len() - i,
{
    if i < 0 || i >= t.len() {
        (Seq::empty(), Seq::empty())
    } else if t[i] == '%' && token_at(t, i) is Some && token_at(t, i).unwrap().0 > 0 {
        let (len, tok) = token_at(t, i).unwrap();
        let rest = extract_from(t, i + len, n + 1);
        (seq![placeholder(n as int)] + rest.0, seq![tok] + rest.1)
    } else {
        let rest = extract_from(t, i + 1, n);
        (seq![t[i]] + rest.0, rest.1)
    }
}

/// Every counter token of `t` replaced by its placeholder, plus the tokens
/// in placeholder order. Any other `%` is kept for the date expansion.
pub open spec fn spec_extract(t: Seq<char>) -> (Seq<char>, Seq<CounterToken>) {
    extract_from(t, 0, 0)
}

proof fn lemma_digits_end(t: Seq<char>, j: int)
    requires
        0 <= j <= t.len(),
    ensures
        j <= digits_end(t, j) <= t.len(),
        forall|m: int| j <= m < digits_end(t, j) ==> is_digit(#[trigger] t[m]),
    decreases t.len() - j,
{
    if j < t.len() && is_digit(t[j]) {
        lemma_digits_end(t, j + 1);
    }
}

proof fn lemma_token_len(t: Seq<char>, i: int)
    requires
        0 <= i < t.len(),
    ensures
        token_at(t, i) matches Some((len, _)) ==> 2 <= len && i + len <= t.len(),
{
    let persistent = i + 1 < t.len() && t[i + 1] == '#';
    let j = if persistent {
        i + 2
    } else {
        i + 1
    };
    lemma_digits_end(t, j);
}

/// Assuming `t[i] == '%'`, checks whether a counter token starts there.
/// Returns `(characters consumed, token)` when it does.
pub fn try_parse_counter_token(t: &[char], i: usize) -> (r: Option<(usize, CounterToken)>)
    requires
        i < t@.len(),
    ensures
        match r {
            Some((len, tok)) => token_at(t@, i as int) == Some((len as int, tok)),
            None => token_at(t@, i as int) is None,
        },
{
    let n = t.len();
    let persistent = i + 1 < n && t[i + 1] == '#';
    let j = if persistent {
        i + 2
    } else {
        i + 1
    };
    let mut k = j;
    let mut width: usize = 0;
    let mut overflow = false;
    while k < n && is_digit_exec(t[k])
        invariant
            n == t@.len(),
            j <= k <= n,
            digits_end(t@, j as int) == digits_end(t@, k as int),
            overflow ==> digits_value(t@, j as int, k as int) > usize::MAX,
            !overflow ==> width == digits_value(t@, j as int, k as int),
        decreases n - k,
    {
        let d = (t[k] as u32 - '0' as u32) as usize;
        assert(d == digit_value(t@[k as int]));
        if !overflow {
            if width > (usize::MAX - d) / 10 {
                proof {
                    assert(width * 10 + d > usize::MAX) by (nonlinear_arith)
                        requires
                            width > (usize::MAX - d) / 10,
                            d <= 9,
                    ;
                }
                overflow = true;
            } else {
                proof {
                    assert(width * 10 + d <= usize::MAX) by (nonlinear_arith)
                        requires
                            width <= (usize::MAX - d) / 10,
                            d <= 9,
                    ;
                }
                width = width * 10 + d;
            }
        }
        proof {
            if !overflow {
                assert(width * 10 + d <= usize::MAX || width > (usize::MAX - d) / 10) by (nonlinear_arith)
                    requires
                        d <= 9,
                ;
            }
        }
        k = k + 1;
    }
    let width = if k > j {
        if overflow {
            return None;
        }
        width
    } else {
        4
    };
    if k < n && t[k] == 'n' {
        Some((k + 1 - i, CounterToken { persistent, width }))
    } else {
        None
    }
}

/// Extracts every `%[#][0-9]*n` from `template`, returning a skeleton with
/// those positions replaced by placeholders plus the tokens in placeholder
/// order. Any `%` that is not a counter token is left as it is, to be
/// expanded later as a date/time specifier.
pub fn extract_counter_tokens(template: &str) -> (r: (String, Vec<CounterToken>))
    requires
        spec_extract(template@).1.len() <= MAX_PLACEHOLDER_INDEX + 1,
    ensures
        (r.0@, r.1@) == spec_extract(template@),
{
    let t = to_chars(template);
    let n = t.len();
    let mut out: Vec<char> = Vec::new();
    let mut tokens: Vec<CounterToken> = Vec::new();
    let mut i: usize = 0;
    while i < n
        invariant
            n == t@.len(),
            t@ == template@,
            i <= n,
            spec_extract(t@).1.len() <= MAX_PLACEHOLDER_INDEX + 1,
            spec_extract(t@) == ({
                let rest = extract_from(t@, i as int, tokens@.len());
                (out@ + rest.0, tokens@ + rest.1)
            }),
        decreases n - i,
    {
        let ghost rest = extract_from(t@, i as int, tokens@.len());
        proof {
            lemma_token_len(t@, i as int);
        }
        let tok = if t[i] == '%' {
            try_parse_counter_token(t.as_slice(), i)
        } else {
            None
        };
        match tok {
            Some((len, token)) => {
                assert(token_at(t@, i as int) == Some((len as int, token)));
                assert(t@[i as int] == '%');
                assert(rest == {
                    let rest2 = extract_from(t@, (i + len) as int, tokens@.len() + 1);
                    (seq![placeholder(tokens@.len() as int)] + rest2.0, seq![token] + rest2.1)
                });
                assert(rest.1 =~= seq![token] + extract_from(
                    t@,
                    (i + len) as int,
                    tokens@.len() + 1,
                ).1);
                let ph = placeholder_char(tokens.len());
                out.push(ph);
                tokens.push(token);
                proof {
                    let rest2 = extract_from(t@, i + len, tokens@.len());
                    assert(out@ + rest2.0 =~= out@.drop_last() + (seq![ph] + rest2.0));
                    assert(tokens@ + rest2.1 =~= tokens@.drop_last() + (seq![token] + rest2.1));
                }
                i = i + len;
            },
            None => {
                let c = t[i];
                out.push(c);
                proof {
                    let rest2 = extract_from(t@, i + 1, tokens@.len());
                    assert(out@ + rest2.0 =~= out@.drop_last() + (seq![c] + rest2.0));
                }
                i = i + 1;
            },
        }
    }
    assert(out@ + Seq::<char>::empty() =~= out@);
    assert(tokens@ + Seq::<CounterToken>::empty() =~= tokens@);
    (string_from_chars(out.as_slice()), tokens)
}

/// The number of counter tokens in `template` (the placeholders
/// `extract_counter_tokens` would need).
pub fn counter_token_count(template: &str) -> (r: usize)
    ensures
        r == spec_extract(template@).1.len(),
{
    let t = to_chars(template);
    let n = t.len();
    let mut count: usize = 0;
    let mut i: usize = 0;
    while i < n
        invariant
            n == t@.len(),
            t@ == template@,
            i <= n,
            count <= i,
            spec_extract(t@).1.len() == count + extract_from(t@, i as int, count as nat).1.len(),
        decreases n - i,
    {
        proof {
            lemma_token_len(t@, i as int);
        }
        let tok = if t[i] == '%' {
            try_parse_counter_token(t.as_slice(), i)
        } else {
            None
        };
        match tok {
            Some((len, token)) => {
                assert(extract_from(t@, i as int, count as nat).1 =~= seq![token] + extract_from(
                    t@,
                    (i + len) as int,
                    count as nat + 1,
                ).1);
                count = count + 1;
                i = i + len;
            },
            None => {
                i = i + 1;
            },
        }
    }
    count
}

/// One step of the search for a free file name: with a file-system
/// counter in the template and candidate `candidate`'s name taken
/// (`taken`), the next candidate to try; otherwise `None`, meaning the
/// name is used as it is. Counting past `u32::MAX` is the caller's to
/// refuse.
pub fn next_candidate(fs_counter: bool, taken: bool, candidate: u32) -> (r: Option<u32>)
    requires
        fs_counter && taken ==> candidate < u32::MAX,
    ensures
        r == if fs_counter && taken {
            Some((candidate + 1) as u32)
        } else {
            None::<u32>
        },
{
    if fs_counter && taken {
        Some(candidate + 1)
    } else {
        None
    }
}

/// Characters that Windows forbids in file names.
pub open spec fn is_forbidden(c: char) -> bool {
    c == '\\' || c == '/' || c == ':' || c == '*' || c == '?' || c == '"' || c == '<' || c == '>'
        || c == '|'
}

/// `c`, or `_` when Windows forbids it in file names.
pub open spec fn sanitized_char(c: char) -> char {
    if is_forbidden(c) {
        '_'
    } else {
        c
    }
}

/// `s` with every forbidden character replaced by `_`.
pub open spec fn sanitized(s: Seq<char>) -> Seq<char> {
    s.map_values(|c: char| sanitized_char(c))
}

fn sanitized_char_exec(c: char) -> (r: char)
    ensures
        r == sanitized_char(c),
{
    if c == '\\' || c == '/' || c == ':' || c == '*' || c == '?' || c == '"' || c == '<' || c == '>'
        || c == '|' {
        '_'
    } else {
        c
    }
}

/// Replaces the characters Windows forbids in file names
/// (`\ / : * ? " < > |`) with `_`.
pub fn sanitize_filename(name: &str) -> (r: String)
    ensures
        r@ == sanitized(name@),
{
    let t = to_chars(name);
    let mut out: Vec<char> = Vec::with_capacity(t.len());
    let mut i: usize = 0;
    while i < t.len()
        invariant
            t@ == name@,
            i <= t@.len(),
            out@ == sanitized(t@.take(i as int)),
        decreases t@.len() - i,
    {
        out.push(sanitized_char_exec(t[i]));
        i = i + 1;
        assert(out@ =~= sanitized(t@.take(i as int)));
    }
    assert(t@.take(t@.len() as int) =~= t@);
    string_from_chars(out.as_slice())
}

/// The value a token takes: the persistent counter (0 when absent) for
/// `%#n`, the candidate number for `%n`.
pub open spec fn token_value(tok: CounterToken, persistent_value: Option<u32>, candidate: u32) -> nat {
    if tok.persistent {
        match persistent_value {
            Some(v) => v as nat,
            None => 0,
        }
    } else {
        candidate as nat
    }
}

/// What character `c` of a dated skeleton becomes: a placeholder of one of
/// the tokens turns into that token's zero-padded value, anything else is
/// sanitized.
pub open spec fn piece(
    c: char,
    tokens: Seq<CounterToken>,
    persistent_value: Option<u32>,
    candidate: u32,
) -> Seq<char> {
    let idx = (c as u32) as int - 0xE000;
    if 0 <= idx < tokens.len() {
        zero_padded(token_value(tokens[idx], persistent_value, candidate), tokens[idx].width as int)
    } else {
        seq![sanitized_char(c)]
    }
}

/// The skeleton `d` with every placeholder substituted and the result
/// sanitized.
pub open spec fn spec_substitute(
    d: Seq<char>,
    tokens: Seq<CounterToken>,
    persistent_value: Option<u32>,
    candidate: u32,
) -> Seq<char>
    decreases d.len(),
{
    if d.len() == 0 {
        Seq::empty()
    } else {
        spec_substitute(d.drop_last(), tokens, persistent_value, candidate) + piece(
            d.last(),
            tokens,
            persistent_value,
            candidate,
        )
    }
}

/// Substitutes the placeholders of a date-expanded skeleton with their
/// values (the persistent counter's value is fetched once by the caller;
/// `candidate` is the collision-avoidance number), then replaces characters
/// forbidden in Windows file names with `_`.
pub fn substitute_counter_placeholders(
    dated: &str,
    tokens: &[CounterToken],
    persistent_value: Option<u32>,
    candidate: u32,
) -> (r: String)
    ensures
        r@ == spec_substitute(dated@, tokens@, persistent_value, candidate),
{
    let d = to_chars(dated);
    let mut out: Vec<char> = Vec::new();
    let mut i: usize = 0;
    while i < d.len()
        invariant
            d@ == dated@,
            i <= d@.len(),
            out@ == spec_substitute(d@.take(i as int), tokens@, persistent_value, candidate),
        decreases d@.len() - i,
    {
        let c = d[i];
        assert(d@.take(i + 1).drop_last() =~= d@.take(i as int));
        assert(d@.take(i + 1).last() == c);
        let code = c as u32;
        if code >= 0xE000 && ((code - 0xE000) as usize) < tokens.len() {
            let tok = tokens[(code - 0xE000) as usize];
            let v: u32 = if tok.persistent {
                match persistent_value {
                    Some(v) => v,
                    None => 0,
                }
            } else {
                candidate
            };
            push_zero_padded(&mut out, v as u64, tok.width);
        } else {
            out.push(sanitized_char_exec(c));
        }
        i = i + 1;
    }
    assert(d@.take(d@.len() as int) =~= d@);
    string_from_chars(out.as_slice())
}

/// Whether some token is the persistent counter `%#n` (its value is then
/// fetched, once, before naming the file).
pub fn uses_persistent_counter(tokens: &[CounterToken]) -> (r: bool)
    ensures
        r == exists|i: int| 0 <= i < tokens@.len() && (#[trigger] tokens@[i]).persistent,
{
    let mut i: usize = 0;
    while i < tokens.len()
        invariant
            i <= tokens@.len(),
            forall|k: int| 0 <= k < i ==> !(#[trigger] tokens@[k]).persistent,
        decreases tokens.len() - i,
    {
        if tokens[i].persistent {
            return true;
        }
        i = i + 1;
    }
    false
}

/// Whether some token is the collision-avoiding counter `%n` (the
/// candidate number is then raised until the name is free).
pub fn uses_fs_counter(tokens: &[CounterToken]) -> (r: bool)
    ensures
        r == exists|i: int| 0 <= i < tokens@.len() && !(#[trigger] tokens@[i]).persistent,
{
    let mut i: usize = 0;
    while i < tokens.len()
        invariant
            i <= tokens@.len(),
            forall|k: int| 0 <= k < i ==> (#[trigger] tokens@[k]).persistent,
        decreases tokens.len() - i,
    {
        if !tokens[i].persistent {
            return true;
        }
        i = i + 1;
    }
    false
}

/// The file name for candidate number `candidate`: the substituted and
/// sanitized stem, a dot, and the extension `ext`.
pub fn output_file_name(
    dated: &str,
    tokens: &[CounterToken],
    persistent_value: Option<u32>,
    candidate: u32,
    ext: &str,
) -> (r: String)
    ensures
        r@ == spec_substitute(dated@, tokens@, persistent_value, candidate) + seq!['.'] + ext@,
{
    let mut name = substitute_counter_placeholders(dated, tokens, persistent_value, candidate);
    name.append(".");
    name.append(ext);
    proof {
        reveal_strlit(".");
    }
    name
}

/// What `chrono` renders for the instant `secs`/`nanos` (seconds and
/// nanoseconds since the Unix epoch) at UTC offset `offset_secs` under the
/// `strftime` format `fmt`; `None` when the format has an invalid
/// specifier or the instant/offset is out of chrono's range.
pub uninterp spec fn chrono_format(secs: i64, nanos: u32, offset_secs: i32, fmt: Seq<char>) -> Option<
    Seq<char>,
>;

/// Formats an instant with `chrono`: `DateTime::from_timestamp`, moved to
/// `FixedOffset::east_opt(offset_secs)`, written through `format(fmt)`;
/// `None` when either constructor refuses its input or the formatter
/// reports an error (an invalid specifier).
#[verifier::external_body]
pub(crate) fn format_instant(secs: i64, nanos: u32, offset_secs: i32, fmt: &str) -> (r: Option<String>)
    ensures
        match r {
            Some(s) => chrono_format(secs, nanos, offset_secs, fmt@) == Some(s@),
            None => chrono_format(secs, nanos, offset_secs, fmt@) is None,
        },
{
    let utc = chrono::DateTime::from_timestamp(secs, nanos)?;
    let offset = chrono::FixedOffset::east_opt(offset_secs)?;
    let mut out = String::new();
    match write!(out, "{}", utc.with_timezone(&offset).format(fmt)) {
        Ok(()) => Some(out),
        Err(_) => None,
    }
}

/// Expands only the template's date/time part (counter tokens stay as
/// placeholders) for the instant `secs`/`nanos` at UTC offset
/// `offset_secs`. Falls back to the unexpanded skeleton when the template
/// holds an invalid specifier, so it never fails.
pub fn render_skeleton(template: &str, secs: i64, nanos: u32, offset_secs: i32) -> (r: (
    String,
    Vec<CounterToken>,
))
    requires
        spec_extract(template@).1.len() <= MAX_PLACEHOLDER_INDEX + 1,
    ensures
        r.1@ == spec_extract(template@).1,
        r.0@ == match chrono_format(secs, nanos, offset_secs, spec_extract(template@).0) {
            Some(s) => s,
            None => spec_extract(template@).0,
        },
{
    let (skeleton, tokens) = extract_counter_tokens(template);
    match format_instant(secs, nanos, offset_secs, skeleton.as_str()) {
        Some(dated) => (dated, tokens),
        None => (skeleton, tokens),
    }
}

proof fn lemma_decimal_digits(v: nat)
    ensures
        forall|i: int| 0 <= i < decimal(v).len() ==> is_digit(#[trigger] decimal(v)[i]),
    decreases v,
{
    if v >= 10 {
        lemma_decimal_digits(v / 10);
        assert(decimal(v) == decimal(v / 10).push(((v % 10) + '0' as int) as char));
    }
}

proof fn lemma_zero_padded_digits(v: nat, width: int)
    ensures
        forall|i: int| 0 <= i < zero_padded(v, width).len() ==> is_digit(
            #[trigger] zero_padded(v, width)[i],
        ),
{
    lemma_decimal_digits(v);
    let d = decimal(v);
    if d.len() < width {
        let pad = Seq::new((width - d.len()) as nat, |i: int| '0');
        assert forall|i: int| 0 <= i < zero_padded(v, width).len() implies is_digit(
            #[trigger] zero_padded(v, width)[i],
        ) by {
            if i >= pad.len() {
                assert(zero_padded(v, width)[i] == d[i - pad.len()]);
            }
        }
    }
}

/// A file name made from a template never holds a character Windows
/// forbids: counter values are digits and everything else is sanitized.
pub proof fn lemma_substitute_is_clean(
    d: Seq<char>,
    tokens: Seq<CounterToken>,
    persistent_value: Option<u32>,
    candidate: u32,
)
    ensures
        forall|i: int|
            0 <= i < spec_substitute(d, tokens, persistent_value, candidate).len() ==> !is_forbidden(
                #[trigger] spec_substitute(d, tokens, persistent_value, candidate)[i],
            ),
    decreases d.len(),
{
    if d.len() > 0 {
        lemma_substitute_is_clean(d.drop_last(), tokens, persistent_value, candidate);
        let prev = spec_substitute(d.drop_last(), tokens, persistent_value, candidate);
        let pc = piece(d.last(), tokens, persistent_value, candidate);
        let idx = (d.last() as u32) as int - 0xE000;
        if 0 <= idx < tokens.len() {
            lemma_zero_padded_digits(
                token_value(tokens[idx], persistent_value, candidate),
                tokens[idx].width as int,
            );
        }
        assert forall|i: int| 0 <= i < (prev + pc).len() implies !is_forbidden(
            #[trigger] (prev + pc)[i],
        ) by {
            if i >= prev.len() {
                assert((prev + pc)[i] == pc[i - prev.len()]);
            }
        }
    }
}

/// Sanitizing leaves no forbidden character, and sanitizing again changes
/// nothing.
pub proof fn lemma_sanitized_is_clean(s: Seq<char>)
    ensures
        forall|i: int| 0 <= i < sanitized(s).len() ==> !is_forbidden(#[trigger] sanitized(s)[i]),
        sanitized(sanitized(s)) == sanitized(s),
{
    assert(sanitized(sanitized(s)) =~= sanitized(s));
}

/// A template without `%` has no counter token and its skeleton is the
/// template itself.
pub proof fn lemma_extract_without_percent(t: Seq<char>)
    requires
        forall|i: int| 0 <= i < t.len() ==> t[i] != '%',
    ensures
        spec_extract(t) == (t, Seq::<CounterToken>::empty()),
{
    lemma_extract_plain_from(t, 0, 0);
    assert(t.skip(0) =~= t);
}

proof fn lemma_extract_plain_from(t: Seq<char>, i: int, n: nat)
    requires
        0 <= i <= t.len(),
        forall|k: int| 0 <= k < t.len() ==> t[k] != '%',
    ensures
        extract_from(t, i, n) == (t.skip(i), Seq::<CounterToken>::empty()),
    decreases t.len() - i,
{
    if i < t.len() {
        lemma_extract_plain_from(t, i + 1, n);
        assert(seq![t[i]] + t.skip(i + 1) =~= t.skip(i));
        assert(Seq::<CounterToken>::empty() + Seq::<CounterToken>::empty() =~= Seq::<CounterToken>::empty());
    } else {
        assert(t.skip(i) =~= Seq::<char>::empty());
    }
}

} // verus!
