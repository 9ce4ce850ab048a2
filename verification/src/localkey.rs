//! Local key bindings: not registered with the OS, simply compared on the
//! spot against keyboard input received by the app's own windows.
//!
//! The targets are all expressible as "one character plus Ctrl/Shift/Alt"
//! (Undo/Redo, region selection's R/X/Q, the menu's S/C/E/U/V, the editor's
//! Ctrl+V/S/C/0), so bindings are plain character comparisons.

use vstd::prelude::*;

use crate::text::{is_whitespace, skip_ws_from, split_on, string_from_chars, to_chars, trim_chars, trim_end_from, trimmed};

verus! {

/// A local key binding. `ch` is stored and compared lowercased.
#[derive(Clone, Copy, PartialEq, Eq, Debug, Structural)]
pub struct LocalKey {
    pub ctrl: bool,
    pub shift: bool,
    pub alt: bool,
    pub ch: char,
}

/// `c` with ASCII upper case letters lowered.
pub open spec fn ascii_lower(c: char) -> char {
    if 'A' <= c <= 'Z' {
        ((c as u32) + 32) as char
    } else {
        c
    }
}

/// `c` with ASCII lower case letters raised.
pub open spec fn ascii_upper(c: char) -> char {
    if 'a' <= c <= 'z' {
        ((c as u32) - 32) as char
    } else {
        c
    }
}

pub fn ascii_lower_exec(c: char) -> (r: char)
    ensures
        r == ascii_lower(c),
{
    if 'A' <= c && c <= 'Z' {
        let b = ((c as u32) + 32) as u8;
        b as char
    } else {
        c
    }
}

pub fn ascii_upper_exec(c: char) -> (r: char)
    ensures
        r == ascii_upper(c),
{
    if 'a' <= c && c <= 'z' {
        let b = ((c as u32) - 32) as u8;
        b as char
    } else {
        c
    }
}

impl LocalKey {
    /// A binding with `ch` lowercased.
    pub fn new(ctrl: bool, shift: bool, alt: bool, ch: char) -> (r: Self)
        ensures
            r == (LocalKey { ctrl, shift, alt, ch: ascii_lower(ch) }),
    {
        LocalKey { ctrl, shift, alt, ch: ascii_lower_exec(ch) }
    }

    /// The display form, e.g. `Ctrl+Shift+Z`: the modifiers in the order
    /// Ctrl, Shift, Alt, each followed by `+`, then the key upper-cased.
    pub fn to_string(&self) -> (r: String)
        ensures
            r@ == spec_display(*self),
    {
        let mut v: Vec<char> = Vec::new();
        if self.ctrl {
            v.push('C');
            v.push('t');
            v.push('r');
            v.push('l');
            v.push('+');
        }
        if self.shift {
            v.push('S');
            v.push('h');
            v.push('i');
            v.push('f');
            v.push('t');
            v.push('+');
        }
        if self.alt {
            v.push('A');
            v.push('l');
            v.push('t');
            v.push('+');
        }
        v.push(ascii_upper_exec(self.ch));
        assert(v@ =~= spec_display(*self));
        string_from_chars(v.as_slice())
    }
}

pub open spec fn ctrl_word() -> Seq<char> {
    seq!['c', 't', 'r', 'l']
}

pub open spec fn control_word() -> Seq<char> {
    seq!['c', 'o', 'n', 't', 'r', 'o', 'l']
}

pub open spec fn shift_word() -> Seq<char> {
    seq!['s', 'h', 'i', 'f', 't']
}

pub open spec fn alt_word() -> Seq<char> {
    seq!['a', 'l', 't']
}

pub open spec fn option_word() -> Seq<char> {
    seq!['o', 'p', 't', 'i', 'o', 'n']
}

/// The display form of `k`.
pub open spec fn spec_display(k: LocalKey) -> Seq<char> {
    (if k.ctrl {
        seq!['C', 't', 'r', 'l', '+']
    } else {
        Seq::empty()
    }) + (if k.shift {
        seq!['S', 'h', 'i', 'f', 't', '+']
    } else {
        Seq::empty()
    }) + (if k.alt {
        seq!['A', 'l', 't', '+']
    } else {
        Seq::empty()
    }) + seq![ascii_upper(k.ch)]
}

/// Parsing state: the modifiers seen so far and the key, if any.
pub struct KeyState {
    pub ctrl: bool,
    pub shift: bool,
    pub alt: bool,
    pub ch: Option<char>,
}

/// The state after one `+`-separated token (compared trimmed and ASCII
/// lower-cased); `None` for a multi-character token or a second key.
pub open spec fn step(st: KeyState, tok: Seq<char>) -> Option<KeyState> {
    let l = trimmed(tok).map_values(|c: char| ascii_lower(c));
    if l.len() == 0 {
        Some(st)
    } else if l == ctrl_word() || l == control_word() {
        Some(KeyState { ctrl: true, ..st })
    } else if l == shift_word() {
        Some(KeyState { shift: true, ..st })
    } else if l == alt_word() || l == option_word() {
        Some(KeyState { alt: true, ..st })
    } else if l.len() != 1 {
        None
    } else if st.ch is Some {
        None
    } else {
        Some(KeyState { ch: Some(l[0]), ..st })
    }
}

/// The state after the first `n` tokens.
pub open spec fn run_tokens(toks: Seq<Seq<char>>, n: nat) -> Option<KeyState>
    decreases n,
{
    if n == 0 {
        Some(KeyState { ctrl: false, shift: false, alt: false, ch: None })
    } else {
        match run_tokens(toks, (n - 1) as nat) {
            None => None,
            Some(st) => step(st, toks[n - 1]),
        }
    }
}

/// The binding that `s` spells, if any.
pub open spec fn spec_parse(s: Seq<char>) -> Option<LocalKey> {
    let toks = split_on(s, '+');
    match run_tokens(toks, toks.len()) {
        Some(st) => match st.ch {
            Some(c) => Some(LocalKey { ctrl: st.ctrl, shift: st.shift, alt: st.alt, ch: ascii_lower(c) }),
            None => None,
        },
        None => None,
    }
}

pub(crate) fn word_eq(a: &Vec<char>, w: &[char]) -> (r: bool)
    ensures
        r == (a@ == w@),
{
    if a.len() != w.len() {
        return false;
    }
    let mut i: usize = 0;
    while i < a.len()
        invariant
            a@.len() == w@.len(),
            i <= a@.len(),
            forall|j: int| 0 <= j < i ==> a@[j] == w@[j],
        decreases a@.len() - i,
    {
        if a[i] != w[i] {
            return false;
        }
        i = i + 1;
    }
    assert(a@ =~= w@);
    true
}

fn step_exec(st: KeyState, tok: &Vec<char>) -> (r: Option<KeyState>)
    ensures
        r == step(st, tok@),
{
    let t = trim_chars(tok.as_slice());
    let mut l: Vec<char> = Vec::with_capacity(t.len());
    let mut i: usize = 0;
    while i < t.len()
        invariant
            i <= t@.len(),
            l@ == t@.take(i as int).map_values(|c: char| ascii_lower(c)),
        decreases t@.len() - i,
    {
        l.push(ascii_lower_exec(t[i]));
        i = i + 1;
        assert(l@ =~= t@.take(i as int).map_values(|c: char| ascii_lower(c)));
    }
    assert(t@.take(t@.len() as int) =~= t@);
    if l.len() == 0 {
        Some(st)
    } else if word_eq(&l, &['c', 't', 'r', 'l']) || word_eq(
        &l,
        &['c', 'o', 'n', 't', 'r', 'o', 'l'],
    ) {
        Some(KeyState { ctrl: true, ..st })
    } else if word_eq(&l, &['s', 'h', 'i', 'f', 't']) {
        Some(KeyState { shift: true, ..st })
    } else if word_eq(&l, &['a', 'l', 't']) || word_eq(&l, &['o', 'p', 't', 'i', 'o', 'n']) {
        Some(KeyState { alt: true, ..st })
    } else if l.len() != 1 {
        None
    } else if st.ch.is_some() {
        None
    } else {
        Some(KeyState { ch: Some(l[0]), ..st })
    }
}

/// Converts a string like `Ctrl+Shift+Z` into a binding. Modifier tokens
/// are case-insensitive; the key token must be exactly one character
/// (`None` otherwise, and for a second key token or no key at all).
pub fn parse(spec: &str) -> (r: Option<LocalKey>)
    ensures
        r == spec_parse(spec@),
{
    let s = to_chars(spec);
    let ghost toks = split_on(s@, '+');
    let mut st: Option<KeyState> = Some(KeyState { ctrl: false, shift: false, alt: false, ch: None });
    let mut cur: Vec<char> = Vec::new();
    let mut i: usize = 0;
    while i < s.len()
        invariant
            s@ == spec@,
            i <= s@.len(),
            split_on(s@.take(i as int), '+').last() == cur@,
            st == run_tokens(
                split_on(s@.take(i as int), '+'),
                (split_on(s@.take(i as int), '+').len() - 1) as nat,
            ),
            split_on(s@.take(i as int), '+').len() >= 1,
        decreases s@.len() - i,
    {
        let c = s[i];
        let ghost p = split_on(s@.take(i as int), '+');
        assert(s@.take(i + 1).drop_last() =~= s@.take(i as int));
        assert(s@.take(i + 1).last() == c);
        if c == '+' {
            let ghost q = split_on(s@.take(i + 1), '+');
            assert(q == p.push(Seq::empty()));
            proof {
                lemma_run_prefix(p, q, (p.len() - 1) as nat);
                assert(q[p.len() - 1] == cur@);
            }
            st = match st {
                Some(x) => step_exec(x, &cur),
                None => None,
            };
            cur = Vec::new();
            assert(q.last() =~= cur@);
        } else {
            let ghost q = split_on(s@.take(i + 1), '+');
            assert(q == p.update(p.len() - 1, p.last().push(c)));
            proof {
                lemma_run_prefix(p, q, (p.len() - 1) as nat);
            }
            cur.push(c);
        }
        i = i + 1;
    }
    assert(s@.take(s@.len() as int) =~= s@);
    let fin = match st {
        Some(x) => step_exec(x, &cur),
        None => None,
    };
    match fin {
        Some(x) => match x.ch {
            Some(c) => Some(LocalKey::new(x.ctrl, x.shift, x.alt, c)),
            None => None,
        },
        None => None,
    }
}

/// Running the first `n` tokens only depends on those tokens.
proof fn lemma_run_prefix(p: Seq<Seq<char>>, q: Seq<Seq<char>>, n: nat)
    requires
        n <= p.len(),
        n <= q.len(),
        forall|j: int| 0 <= j < n ==> p[j] == q[j],
    ensures
        run_tokens(p, n) == run_tokens(q, n),
    decreases n,
{
    if n > 0 {
        lemma_run_prefix(p, q, (n - 1) as nat);
    }
}

/// Splitting `a`, a separator and `w` (which holds no separator) gives
/// the pieces of `a` and then `w`.
proof fn lemma_split_then(a: Seq<char>, w: Seq<char>, sep: char)
    requires
        forall|i: int| 0 <= i < w.len() ==> w[i] != sep,
    ensures
        split_on(a + seq![sep] + w, sep) == split_on(a, sep).push(w),
    decreases w.len(),
{
    if w.len() == 0 {
        assert((a + seq![sep] + w).drop_last() =~= a);
        assert(a + seq![sep] + w =~= a.push(sep));
        assert(w =~= Seq::<char>::empty());
    } else {
        let w0 = w.drop_last();
        lemma_split_then(a, w0, sep);
        assert((a + seq![sep] + w).drop_last() =~= a + seq![sep] + w0);
        assert((a + seq![sep] + w).last() == w.last());
        assert(w[w.len() - 1] != sep);
        assert(w0.push(w.last()) =~= w);
        let p = split_on(a, sep).push(w0);
        assert(p.last() == w0);
        assert(p.update(p.len() - 1, p.last().push(w.last())) =~= split_on(a, sep).push(w));
    }
}

/// A text without the separator is one piece.
proof fn lemma_split_plain(w: Seq<char>, sep: char)
    requires
        forall|i: int| 0 <= i < w.len() ==> w[i] != sep,
    ensures
        split_on(w, sep) == seq![w],
    decreases w.len(),
{
    if w.len() > 0 {
        lemma_split_plain(w.drop_last(), sep);
        assert(w.drop_last().push(w.last()) =~= w);
        let p = seq![w.drop_last()];
        assert(p.update(p.len() - 1, p.last().push(w.last())) =~= seq![w]);
    } else {
        assert(w =~= Seq::<char>::empty());
    }
}

/// A text with no whitespace is its own trim.
proof fn lemma_trimmed_plain(w: Seq<char>)
    requires
        forall|i: int| 0 <= i < w.len() ==> !is_whitespace(#[trigger] w[i]),
    ensures
        trimmed(w) == w,
{
    assert(skip_ws_from(w, 0) == 0);
    assert(trim_end_from(w, 0, w.len() as int) == w.len());
    assert(w.subrange(0, w.len() as int) =~= w);
}

/// The words `w[0..n]` joined with `sep`.
pub open spec fn join_with(w: Seq<Seq<char>>, n: nat, sep: char) -> Seq<char>
    decreases n,
{
    if n <= 1 {
        if n == 1 {
            w[0]
        } else {
            Seq::empty()
        }
    } else {
        join_with(w, (n - 1) as nat, sep) + seq![sep] + w[n - 1]
    }
}

/// Splitting words joined with a separator none of them holds gives the
/// words back.
proof fn lemma_split_join(w: Seq<Seq<char>>, n: nat, sep: char)
    requires
        1 <= n <= w.len(),
        forall|i: int, j: int| 0 <= i < w.len() && 0 <= j < w[i].len() ==> #[trigger] w[i][j] != sep,
    ensures
        split_on(join_with(w, n, sep), sep) == w.take(n as int),
    decreases n,
{
    if n == 1 {
        lemma_split_plain(w[0], sep);
        assert(w.take(1) =~= seq![w[0]]);
    } else {
        lemma_split_join(w, (n - 1) as nat, sep);
        lemma_split_then(join_with(w, (n - 1) as nat, sep), w[n - 1], sep);
        assert(w.take(n as int) =~= w.take(n - 1).push(w[n - 1]));
    }
}

/// The pieces the display form of `k` splits into at `+`.
pub open spec fn display_tokens(k: LocalKey) -> Seq<Seq<char>> {
    (if k.ctrl {
        seq![seq!['C', 't', 'r', 'l']]
    } else {
        Seq::empty()
    }) + (if k.shift {
        seq![seq!['S', 'h', 'i', 'f', 't']]
    } else {
        Seq::empty()
    }) + (if k.alt {
        seq![seq!['A', 'l', 't']]
    } else {
        Seq::empty()
    }) + seq![seq![ascii_upper(k.ch)]]
}

/// Parsing what `to_string` writes gives the binding back, for every
/// binding `new` can make whose key is neither `+` nor whitespace.
pub proof fn lemma_parse_display_roundtrip(k: LocalKey)
    requires
        k.ch == ascii_lower(k.ch),
        k.ch != '+',
        !is_whitespace(k.ch),
    ensures
        spec_parse(spec_display(k)) == Some(k),
{
    let u = ascii_upper(k.ch);
    assert(u != '+' && !is_whitespace(u) && ascii_lower(u) == k.ch);
    let c4 = seq!['C', 't', 'r', 'l'];
    let s5 = seq!['S', 'h', 'i', 'f', 't'];
    let a3 = seq!['A', 'l', 't'];
    let key = seq![u];
    let t = display_tokens(k);
    let n = t.len();
    reveal_with_fuel(join_with, 5);
    assert(spec_display(k) =~= join_with(t, n, '+'));
    assert forall|i: int, j: int| 0 <= i < t.len() && 0 <= j < t[i].len() implies #[trigger] t[i][j]
        != '+' && !is_whitespace(t[i][j]) by {
        assert(t[i] == c4 || t[i] == s5 || t[i] == a3 || t[i] == key);
    }
    lemma_split_join(t, n, '+');
    assert(t.take(n as int) =~= t);
    lemma_trimmed_plain(c4);
    lemma_trimmed_plain(s5);
    lemma_trimmed_plain(a3);
    lemma_trimmed_plain(key);
    assert(c4.map_values(|c: char| ascii_lower(c)) =~= ctrl_word());
    assert(s5.map_values(|c: char| ascii_lower(c)) =~= shift_word());
    assert(a3.map_values(|c: char| ascii_lower(c)) =~= alt_word());
    assert(key.map_values(|c: char| ascii_lower(c)) =~= seq![k.ch]);
    reveal_with_fuel(run_tokens, 5);
    assert(run_tokens(t, n) == Some(KeyState { ctrl: k.ctrl, shift: k.shift, alt: k.alt, ch: Some(k.ch) }));
}

} // verus!
