//! Global hotkey strings such as `Ctrl+Shift+2`, turned into the
//! `global_hotkey` crate's `HotKey`.

use vstd::prelude::*;
use global_hotkey::hotkey::{Code, HotKey, Modifiers};
use crate::localkey::{ascii_lower, ascii_lower_exec, ascii_upper, ascii_upper_exec, word_eq};
use crate::text::{is_digit, is_digit_exec, split_chars, split_on, string_from_chars, to_chars, trim_chars, trimmed};

verus! {

#[verifier::external_type_specification]
#[verifier::external_body]
pub struct ExHotKey(HotKey);

/// Whether `name` is the name of a key in the `keyboard_types` crate's
/// `Code` (such as `KeyA`, `Digit2`, `F5`, `NumpadSubtract`).
pub uninterp spec fn code_name_known(name: Seq<char>) -> bool;

/// The hotkey `global_hotkey`'s `HotKey::new` builds from the modifier
/// bits `mods` (`None` for none) and the key whose `Code` name is `code`.
pub uninterp spec fn hotkey_of(mods: Option<u32>, code: Seq<char>) -> HotKey;

/// `Code::from_str` on the key name, then `HotKey::new` with the
/// modifier bits (`Modifiers::from_bits_truncate`; `None` for none). A
/// hotkey comes back exactly when the name is a `Code`'s, and it is the one
/// `HotKey::new` builds from these arguments (a deterministic function of
/// them).
#[verifier::external_body]
fn make_hotkey(mods: Option<u32>, key: &str) -> (r: Option<HotKey>)
    ensures
        r is Some <==> code_name_known(key@),
        code_name_known(key@) ==> r == Some(hotkey_of(mods, key@)),
{
    let code = key.parse::<Code>().ok()?;
    Some(HotKey::new(mods.map(Modifiers::from_bits_truncate), code))
}

/// The `Modifiers` bits of a hotkey's modifier set (`ALT` 0x1, `CONTROL`
/// 0x8, `META` 0x40, `SHIFT` 0x200), `None` when no modifier is set.
pub open spec fn spec_modifier_bits(ctrl: bool, shift: bool, alt: bool, meta: bool) -> Option<u32> {
    let b = (if alt {
        0x1int
    } else {
        0
    }) + (if ctrl {
        0x8int
    } else {
        0
    }) + (if meta {
        0x40int
    } else {
        0
    }) + (if shift {
        0x200int
    } else {
        0
    });
    if b == 0 {
        None
    } else {
        Some(b as u32)
    }
}

/// The `Modifiers` bits of the modifiers set, `None` when none is.
pub fn modifier_bits(ctrl: bool, shift: bool, alt: bool, meta: bool) -> (r: Option<u32>)
    ensures
        r == spec_modifier_bits(ctrl, shift, alt, meta),
{
    let mut b: u32 = 0;
    if alt {
        b = b + 0x1;
    }
    if ctrl {
        b = b + 0x8;
    }
    if meta {
        b = b + 0x40;
    }
    if shift {
        b = b + 0x200;
    }
    if b == 0 {
        None
    } else {
        Some(b)
    }
}

/// What the tokens of a hotkey string set so far: the modifiers, and the
/// last token that was not a modifier (the key).
pub struct HotkeyTokens {
    pub ctrl: bool,
    pub shift: bool,
    pub alt: bool,
    pub meta: bool,
    pub key: Option<Seq<char>>,
}

/// `w` with ASCII letters lowered.
pub open spec fn lowered(w: Seq<char>) -> Seq<char> {
    w.map_values(|c: char| ascii_lower(c))
}

pub open spec fn is_ctrl_word(l: Seq<char>) -> bool {
    l == seq!['c', 't', 'r', 'l'] || l == seq!['c', 'o', 'n', 't', 'r', 'o', 'l']
}

pub open spec fn is_alt_word(l: Seq<char>) -> bool {
    l == seq!['a', 'l', 't'] || l == seq!['o', 'p', 't', 'i', 'o', 'n']
}

pub open spec fn is_meta_word(l: Seq<char>) -> bool {
    ||| l == seq!['s', 'u', 'p', 'e', 'r']
    ||| l == seq!['w', 'i', 'n']
    ||| l == seq!['w', 'i', 'n', 'd', 'o', 'w', 's']
    ||| l == seq!['m', 'e', 't', 'a']
    ||| l == seq!['c', 'm', 'd']
    ||| l == seq!['c', 'o', 'm', 'm', 'a', 'n', 'd']
}

/// One `+`-separated token, trimmed and compared case-insensitively: an
/// empty one is skipped, a modifier name sets that modifier, anything
/// else becomes the key (replacing an earlier one).
pub open spec fn hotkey_step(st: HotkeyTokens, tok: Seq<char>) -> HotkeyTokens {
    let t = trimmed(tok);
    let l = lowered(t);
    if l.len() == 0 {
        st
    } else if is_ctrl_word(l) {
        HotkeyTokens { ctrl: true, ..st }
    } else if l == seq!['s', 'h', 'i', 'f', 't'] {
        HotkeyTokens { shift: true, ..st }
    } else if is_alt_word(l) {
        HotkeyTokens { alt: true, ..st }
    } else if is_meta_word(l) {
        HotkeyTokens { meta: true, ..st }
    } else {
        HotkeyTokens { key: Some(t), ..st }
    }
}

/// The state after the first `n` tokens.
pub open spec fn hotkey_run(toks: Seq<Seq<char>>, n: nat) -> HotkeyTokens
    decreases n,
{
    if n == 0 {
        HotkeyTokens { ctrl: false, shift: false, alt: false, meta: false, key: None }
    } else {
        hotkey_step(hotkey_run(toks, (n - 1) as nat), toks[n - 1])
    }
}

/// Whether `c` is an ASCII letter.
pub open spec fn is_ascii_alpha(c: char) -> bool {
    ('a' <= c <= 'z') || ('A' <= c <= 'Z')
}

/// The `Code` name of key token `t`: a lone digit `d` is `Digit<d>`, a
/// lone ASCII letter `x` is `Key<X>`, anything else is taken as a name.
pub open spec fn code_name(t: Seq<char>) -> Seq<char> {
    if t.len() == 1 && is_digit(t[0]) {
        seq!['D', 'i', 'g', 'i', 't', t[0]]
    } else if t.len() == 1 && is_ascii_alpha(t[0]) {
        seq!['K', 'e', 'y', ascii_upper(t[0])]
    } else {
        t
    }
}

/// A parsed hotkey string: the modifiers and the key's `Code` name.
pub struct HotkeySpec {
    pub ctrl: bool,
    pub shift: bool,
    pub alt: bool,
    pub meta: bool,
    pub code: String,
}

/// What hotkey string `s` spells: its modifiers and the `Code` name of its
/// (last) key token; `None` without a key token.
pub open spec fn spec_hotkey(s: Seq<char>) -> Option<(bool, bool, bool, bool, Seq<char>)> {
    let toks = split_on(s, '+');
    let st = hotkey_run(toks, toks.len());
    match st.key {
        Some(t) => Some((st.ctrl, st.shift, st.alt, st.meta, code_name(t))),
        None => None,
    }
}

fn lowered_exec(t: &Vec<char>) -> (r: Vec<char>)
    ensures
        r@ == lowered(t@),
{
    let mut l: Vec<char> = Vec::new();
    let mut i: usize = 0;
    while i < t.len()
        invariant
            i <= t@.len(),
            l@ == t@.take(i as int).map_values(|c: char| ascii_lower(c)),
        decreases t@.len() - i,
    {
        l.push(ascii_lower_exec(t[i]));
        i = i + 1;
        assert(l@ =~= t@.take(i as int).map_values(|c: char| ascii_lower(c)));
    }
    assert(t@.take(t@.len() as int) =~= t@);
    l
}

fn code_name_exec(t: Vec<char>) -> (r: Vec<char>)
    ensures
        r@ == code_name(t@),
{
    if t.len() == 1 && is_digit_exec(t[0]) {
        let mut v: Vec<char> = vec!['D', 'i', 'g', 'i', 't'];
        v.push(t[0]);
        assert(v@ =~= seq!['D', 'i', 'g', 'i', 't', t@[0]]);
        v
    } else if t.len() == 1 && (('a' <= t[0] && t[0] <= 'z') || ('A' <= t[0] && t[0] <= 'Z')) {
        let mut v: Vec<char> = vec!['K', 'e', 'y'];
        v.push(ascii_upper_exec(t[0]));
        assert(v@ =~= seq!['K', 'e', 'y', ascii_upper(t@[0])]);
        v
    } else {
        t
    }
}

/// Reads a hotkey string: `+`-separated tokens, modifier names
/// case-insensitive (`ctrl`/`control`, `shift`, `alt`/`option`,
/// `super`/`win`/`windows`/`meta`/`cmd`/`command`), the last other token
/// the key.
pub fn parse_spec(spec: &str) -> (r: Option<HotkeySpec>)
    ensures
        match r {
            Some(h) => spec_hotkey(spec@) == Some((h.ctrl, h.shift, h.alt, h.meta, h.code@)),
            None => spec_hotkey(spec@) is None,
        },
{
    let s = to_chars(spec);
    let toks = split_chars(s.as_slice(), '+');
    let ghost gt = split_on(s@, '+');
    let mut ctrl = false;
    let mut shift = false;
    let mut alt = false;
    let mut meta = false;
    let mut key: Option<Vec<char>> = None;
    let mut i: usize = 0;
    while i < toks.len()
        invariant
            s@ == spec@,
            gt == split_on(s@, '+'),
            toks@.len() == gt.len(),
            forall|k: int| 0 <= k < toks@.len() ==> #[trigger] toks@[k]@ == gt[k],
            i <= toks@.len(),
            ({
                let st = hotkey_run(gt, i as nat);
                &&& st.ctrl == ctrl
                &&& st.shift == shift
                &&& st.alt == alt
                &&& st.meta == meta
                &&& match key {
                    Some(k) => st.key == Some(k@),
                    None => st.key is None,
                }
            }),
        decreases toks@.len() - i,
    {
        let t = trim_chars(toks[i].as_slice());
        let l = lowered_exec(&t);
        assert(toks@[i as int]@ == gt[i as int]);
        if l.len() == 0 {
        } else if word_eq(&l, &['c', 't', 'r', 'l']) || word_eq(&l, &['c', 'o', 'n', 't', 'r', 'o', 'l']) {
            ctrl = true;
        } else if word_eq(&l, &['s', 'h', 'i', 'f', 't']) {
            shift = true;
        } else if word_eq(&l, &['a', 'l', 't']) || word_eq(&l, &['o', 'p', 't', 'i', 'o', 'n']) {
            alt = true;
        } else if word_eq(&l, &['s', 'u', 'p', 'e', 'r']) || word_eq(&l, &['w', 'i', 'n']) || word_eq(
            &l,
            &['w', 'i', 'n', 'd', 'o', 'w', 's'],
        ) || word_eq(&l, &['m', 'e', 't', 'a']) || word_eq(&l, &['c', 'm', 'd']) || word_eq(
            &l,
            &['c', 'o', 'm', 'm', 'a', 'n', 'd'],
        ) {
            meta = true;
        } else {
            key = Some(t);
        }
        i = i + 1;
    }
    assert(toks@.len() == gt.len());
    match key {
        Some(k) => {
            let code = code_name_exec(k);
            Some(HotkeySpec { ctrl, shift, alt, meta, code: string_from_chars(code.as_slice()) })
        },
        None => None,
    }
}

/// Converts a string like `Ctrl+Shift+2` into a `HotKey`. Modifiers are
/// case-insensitive; a lone digit or letter is the `Digit`/`Key` code of
/// it, anything else is read as a `Code` name (`F5`, `NumpadSubtract`).
/// `None` without a key, or when the key names no `Code`.
pub fn parse(spec: &str) -> (r: Option<HotKey>)
    ensures
        r is Some <==> (spec_hotkey(spec@) matches Some(h) && code_name_known(h.4)),
        r matches Some(k) ==> (spec_hotkey(spec@) matches Some(h) && k == hotkey_of(
            spec_modifier_bits(h.0, h.1, h.2, h.3),
            h.4,
        )),
{
    match parse_spec(spec) {
        Some(h) => {
            let mods = modifier_bits(h.ctrl, h.shift, h.alt, h.meta);
            make_hotkey(mods, h.code.as_str())
        },
        None => None,
    }
}


proof fn lemma_split_len(s: Seq<char>, sep: char)
    ensures
        split_on(s, sep).len() >= 1,
    decreases s.len(),
{
    if s.len() > 0 {
        lemma_split_len(s.drop_last(), sep);
    }
}

proof fn lemma_split_without_sep(a: Seq<char>, sep: char)
    requires
        forall|i: int| 0 <= i < a.len() ==> a[i] != sep,
    ensures
        split_on(a, sep) == seq![a],
    decreases a.len(),
{
    if a.len() > 0 {
        lemma_split_without_sep(a.drop_last(), sep);
        assert(a.drop_last().push(a.last()) =~= a);
        assert(seq![a.drop_last()].update(0, a.drop_last().push(a.last())) =~= seq![a]);
    } else {
        assert(a =~= Seq::<char>::empty());
    }
}

proof fn lemma_split_after_word(a: Seq<char>, k: Seq<char>, sep: char)
    requires
        forall|i: int| 0 <= i < a.len() ==> a[i] != sep,
    ensures
        split_on(a + seq![sep] + k, sep) == seq![a] + split_on(k, sep),
    decreases k.len(),
{
    let s = a + seq![sep] + k;
    if k.len() == 0 {
        lemma_split_without_sep(a, sep);
        assert(s.drop_last() =~= a);
        assert(split_on(k, sep) =~= seq![Seq::<char>::empty()]);
        assert(split_on(s, sep) =~= seq![a] + split_on(k, sep));
    } else {
        lemma_split_after_word(a, k.drop_last(), sep);
        lemma_split_len(k.drop_last(), sep);
        assert(s.drop_last() =~= a + seq![sep] + k.drop_last());
        assert(s.last() == k.last());
        let p = split_on(k.drop_last(), sep);
        if k.last() == sep {
            assert((seq![a] + p).push(Seq::empty()) =~= seq![a] + p.push(Seq::empty()));
        } else {
            let q = seq![a] + p;
            assert(q.update(q.len() - 1, q.last().push(k.last())) =~= seq![a] + p.update(
                p.len() - 1,
                p.last().push(k.last()),
            ));
        }
    }
}

proof fn lemma_step_from(st: HotkeyTokens, tok: Seq<char>)
    ensures
        ({
            let g = hotkey_step(
                HotkeyTokens { ctrl: false, shift: false, alt: false, meta: false, key: None },
                tok,
            );
            let r = hotkey_step(st, tok);
            &&& r.ctrl == (st.ctrl || g.ctrl)
            &&& r.shift == (st.shift || g.shift)
            &&& r.alt == (st.alt || g.alt)
            &&& r.meta == (st.meta || g.meta)
            &&& r.key == (if g.key is Some {
                g.key
            } else {
                st.key
            })
        }),
{
}

/// What a leading token `a` followed by the tokens `tk` sets: the
/// modifiers of either, and the key of `tk` when it has one, else `a`'s.
proof fn lemma_run_after_token(a: Seq<char>, tk: Seq<Seq<char>>, n: nat)
    requires
        n <= tk.len(),
    ensures
        ({
            let r = hotkey_run(seq![a] + tk, n + 1);
            let q = hotkey_run(tk, n);
            let f = hotkey_step(hotkey_run(tk, 0), a);
            &&& r.ctrl == (f.ctrl || q.ctrl)
            &&& r.shift == (f.shift || q.shift)
            &&& r.alt == (f.alt || q.alt)
            &&& r.meta == (f.meta || q.meta)
            &&& r.key == (if q.key is Some {
                q.key
            } else {
                f.key
            })
        }),
    decreases n,
{
    if n > 0 {
        lemma_run_after_token(a, tk, (n - 1) as nat);
        assert((seq![a] + tk)[n as int] == tk[n - 1]);
        lemma_step_from(hotkey_run(seq![a] + tk, n as nat), tk[n - 1]);
        lemma_step_from(hotkey_run(tk, (n - 1) as nat), tk[n - 1]);
    } else {
        assert((seq![a] + tk)[0] == a);
    }
}

/// A modifier name in front of a hotkey string, in any letter case and
/// with spaces around it, sets that modifier and changes nothing else:
/// `ctrl`/`control` sets Ctrl, `shift` Shift, `alt`/`option` Alt, and
/// `super`/`win`/`windows`/`meta`/`cmd`/`command` Meta, and none of them is
/// ever taken as the key. So `Control+2` reads as `Ctrl+2`.
pub proof fn lemma_modifier_names_set_modifiers(a: Seq<char>, k: Seq<char>)
    requires
        forall|i: int| 0 <= i < a.len() ==> a[i] != '+',
    ensures
        ({
            let l = lowered(trimmed(a));
            let r = spec_hotkey(a + seq!['+'] + k);
            let h = spec_hotkey(k);
            &&& (l == seq!['c', 't', 'r', 'l'] || l == seq!['c', 'o', 'n', 't', 'r', 'o', 'l'])
                ==> r == (match h {
                Some(x) => Some((true, x.1, x.2, x.3, x.4)),
                None => None,
            })
            &&& l == seq!['s', 'h', 'i', 'f', 't'] ==> r == (match h {
                Some(x) => Some((x.0, true, x.2, x.3, x.4)),
                None => None,
            })
            &&& (l == seq!['a', 'l', 't'] || l == seq!['o', 'p', 't', 'i', 'o', 'n']) ==> r == (match h {
                Some(x) => Some((x.0, x.1, true, x.3, x.4)),
                None => None,
            })
            &&& (l == seq!['s', 'u', 'p', 'e', 'r'] || l == seq!['w', 'i', 'n'] || l == seq![
                'w',
                'i',
                'n',
                'd',
                'o',
                'w',
                's',
            ] || l == seq!['m', 'e', 't', 'a'] || l == seq!['c', 'm', 'd'] || l == seq![
                'c',
                'o',
                'm',
                'm',
                'a',
                'n',
                'd',
            ]) ==> r == (match h {
                Some(x) => Some((x.0, x.1, x.2, true, x.4)),
                None => None,
            })
        }),
{
    let s = a + seq!['+'] + k;
    lemma_split_after_word(a, k, '+');
    let tk = split_on(k, '+');
    assert(split_on(s, '+') == seq![a] + tk);
    lemma_run_after_token(a, tk, tk.len());
    assert((seq![a] + tk).len() == tk.len() + 1);
}

} // verus!
