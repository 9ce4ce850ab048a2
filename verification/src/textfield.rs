//! Single-line text field editing: caret/selection state and the edits
//! shared by the settings tabs' text fields.
//!
//! Offsets are UTF-8 byte offsets into the field's `String` (what `str::len`
//! and slicing use) and are always kept on character boundaries.

use vstd::prelude::*;
use vstd::string::StringSliceAdditionalSpecFns;
use vstd::utf8::{encode_scalar, encode_utf8, is_scalar};

use crate::text::{string_from_chars, to_chars};

verus! {

/// UTF-8 length of `c` in bytes.
pub open spec fn char_len(c: char) -> nat {
    let v = c as u32;
    if v <= 0x7F {
        1
    } else if v <= 0x7FF {
        2
    } else if v <= 0xFFFF {
        3
    } else {
        4
    }
}

/// UTF-8 length of `s` in bytes.
pub open spec fn byte_len(s: Seq<char>) -> nat
    decreases s.len(),
{
    if s.len() == 0 {
        0
    } else {
        byte_len(s.drop_last()) + char_len(s.last())
    }
}

/// Byte offset of character index `k` of `s`.
pub open spec fn offset_of(s: Seq<char>, k: int) -> nat {
    byte_len(s.take(k))
}

/// Whether byte offset `idx` lies on a character boundary of `s`
/// (the ends included).
pub open spec fn is_boundary(s: Seq<char>, idx: int) -> bool {
    exists|k: int| 0 <= k <= s.len() && offset_of(s, k) == idx
}

/// The character index whose byte offset is `idx`.
pub open spec fn char_index(s: Seq<char>, idx: int) -> int {
    choose|k: int| 0 <= k <= s.len() && offset_of(s, k) == idx
}

/// Offset 0 is a boundary of every text.
pub proof fn lemma_start_is_boundary(s: Seq<char>)
    ensures
        is_boundary(s, 0),
{
    assert(s.take(0) =~= Seq::<char>::empty());
    assert(offset_of(s, 0) == 0);
}

pub proof fn lemma_char_len_bounds(c: char)
    ensures
        1 <= char_len(c) <= 4,
{
}

proof fn lemma_take_push(s: Seq<char>, k: int)
    requires
        0 <= k < s.len(),
    ensures
        offset_of(s, k + 1) == offset_of(s, k) + char_len(s[k]),
{
    assert(s.take(k + 1).drop_last() =~= s.take(k));
}

/// Offsets grow strictly with the character index.
pub proof fn lemma_offset_strict(s: Seq<char>, j: int, k: int)
    requires
        0 <= j < k <= s.len(),
    ensures
        offset_of(s, j) < offset_of(s, k),
    decreases k - j,
{
    lemma_take_push(s, k - 1);
    if j < k - 1 {
        lemma_offset_strict(s, j, k - 1);
    }
}

proof fn lemma_offset_mono(s: Seq<char>, j: int, k: int)
    requires
        0 <= j <= k <= s.len(),
    ensures
        offset_of(s, j) <= offset_of(s, k),
{
    if j < k {
        lemma_offset_strict(s, j, k);
    }
}

/// The character index of a boundary is the unique one with that offset.
pub proof fn lemma_char_index(s: Seq<char>, k: int)
    requires
        0 <= k <= s.len(),
    ensures
        is_boundary(s, offset_of(s, k) as int),
        char_index(s, offset_of(s, k) as int) == k,
{
    let idx = offset_of(s, k) as int;
    assert(0 <= k <= s.len() && offset_of(s, k) == idx);
    let c = char_index(s, idx);
    if c < k {
        lemma_offset_strict(s, c, k);
    } else if c > k {
        lemma_offset_strict(s, k, c);
    }
}

proof fn lemma_byte_len_append(a: Seq<char>, b: Seq<char>)
    ensures
        byte_len(a + b) == byte_len(a) + byte_len(b),
    decreases b.len(),
{
    if b.len() > 0 {
        assert((a + b).drop_last() =~= a + b.drop_last());
        lemma_byte_len_append(a, b.drop_last());
    } else {
        assert(a + b =~= a);
    }
}

proof fn lemma_byte_len_first(s: Seq<char>)
    requires
        s.len() > 0,
    ensures
        byte_len(s) == char_len(s[0]) + byte_len(s.drop_first()),
{
    assert(s =~= seq![s[0]] + s.drop_first());
    lemma_byte_len_append(seq![s[0]], s.drop_first());
    assert(seq![s[0]].drop_last() =~= Seq::<char>::empty());
    assert(byte_len(Seq::<char>::empty()) == 0);
    assert(byte_len(seq![s[0]]) == char_len(s[0]));
}

/// `byte_len` is the length of the UTF-8 encoding, i.e. `str::len`.
pub proof fn lemma_byte_len_utf8(s: Seq<char>)
    ensures
        byte_len(s) == encode_utf8(s).len(),
    decreases s.len(),
{
    if s.len() > 0 {
        lemma_byte_len_first(s);
        lemma_byte_len_utf8(s.drop_first());
        let v = s[0] as u32;
        vstd::utf8::char_is_scalar(s[0]);
        assert(encode_scalar(v).len() == char_len(s[0]));
    }
}

/// The byte length of a string slice.
pub fn str_byte_len(s: &str) -> (r: usize)
    ensures
        r == byte_len(s@),
{
    proof {
        lemma_byte_len_utf8(s@);
    }
    s.as_bytes().len()
}

/// UTF-8 length of `c`.
pub fn char_len_exec(c: char) -> (r: usize)
    ensures
        r == char_len(c),
{
    let v = c as u32;
    if v <= 0x7F {
        1
    } else if v <= 0x7FF {
        2
    } else if v <= 0xFFFF {
        3
    } else {
        4
    }
}

/// Finds the character index of byte offset `idx` of `s`.
pub(crate) fn find_char_index(s: &Vec<char>, idx: usize) -> (r: usize)
    requires
        is_boundary(s@, idx as int),
    ensures
        r == char_index(s@, idx as int),
        r <= s@.len(),
        offset_of(s@, r as int) == idx,
{
    let ghost kk = char_index(s@, idx as int);
    proof {
        lemma_char_index(s@, kk);
    }
    let n = s.len();
    let mut k: usize = 0;
    let mut off: usize = 0;
    while off < idx
        invariant
            n == s@.len(),
            0 <= kk <= s@.len(),
            offset_of(s@, kk) == idx,
            char_index(s@, idx as int) == kk,
            k <= kk,
            off == offset_of(s@, k as int),
        decreases idx - off,
    {
        proof {
            if k == kk {
                assert(false);
            }
            lemma_take_push(s@, k as int);
            lemma_offset_mono(s@, k as int + 1, kk);
        }
        off = off + char_len_exec(s[k]);
        k = k + 1;
    }
    proof {
        if k < kk {
            lemma_offset_strict(s@, k as int, kk);
        }
    }
    k
}

/// Byte offset of the character boundary before `idx`; `None` at the start.
pub open spec fn spec_prev_boundary(s: Seq<char>, idx: int) -> Option<nat> {
    if idx == 0 {
        None
    } else {
        Some(offset_of(s, char_index(s, idx) - 1))
    }
}

/// Byte offset of the character boundary after `idx`; `None` at (or past)
/// the end.
pub open spec fn spec_next_boundary(s: Seq<char>, idx: int) -> Option<nat> {
    if idx >= byte_len(s) {
        None
    } else {
        Some(offset_of(s, char_index(s, idx) + 1))
    }
}

/// The character boundary before byte offset `idx` (which must itself be a
/// boundary), or `None` at the start.
pub fn prev_char_boundary(s: &str, idx: usize) -> (r: Option<usize>)
    requires
        is_boundary(s@, idx as int),
    ensures
        r matches Some(p) ==> spec_prev_boundary(s@, idx as int) == Some(p as nat),
        r is None ==> spec_prev_boundary(s@, idx as int) is None,
{
    if idx == 0 {
        return None;
    }
    let v = to_chars(s);
    let k = find_char_index(&v, idx);
    proof {
        if k == 0 {
            assert(s@.take(0) =~= Seq::<char>::empty());
        }
        lemma_take_push(s@, k - 1);
    }
    Some(idx - char_len_exec(v[k - 1]))
}

/// The character boundary after byte offset `idx` (a boundary, unless it is
/// already at or past the end), or `None` at the end.
pub fn next_char_boundary(s: &str, idx: usize) -> (r: Option<usize>)
    requires
        idx < byte_len(s@) ==> is_boundary(s@, idx as int),
    ensures
        r matches Some(p) ==> spec_next_boundary(s@, idx as int) == Some(p as nat),
        r is None ==> spec_next_boundary(s@, idx as int) is None,
{
    let len = str_byte_len(s);
    if idx >= len {
        return None;
    }
    let v = to_chars(s);
    let k = find_char_index(&v, idx);
    proof {
        if k == v@.len() {
            assert(s@.take(k as int) =~= s@);
        }
        lemma_take_push(s@, k as int);
        lemma_offset_mono(s@, k as int + 1, s@.len() as int);
        assert(s@.take(s@.len() as int) =~= s@);
    }
    Some(idx + char_len_exec(v[k]))
}

/// Caret/selection state for a text field; the text itself lives in the
/// caller's `String`.
#[derive(Clone, Copy, Default, PartialEq, Eq, Debug, Structural)]
pub struct TextCursor {
    pub cursor: usize,
    /// Other end of the selection; equal to `cursor` means no selection.
    pub anchor: usize,
}

impl TextCursor {
    /// Both ends lie on character boundaries of `s`.
    pub open spec fn wf(self, s: Seq<char>) -> bool {
        is_boundary(s, self.cursor as int) && is_boundary(s, self.anchor as int)
    }

    /// The selected byte range `(low, high)`, if the ends differ.
    pub open spec fn spec_selection(self) -> Option<(usize, usize)> {
        if self.cursor == self.anchor {
            None
        } else if self.cursor < self.anchor {
            Some((self.cursor, self.anchor))
        } else {
            Some((self.anchor, self.cursor))
        }
    }

    /// Caret at the end, no selection.
    pub fn at_end(buf: &str) -> (r: Self)
        ensures
            r.cursor == byte_len(buf@),
            r.anchor == byte_len(buf@),
            r.wf(buf@),
    {
        let n = str_byte_len(buf);
        proof {
            assert(buf@.take(buf@.len() as int) =~= buf@);
            lemma_char_index(buf@, buf@.len() as int);
        }
        TextCursor { cursor: n, anchor: n }
    }

    /// Selection range `(low, high)`, or `None` if `cursor == anchor`.
    pub fn selection(&self) -> (r: Option<(usize, usize)>)
        ensures
            r == self.spec_selection(),
    {
        if self.cursor == self.anchor {
            None
        } else if self.cursor < self.anchor {
            Some((self.cursor, self.anchor))
        } else {
            Some((self.anchor, self.cursor))
        }
    }
}

/// `s` with the characters `[a, b)` removed.
pub open spec fn cut(s: Seq<char>, a: int, b: int) -> Seq<char> {
    s.take(a) + s.skip(b)
}

/// `s` with `t` inserted before character index `k`.
pub open spec fn splice_in(s: Seq<char>, k: int, t: Seq<char>) -> Seq<char> {
    s.take(k) + t + s.skip(k)
}

proof fn lemma_byte_len_take_skip(s: Seq<char>, k: int)
    requires
        0 <= k <= s.len(),
    ensures
        byte_len(s) == byte_len(s.take(k)) + byte_len(s.skip(k)),
{
    assert(s =~= s.take(k) + s.skip(k));
    lemma_byte_len_append(s.take(k), s.skip(k));
}

/// Offsets up to a cut point are those of the original text.
proof fn lemma_offset_kept(s: Seq<char>, t: Seq<char>, k: int)
    requires
        0 <= k <= s.len(),
        k <= t.len(),
        t.take(k) =~= s.take(k),
    ensures
        offset_of(t, k) == offset_of(s, k),
        is_boundary(t, offset_of(s, k) as int),
{
    lemma_char_index(t, k);
}

/// Copies `v[a..b]` onto the end of `out`.
fn extend_chars(out: &mut Vec<char>, v: &Vec<char>, a: usize, b: usize)
    requires
        a <= b <= v@.len(),
    ensures
        final(out)@ == old(out)@ + v@.subrange(a as int, b as int),
{
    let ghost start = out@;
    let mut i = a;
    while i < b
        invariant
            a <= i <= b <= v@.len(),
            out@ == start + v@.subrange(a as int, i as int),
        decreases b - i,
    {
        out.push(v[i]);
        i = i + 1;
        assert(out@ =~= start + v@.subrange(a as int, i as int));
    }
}

/// `v` with the characters `[a, b)` removed, as a new `String`.
fn cut_string(v: &Vec<char>, a: usize, b: usize) -> (r: String)
    requires
        a <= b <= v@.len(),
    ensures
        r@ == cut(v@, a as int, b as int),
{
    let mut out: Vec<char> = Vec::new();
    extend_chars(&mut out, v, 0, a);
    extend_chars(&mut out, v, b, v.len());
    assert(out@ =~= cut(v@, a as int, b as int));
    string_from_chars(out.as_slice())
}

/// The cursor after a left-arrow press.
pub open spec fn spec_move_left(c: TextCursor, s: Seq<char>, extend: bool) -> TextCursor {
    if !extend && c.spec_selection() is Some {
        let lo = c.spec_selection().unwrap().0;
        TextCursor { cursor: lo, anchor: lo }
    } else {
        let cursor = match spec_prev_boundary(s, c.cursor as int) {
            Some(p) => p as usize,
            None => c.cursor,
        };
        TextCursor {
            cursor,
            anchor: if extend {
                c.anchor
            } else {
                cursor
            },
        }
    }
}

/// The cursor after a right-arrow press.
pub open spec fn spec_move_right(c: TextCursor, s: Seq<char>, extend: bool) -> TextCursor {
    if !extend && c.spec_selection() is Some {
        let hi = c.spec_selection().unwrap().1;
        TextCursor { cursor: hi, anchor: hi }
    } else {
        let cursor = match spec_next_boundary(s, c.cursor as int) {
            Some(n) => n as usize,
            None => c.cursor,
        };
        TextCursor {
            cursor,
            anchor: if extend {
                c.anchor
            } else {
                cursor
            },
        }
    }
}

/// `(selection deleted, cursor, text)` after deleting the selection.
pub open spec fn spec_delete_selection(c: TextCursor, s: Seq<char>) -> (bool, TextCursor, Seq<char>) {
    match c.spec_selection() {
        Some((lo, hi)) => (
            true,
            TextCursor { cursor: lo, anchor: lo },
            cut(s, char_index(s, lo as int), char_index(s, hi as int)),
        ),
        None => (false, c, s),
    }
}

/// `(cursor, text)` after typing (or pasting) `t`: the selection, if any,
/// is replaced; otherwise `t` goes in at the caret, which ends up after it.
pub open spec fn spec_insert(c: TextCursor, s: Seq<char>, t: Seq<char>) -> (TextCursor, Seq<char>) {
    let (_, c1, s1) = spec_delete_selection(c, s);
    let k = char_index(s1, c1.cursor as int);
    let cursor = (c1.cursor + byte_len(t)) as usize;
    (TextCursor { cursor, anchor: cursor }, splice_in(s1, k, t))
}

/// `(cursor, text)` after Backspace: the selection, if any, is deleted;
/// otherwise the character before the caret.
pub open spec fn spec_backspace(c: TextCursor, s: Seq<char>) -> (TextCursor, Seq<char>) {
    let (deleted, c1, s1) = spec_delete_selection(c, s);
    if deleted {
        (c1, s1)
    } else {
        match spec_prev_boundary(s, c.cursor as int) {
            Some(p) => {
                let k = char_index(s, c.cursor as int);
                (TextCursor { cursor: p as usize, anchor: p as usize }, cut(s, k - 1, k))
            },
            None => (c, s),
        }
    }
}

/// `(cursor, text)` after Delete: the selection, if any, is deleted;
/// otherwise the character after the caret, which stays put.
pub open spec fn spec_delete_forward(c: TextCursor, s: Seq<char>) -> (TextCursor, Seq<char>) {
    let (deleted, c1, s1) = spec_delete_selection(c, s);
    if deleted {
        (c1, s1)
    } else {
        match spec_next_boundary(s, c.cursor as int) {
            Some(_) => {
                let k = char_index(s, c.cursor as int);
                (c, cut(s, k, k + 1))
            },
            None => (c, s),
        }
    }
}

proof fn lemma_boundary_bound(s: Seq<char>, idx: int)
    requires
        is_boundary(s, idx),
    ensures
        0 <= idx <= byte_len(s),
        0 <= char_index(s, idx) <= s.len(),
        offset_of(s, char_index(s, idx)) == idx,
{
    let k = char_index(s, idx);
    lemma_offset_mono(s, k, s.len() as int);
    assert(s.take(s.len() as int) =~= s);
}

impl TextCursor {
    /// Without `extend` (Shift), an active selection just collapses to its
    /// left edge; otherwise the caret moves one character left.
    pub fn move_left(&mut self, buf: &str, extend: bool)
        requires
            old(self).wf(buf@),
        ensures
            *final(self) == spec_move_left(*old(self), buf@, extend),
            final(self).wf(buf@),
    {
        if !extend {
            if let Some((lo, _)) = self.selection() {
                self.cursor = lo;
                self.anchor = lo;
                return;
            }
        }
        let p = prev_char_boundary(buf, self.cursor);
        proof {
            if p is Some {
                let k = char_index(buf@, self.cursor as int);
                lemma_boundary_bound(buf@, self.cursor as int);
                if k == 0 {
                    assert(buf@.take(0) =~= Seq::<char>::empty());
                }
                lemma_char_index(buf@, k - 1);
            }
        }
        if let Some(prev) = p {
            self.cursor = prev;
        }
        if !extend {
            self.anchor = self.cursor;
        }
    }

    /// Without `extend`, an active selection just collapses to its right
    /// edge; otherwise the caret moves one character right.
    pub fn move_right(&mut self, buf: &str, extend: bool)
        requires
            old(self).wf(buf@),
        ensures
            *final(self) == spec_move_right(*old(self), buf@, extend),
            final(self).wf(buf@),
    {
        if !extend {
            if let Some((_, hi)) = self.selection() {
                self.cursor = hi;
                self.anchor = hi;
                return;
            }
        }
        let n = next_char_boundary(buf, self.cursor);
        proof {
            if n is Some {
                let k = char_index(buf@, self.cursor as int);
                lemma_boundary_bound(buf@, self.cursor as int);
                if k == buf@.len() {
                    assert(buf@.take(k) =~= buf@);
                }
                lemma_char_index(buf@, k + 1);
            }
        }
        if let Some(next) = n {
            self.cursor = next;
        }
        if !extend {
            self.anchor = self.cursor;
        }
    }

    /// Caret to the start; the anchor follows unless `extend`.
    pub fn move_home(&mut self, extend: bool)
        ensures
            final(self).cursor == 0,
            final(self).anchor == if extend {
                old(self).anchor
            } else {
                0
            },
    {
        self.cursor = 0;
        if !extend {
            self.anchor = 0;
        }
    }

    /// Caret to the end; the anchor follows unless `extend`.
    pub fn move_end(&mut self, buf: &str, extend: bool)
        ensures
            final(self).cursor == byte_len(buf@),
            final(self).anchor == if extend {
                old(self).anchor
            } else {
                byte_len(buf@) as usize
            },
    {
        let n = str_byte_len(buf);
        self.cursor = n;
        if !extend {
            self.anchor = n;
        }
    }

    /// Selects the whole text, caret at the end.
    pub fn select_all(&mut self, buf: &str)
        ensures
            final(self).anchor == 0,
            final(self).cursor == byte_len(buf@),
            final(self).wf(buf@),
    {
        proof {
            assert(buf@.take(buf@.len() as int) =~= buf@);
            lemma_char_index(buf@, buf@.len() as int);
            lemma_char_index(buf@, 0);
            assert(buf@.take(0) =~= Seq::<char>::empty());
        }
        self.anchor = 0;
        self.cursor = str_byte_len(buf);
    }

    /// Click/drag positioning; with `extend` (dragging) only the caret
    /// moves, so the selection grows.
    pub fn set_from_click(&mut self, idx: usize, extend: bool)
        ensures
            final(self).cursor == idx,
            final(self).anchor == if extend {
                old(self).anchor
            } else {
                idx
            },
    {
        self.cursor = idx;
        if !extend {
            self.anchor = idx;
        }
    }

    /// Deletes the selection if there is one; returns whether it did.
    pub fn delete_selection(&mut self, buf: &mut String) -> (r: bool)
        requires
            old(self).wf(old(buf)@),
        ensures
            (r, *final(self), final(buf)@) == spec_delete_selection(*old(self), old(buf)@),
            final(self).wf(final(buf)@),
    {
        match self.selection() {
            Some((lo, hi)) => {
                let v = to_chars(buf.as_str());
                let ghost s = v@;
                let klo = find_char_index(&v, lo);
                let khi = find_char_index(&v, hi);
                proof {
                    if klo > khi {
                        lemma_offset_strict(s, khi as int, klo as int);
                    }
                }
                let nb = cut_string(&v, klo, khi);
                proof {
                    assert(nb@.take(klo as int) =~= s.take(klo as int));
                    lemma_offset_kept(s, nb@, klo as int);
                }
                *buf = nb;
                self.cursor = lo;
                self.anchor = lo;
                true
            },
            None => false,
        }
    }

    /// Replaces the selection, or inserts at the caret, which ends up just
    /// after the inserted text.
    pub fn insert(&mut self, buf: &mut String, s: &str)
        requires
            old(self).wf(old(buf)@),
            byte_len(old(buf)@) + byte_len(s@) <= usize::MAX,
        ensures
            (*final(self), final(buf)@) == spec_insert(*old(self), old(buf)@, s@),
            final(self).wf(final(buf)@),
    {
        let ghost b0 = buf@;
        let _ = self.delete_selection(buf);
        let ghost b1 = buf@;
        proof {
            if old(self).spec_selection() is Some {
                let (lo, hi) = old(self).spec_selection().unwrap();
                lemma_boundary_bound(b0, lo as int);
                lemma_boundary_bound(b0, hi as int);
                let a = char_index(b0, lo as int);
                let b = char_index(b0, hi as int);
                if a > b {
                    lemma_offset_strict(b0, b, a);
                }
                lemma_byte_len_take_skip(b0, a);
                lemma_byte_len_take_skip(b0, b);
                lemma_byte_len_take_skip(b0.skip(a), b - a);
                assert(b0.skip(a).skip(b - a) =~= b0.skip(b));
                lemma_byte_len_append(b0.take(a), b0.skip(b));
            }
        }
        let v = to_chars(buf.as_str());
        let t = to_chars(s);
        let k = find_char_index(&v, self.cursor);
        proof {
            lemma_boundary_bound(b1, self.cursor as int);
            lemma_byte_len_take_skip(b1, k as int);
        }
        let mut out: Vec<char> = Vec::new();
        extend_chars(&mut out, &v, 0, k);
        extend_chars(&mut out, &t, 0, t.len());
        extend_chars(&mut out, &v, k, v.len());
        assert(out@ =~= splice_in(b1, k as int, s@));
        let tl = str_byte_len(s);
        proof {
            let nb = out@;
            assert(nb.take(k + t@.len()) =~= b1.take(k as int) + s@);
            lemma_byte_len_append(b1.take(k as int), s@);
            lemma_char_index(nb, k + t@.len());
        }
        *buf = string_from_chars(out.as_slice());
        self.cursor = self.cursor + tl;
        self.anchor = self.cursor;
    }

    /// Backspace: deletes the selection, or the character before the caret.
    pub fn backspace(&mut self, buf: &mut String)
        requires
            old(self).wf(old(buf)@),
        ensures
            (*final(self), final(buf)@) == spec_backspace(*old(self), old(buf)@),
            final(self).wf(final(buf)@),
    {
        if self.delete_selection(buf) {
            return;
        }
        let p = prev_char_boundary(buf.as_str(), self.cursor);
        if let Some(prev) = p {
            let v = to_chars(buf.as_str());
            let ghost s = v@;
            let k = find_char_index(&v, self.cursor);
            proof {
                if k == 0 {
                    assert(s.take(0) =~= Seq::<char>::empty());
                }
            }
            let nb = cut_string(&v, k - 1, k);
            proof {
                assert(nb@.take(k - 1) =~= s.take(k - 1));
                lemma_offset_kept(s, nb@, k - 1);
            }
            *buf = nb;
            self.cursor = prev;
            self.anchor = prev;
        }
    }

    /// Delete: deletes the selection, or the character after the caret
    /// (the caret stays put).
    pub fn delete_forward(&mut self, buf: &mut String)
        requires
            old(self).wf(old(buf)@),
        ensures
            (*final(self), final(buf)@) == spec_delete_forward(*old(self), old(buf)@),
            final(self).wf(final(buf)@),
    {
        if self.delete_selection(buf) {
            return;
        }
        let n = next_char_boundary(buf.as_str(), self.cursor);
        if let Some(_) = n {
            let v = to_chars(buf.as_str());
            let ghost s = v@;
            let k = find_char_index(&v, self.cursor);
            proof {
                lemma_boundary_bound(s, self.cursor as int);
                assert(self.cursor < byte_len(s));
                if k == s.len() {
                    assert(s.take(k as int) =~= s);
                }
                assert(k < s.len());
            }
            let nb = cut_string(&v, k, k + 1);
            proof {
                assert(nb@.take(k as int) =~= s.take(k as int));
                lemma_offset_kept(s, nb@, k as int);
            }
            *buf = nb;
        }
    }
}

/// Byte offset of the `n`-th character boundary, clamped to the end.
pub fn byte_index_for_char_count(s: &str, n: usize) -> (r: usize)
    ensures
        r == offset_of(s@, if n < s@.len() {
            n as int
        } else {
            s@.len() as int
        }),
{
    let _total = str_byte_len(s);
    let v = to_chars(s);
    let m = if n < v.len() {
        n
    } else {
        v.len()
    };
    proof {
        lemma_offset_mono(s@, m as int, s@.len() as int);
        assert(s@.take(s@.len() as int) =~= s@);
    }
    let mut off: usize = 0;
    let mut i: usize = 0;
    while i < m
        invariant
            v@ == s@,
            m <= v@.len(),
            offset_of(s@, m as int) <= usize::MAX,
            i <= m,
            off == offset_of(s@, i as int),
        decreases m - i,
    {
        proof {
            lemma_take_push(s@, i as int);
            lemma_offset_mono(s@, i as int + 1, m as int);
        }
        off = off + char_len_exec(v[i]);
        i = i + 1;
    }
    off
}

/// Typing one character and then pressing Backspace, with no selection,
/// gives back the text and the caret as they were.
pub proof fn lemma_insert_then_backspace(c: TextCursor, s: Seq<char>, ch: char)
    requires
        c.wf(s),
        c.cursor == c.anchor,
        byte_len(s) + char_len(ch) <= usize::MAX,
    ensures
        ({
            let (c1, s1) = spec_insert(c, s, seq![ch]);
            spec_backspace(c1, s1) == (c, s)
        }),
{
    let (c1, s1) = spec_insert(c, s, seq![ch]);
    lemma_boundary_bound(s, c.cursor as int);
    let k = char_index(s, c.cursor as int);
    assert(s1 == s.take(k) + seq![ch] + s.skip(k));
    assert(byte_len(seq![ch]) == char_len(ch)) by {
        assert(seq![ch].drop_last() =~= Seq::<char>::empty());
        assert(byte_len(Seq::<char>::empty()) == 0);
        assert(seq![ch].last() == ch);
    }
    lemma_char_len_bounds(ch);
    // The new caret sits after the inserted character.
    assert(s1.take(k + 1) =~= s.take(k) + seq![ch]);
    lemma_byte_len_append(s.take(k), seq![ch]);
    assert(offset_of(s1, k + 1) == c1.cursor);
    lemma_char_index(s1, k + 1);
    assert(char_index(s1, c1.cursor as int) == k + 1);
    // The boundary before it is the old caret.
    assert(s1.take(k) =~= s.take(k));
    assert(offset_of(s1, k) == c.cursor);
    assert(cut(s1, k, k + 1) =~= s);
}


/// Delete with text selected removes exactly the selected characters,
/// those between the selection's two ends, and leaves the caret at the
/// selection's low end with nothing selected; the text shrinks by the
/// selection's byte length. It does the same as Backspace there.
pub proof fn lemma_delete_forward_removes_selection(c: TextCursor, s: Seq<char>)
    requires
        c.wf(s),
        c.cursor != c.anchor,
    ensures
        ({
            let lo = if c.cursor < c.anchor {
                c.cursor
            } else {
                c.anchor
            };
            let hi = if c.cursor < c.anchor {
                c.anchor
            } else {
                c.cursor
            };
            let (c1, s1) = spec_delete_forward(c, s);
            &&& c1.cursor == lo
            &&& c1.anchor == lo
            &&& s1 == s.take(char_index(s, lo as int)) + s.skip(char_index(s, hi as int))
            &&& byte_len(s1) + (hi - lo) == byte_len(s)
            &&& spec_delete_forward(c, s) == spec_backspace(c, s)
        }),
{
    let lo = if c.cursor < c.anchor {
        c.cursor
    } else {
        c.anchor
    };
    let hi = if c.cursor < c.anchor {
        c.anchor
    } else {
        c.cursor
    };
    lemma_boundary_bound(s, lo as int);
    lemma_boundary_bound(s, hi as int);
    let klo = char_index(s, lo as int);
    let khi = char_index(s, hi as int);
    lemma_byte_len_take_skip(s, klo);
    lemma_byte_len_take_skip(s, khi);
    lemma_byte_len_append(s.take(klo), s.skip(khi));
}

} // verus!
