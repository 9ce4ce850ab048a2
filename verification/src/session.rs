//! Editor session history as the Recent tab sees it. A session lives in a
//! folder named `{YYYY-MM-DD_HH-MM-SS}_{pid}_{nanos}`, so ordering the
//! names orders the sessions by age. Walking the folder, reading the
//! thumbnails and deleting folders are the caller's; this module decides
//! the order, the labels and what to delete.

use vstd::prelude::*;
use vstd::relations::{sorted_by, total_ordering};
use vstd::seq_lib::{lemma_sorted_unique, to_multiset_insert};
use std::rc::Rc;
use vstd::string::StringExecFns;
use crate::store::hotkeys::strings_view;
use crate::export::{decode_image, decoded_image};
use crate::filename::{chrono_format, format_instant};
use crate::text::{decimal, decimal_chars, decimal_chars_wide, push_all, push_str, string_from_chars, to_chars};

verus! {

/// Target size of the thumbnails written for the Recent tab (fit within,
/// keeping the aspect ratio).
pub const THUMB_W: u32 = 160;
pub const THUMB_H: u32 = 100;

/// Whether folder name `a` sorts before or equal to `b`: code point by
/// code point, a prefix first (the byte order of their UTF-8, which is
/// `String`'s order).
pub open spec fn name_le(a: Seq<char>, b: Seq<char>) -> bool
    decreases a.len(),
{
    if a.len() == 0 {
        true
    } else if b.len() == 0 {
        false
    } else if a[0] != b[0] {
        (a[0] as int) < (b[0] as int)
    } else {
        name_le(a.drop_first(), b.drop_first())
    }
}

/// `name_le` as a relation.
pub open spec fn name_order() -> spec_fn(Seq<char>, Seq<char>) -> bool {
    |a: Seq<char>, b: Seq<char>| name_le(a, b)
}

proof fn lemma_name_le_refl(a: Seq<char>)
    ensures
        name_le(a, a),
    decreases a.len(),
{
    if a.len() > 0 {
        lemma_name_le_refl(a.drop_first());
    }
}

proof fn lemma_name_le_antisym(a: Seq<char>, b: Seq<char>)
    requires
        name_le(a, b),
        name_le(b, a),
    ensures
        a == b,
    decreases a.len(),
{
    if a.len() > 0 && b.len() > 0 && a[0] == b[0] {
        lemma_name_le_antisym(a.drop_first(), b.drop_first());
        assert(a =~= seq![a[0]] + a.drop_first());
        assert(b =~= seq![b[0]] + b.drop_first());
    } else if a.len() == 0 && b.len() == 0 {
        assert(a =~= b);
    }
}

proof fn lemma_name_le_trans(a: Seq<char>, b: Seq<char>, c: Seq<char>)
    requires
        name_le(a, b),
        name_le(b, c),
    ensures
        name_le(a, c),
    decreases a.len(),
{
    if a.len() > 0 && b.len() > 0 && c.len() > 0 && a[0] == b[0] && b[0] == c[0] {
        lemma_name_le_trans(a.drop_first(), b.drop_first(), c.drop_first());
    }
}

proof fn lemma_name_le_total(a: Seq<char>, b: Seq<char>)
    ensures
        name_le(a, b) || name_le(b, a),
    decreases a.len(),
{
    if a.len() > 0 && b.len() > 0 && a[0] == b[0] {
        lemma_name_le_total(a.drop_first(), b.drop_first());
    }
}

/// Folder names are totally ordered.
pub proof fn lemma_name_order_total()
    ensures
        total_ordering(name_order()),
{
    let r = name_order();
    assert forall|x: Seq<char>| #[trigger] r(x, x) by {
        lemma_name_le_refl(x);
    }
    assert forall|x: Seq<char>, y: Seq<char>| #[trigger] r(x, y) && #[trigger] r(y, x) implies x
        == y by {
        lemma_name_le_antisym(x, y);
    }
    assert forall|x: Seq<char>, y: Seq<char>, z: Seq<char>| #[trigger]
        r(x, y) && #[trigger] r(y, z) implies r(x, z) by {
        lemma_name_le_trans(x, y, z);
    }
    assert forall|x: Seq<char>, y: Seq<char>| #[trigger] r(x, y) || #[trigger] r(y, x) by {
        lemma_name_le_total(x, y);
    }
}

/// Whether `a` sorts before or equal to `b` (see `name_le`).
pub fn name_le_exec(a: &str, b: &str) -> (r: bool)
    ensures
        r == name_le(a@, b@),
{
    let na = a.unicode_len();
    let nb = b.unicode_len();
    let mut i: usize = 0;
    assert(a@.skip(0) =~= a@);
    assert(b@.skip(0) =~= b@);
    while i < na && i < nb
        invariant
            na == a@.len(),
            nb == b@.len(),
            i <= na,
            i <= nb,
            name_le(a@, b@) == name_le(a@.skip(i as int), b@.skip(i as int)),
        decreases na - i,
    {
        let ca = a.get_char(i);
        let cb = b.get_char(i);
        if ca != cb {
            return (ca as u32) < (cb as u32);
        }
        assert(a@.skip(i as int).drop_first() =~= a@.skip(i as int + 1));
        assert(b@.skip(i as int).drop_first() =~= b@.skip(i as int + 1));
        i = i + 1;
    }
    i == na
}

/// `names` in ascending order (oldest session first).
pub fn sort_names(names: &[String]) -> (r: Vec<String>)
    ensures
        strings_view(r@) == strings_view(names@).sort_by(name_order()),
{
    let ghost leq = name_order();
    let ghost input = strings_view(names@);
    proof {
        lemma_name_order_total();
    }
    let mut out: Vec<String> = Vec::new();
    let mut i: usize = 0;
    assert(strings_view(out@) =~= input.take(0));
    while i < names.len()
        invariant
            leq == name_order(),
            total_ordering(leq),
            input == strings_view(names@),
            i <= names@.len(),
            sorted_by(strings_view(out@), leq),
            strings_view(out@).to_multiset() == input.take(i as int).to_multiset(),
        decreases names.len() - i,
    {
        let x = names[i].clone();
        let ghost xv = x@;
        let ghost s = strings_view(out@);
        let mut p: usize = 0;
        while p < out.len() && name_le_exec(out[p].as_str(), x.as_str())
            invariant
                s == strings_view(out@),
                xv == x@,
                p <= out@.len(),
                forall|k: int| 0 <= k < p ==> name_le(#[trigger] s[k], xv),
            decreases out.len() - p,
        {
            assert(s[p as int] == out@[p as int]@);
            p = p + 1;
        }
        proof {
            if p < s.len() {
                assert(s[p as int] == out@[p as int]@);
                lemma_name_le_total(s[p as int], xv);
            }
            assert forall|k: int| p <= k < s.len() implies name_le(xv, #[trigger] s[k]) by {
                if k > p {
                    assert(leq(s[p as int], s[k]));
                    lemma_name_le_trans(xv, s[p as int], s[k]);
                }
            }
        }
        out.insert(p, x);
        proof {
            let t = strings_view(out@);
            assert(t =~= s.insert(p as int, xv));
            assert forall|a: int, b: int| 0 <= a < b < t.len() implies #[trigger] leq(
                t[a],
                t[b],
            ) by {
                if b < p {
                    assert(leq(s[a], s[b]));
                } else if b == p {
                    assert(name_le(s[a], xv));
                } else if a < p {
                    assert(name_le(s[a], xv));
                    assert(name_le(xv, s[b - 1]));
                    lemma_name_le_trans(s[a], xv, s[b - 1]);
                } else if a == p {
                    assert(name_le(xv, s[b - 1]));
                } else {
                    assert(leq(s[a - 1], s[b - 1]));
                }
            }
            to_multiset_insert(s, p as int, xv);
            assert(input.take(i as int + 1) =~= input.take(i as int).push(xv));
            vstd::seq_lib::to_multiset_build(input.take(i as int), xv);
        }
        i = i + 1;
    }
    proof {
        assert(input.take(names@.len() as int) =~= input);
        input.lemma_sort_by_ensures(leq);
        lemma_sorted_unique(strings_view(out@), input.sort_by(leq), leq);
    }
    out
}

/// The sessions to delete so that `limit` remain: all but the `limit`
/// newest, oldest first.
pub open spec fn spec_prune(names: Seq<Seq<char>>, limit: int) -> Seq<Seq<char>> {
    let s = names.sort_by(name_order());
    if s.len() > limit {
        s.take(s.len() - limit)
    } else {
        Seq::empty()
    }
}

/// Which of the session folders `names` to delete to keep only `limit`:
/// the oldest, in ascending order.
pub fn prune(names: &[String], limit: usize) -> (r: Vec<String>)
    ensures
        strings_view(r@) == spec_prune(strings_view(names@), limit as int),
{
    let mut sorted = sort_names(names);
    if sorted.len() > limit {
        let keep = sorted.len() - limit;
        sorted.truncate(keep);
        proof {
            assert(strings_view(sorted@) =~= strings_view(names@).sort_by(name_order()).take(
                keep as int,
            ));
        }
        sorted
    } else {
        Vec::new()
    }
}

/// Pruning keeps the `limit` newest sessions (all of them when there are
/// no more): it deletes `len - limit` folders, each of them older than or
/// equal to every folder kept, and nothing that was not there.
pub proof fn lemma_prune_keeps_newest(names: Seq<Seq<char>>, limit: nat)
    ensures
        ({
            let s = names.sort_by(name_order());
            let r = spec_prune(names, limit as int);
            &&& s.to_multiset() == names.to_multiset()
            &&& r.len() == if names.len() > limit {
                names.len() - limit
            } else {
                0
            }
            &&& r == s.take(r.len() as int)
            &&& forall|i: int, j: int|
                0 <= i < r.len() <= j < s.len() ==> name_le(#[trigger] s[i], #[trigger] s[j])
        }),
{
    lemma_name_order_total();
    names.lemma_sort_by_ensures(name_order());
    let s = names.sort_by(name_order());
    s.to_multiset_ensures();
    names.to_multiset_ensures();
    assert(s.len() == names.len());
    let r = spec_prune(names, limit as int);
    if s.len() <= limit {
        assert(r =~= s.take(0));
    }
    assert forall|i: int, j: int| 0 <= i < r.len() <= j < s.len() implies name_le(
        #[trigger] s[i],
        #[trigger] s[j],
    ) by {
        assert(name_order()(s[i], s[j]));
    }
}

/// The session folders `names`, newest first.
pub open spec fn spec_list(names: Seq<Seq<char>>) -> Seq<Seq<char>> {
    names.sort_by(name_order()).reverse()
}

/// Orders the session folders `names` for the Recent tab, newest first.
pub fn list(names: &[String]) -> (r: Vec<String>)
    ensures
        strings_view(r@) == spec_list(strings_view(names@)),
{
    let sorted = sort_names(names);
    let n = sorted.len();
    let mut out: Vec<String> = Vec::new();
    let mut i: usize = 0;
    while i < n
        invariant
            n == sorted@.len(),
            i <= n,
            strings_view(out@) =~= strings_view(sorted@).reverse().take(i as int),
        decreases n - i,
    {
        let ghost before = out@;
        out.push(sorted[n - 1 - i].clone());
        assert(out@ == before.push(sorted@[n - 1 - i]));
        assert(strings_view(out@) =~= strings_view(before).push(sorted@[n - 1 - i]@));
        assert(strings_view(sorted@).reverse()[i as int] == sorted@[n - 1 - i]@);
        i = i + 1;
        assert(strings_view(out@) =~= strings_view(sorted@).reverse().take(i as int));
    }
    assert(strings_view(sorted@).reverse().take(n as int) =~= strings_view(sorted@).reverse());
    out
}

/// `s` with every `-` turned into `:`.
pub open spec fn dashes_to_colons(s: Seq<char>) -> Seq<char> {
    s.map_values(|c: char| if c == '-' { ':' } else { c })
}

/// The Recent tab's label for folder `name`: its first 19 characters
/// `YYYY-MM-DD_HH-MM-SS` shown as `YYYY-MM-DD HH:MM:SS`; a name shorter
/// than 19 characters is shown as it is.
pub open spec fn spec_label(name: Seq<char>) -> Seq<char> {
    if name.len() < 19 {
        name
    } else {
        name.subrange(0, 10) + seq![' '] + dashes_to_colons(name.subrange(11, 19))
    }
}

/// Formats a session folder name's first 19 characters
/// (`YYYY-MM-DD_HH-MM-SS`) as `YYYY-MM-DD HH:MM:SS`.
pub fn label_from_dir_name(name: &str) -> (r: String)
    ensures
        r@ == spec_label(name@),
{
    let v = to_chars(name);
    if v.len() < 19 {
        return String::from_str(name);
    }
    let mut out: Vec<char> = Vec::new();
    let mut i: usize = 0;
    while i < 10
        invariant
            v@ == name@,
            19 <= v@.len(),
            i <= 10,
            out@ == name@.subrange(0, i as int),
        decreases 10 - i,
    {
        out.push(v[i]);
        i = i + 1;
        assert(out@ =~= name@.subrange(0, i as int));
    }
    out.push(' ');
    let ghost head = out@;
    let mut j: usize = 11;
    while j < 19
        invariant
            v@ == name@,
            19 <= v@.len(),
            11 <= j <= 19,
            out@ == head + dashes_to_colons(name@.subrange(11, j as int)),
        decreases 19 - j,
    {
        let ch = v[j];
        out.push(
            if ch == '-' {
                ':'
            } else {
                ch
            },
        );
        j = j + 1;
        assert(out@ =~= head + dashes_to_colons(name@.subrange(11, j as int)));
    }
    string_from_chars(out.as_slice())
}


/// One session as the Recent tab shows it.
pub struct SessionSummary {
    /// The session's folder.
    pub dir: String,
    /// `YYYY-MM-DD HH:MM:SS`.
    pub label: String,
    pub thumb_w: usize,
    pub thumb_h: usize,
    /// The thumbnail's pixels, `0x00RRGGBB`.
    pub thumb: Rc<Vec<u32>>,
}

/// The opaque pixel `0x00RRGGBB` of the RGB bytes `r, g, b`.
pub open spec fn rgb_packed(r: u8, g: u8, b: u8) -> u32 {
    (r * 0x1_0000 + g * 0x100 + b) as u32
}

/// The first `n` pixels of RGBA bytes `px` as opaque packed pixels (the
/// alpha byte is dropped).
pub open spec fn rgb_packed_upto(px: Seq<u8>, n: nat) -> Seq<u32>
    decreases n,
{
    if n == 0 {
        Seq::empty()
    } else {
        rgb_packed_upto(px, (n - 1) as nat).push(
            rgb_packed(px[4 * (n - 1)], px[4 * (n - 1) + 1], px[4 * (n - 1) + 2]),
        )
    }
}

/// The Recent tab's entry for the session in folder `dir`, named `name`,
/// whose thumbnail is `w` by `h` RGBA pixels `rgba` (every whole group
/// of four bytes is one pixel).
pub fn summarize(dir: String, name: &str, w: usize, h: usize, rgba: &[u8]) -> (r: SessionSummary)
    ensures
        r.dir@ == dir@,
        r.label@ == spec_label(name@),
        r.thumb_w == w,
        r.thumb_h == h,
        r.thumb@ == rgb_packed_upto(rgba@, (rgba@.len() / 4) as nat),
{
    let n = rgba.len();
    let count = n / 4;
    assert(4 * count <= n) by (nonlinear_arith)
        requires
            count == n / 4,
    ;
    let mut pixels: Vec<u32> = Vec::new();
    let mut i: usize = 0;
    while i < count
        invariant
            n == rgba@.len(),
            count == n / 4,
            4 * count <= n,
            i <= count,
            pixels@ == rgb_packed_upto(rgba@, i as nat),
        decreases count - i,
    {
        let r = rgba[4 * i] as u32;
        let g = rgba[4 * i + 1] as u32;
        let b = rgba[4 * i + 2] as u32;
        pixels.push(r * 0x1_0000 + g * 0x100 + b);
        i = i + 1;
    }
    SessionSummary {
        dir,
        label: label_from_dir_name(name),
        thumb_w: w,
        thumb_h: h,
        thumb: Rc::new(pixels),
    }
}

/// The name of a new session folder: the local date and time of the
/// instant `secs`/`nanos` (since the Unix epoch) at UTC offset
/// `offset_secs` as `YYYY-MM-DD_HH-MM-SS`, then the process id `pid` and
/// `unix_nanos`, the nanoseconds since the epoch, joined by `_`, so that
/// names sort by age and two processes never collide. `None` when
/// chrono refuses the instant or the offset.
pub fn timestamp_dir_name(secs: i64, nanos: u32, offset_secs: i32, pid: u32, unix_nanos: u128) -> (r:
    Option<String>)
    ensures
        match chrono_format(secs, nanos, offset_secs, "%Y-%m-%d_%H-%M-%S"@) {
            Some(t) => r is Some && r->0@ == t + seq!['_'] + decimal(pid as nat) + seq!['_']
                + decimal(unix_nanos as nat),
            None => r is None,
        },
{
    match format_instant(secs, nanos, offset_secs, "%Y-%m-%d_%H-%M-%S") {
        Some(stamp) => {
            let mut out: Vec<char> = Vec::new();
            push_str(&mut out, stamp.as_str());
            out.push('_');
            let p = decimal_chars(pid as u64);
            push_all(&mut out, p.as_slice());
            out.push('_');
            let n = decimal_chars_wide(unix_nanos);
            push_all(&mut out, n.as_slice());
            Some(string_from_chars(out.as_slice()))
        },
        None => None,
    }
}


proof fn lemma_rgb_packed_len(px: Seq<u8>, n: nat)
    ensures
        rgb_packed_upto(px, n).len() == n,
    decreases n,
{
    if n > 0 {
        lemma_rgb_packed_len(px, (n - 1) as nat);
    }
}

/// The Recent tab's entry for the session in folder `dir`, named `name`,
/// from the bytes `thumb` of its `thumb.png`; `None` when the thumbnail
/// does not decode as a PNG (such a session is left out of the list).
pub fn summarize_from_thumb(dir: String, name: &str, thumb: &[u8]) -> (r: Option<SessionSummary>)
    ensures
        match decoded_image(thumb@, "png"@) {
            None => r is None,
            Some((w, h, px)) => r matches Some(s) && s.dir@ == dir@ && s.label@ == spec_label(
                name@,
            ) && s.thumb_w == w && s.thumb_h == h && s.thumb@ == rgb_packed_upto(
                px,
                (px.len() / 4) as nat,
            ),
        },
        r matches Some(s) ==> s.thumb@.len() == s.thumb_w * s.thumb_h,
{
    match decode_image(thumb, "png") {
        Some((w, h, px)) => {
            proof {
                lemma_rgb_packed_len(px@, (px@.len() / 4) as nat);
                assert((w * h * 4) / 4 == w * h) by (nonlinear_arith);
            }
            Some(summarize(dir, name, w as usize, h as usize, px.as_slice()))
        },
        None => None,
    }
}

} // verus!
