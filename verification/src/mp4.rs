//! Removes a silent audio track from an MP4 after the fact, when a
//! recording never actually used audio.
//!
//! The encoder fixes the audio track layout at recording start, so when a
//! recording stayed silent throughout, the audio `trak` is stripped from
//! the ISO-BMFF `moov` afterwards. Best-effort and non-destructive above
//! all: any unexpected structure (fragmentation, several `mdat` boxes, a
//! 64-bit or open-ended box size, ...) makes it give up and change nothing.

use vstd::prelude::*;

verus! {

/// A parsed box: type, range. `start..end` is the whole box and
/// `start + header_len..end` its payload.
#[derive(Clone, Copy, Debug, PartialEq, Eq)]
pub struct BoxHeader {
    pub fourcc: [u8; 4],
    pub start: usize,
    pub header_len: usize,
    pub end: usize,
}

/// Big-endian value of the four bytes `d[i..i + 4]`.
pub open spec fn be32(d: Seq<u8>, i: int) -> int {
    d[i] * 0x1000000 + d[i + 1] * 0x10000 + d[i + 2] * 0x100 + d[i + 3]
}

/// Big-endian value of the eight bytes `d[i..i + 8]`.
pub open spec fn be64(d: Seq<u8>, i: int) -> int {
    be32(d, i) * 0x1_0000_0000 + be32(d, i + 4)
}

/// The four-byte type code `d[i..i + 4]`.
pub open spec fn fourcc_at(d: Seq<u8>, i: int) -> Seq<u8> {
    d.subrange(i, i + 4)
}

/// The box that starts at `start` within `[start, limit)`, if its header is
/// a plain 32-bit size of at least 8 that ends no later than `limit`.
pub open spec fn spec_parse_box(d: Seq<u8>, start: int, limit: int) -> Option<BoxHeader> {
    if start + 8 > limit {
        None
    } else if be32(d, start) < 8 {
        None
    } else if start + be32(d, start) > limit {
        None
    } else {
        Some(
            BoxHeader {
                fourcc: [d[start + 4], d[start + 5], d[start + 6], d[start + 7]],
                start: start as usize,
                header_len: 8,
                end: (start + be32(d, start)) as usize,
            },
        )
    }
}

/// `[start, limit)` read as a gapless sequence of boxes; `None` when a box
/// fails to parse or the boxes do not fill the range exactly.
pub open spec fn spec_list_boxes(d: Seq<u8>, start: int, limit: int) -> Option<Seq<BoxHeader>>
    decreases limit - start,
{
    if start >= limit {
        if start == limit {
            Some(Seq::empty())
        } else {
            None
        }
    } else {
        match spec_parse_box(d, start, limit) {
            None => None,
            Some(b) => if start < b.end <= limit {
                match spec_list_boxes(d, b.end as int, limit) {
                    None => None,
                    Some(rest) => Some(seq![b] + rest),
                }
            } else {
                None
            },
        }
    }
}

/// A header that describes a box lying inside a buffer of `len` bytes.
pub open spec fn box_in(b: BoxHeader, len: int) -> bool {
    &&& b.header_len == 8
    &&& b.start + 8 <= b.end <= len
    &&& b.end <= b.start + u32::MAX
}

/// `bs` tiles `[start, limit)`: consecutive, gapless boxes in order.
pub open spec fn tiles(bs: Seq<BoxHeader>, start: int, limit: int) -> bool {
    &&& bs.len() == 0 ==> start == limit
    &&& bs.len() > 0 ==> bs[0].start == start && bs[bs.len() - 1].end == limit
    &&& forall|i: int| 0 <= i < bs.len() - 1 ==> #[trigger] bs[i].end == bs[i + 1].start
    &&& forall|i: int| 0 <= i < bs.len() ==> #[trigger] bs[i].header_len == 8
    &&& forall|i: int| 0 <= i < bs.len() ==> bs[i].start + 8 <= #[trigger] bs[i].end
    &&& forall|i: int| 0 <= i < bs.len() ==> #[trigger] bs[i].end <= bs[i].start + u32::MAX
}

/// Every box that `spec_list_boxes` reports lies within the range and the
/// boxes tile it.
pub proof fn lemma_list_boxes_tile(d: Seq<u8>, start: int, limit: int)
    requires
        0 <= start,
    ensures
        spec_list_boxes(d, start, limit) matches Some(bs) ==> tiles(bs, start, limit),
    decreases limit - start,
{
    if start < limit {
        if let Some(b) = spec_parse_box(d, start, limit) {
            if start < b.end <= limit {
                lemma_list_boxes_tile(d, b.end as int, limit);
                if let Some(rest) = spec_list_boxes(d, b.end as int, limit) {
                    let bs = seq![b] + rest;
                    assert forall|i: int| 0 <= i < bs.len() - 1 implies #[trigger] bs[i].end
                        == bs[i + 1].start by {
                        if i > 0 {
                            assert(bs[i] == rest[i - 1]);
                            assert(bs[i + 1] == rest[i]);
                        }
                    }
                    assert forall|i: int| 0 <= i < bs.len() implies #[trigger] bs[i].header_len
                        == 8 by {
                        if i > 0 {
                            assert(bs[i] == rest[i - 1]);
                        }
                    }
                    assert forall|i: int| 0 <= i < bs.len() implies bs[i].start + 8
                        <= #[trigger] bs[i].end by {
                        if i > 0 {
                            assert(bs[i] == rest[i - 1]);
                        }
                    }
                    assert forall|i: int| 0 <= i < bs.len() implies #[trigger] bs[i].end
                        <= bs[i].start + u32::MAX by {
                        if i > 0 {
                            assert(bs[i] == rest[i - 1]);
                        }
                    }
                }
            }
        }
    }
}

/// Every box of a tiling of `[start, limit)` lies within it.
pub proof fn lemma_tiles_bounds(bs: Seq<BoxHeader>, start: int, limit: int, i: int)
    requires
        tiles(bs, start, limit),
        0 <= i < bs.len(),
    ensures
        start <= bs[i].start,
        bs[i].start + 8 <= bs[i].end <= limit,
        bs[i].end <= bs[i].start + u32::MAX,
        bs[i].header_len == 8,
    decreases bs.len() - i,
{
    if i == 0 {
    } else {
        lemma_tiles_lower(bs, start, limit, i);
    }
    if i < bs.len() - 1 {
        lemma_tiles_bounds(bs, start, limit, i + 1);
        assert(bs[i].end == bs[i + 1].start);
    }
}

proof fn lemma_tiles_lower(bs: Seq<BoxHeader>, start: int, limit: int, i: int)
    requires
        tiles(bs, start, limit),
        0 <= i < bs.len(),
    ensures
        start <= bs[i].start,
    decreases i,
{
    if i > 0 {
        lemma_tiles_lower(bs, start, limit, i - 1);
        assert(bs[i - 1].end == bs[i].start);
    }
}

/// Big-endian 32-bit read; the caller guarantees `i + 4 <= d.len()`.
fn read_be32(d: &[u8], i: usize) -> (r: u32)
    requires
        i + 4 <= d@.len(),
    ensures
        r as int == be32(d@, i as int),
{
    (d[i] as u32) * 0x1000000 + (d[i + 1] as u32) * 0x10000 + (d[i + 2] as u32) * 0x100 + (d[i
        + 3] as u32)
}

/// Big-endian 64-bit read; the caller guarantees `i + 8 <= d.len()`.
fn read_be64(d: &[u8], i: usize) -> (r: u64)
    requires
        i + 8 <= d.len(),
    ensures
        r as int == be64(d@, i as int),
{
    let hi = read_be32(d, i) as u64;
    let lo = read_be32(d, i + 4) as u64;
    hi * 0x1_0000_0000 + lo
}

/// Reads one box at `data[start..]`, no further than `limit`. `None` for
/// unsupported forms (a 64-bit size, `size == 1`, or "extends to the end",
/// `size == 0`) and for a box that does not fit (fewer than 8 bytes
/// before `limit`, `start` past `limit` included), so the caller gives up.
pub fn parse_box(data: &[u8], start: usize, limit: usize) -> (r: Option<BoxHeader>)
    requires
        limit <= data@.len(),
    ensures
        r == spec_parse_box(data@, start as int, limit as int),
{
    if limit < start || limit - start < 8 {
        return None;
    }
    let size32 = read_be32(data, start);
    if size32 < 8 {
        return None;
    }
    let fourcc: [u8; 4] = [data[start + 4], data[start + 5], data[start + 6], data[start + 7]];
    if size32 as usize > limit - start {
        return None;
    }
    let end = start + size32 as usize;
    Some(BoxHeader { fourcc, start, header_len: 8, end })
}

/// Scans `[start, limit)` as a gapless sequence of boxes. `None` when a box
/// fails to parse or the boxes do not fill the range exactly.
pub fn list_boxes(data: &[u8], start: usize, limit: usize) -> (r: Option<Vec<BoxHeader>>)
    requires
        limit <= data@.len(),
    ensures
        r matches Some(v) ==> spec_list_boxes(data@, start as int, limit as int) == Some(v@),
        r is None ==> spec_list_boxes(data@, start as int, limit as int) is None,
        r matches Some(v) ==> tiles(v@, start as int, limit as int),
{
    proof {
        lemma_list_boxes_tile(data@, start as int, limit as int);
    }
    let mut v: Vec<BoxHeader> = Vec::new();
    let mut pos = start;
    while pos < limit
        invariant
            limit <= data@.len(),
            start <= pos,
            spec_list_boxes(data@, start as int, limit as int) == match spec_list_boxes(
                data@,
                pos as int,
                limit as int,
            ) {
                None => None,
                Some(rest) => Some(v@ + rest),
            },
        decreases limit - pos,
    {
        let b = match parse_box(data, pos, limit) {
            Some(b) => b,
            None => return None,
        };
        proof {
            if let Some(rest) = spec_list_boxes(data@, b.end as int, limit as int) {
                assert(v@.push(b) + rest =~= v@ + (seq![b] + rest));
            }
        }
        pos = b.end;
        v.push(b);
    }
    if pos != limit {
        return None;
    }
    assert(v@ + Seq::<BoxHeader>::empty() =~= v@);
    Some(v)
}

/// Box types that the rebuild recurses into.
pub const MOOV: [u8; 4] = [0x6d, 0x6f, 0x6f, 0x76];
pub const TRAK: [u8; 4] = [0x74, 0x72, 0x61, 0x6b];
pub const MDIA: [u8; 4] = [0x6d, 0x64, 0x69, 0x61];
pub const MINF: [u8; 4] = [0x6d, 0x69, 0x6e, 0x66];
pub const STBL: [u8; 4] = [0x73, 0x74, 0x62, 0x6c];
/// Leaf boxes and top-level markers the stripper looks at.
pub const HDLR: [u8; 4] = [0x68, 0x64, 0x6c, 0x72];
pub const STCO: [u8; 4] = [0x73, 0x74, 0x63, 0x6f];
pub const CO64: [u8; 4] = [0x63, 0x6f, 0x36, 0x34];
pub const MOOF: [u8; 4] = [0x6d, 0x6f, 0x6f, 0x66];
pub const MDAT: [u8; 4] = [0x6d, 0x64, 0x61, 0x74];
pub const MVEX: [u8; 4] = [0x6d, 0x76, 0x65, 0x78];
/// Handler type of an audio track.
pub const SOUN: [u8; 4] = [0x73, 0x6f, 0x75, 0x6e];

/// Whether two type codes are equal.
pub fn fourcc_eq(a: &[u8; 4], b: &[u8; 4]) -> (r: bool)
    ensures
        r == (a@ == b@),
{
    let r = a[0] == b[0] && a[1] == b[1] && a[2] == b[2] && a[3] == b[3];
    proof {
        if r {
            assert(a@ =~= b@);
        } else if a@ == b@ {
            assert(a@[0] == b@[0] && a@[1] == b@[1] && a@[2] == b@[2] && a@[3] == b@[3]);
        }
    }
    r
}

/// The first box of `bs`, from index `i` on, whose type is `t`.
pub open spec fn first_with_from(bs: Seq<BoxHeader>, t: Seq<u8>, i: int) -> Option<BoxHeader>
    decreases bs.len() - i,
{
    if i < 0 || i >= bs.len() {
        None
    } else if bs[i].fourcc@ == t {
        Some(bs[i])
    } else {
        first_with_from(bs, t, i + 1)
    }
}

/// The first box of `bs` whose type is `t`.
pub open spec fn first_with(bs: Seq<BoxHeader>, t: Seq<u8>) -> Option<BoxHeader> {
    first_with_from(bs, t, 0)
}

/// Whether some box of `bs` has type `t`.
pub open spec fn any_with(bs: Seq<BoxHeader>, t: Seq<u8>) -> bool {
    exists|i: int| 0 <= i < bs.len() && #[trigger] bs[i].fourcc@ == t
}

proof fn lemma_first_with_found(bs: Seq<BoxHeader>, t: Seq<u8>, i: int)
    requires
        0 <= i,
    ensures
        first_with_from(bs, t, i) matches Some(b) ==> exists|j: int|
            i <= j < bs.len() && bs[j] == b && b.fourcc@ == t,
        first_with_from(bs, t, i) is None ==> forall|j: int|
            i <= j < bs.len() ==> #[trigger] bs[j].fourcc@ != t,
    decreases bs.len() - i,
{
    if i < bs.len() && bs[i].fourcc@ != t {
        lemma_first_with_found(bs, t, i + 1);
    }
}

/// Finds the first box of `bs` with type `t`.
fn find_first(bs: &Vec<BoxHeader>, t: &[u8; 4]) -> (r: Option<BoxHeader>)
    ensures
        r == first_with(bs@, t@),
{
    let mut i: usize = 0;
    while i < bs.len()
        invariant
            i <= bs@.len(),
            first_with(bs@, t@) == first_with_from(bs@, t@, i as int),
        decreases bs@.len() - i,
    {
        if fourcc_eq(&bs[i].fourcc, t) {
            return Some(bs[i]);
        }
        i = i + 1;
    }
    None
}

/// Whether some box of `bs` has type `t`.
fn has_any(bs: &Vec<BoxHeader>, t: &[u8; 4]) -> (r: bool)
    ensures
        r == any_with(bs@, t@),
{
    let mut i: usize = 0;
    while i < bs.len()
        invariant
            i <= bs@.len(),
            forall|j: int| 0 <= j < i ==> #[trigger] bs@[j].fourcc@ != t@,
        decreases bs@.len() - i,
    {
        if fourcc_eq(&bs[i].fourcc, t) {
            return true;
        }
        i = i + 1;
    }
    false
}

/// The handler type (`vide`, `soun`, ...) found in `trak > mdia > hdlr`:
/// the third four-byte word of the `hdlr` payload, after version/flags and
/// `pre_defined`.
pub open spec fn spec_handler_type(d: Seq<u8>, trak: BoxHeader) -> Option<Seq<u8>> {
    match spec_list_boxes(d, trak.start + trak.header_len, trak.end as int) {
        None => None,
        Some(children) => match first_with(children, MDIA@) {
            None => None,
            Some(mdia) => match spec_list_boxes(d, mdia.start + mdia.header_len, mdia.end as int) {
                None => None,
                Some(mc) => match first_with(mc, HDLR@) {
                    None => None,
                    Some(h) => if h.start + h.header_len + 12 > h.end {
                        None
                    } else {
                        Some(fourcc_at(d, h.start + h.header_len + 8))
                    },
                },
            },
        },
    }
}

proof fn lemma_found_in_tiling(bs: Seq<BoxHeader>, t: Seq<u8>, start: int, limit: int)
    requires
        tiles(bs, start, limit),
    ensures
        first_with(bs, t) matches Some(b) ==> start <= b.start && b.start + 8 <= b.end <= limit
            && b.header_len == 8 && b.fourcc@ == t && b.end <= b.start + u32::MAX,
{
    lemma_first_with_found(bs, t, 0);
    if let Some(b) = first_with(bs, t) {
        let j = choose|j: int| 0 <= j < bs.len() && bs[j] == b && b.fourcc@ == t;
        lemma_tiles_bounds(bs, start, limit, j);
    }
}

/// Reads the handler type of `trak` from its `mdia > hdlr`.
pub fn handler_type(data: &[u8], trak: &BoxHeader) -> (r: Option<[u8; 4]>)
    requires
        box_in(*trak, data@.len() as int),
    ensures
        match r {
            Some(t) => spec_handler_type(data@, *trak) == Some(t@),
            None => spec_handler_type(data@, *trak) is None,
        },
{
    let children = match list_boxes(data, trak.start + trak.header_len, trak.end) {
        Some(c) => c,
        None => return None,
    };
    proof {
        lemma_found_in_tiling(children@, MDIA@, trak.start + trak.header_len, trak.end as int);
    }
    let mdia = match find_first(&children, &MDIA) {
        Some(m) => m,
        None => return None,
    };
    let mdia_children = match list_boxes(data, mdia.start + mdia.header_len, mdia.end) {
        Some(c) => c,
        None => return None,
    };
    proof {
        lemma_found_in_tiling(mdia_children@, HDLR@, mdia.start + mdia.header_len, mdia.end as int);
    }
    let hdlr = match find_first(&mdia_children, &HDLR) {
        Some(h) => h,
        None => return None,
    };
    let payload = hdlr.start + hdlr.header_len;
    if hdlr.end - payload < 12 {
        return None;
    }
    let t: [u8; 4] = [data[payload + 8], data[payload + 9], data[payload + 10], data[payload + 11]];
    assert(t@ =~= fourcc_at(data@, payload + 8));
    Some(t)
}

/// `x` wrapped into the `i64` range (two's-complement overflow).
pub open spec fn wrap_i64(x: int) -> int {
    if x > i64::MAX {
        x - 0x1_0000_0000_0000_0000
    } else if x < i64::MIN {
        x + 0x1_0000_0000_0000_0000
    } else {
        x
    }
}

/// `v` read as a two's-complement `i64`.
pub open spec fn as_i64(v: int) -> int {
    if v > i64::MAX {
        v - 0x1_0000_0000_0000_0000
    } else {
        v
    }
}

/// A 32-bit chunk offset moved by `shift`: the `i64` sum (wrapping), at
/// least 0, truncated to 32 bits.
pub open spec fn shifted32(v: int, shift: int) -> int {
    let s = wrap_i64(v + shift);
    if s < 0 {
        0
    } else {
        s % 0x1_0000_0000
    }
}

/// A 64-bit chunk offset moved by `shift`: the offset read as `i64`, plus
/// `shift` (wrapping), at least 0.
pub open spec fn shifted64(v: int, shift: int) -> int {
    let s = wrap_i64(as_i64(v) + shift);
    if s < 0 {
        0
    } else {
        s
    }
}

/// `s` with `d[off..off + 4]` replaced by the big-endian bytes of `v`.
pub open spec fn put_be32(s: Seq<u8>, off: int, v: int) -> Seq<u8> {
    s.update(off, ((v / 0x1000000) % 256) as u8).update(off + 1, ((v / 0x10000) % 256) as u8).update(
        off + 2,
        ((v / 0x100) % 256) as u8,
    ).update(off + 3, (v % 256) as u8)
}

/// `s` with `d[off..off + 8]` replaced by the big-endian bytes of `v`.
pub open spec fn put_be64(s: Seq<u8>, off: int, v: int) -> Seq<u8> {
    put_be32(put_be32(s, off, v / 0x1_0000_0000), off + 4, v % 0x1_0000_0000)
}

/// How many table entries of `width` bytes a table box of `len` bytes
/// declaring `count` entries actually holds (entries start at byte 16).
pub open spec fn entries_present(len: int, count: int, width: int) -> int {
    if len < 16 {
        0
    } else if count < (len - 16) / width {
        count
    } else {
        (len - 16) / width
    }
}

/// `seg` (an `stco` box) with its first `n` 32-bit offsets moved by `shift`.
pub open spec fn stco_upto(seg: Seq<u8>, shift: int, n: nat) -> Seq<u8>
    decreases n,
{
    if n == 0 {
        seg
    } else {
        put_be32(
            stco_upto(seg, shift, (n - 1) as nat),
            16 + 4 * (n - 1),
            shifted32(be32(seg, 16 + 4 * (n - 1)), shift),
        )
    }
}

/// `seg` (a `co64` box) with its first `n` 64-bit offsets moved by `shift`.
pub open spec fn co64_upto(seg: Seq<u8>, shift: int, n: nat) -> Seq<u8>
    decreases n,
{
    if n == 0 {
        seg
    } else {
        put_be64(
            co64_upto(seg, shift, (n - 1) as nat),
            16 + 8 * (n - 1),
            shifted64(be64(seg, 16 + 8 * (n - 1)), shift),
        )
    }
}

/// The bytes of box `b` with every (present) `stco` offset moved by `shift`.
pub open spec fn spec_patch_stco(d: Seq<u8>, b: BoxHeader, shift: int) -> Seq<u8> {
    let seg = d.subrange(b.start as int, b.end as int);
    if seg.len() < 16 {
        seg
    } else {
        stco_upto(seg, shift, entries_present(seg.len() as int, be32(seg, 12), 4) as nat)
    }
}

/// The bytes of box `b` with every (present) `co64` offset moved by `shift`.
pub open spec fn spec_patch_co64(d: Seq<u8>, b: BoxHeader, shift: int) -> Seq<u8> {
    let seg = d.subrange(b.start as int, b.end as int);
    if seg.len() < 16 {
        seg
    } else {
        co64_upto(seg, shift, entries_present(seg.len() as int, be32(seg, 12), 8) as nat)
    }
}

proof fn lemma_stco_upto_frame(seg: Seq<u8>, shift: int, n: nat)
    requires
        16 + 4 * n <= seg.len(),
    ensures
        stco_upto(seg, shift, n).len() == seg.len(),
        forall|k: int| 16 + 4 * n <= k < seg.len() ==> #[trigger] stco_upto(seg, shift, n)[k] == seg[k],
    decreases n,
{
    if n > 0 {
        lemma_stco_upto_frame(seg, shift, (n - 1) as nat);
    }
}

proof fn lemma_co64_upto_frame(seg: Seq<u8>, shift: int, n: nat)
    requires
        16 + 8 * n <= seg.len(),
    ensures
        co64_upto(seg, shift, n).len() == seg.len(),
        forall|k: int| 16 + 8 * n <= k < seg.len() ==> #[trigger] co64_upto(seg, shift, n)[k] == seg[k],
    decreases n,
{
    if n > 0 {
        lemma_co64_upto_frame(seg, shift, (n - 1) as nat);
    }
}

/// Copies `data[a..b]` into a new vector.
fn copy_range(data: &[u8], a: usize, b: usize) -> (r: Vec<u8>)
    requires
        a <= b <= data@.len(),
    ensures
        r@ == data@.subrange(a as int, b as int),
{
    let mut out: Vec<u8> = Vec::with_capacity(b - a);
    let mut i = a;
    while i < b
        invariant
            a <= i <= b <= data@.len(),
            out@ == data@.subrange(a as int, i as int),
        decreases b - i,
    {
        out.push(data[i]);
        i = i + 1;
        assert(out@ =~= data@.subrange(a as int, i as int));
    }
    out
}

/// Writes `v` big-endian into `out[off..off + 4]`.
fn write_be32(out: &mut Vec<u8>, off: usize, v: u32)
    requires
        off + 4 <= old(out)@.len(),
    ensures
        final(out)@ == put_be32(old(out)@, off as int, v as int),
{
    let _len = out.len();
    out.set(off, ((v / 0x1000000) % 256) as u8);
    out.set(off + 1, ((v / 0x10000) % 256) as u8);
    out.set(off + 2, ((v / 0x100) % 256) as u8);
    out.set(off + 3, (v % 256) as u8);
}

/// Writes `v` big-endian into `out[off..off + 8]`.
fn write_be64(out: &mut Vec<u8>, off: usize, v: u64)
    requires
        off + 8 <= old(out)@.len(),
    ensures
        final(out)@ == put_be64(old(out)@, off as int, v as int),
{
    let _len = out.len();
    write_be32(out, off, (v / 0x1_0000_0000) as u32);
    write_be32(out, off + 4, (v % 0x1_0000_0000) as u32);
}

/// The `i64` sum `v + shift`, wrapped on overflow.
fn add_wrapping_i64(v: i128, shift: i64) -> (r: i64)
    requires
        i64::MIN <= v <= i64::MAX,
    ensures
        r == wrap_i64(v + shift),
{
    let s: i128 = v + shift as i128;
    if s > i64::MAX as i128 {
        (s - 0x1_0000_0000_0000_0000i128) as i64
    } else if s < i64::MIN as i128 {
        (s + 0x1_0000_0000_0000_0000i128) as i64
    } else {
        s as i64
    }
}

/// Adds `shift` to each chunk offset in an `stco` box (32-bit offsets),
/// clamped at 0. A box too short to hold its entries is patched only as
/// far as its bytes go.
pub fn patch_stco(data: &[u8], box_: &BoxHeader, shift: i64) -> (r: Vec<u8>)
    requires
        box_.start <= box_.end <= data@.len(),
        box_.header_len == 8,
    ensures
        r@ == spec_patch_stco(data@, *box_, shift as int),
{
    let mut out = copy_range(data, box_.start, box_.end);
    let len = out.len();
    if len < 16 {
        return out;
    }
    let count = read_be32(out.as_slice(), 12) as usize;
    let ghost seg = out@;
    let ghost n = entries_present(len as int, count as int, 4);
    let mut i: usize = 0;
    while i < count && i < (len - 16) / 4
        invariant
            len == seg.len(),
            16 <= len,
            i <= n,
            n == entries_present(len as int, count as int, 4),
            out@ == stco_upto(seg, shift as int, i as nat),
        decreases count - i,
    {
        let off = 16 + 4 * i;
        proof {
            lemma_stco_upto_frame(seg, shift as int, i as nat);
            assert(be32(out@, off as int) == be32(seg, off as int));
        }
        let v = read_be32(out.as_slice(), off);
        let s = add_wrapping_i64(v as i128, shift);
        let nv: u32 = if s < 0 {
            0
        } else {
            (s % 0x1_0000_0000) as u32
        };
        write_be32(&mut out, off, nv);
        i = i + 1;
    }
    out
}

/// Adds `shift` to each chunk offset in a `co64` box (64-bit offsets, read
/// as `i64`), clamped at 0.
pub fn patch_co64(data: &[u8], box_: &BoxHeader, shift: i64) -> (r: Vec<u8>)
    requires
        box_.start <= box_.end <= data@.len(),
        box_.header_len == 8,
    ensures
        r@ == spec_patch_co64(data@, *box_, shift as int),
{
    let mut out = copy_range(data, box_.start, box_.end);
    let len = out.len();
    if len < 16 {
        return out;
    }
    let count = read_be32(out.as_slice(), 12) as usize;
    let ghost seg = out@;
    let ghost n = entries_present(len as int, count as int, 8);
    let mut i: usize = 0;
    while i < count && i < (len - 16) / 8
        invariant
            len == seg.len(),
            16 <= len,
            i <= n,
            n == entries_present(len as int, count as int, 8),
            out@ == co64_upto(seg, shift as int, i as nat),
        decreases count - i,
    {
        let off = 16 + 8 * i;
        proof {
            lemma_co64_upto_frame(seg, shift as int, i as nat);
            assert(be64(out@, off as int) == be64(seg, off as int));
        }
        let v = read_be64(out.as_slice(), off);
        let vi: i128 = if v > i64::MAX as u64 {
            v as i128 - 0x1_0000_0000_0000_0000i128
        } else {
            v as i128
        };
        let s = add_wrapping_i64(vi, shift);
        let nv: u64 = if s < 0 {
            0
        } else {
            s as u64
        };
        write_be64(&mut out, off, nv);
        i = i + 1;
    }
    out
}

/// Box types whose contents the rebuild recurses into.
pub open spec fn is_container(t: Seq<u8>) -> bool {
    t == MOOV@ || t == TRAK@ || t == MDIA@ || t == MINF@ || t == STBL@
}

fn is_container_exec(t: &[u8; 4]) -> (r: bool)
    ensures
        r == is_container(t@),
{
    fourcc_eq(t, &MOOV) || fourcc_eq(t, &TRAK) || fourcc_eq(t, &MDIA) || fourcc_eq(t, &MINF)
        || fourcc_eq(t, &STBL)
}

/// The four big-endian bytes of `v` (taken modulo 2^32).
pub open spec fn be32_bytes(v: int) -> Seq<u8> {
    seq![
        ((v / 0x1000000) % 256) as u8,
        ((v / 0x10000) % 256) as u8,
        ((v / 0x100) % 256) as u8,
        (v % 256) as u8,
    ]
}

/// Box `b` rebuilt: any descendant that starts at `skip` is dropped, every
/// `stco`/`co64` has `shift` added to its offsets when `shift != 0`, every
/// container gets a fresh size, and other leaves are copied as they are.
pub open spec fn spec_rebuild(d: Seq<u8>, b: BoxHeader, skip: int, shift: int) -> Seq<u8>
    decreases b.end - b.start, 0int,
{
    if shift != 0 && b.fourcc@ == STCO@ {
        spec_patch_stco(d, b, shift)
    } else if shift != 0 && b.fourcc@ == CO64@ {
        spec_patch_co64(d, b, shift)
    } else if !is_container(b.fourcc@) {
        d.subrange(b.start as int, b.end as int)
    } else {
        match spec_list_boxes(d, b.start + b.header_len, b.end as int) {
            None => d.subrange(b.start as int, b.end as int),
            Some(children) => if b.start + b.header_len <= b.end && b.header_len > 0 {
                let body = spec_rebuild_children(
                    d,
                    children,
                    skip,
                    shift,
                    b.end - b.start - b.header_len,
                );
                be32_bytes(8 + body.len() as int) + b.fourcc@ + body
            } else {
                d.subrange(b.start as int, b.end as int)
            },
        }
    }
}

/// The children `cs` (each no larger than `size`) rebuilt and concatenated
/// in order, leaving out the one that starts at `skip`.
pub open spec fn spec_rebuild_children(
    d: Seq<u8>,
    cs: Seq<BoxHeader>,
    skip: int,
    shift: int,
    size: int,
) -> Seq<u8>
    decreases size, cs.len() + 1,
{
    if cs.len() == 0 {
        Seq::empty()
    } else {
        let last = cs.last();
        let prefix = spec_rebuild_children(d, cs.drop_last(), skip, shift, size);
        if last.start == skip {
            prefix
        } else if 0 <= last.end - last.start <= size {
            prefix + spec_rebuild(d, last, skip, shift)
        } else {
            prefix
        }
    }
}

proof fn lemma_tiles_drop_last(bs: Seq<BoxHeader>, start: int, limit: int)
    requires
        tiles(bs, start, limit),
        bs.len() > 0,
    ensures
        tiles(bs.drop_last(), start, bs.last().start as int),
{
    let p = bs.drop_last();
    assert forall|i: int| 0 <= i < p.len() - 1 implies #[trigger] p[i].end == p[i + 1].start by {
        assert(bs[i].end == bs[i + 1].start);
    }
    if p.len() > 0 {
        assert(bs[p.len() - 1].end == bs[p.len() as int].start);
    }
}

/// A rebuilt box is never longer than the original.
proof fn lemma_rebuild_len(d: Seq<u8>, b: BoxHeader, skip: int, shift: int)
    requires
        b.start + 8 <= b.end <= d.len(),
        b.header_len == 8,
    ensures
        spec_rebuild(d, b, skip, shift).len() <= b.end - b.start,
    decreases b.end - b.start, 0int,
{
    if shift != 0 && b.fourcc@ == STCO@ {
        let seg = d.subrange(b.start as int, b.end as int);
        if seg.len() >= 16 {
            let n = entries_present(seg.len() as int, be32(seg, 12), 4);
            lemma_stco_upto_frame(seg, shift, n as nat);
        }
    } else if shift != 0 && b.fourcc@ == CO64@ {
        let seg = d.subrange(b.start as int, b.end as int);
        if seg.len() >= 16 {
            let n = entries_present(seg.len() as int, be32(seg, 12), 8);
            lemma_co64_upto_frame(seg, shift, n as nat);
        }
    } else if is_container(b.fourcc@) {
        if let Some(children) = spec_list_boxes(d, b.start + b.header_len, b.end as int) {
            lemma_list_boxes_tile(d, b.start + b.header_len, b.end as int);
            lemma_rebuild_children_len(
                d,
                children,
                skip,
                shift,
                b.end - b.start - b.header_len,
                b.start + b.header_len,
                b.end as int,
            );
        }
    }
}

/// The rebuilt children of a tiling of `[lo, hi)` take at most `hi - lo` bytes.
proof fn lemma_rebuild_children_len(
    d: Seq<u8>,
    cs: Seq<BoxHeader>,
    skip: int,
    shift: int,
    size: int,
    lo: int,
    hi: int,
)
    requires
        tiles(cs, lo, hi),
        0 <= lo,
        hi <= d.len(),
        hi - lo <= size,
    ensures
        spec_rebuild_children(d, cs, skip, shift, size).len() <= hi - lo,
    decreases size, cs.len() + 1,
{
    if cs.len() > 0 {
        let last = cs.last();
        lemma_tiles_drop_last(cs, lo, hi);
        lemma_tiles_bounds(cs, lo, hi, cs.len() - 1);
        lemma_rebuild_children_len(d, cs.drop_last(), skip, shift, size, lo, last.start as int);
        if last.start != skip && 0 <= last.end - last.start <= size {
            lemma_rebuild_len(d, last, skip, shift);
        }
    }
}

/// Rebuilds `box_`, dropping any descendant that starts at `skip_start`.
/// Each `stco`/`co64` gets `shift` added to its offsets (when `shift != 0`);
/// other leaves are copied as they are.
pub fn rebuild_box(data: &[u8], box_: &BoxHeader, skip_start: usize, shift: i64) -> (r: Vec<u8>)
    requires
        box_in(*box_, data@.len() as int),
    ensures
        r@ == spec_rebuild(data@, *box_, skip_start as int, shift as int),
        r@.len() <= box_.end - box_.start,
    decreases box_.end - box_.start,
{
    proof {
        lemma_rebuild_len(data@, *box_, skip_start as int, shift as int);
    }
    if shift != 0 && fourcc_eq(&box_.fourcc, &STCO) {
        return patch_stco(data, box_, shift);
    }
    if shift != 0 && fourcc_eq(&box_.fourcc, &CO64) {
        return patch_co64(data, box_, shift);
    }
    if !is_container_exec(&box_.fourcc) {
        return copy_range(data, box_.start, box_.end);
    }
    let children = match list_boxes(data, box_.start + box_.header_len, box_.end) {
        Some(c) => c,
        None => return copy_range(data, box_.start, box_.end),
    };
    let ghost size = box_.end - box_.start - box_.header_len;
    let ghost lo = box_.start + box_.header_len;
    let mut body: Vec<u8> = Vec::new();
    let mut i: usize = 0;
    while i < children.len()
        invariant
            box_in(*box_, data@.len() as int),
            size == box_.end - box_.start - box_.header_len,
            lo == box_.start + box_.header_len,
            tiles(children@, lo, box_.end as int),
            i <= children@.len(),
            body@ == spec_rebuild_children(
                data@,
                children@.take(i as int),
                skip_start as int,
                shift as int,
                size,
            ),
        decreases children@.len() - i,
    {
        let child = children[i];
        proof {
            lemma_tiles_bounds(children@, lo, box_.end as int, i as int);
            assert(children@.take(i + 1).drop_last() =~= children@.take(i as int));
            assert(children@.take(i + 1).last() == child);
        }
        if child.start != skip_start {
            let mut sub = rebuild_box(data, &child, skip_start, shift);
            body.append(&mut sub);
        }
        i = i + 1;
    }
    assert(children@.take(children@.len() as int) =~= children@);
    proof {
        lemma_rebuild_children_len(
            data@,
            children@,
            skip_start as int,
            shift as int,
            size,
            lo,
            box_.end as int,
        );
    }
    let total = 8 + body.len();
    let mut out: Vec<u8> = Vec::with_capacity(total);
    let t = total as u32;
    out.push(((t / 0x1000000) % 256) as u8);
    out.push(((t / 0x10000) % 256) as u8);
    out.push(((t / 0x100) % 256) as u8);
    out.push((t % 256) as u8);
    out.push(box_.fourcc[0]);
    out.push(box_.fourcc[1]);
    out.push(box_.fourcc[2]);
    out.push(box_.fourcc[3]);
    out.append(&mut body);
    assert(out@ =~= be32_bytes(total as int) + box_.fourcc@ + spec_rebuild_children(
        data@,
        children@,
        skip_start as int,
        shift as int,
        size,
    ));
    out
}

/// How many boxes of `bs` have type `t`.
pub open spec fn count_with(bs: Seq<BoxHeader>, t: Seq<u8>) -> nat
    decreases bs.len(),
{
    if bs.len() == 0 {
        0
    } else {
        count_with(bs.drop_last(), t) + if bs.last().fourcc@ == t {
            1nat
        } else {
            0nat
        }
    }
}

/// The first `trak` of `bs`, from index `i` on, whose handler is `soun`.
pub open spec fn first_audio_from(d: Seq<u8>, bs: Seq<BoxHeader>, i: int) -> Option<BoxHeader>
    decreases bs.len() - i,
{
    if i < 0 || i >= bs.len() {
        None
    } else if bs[i].fourcc@ == TRAK@ && spec_handler_type(d, bs[i]) == Some(SOUN@) {
        Some(bs[i])
    } else {
        first_audio_from(d, bs, i + 1)
    }
}

/// The whole file with the first audio `trak` removed from `moov`, or `None`
/// when there is nothing to remove or the layout is not the simple one this
/// handles: top-level boxes that tile the file, no `moof`, exactly one
/// `mdat`, a `moov` without `mvex`. When `moov` precedes `mdat`, the
/// remaining chunk offsets move back by the removed track's size.
pub open spec fn spec_strip(d: Seq<u8>) -> Option<Seq<u8>> {
    match spec_list_boxes(d, 0, d.len() as int) {
        None => None,
        Some(top) => if any_with(top, MOOF@) {
            None
        } else if count_with(top, MDAT@) != 1 {
            None
        } else {
            match (first_with(top, MDAT@), first_with(top, MOOV@)) {
                (Some(mdat), Some(moov)) => match spec_list_boxes(
                    d,
                    moov.start + moov.header_len,
                    moov.end as int,
                ) {
                    None => None,
                    Some(mc) => if any_with(mc, MVEX@) {
                        None
                    } else {
                        match first_audio_from(d, mc, 0) {
                            None => None,
                            Some(audio) => {
                                let delta = audio.end - audio.start;
                                let shift = if moov.start < mdat.start {
                                    -delta
                                } else {
                                    0
                                };
                                Some(
                                    d.subrange(0, moov.start as int) + spec_rebuild(
                                        d,
                                        moov,
                                        audio.start as int,
                                        shift,
                                    ) + d.subrange(moov.end as int, d.len() as int),
                                )
                            },
                        }
                    },
                },
                _ => None,
            }
        },
    }
}

fn count_type(bs: &Vec<BoxHeader>, t: &[u8; 4]) -> (r: usize)
    ensures
        r == count_with(bs@, t@),
{
    let mut n: usize = 0;
    let mut i: usize = 0;
    while i < bs.len()
        invariant
            i <= bs@.len(),
            n == count_with(bs@.take(i as int), t@),
            n <= i,
        decreases bs@.len() - i,
    {
        assert(bs@.take(i + 1).drop_last() =~= bs@.take(i as int));
        if fourcc_eq(&bs[i].fourcc, t) {
            n = n + 1;
        }
        i = i + 1;
    }
    assert(bs@.take(bs@.len() as int) =~= bs@);
    n
}

proof fn lemma_first_audio_found(d: Seq<u8>, bs: Seq<BoxHeader>, i: int)
    requires
        0 <= i,
    ensures
        first_audio_from(d, bs, i) matches Some(b) ==> exists|j: int| i <= j < bs.len() && bs[j] == b,
    decreases bs.len() - i,
{
    if i < bs.len() {
        lemma_first_audio_found(d, bs, i + 1);
    }
}

/// The first `trak` of `bs` whose handler type is `soun`.
fn find_audio_trak(data: &[u8], bs: &Vec<BoxHeader>, lo: Ghost<int>, hi: Ghost<int>) -> (r: Option<
    BoxHeader,
>)
    requires
        tiles(bs@, lo@, hi@),
        0 <= lo@,
        hi@ <= data@.len(),
    ensures
        r == first_audio_from(data@, bs@, 0),
{
    let mut i: usize = 0;
    while i < bs.len()
        invariant
            tiles(bs@, lo@, hi@),
            0 <= lo@,
            hi@ <= data@.len(),
            i <= bs@.len(),
            first_audio_from(data@, bs@, 0) == first_audio_from(data@, bs@, i as int),
        decreases bs@.len() - i,
    {
        let b = bs[i];
        if fourcc_eq(&b.fourcc, &TRAK) {
            proof {
                lemma_tiles_bounds(bs@, lo@, hi@, i as int);
            }
            match handler_type(data, &b) {
                Some(h) => {
                    if fourcc_eq(&h, &SOUN) {
                        return Some(b);
                    }
                },
                None => {},
            }
        }
        i = i + 1;
    }
    None
}

/// Returns a whole new file with the audio `trak` removed. `None` when there
/// is nothing to remove or the structure is unexpected (fragmented, several
/// `mdat` boxes, ...): the caller then leaves the original file untouched.
pub fn strip_bytes(data: &[u8]) -> (r: Option<Vec<u8>>)
    requires
        data@.len() <= i64::MAX,
    ensures
        match r {
            Some(v) => spec_strip(data@) == Some(v@),
            None => spec_strip(data@) is None,
        },
{
    let top = match list_boxes(data, 0, data.len()) {
        Some(t) => t,
        None => return None,
    };
    if has_any(&top, &MOOF) {
        return None;
    }
    if count_type(&top, &MDAT) != 1 {
        return None;
    }
    proof {
        lemma_found_in_tiling(top@, MDAT@, 0, data@.len() as int);
        lemma_found_in_tiling(top@, MOOV@, 0, data@.len() as int);
    }
    let mdat = match find_first(&top, &MDAT) {
        Some(m) => m,
        None => return None,
    };
    let moov = match find_first(&top, &MOOV) {
        Some(m) => m,
        None => return None,
    };
    let moov_children = match list_boxes(data, moov.start + moov.header_len, moov.end) {
        Some(c) => c,
        None => return None,
    };
    if has_any(&moov_children, &MVEX) {
        return None;
    }
    let audio = match find_audio_trak(
        data,
        &moov_children,
        Ghost(moov.start + moov.header_len),
        Ghost(moov.end as int),
    ) {
        Some(a) => a,
        None => return None,
    };
    proof {
        lemma_first_audio_found(data@, moov_children@, 0);
        let j = choose|j: int| 0 <= j < moov_children@.len() && moov_children@[j] == audio;
        lemma_tiles_bounds(moov_children@, moov.start + moov.header_len, moov.end as int, j);
    }
    let delta = (audio.end - audio.start) as i64;
    let shift: i64 = if moov.start < mdat.start {
        -delta
    } else {
        0
    };
    let mut new_moov = rebuild_box(data, &moov, audio.start, shift);
    let mut out = copy_range(data, 0, moov.start);
    let mut tail = copy_range(data, moov.end, data.len());
    out.append(&mut new_moov);
    out.append(&mut tail);
    Some(out)
}

/// Two boxes of a tiling, in order, do not overlap.
proof fn lemma_tiles_order(bs: Seq<BoxHeader>, start: int, limit: int, i: int, j: int)
    requires
        tiles(bs, start, limit),
        0 <= i < j < bs.len(),
    ensures
        bs[i].end <= bs[j].start,
    decreases j - i,
{
    if j == i + 1 {
    } else {
        lemma_tiles_order(bs, start, limit, i, j - 1);
        lemma_tiles_bounds(bs, start, limit, j - 1);
        assert(bs[j - 1].end == bs[j].start);
    }
}

/// A box that `skip` does not fall inside is rebuilt at its own size.
proof fn lemma_rebuild_len_exact(d: Seq<u8>, b: BoxHeader, skip: int, shift: int)
    requires
        b.start + 8 <= b.end <= d.len(),
        b.header_len == 8,
        skip < b.start || skip >= b.end,
    ensures
        spec_rebuild(d, b, skip, shift).len() == b.end - b.start,
    decreases b.end - b.start, 0int,
{
    if shift != 0 && b.fourcc@ == STCO@ {
        let seg = d.subrange(b.start as int, b.end as int);
        if seg.len() >= 16 {
            let n = entries_present(seg.len() as int, be32(seg, 12), 4);
            lemma_stco_upto_frame(seg, shift, n as nat);
        }
    } else if shift != 0 && b.fourcc@ == CO64@ {
        let seg = d.subrange(b.start as int, b.end as int);
        if seg.len() >= 16 {
            let n = entries_present(seg.len() as int, be32(seg, 12), 8);
            lemma_co64_upto_frame(seg, shift, n as nat);
        }
    } else if is_container(b.fourcc@) {
        if let Some(children) = spec_list_boxes(d, b.start + b.header_len, b.end as int) {
            lemma_list_boxes_tile(d, b.start + b.header_len, b.end as int);
            lemma_rebuild_children_exact(
                d,
                children,
                skip,
                shift,
                b.end - b.start - b.header_len,
                b.start + b.header_len,
                b.end as int,
            );
            assert(b.fourcc@.len() == 4);
        }
    }
}

/// The children of a tiling of `[lo, hi)` that `skip` does not fall
/// inside are rebuilt at the tiling's size.
proof fn lemma_rebuild_children_exact(
    d: Seq<u8>,
    cs: Seq<BoxHeader>,
    skip: int,
    shift: int,
    size: int,
    lo: int,
    hi: int,
)
    requires
        tiles(cs, lo, hi),
        0 <= lo,
        hi <= d.len(),
        hi - lo <= size,
        skip < lo || skip >= hi,
    ensures
        spec_rebuild_children(d, cs, skip, shift, size).len() == hi - lo,
    decreases size, cs.len() + 1,
{
    if cs.len() > 0 {
        let last = cs.last();
        lemma_tiles_drop_last(cs, lo, hi);
        lemma_tiles_bounds(cs, lo, hi, cs.len() - 1);
        lemma_rebuild_children_exact(d, cs.drop_last(), skip, shift, size, lo, last.start as int);
        lemma_rebuild_len_exact(d, last, skip, shift);
    }
}

/// Dropping child `k` of a tiling of `[lo, hi)` (the one starting at
/// `skip`) rebuilds the rest at the tiling's size less that child's.
proof fn lemma_rebuild_children_skip(
    d: Seq<u8>,
    cs: Seq<BoxHeader>,
    skip: int,
    shift: int,
    size: int,
    lo: int,
    hi: int,
    k: int,
)
    requires
        tiles(cs, lo, hi),
        0 <= lo,
        hi <= d.len(),
        hi - lo <= size,
        0 <= k < cs.len(),
        cs[k].start == skip,
    ensures
        spec_rebuild_children(d, cs, skip, shift, size).len() == (hi - lo) - (cs[k].end
            - cs[k].start),
    decreases cs.len(),
{
    let last = cs.last();
    lemma_tiles_drop_last(cs, lo, hi);
    lemma_tiles_bounds(cs, lo, hi, cs.len() - 1);
    if k == cs.len() - 1 {
        lemma_rebuild_children_exact(d, cs.drop_last(), skip, shift, size, lo, last.start as int);
    } else {
        lemma_tiles_order(cs, lo, hi, k, cs.len() - 1);
        lemma_tiles_bounds(cs, lo, hi, k);
        assert(cs.drop_last()[k] == cs[k]);
        lemma_rebuild_children_skip(
            d,
            cs.drop_last(),
            skip,
            shift,
            size,
            lo,
            last.start as int,
            k,
        );
        lemma_rebuild_len_exact(d, last, skip, shift);
    }
}

/// Stripping cuts exactly the audio track out of `moov`, given back as
/// `(moov, audio, mdat)`: the file shrinks by the track's size, every
/// byte before `moov` stays where it was and every byte after `moov`
/// moves back by the track's size. When `mdat` follows `moov`, its data
/// thus moves back by exactly the amount every chunk offset is moved
/// back by; when it comes first, neither it nor the offsets move.
pub proof fn lemma_strip_moves_data_by_track_size(d: Seq<u8>) -> (r: (BoxHeader, BoxHeader, BoxHeader))
    requires
        spec_strip(d) is Some,
    ensures
        ({
            let (moov, audio, mdat) = r;
            let out = spec_strip(d)->0;
            let delta = audio.end - audio.start;
            &&& moov.start + 8 <= audio.start
            &&& audio.start + 8 <= audio.end <= moov.end <= d.len()
            &&& out.len() == d.len() - delta
            &&& forall|x: int| 0 <= x < moov.start ==> #[trigger] out[x] == d[x]
            &&& forall|x: int| moov.end <= x < d.len() ==> #[trigger] out[x - delta] == d[x]
            &&& moov.start < mdat.start ==> moov.end <= mdat.start && mdat.end <= d.len()
                && out == d.subrange(0, moov.start as int) + spec_rebuild(
                d,
                moov,
                audio.start as int,
                -delta,
            ) + d.subrange(moov.end as int, d.len() as int)
            &&& mdat.start < moov.start ==> mdat.end <= moov.start && out == d.subrange(
                0,
                moov.start as int,
            ) + spec_rebuild(d, moov, audio.start as int, 0) + d.subrange(
                moov.end as int,
                d.len() as int,
            )
        }),
{
    let top = spec_list_boxes(d, 0, d.len() as int)->0;
    lemma_list_boxes_tile(d, 0, d.len() as int);
    lemma_first_with_found(top, MDAT@, 0);
    lemma_first_with_found(top, MOOV@, 0);
    let mdat = first_with(top, MDAT@)->0;
    let moov = first_with(top, MOOV@)->0;
    let i = choose|j: int| 0 <= j < top.len() && top[j] == mdat && mdat.fourcc@ == MDAT@;
    let m = choose|j: int| 0 <= j < top.len() && top[j] == moov && moov.fourcc@ == MOOV@;
    lemma_tiles_bounds(top, 0, d.len() as int, i);
    lemma_tiles_bounds(top, 0, d.len() as int, m);
    assert(MDAT@ != MOOV@) by {
        assert(MDAT@[2] != MOOV@[2]);
    }
    if i < m {
        lemma_tiles_order(top, 0, d.len() as int, i, m);
    } else {
        assert(i != m);
        lemma_tiles_order(top, 0, d.len() as int, m, i);
    }
    let lo = moov.start + moov.header_len;
    let mc = spec_list_boxes(d, lo, moov.end as int)->0;
    lemma_list_boxes_tile(d, lo, moov.end as int);
    lemma_first_audio_found(d, mc, 0);
    let audio = first_audio_from(d, mc, 0)->0;
    let k = choose|j: int| 0 <= j < mc.len() && mc[j] == audio;
    lemma_tiles_bounds(mc, lo, moov.end as int, k);
    let delta = audio.end - audio.start;
    let shift = if moov.start < mdat.start {
        -delta
    } else {
        0
    };
    assert(!(shift != 0 && moov.fourcc@ == STCO@) && !(shift != 0 && moov.fourcc@ == CO64@)) by {
        assert(MOOV@[0] != STCO@[0] && MOOV@[0] != CO64@[0]);
    }
    assert(is_container(moov.fourcc@));
    lemma_rebuild_children_skip(
        d,
        mc,
        audio.start as int,
        shift,
        moov.end - moov.start - moov.header_len,
        lo,
        moov.end as int,
        k,
    );
    let body = spec_rebuild_children(
        d,
        mc,
        audio.start as int,
        shift,
        moov.end - moov.start - moov.header_len,
    );
    let rebuilt = spec_rebuild(d, moov, audio.start as int, shift);
    assert(rebuilt == be32_bytes(8 + body.len() as int) + moov.fourcc@ + body);
    assert(rebuilt.len() == moov.end - moov.start - delta);
    let out = d.subrange(0, moov.start as int) + rebuilt + d.subrange(moov.end as int, d.len() as int);
    assert(spec_strip(d) == Some(out));
    assert forall|x: int| moov.end <= x < d.len() implies #[trigger] out[x - delta] == d[x] by {
        assert(out[x - delta] == d.subrange(moov.end as int, d.len() as int)[x - moov.end]);
    }
    (moov, audio, mdat)
}

} // verus!
