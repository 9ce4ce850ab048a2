//! Capture-region geometry and frame-pacing arithmetic shared by every
//! recording path (mp4/gif/jxl, Graphics Capture and GDI polling).

use vstd::prelude::*;
use vstd::slice::SliceAdditionalExecFns;

verus! {

/// Whether `req` fits entirely within `bounds` (both `(x0, y0, x1, y1)`),
/// used to detect a selection that spans monitors.
pub fn rect_fits(req: (i32, i32, i32, i32), bounds: (i32, i32, i32, i32)) -> (r: bool)
    ensures
        r == (req.0 >= bounds.0 && req.1 >= bounds.1 && req.2 <= bounds.2 && req.3 <= bounds.3),
{
    req.0 >= bounds.0 && req.1 >= bounds.1 && req.2 <= bounds.2 && req.3 <= bounds.3
}

/// `v` clamped into `[lo, hi]`.
pub open spec fn clamp(v: int, lo: int, hi: int) -> int {
    if v < lo {
        lo
    } else if v > hi {
        hi
    } else {
        v
    }
}

/// The absolute crop rectangle `req` made relative to a monitor at
/// `origin` of `size`, each edge clamped to the monitor; `None` when
/// nothing of it is left.
pub open spec fn spec_clamp_to_monitor(
    req: (i32, i32, i32, i32),
    origin: (i32, i32),
    size: (u32, u32),
) -> Option<(u32, u32, u32, u32)> {
    let x0 = clamp(req.0 - origin.0, 0, size.0 as int);
    let y0 = clamp(req.1 - origin.1, 0, size.1 as int);
    let x1 = clamp(req.2 - origin.0, 0, size.0 as int);
    let y1 = clamp(req.3 - origin.1, 0, size.1 as int);
    if x1 <= x0 || y1 <= y0 {
        None
    } else {
        Some((x0 as u32, y0 as u32, x1 as u32, y1 as u32))
    }
}

fn clamp_i32(v: i32, lo: i32, hi: i32) -> (r: i32)
    requires
        lo <= hi,
    ensures
        r == clamp(v as int, lo as int, hi as int),
{
    if v < lo {
        lo
    } else if v > hi {
        hi
    } else {
        v
    }
}

/// Converts an absolute virtual-desktop crop rectangle to coordinates
/// relative to the monitor's origin, clamped to the monitor's size. `None`
/// when the result has zero width or height (recording is limited to one
/// monitor, so anything outside it is trimmed off).
pub fn clamp_to_monitor(
    req: (i32, i32, i32, i32),
    origin: (i32, i32),
    size: (u32, u32),
) -> (r: Option<(u32, u32, u32, u32)>)
    requires
        size.0 <= i32::MAX,
        size.1 <= i32::MAX,
        i32::MIN <= req.0 - origin.0 <= i32::MAX,
        i32::MIN <= req.1 - origin.1 <= i32::MAX,
        i32::MIN <= req.2 - origin.0 <= i32::MAX,
        i32::MIN <= req.3 - origin.1 <= i32::MAX,
    ensures
        r == spec_clamp_to_monitor(req, origin, size),
{
    let mw = size.0 as i32;
    let mh = size.1 as i32;
    let x0 = clamp_i32(req.0 - origin.0, 0, mw);
    let y0 = clamp_i32(req.1 - origin.1, 0, mh);
    let x1 = clamp_i32(req.2 - origin.0, 0, mw);
    let y1 = clamp_i32(req.3 - origin.1, 0, mh);
    if x1 <= x0 || y1 <= y0 {
        return None;
    }
    Some((x0 as u32, y0 as u32, x1 as u32, y1 as u32))
}

/// `v * p / q` rounded half up, and at least 1.
pub open spec fn scaled(v: int, p: int, q: int) -> int {
    let r = (2 * v * p + q) / (2 * q);
    if r < 1 {
        1
    } else {
        r
    }
}

/// `(w, h)` shrunk to fit `max_w` x `max_h` (each 0 = unlimited) with the
/// aspect ratio kept: both sides scale by the smaller of the ratios of the
/// limits that are exceeded, rounded half up and at least 1. Returned
/// unchanged (never enlarged) when both already fit.
pub open spec fn spec_scale_to_fit(w: int, h: int, max_w: int, max_h: int) -> (int, int) {
    let w_over = max_w != 0 && w > max_w;
    let h_over = max_h != 0 && h > max_h;
    if !w_over && !h_over {
        (w, h)
    } else if w_over && (!h_over || max_w * h <= max_h * w) {
        (scaled(w, max_w, w), scaled(h, max_w, w))
    } else {
        (scaled(w, max_h, h), scaled(h, max_h, h))
    }
}

proof fn lemma_scaled_le(v: int, p: int, q: int)
    requires
        0 <= v,
        0 < p <= q,
    ensures
        (2 * v * p + q) / (2 * q) <= v + 1,
        v > 0 ==> (2 * v * p + q) / (2 * q) <= v,
{
    assert(2 * v * p <= 2 * v * q) by (nonlinear_arith)
        requires
            0 <= v,
            p <= q,
    ;
    assert((2 * v * p + q) / (2 * q) <= (2 * v * q + q) / (2 * q)) by (nonlinear_arith)
        requires
            2 * v * p <= 2 * v * q,
            q > 0,
    ;
    assert((2 * v * q + q) / (2 * q) == v) by (nonlinear_arith)
        requires
            q > 0,
            v >= 0,
    ;
}

fn scaled_exec(v: u32, p: u32, q: u32) -> (r: u32)
    requires
        0 < p <= q,
    ensures
        r == scaled(v as int, p as int, q as int),
{
    proof {
        lemma_scaled_le(v as int, p as int, q as int);
    }
    assert(2 * (v as u128) * (p as u128) + q as u128 <= u128::MAX) by (nonlinear_arith)
        requires
            v <= u32::MAX,
            p <= u32::MAX,
            q <= u32::MAX,
    ;
    let num: u128 = 2 * (v as u128) * (p as u128) + q as u128;
    let den: u128 = 2 * (q as u128);
    let r = num / den;
    if r < 1 {
        1
    } else {
        r as u32
    }
}

/// Returns `(width, height)` shrunk to stay within `max_w`/`max_h` (each
/// 0 = unlimited) while keeping the aspect ratio; returned unchanged (never
/// enlarged) when both already fit. Shared by every recording path.
///
/// Each scaled side is the exact ratio rounded half up (at least 1). A
/// computation in `f64` (side times the float scale, then `round`) can
/// come out one less or one more when the exact product lies within float
/// error of a half: `(10, 45)` capped to width 7 gives `(7, 32)` here,
/// while `45.0 * 0.7` rounds to 31.
pub fn scale_to_fit(w: u32, h: u32, max_w: u32, max_h: u32) -> (r: (u32, u32))
    ensures
        (r.0 as int, r.1 as int) == spec_scale_to_fit(w as int, h as int, max_w as int, max_h as int),
{
    let w_over = max_w != 0 && w > max_w;
    let h_over = max_h != 0 && h > max_h;
    if !w_over && !h_over {
        return (w, h);
    }
    assert((max_w as u64) * (h as u64) <= u64::MAX && (max_h as u64) * (w as u64) <= u64::MAX)
        by (nonlinear_arith)
        requires
            max_w <= u32::MAX,
            max_h <= u32::MAX,
            w <= u32::MAX,
            h <= u32::MAX,
    ;
    if w_over && (!h_over || (max_w as u64) * (h as u64) <= (max_h as u64) * (w as u64)) {
        (scaled_exec(w, max_w, w), scaled_exec(h, max_w, w))
    } else {
        (scaled_exec(w, max_h, h), scaled_exec(h, max_h, h))
    }
}

/// `v - 1`, or 0 for `v` of 0.
pub open spec fn last_index(v: int) -> int {
    if v >= 1 {
        v - 1
    } else {
        0
    }
}

/// `v`, or 1 for `v` of 0.
pub open spec fn at_least_one(v: int) -> int {
    if v >= 1 {
        v
    } else {
        1
    }
}

/// The source pixel sampled for destination coordinate `d` along an axis:
/// `d * src / dst`, kept at most at the last source index (0 for an empty
/// axis).
pub open spec fn nearest(d: int, src: int, dst: int) -> int {
    let s = d * src / dst;
    if s < last_index(src) {
        s
    } else {
        last_index(src)
    }
}

/// Destination byte `k` of a nearest-neighbour resize: the same channel of
/// the source pixel that destination pixel `k / 4` samples.
pub open spec fn nearest_byte(
    src: Seq<u8>,
    src_w: int,
    src_h: int,
    dst_w: int,
    dst_h: int,
    k: int,
) -> u8 {
    let p = k / 4;
    let sy = nearest(p / dst_w, src_h, dst_h);
    let sx = nearest(p % dst_w, src_w, dst_w);
    src[(sy * src_w + sx) * 4 + k % 4]
}

/// Downscales `src` (`src_w x src_h`, 4 bytes per pixel) to `dst_w x dst_h`
/// by nearest-neighbour sampling, writing into `dst`. An empty source axis
/// samples its index 0, so `src` must hold every pixel that can be
/// sampled.
pub fn scale_pixels_nearest(
    src: &[u8],
    src_w: usize,
    src_h: usize,
    dst: &mut [u8],
    dst_w: usize,
    dst_h: usize,
)
    requires
        old(dst)@.len() == dst_w * dst_h * 4,
        dst_w * dst_h > 0 ==> src@.len() >= (last_index(src_h as int) * src_w + at_least_one(
            src_w as int,
        )) * 4,
        dst_w * src_w <= usize::MAX,
        dst_h * src_h <= usize::MAX,
    ensures
        final(dst)@.len() == old(dst)@.len(),
        forall|k: int|
            0 <= k < final(dst)@.len() ==> #[trigger] final(dst)@[k] == nearest_byte(
                src@,
                src_w as int,
                src_h as int,
                dst_w as int,
                dst_h as int,
                k,
            ),
{
    let _src_len = src.len();
    let dst_len = dst.len();
    let total = dst_len / 4;
    assert(total == dst_w * dst_h);
    let mut p: usize = 0;
    while p < total
        invariant
            total == dst_w * dst_h,
            dst@.len() == dst_w * dst_h * 4,
            total > 0 ==> src@.len() >= (last_index(src_h as int) * src_w + at_least_one(
                src_w as int,
            )) * 4,
            dst_w * src_w <= usize::MAX,
            dst_h * src_h <= usize::MAX,
            src@.len() <= usize::MAX,
            dst@.len() == dst_len,
            p <= total,
            forall|k: int|
                0 <= k < p * 4 ==> #[trigger] dst@[k] == nearest_byte(
                    src@,
                    src_w as int,
                    src_h as int,
                    dst_w as int,
                    dst_h as int,
                    k,
                ),
        decreases total - p,
    {
        let dy = p / dst_w;
        let dx = p % dst_w;
        proof {
            assert(dy < dst_h) by (nonlinear_arith)
                requires
                    dy == p / dst_w,
                    p < dst_w * dst_h,
                    dst_w > 0,
            ;
            assert(dy * src_h <= dst_h * src_h) by (nonlinear_arith)
                requires
                    dy < dst_h,
            ;
            assert(dx * src_w <= dst_w * src_w) by (nonlinear_arith)
                requires
                    dx < dst_w,
            ;
        }
        let a = dy * src_h / dst_h;
        let ly = if src_h >= 1 {
            src_h - 1
        } else {
            0
        };
        let sy = if a < ly {
            a
        } else {
            ly
        };
        let b = dx * src_w / dst_w;
        let lx = if src_w >= 1 {
            src_w - 1
        } else {
            0
        };
        let sx = if b < lx {
            b
        } else {
            lx
        };
        proof {
            let need = (ly * src_w + lx + 1) * 4;
            assert(need == (last_index(src_h as int) * src_w + at_least_one(src_w as int)) * 4);
            assert(sy * src_w <= ly * src_w) by (nonlinear_arith)
                requires
                    sy <= ly,
            ;
            assert((sy * src_w + sx) * 4 + 4 <= need);
            assert(sy * src_w <= sy * src_w + sx);
        }
        let s = (sy * src_w + sx) * 4;
        let d = p * 4;
        let ghost before = dst@;
        dst.set(d, src[s]);
        dst.set(d + 1, src[s + 1]);
        dst.set(d + 2, src[s + 2]);
        dst.set(d + 3, src[s + 3]);
        proof {
            assert forall|k: int| 0 <= k < (p + 1) * 4 implies #[trigger] dst@[k] == nearest_byte(
                src@,
                src_w as int,
                src_h as int,
                dst_w as int,
                dst_h as int,
                k,
            ) by {
                if k >= p * 4 {
                    assert(k / 4 == p);
                    assert(k % 4 == k - p * 4);
                } else {
                    assert(dst@[k] == before[k]);
                }
            }
        }
        p = p + 1;
    }
}

/// Polling interval in milliseconds for `fps` (0 is treated as 1 fps),
/// at least 1 ms.
pub fn interval_for_fps(fps: u32) -> (r: u64)
    ensures
        r == if fps == 0 {
            1000
        } else if 1000int / (fps as int) < 1 {
            1
        } else {
            1000int / (fps as int)
        },
{
    let f: u64 = if fps < 1 {
        1
    } else {
        fps as u64
    };
    let ms = 1000 / f;
    if ms < 1 {
        1
    } else {
        ms
    }
}

/// GIF frame display time in centiseconds for `fps` (0 is treated as
/// 1 fps), at least 1.
pub fn gif_delay_cs(fps: u32) -> (r: u16)
    ensures
        r == if fps == 0 {
            100
        } else if 100int / (fps as int) < 1 {
            1
        } else {
            100int / (fps as int)
        },
{
    let f: u32 = if fps < 1 {
        1
    } else {
        fps
    };
    let cs = 100 / f;
    if cs < 1 {
        1
    } else {
        cs as u16
    }
}

/// Unpacks `0x00RRGGBB` into `(r, g, b)`.
pub fn unpack_color(c: u32) -> (r: (u8, u8, u8))
    ensures
        r.0 == (c / 0x10000) % 256,
        r.1 == (c / 0x100) % 256,
        r.2 == c % 256,
{
    (((c / 0x10000) % 256) as u8, ((c / 0x100) % 256) as u8, (c % 256) as u8)
}

proof fn lemma_scaled_at_most(v: int, p: int, q: int, l: int)
    requires
        v >= 0,
        p >= 0,
        q > 0,
        l >= 1,
        v * p <= l * q,
    ensures
        scaled(v, p, q) <= l,
{
    assert((2 * v * p + q) / (2 * q) <= (2 * l * q + q) / (2 * q)) by (nonlinear_arith)
        requires
            v * p <= l * q,
            q > 0,
    ;
    assert((2 * l * q + q) / (2 * q) == l) by (nonlinear_arith)
        requires
            q > 0,
            l >= 1,
    ;
}

/// A capped recording size never exceeds the frame it comes from nor
/// either cap that is set, and has at least one pixel each way (for a
/// frame at least one pixel each way).
pub proof fn lemma_scale_to_fit_bounds(w: int, h: int, max_w: int, max_h: int)
    requires
        w >= 1,
        h >= 1,
        max_w >= 0,
        max_h >= 0,
    ensures
        ({
            let r = spec_scale_to_fit(w, h, max_w, max_h);
            &&& 1 <= r.0 <= w
            &&& 1 <= r.1 <= h
            &&& max_w != 0 ==> r.0 <= max_w
            &&& max_h != 0 ==> r.1 <= max_h
        }),
{
    let w_over = max_w != 0 && w > max_w;
    let h_over = max_h != 0 && h > max_h;
    if !w_over && !h_over {
    } else if w_over && (!h_over || max_w * h <= max_h * w) {
        assert(w * max_w <= max_w * w) by (nonlinear_arith);
        lemma_scaled_at_most(w, max_w, w, max_w);
        assert(h * max_w <= h * w) by (nonlinear_arith)
            requires
                h >= 1,
                max_w < w,
        ;
        lemma_scaled_at_most(h, max_w, w, h);
        if max_h != 0 {
            if h_over {
                assert(h * max_w <= max_h * w) by (nonlinear_arith)
                    requires
                        max_w * h <= max_h * w,
                ;
                lemma_scaled_at_most(h, max_w, w, max_h);
            }
        }
    } else {
        assert(h * max_h <= max_h * h) by (nonlinear_arith);
        lemma_scaled_at_most(h, max_h, h, max_h);
        assert(w * max_h <= w * h) by (nonlinear_arith)
            requires
                w >= 1,
                max_h < h,
        ;
        lemma_scaled_at_most(w, max_h, h, w);
        if max_w != 0 {
            if w_over {
                assert(w * max_h <= max_w * h) by (nonlinear_arith)
                    requires
                        max_w * h > max_h * w,
                ;
                lemma_scaled_at_most(w, max_h, h, max_w);
            }
        }
    }
}

/// A clamped crop lies inside the monitor and is never empty.
pub proof fn lemma_clamp_to_monitor_inside(
    req: (i32, i32, i32, i32),
    origin: (i32, i32),
    size: (u32, u32),
)
    ensures
        spec_clamp_to_monitor(req, origin, size) matches Some(r) ==> r.0 < r.2 <= size.0 && r.1
            < r.3 <= size.1,
{
}

} // verus!
