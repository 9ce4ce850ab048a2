//! Snapping a selection to windows and child controls.
//!
//! At capture start the visible top-level windows are recorded front to
//! back in a [`Snapshot`]; each hover is then hit-tested against it. Inside
//! the hit top-level window, the smallest descendant window that contains
//! the cursor is preferred (which picks a browser's content area over the
//! near full-window compositing surface behind it). The enumeration itself
//! is the caller's; this module holds the decisions made on what it found.

use vstd::prelude::*;
use crate::geometry::clamp;
use crate::text::str_eq;
use crate::ui::Rect;

verus! {

/// Smallest width and height (px) of a top-level window that can be a candidate.
pub const MIN_WINDOW_SIZE: i64 = 25;
/// Smallest width and height (px) of a descendant window that can be adopted.
pub const MIN_WINDOW_CHILD_SIZE: i64 = 200;
/// Window style bit of a minimized window.
pub const WS_MINIMIZE: u32 = 0x2000_0000;
/// Window style bits of a title bar (border and dialog frame).
pub const WS_CAPTION: u32 = 0x00C0_0000;
/// Extended style bit of a layered window.
pub const WS_EX_LAYERED: u32 = 0x0008_0000;
/// Extended style bit of a tool window (floating toolbars and the like).
pub const WS_EX_TOOLWINDOW: u32 = 0x0000_0080;

/// A rectangle `(left, top, right, bottom)` in absolute virtual-desktop
/// coordinates, right and bottom exclusive.
pub type RectI = (i64, i64, i64, i64);

/// A top-level window recorded in a snapshot.
#[derive(Clone, Copy, Debug)]
pub struct SnapWindow {
    /// The window handle, kept for the descendant lookup.
    pub hwnd: isize,
    /// Its bounds in absolute coordinates.
    pub rect_abs: RectI,
    /// Its bounds in image coordinates, clipped to the image.
    pub rect_src: Rect,
}

impl SnapWindow {
    pub fn new(hwnd: isize, rect_abs: RectI, rect_src: Rect) -> (r: Self)
        ensures
            r.hwnd == hwnd,
            r.rect_abs == rect_abs,
            r.rect_src == rect_src,
    {
        SnapWindow { hwnd, rect_abs, rect_src }
    }
}

/// The top-level windows at capture start, front to back.
pub struct Snapshot {
    pub windows: Vec<SnapWindow>,
    pub origin: (i32, i32),
    pub img_w: i64,
    pub img_h: i64,
}

/// Whether image point `(px, py)` lies in `r`.
pub open spec fn rect_has(r: Rect, px: int, py: int) -> bool {
    r.x0 <= px < r.x1 && r.y0 <= py < r.y1
}

/// Whether absolute point `(px, py)` lies in `r`.
pub open spec fn rect_i_has(r: RectI, px: int, py: int) -> bool {
    r.0 <= px < r.2 && r.1 <= py < r.3
}

/// The area of `r`.
pub open spec fn area(r: RectI) -> int {
    (r.2 - r.0) * (r.3 - r.1)
}

/// Whether `outer` contains `inner` (edges may coincide).
pub open spec fn covers(outer: Rect, inner: Rect) -> bool {
    outer.x0 <= inner.x0 && outer.y0 <= inner.y0 && outer.x1 >= inner.x1 && outer.y1 >= inner.y1
}

/// Whether some window of `claimed` covers `cand`.
pub open spec fn spec_fully_covered(cand: Rect, claimed: Seq<SnapWindow>) -> bool {
    exists|i: int| 0 <= i < claimed.len() && covers(#[trigger] claimed[i].rect_src, cand)
}

/// Whether the first window of `ws` that contains `(px, py)` is the one at `k`.
pub open spec fn first_hit(ws: Seq<SnapWindow>, px: int, py: int, k: int) -> bool {
    &&& 0 <= k < ws.len()
    &&& rect_has(ws[k].rect_src, px, py)
    &&& forall|j: int| 0 <= j < k ==> !rect_has(#[trigger] ws[j].rect_src, px, py)
}

impl Snapshot {
    pub fn new(windows: Vec<SnapWindow>, origin: (i32, i32), img_w: i64, img_h: i64) -> (r: Self)
        ensures
            r.windows@ == windows@,
            r.origin == origin,
            r.img_w == img_w,
            r.img_h == img_h,
    {
        Snapshot { windows, origin, img_w, img_h }
    }

    /// Index of the front-most top-level window containing image point
    /// `(px, py)` (descendants are not looked at); `None` if none does.
    pub fn window_at_index(&self, px: i64, py: i64) -> (r: Option<usize>)
        ensures
            r matches Some(k) ==> first_hit(self.windows@, px as int, py as int, k as int),
            r is None ==> forall|j: int|
                0 <= j < self.windows@.len() ==> !rect_has(
                    #[trigger] self.windows@[j].rect_src,
                    px as int,
                    py as int,
                ),
    {
        let n = self.windows.len();
        let mut i: usize = 0;
        while i < n
            invariant
                n == self.windows@.len(),
                i <= n,
                forall|j: int|
                    0 <= j < i ==> !rect_has(#[trigger] self.windows@[j].rect_src, px as int, py as int),
            decreases n - i,
        {
            let r = self.windows[i].rect_src;
            if px >= 0 && py >= 0 {
                let x = px as u64;
                let y = py as u64;
                if x >= r.x0 as u64 && x < r.x1 as u64 && y >= r.y0 as u64 && y < r.y1 as u64 {
                    return Some(i);
                }
            }
            i = i + 1;
        }
        None
    }

    /// Records `win` unless a window already recorded (in front of it)
    /// covers it entirely, so that hidden windows are never candidates.
    pub fn record(&mut self, win: SnapWindow)
        ensures
            final(self).origin == old(self).origin,
            final(self).img_w == old(self).img_w,
            final(self).img_h == old(self).img_h,
            final(self).windows@ == if spec_fully_covered(win.rect_src, old(self).windows@) {
                old(self).windows@
            } else {
                old(self).windows@.push(win)
            },
    {
        if !fully_covered(win.rect_src, self.windows.as_slice()) {
            self.windows.push(win);
        }
    }

    /// The rectangle (image coordinates) to snap to for the cursor at
    /// image point `(px, py)`, inside the top-level window at `top` whose
    /// descendant windows' absolute bounds are `descendants`: the smallest
    /// descendant containing the cursor, else the top-level window itself,
    /// clipped to the top-level window and then to the image.
    pub fn snap_rect(&self, top: usize, px: i64, py: i64, descendants: &[RectI]) -> (r: Option<Rect>)
        requires
            top < self.windows@.len(),
            self.img_w >= 0,
            self.img_h >= 0,
            self.img_w <= usize::MAX,
            self.img_h <= usize::MAX,
            i64::MIN <= px + self.origin.0 <= i64::MAX,
            i64::MIN <= py + self.origin.1 <= i64::MAX,
            forall|i: int|
                0 <= i < descendants@.len() && rect_i_has(
                    #[trigger] descendants@[i],
                    px + self.origin.0,
                    py + self.origin.1,
                ) ==> i64::MIN <= area(descendants@[i]) <= i64::MAX,
        ensures
            r == ({
                let w = self.windows@[top as int];
                let ideal = match spec_smallest_containing(
                    descendants@,
                    px + self.origin.0,
                    py + self.origin.1,
                ) {
                    Some(d) => d,
                    None => w.rect_abs,
                };
                match spec_abs_to_src(
                    spec_intersect(ideal, w.rect_abs),
                    self.origin,
                    self.img_w as int,
                    self.img_h as int,
                ) {
                    Some(c) => Some(c),
                    None => Some(w.rect_src),
                }
            }),
    {
        let w = self.windows[top];
        let abs_px = px + self.origin.0 as i64;
        let abs_py = py + self.origin.1 as i64;
        let ideal = match smallest_containing(descendants, abs_px, abs_py) {
            Some(d) => d,
            None => w.rect_abs,
        };
        let clipped = intersect(ideal, w.rect_abs);
        match abs_to_src_clipped(clipped, self.origin, self.img_w, self.img_h) {
            Some(c) => Some(c),
            None => Some(w.rect_src),
        }
    }
}

/// Whether `cand` is covered entirely by one of `claimed` (the windows
/// already in front of it).
pub fn fully_covered(cand: Rect, claimed: &[SnapWindow]) -> (r: bool)
    ensures
        r == spec_fully_covered(cand, claimed@),
{
    let n = claimed.len();
    let mut i: usize = 0;
    while i < n
        invariant
            n == claimed@.len(),
            i <= n,
            forall|j: int| 0 <= j < i ==> !covers(#[trigger] claimed@[j].rect_src, cand),
        decreases n - i,
    {
        let r = claimed[i].rect_src;
        if r.x0 <= cand.x0 && r.y0 <= cand.y0 && r.x1 >= cand.x1 && r.y1 >= cand.y1 {
            assert(covers(claimed@[i as int].rect_src, cand));
            return true;
        }
        i = i + 1;
    }
    false
}

/// Whether the desktop or shell window class `cls` is one that never
/// counts as a window.
pub open spec fn spec_blacklisted(cls: Seq<char>) -> bool {
    cls == "Progman"@ || cls == "WorkerW"@ || cls == "Shell_TrayWnd"@ || cls == "SysListView32"@
}

/// Whether `cls` is a known desktop or shell class (not a real window).
pub fn is_blacklisted_class(cls: &str) -> (r: bool)
    ensures
        r == spec_blacklisted(cls@),
{
    str_eq(cls, "Progman") || str_eq(cls, "WorkerW") || str_eq(cls, "Shell_TrayWnd") || str_eq(
        cls,
        "SysListView32",
    )
}

/// Whether a descendant window with absolute bounds `rect` and extended
/// style `exstyle` can be snapped to: not a tool window, and at least
/// `MIN_WINDOW_CHILD_SIZE` wide and high. A transparent window is not
/// refused: a browser's content area is one.
pub fn is_adoptable_descendant(rect: RectI, exstyle: u32) -> (r: bool)
    ensures
        r == (exstyle & WS_EX_TOOLWINDOW == 0 && rect.2 - rect.0 >= MIN_WINDOW_CHILD_SIZE
            && rect.3 - rect.1 >= MIN_WINDOW_CHILD_SIZE),
{
    let toolwindow = exstyle & WS_EX_TOOLWINDOW != 0;
    let too_small = (rect.2 as i128) - (rect.0 as i128) < MIN_WINDOW_CHILD_SIZE as i128 || (
    rect.3 as i128) - (rect.1 as i128) < MIN_WINDOW_CHILD_SIZE as i128;
    !toolwindow && !too_small
}

/// The smallest-area rectangle of `c` containing `(px, py)`, the first
/// such one on a tie; `None` when none contains it.
pub open spec fn spec_smallest_containing(c: Seq<RectI>, px: int, py: int) -> Option<RectI> {
    if exists|k: int| 0 <= k < c.len() && smallest_at(c, px, py, k) {
        Some(c[choose|k: int| 0 <= k < c.len() && smallest_at(c, px, py, k)])
    } else {
        None
    }
}

/// Whether `c[k]` is the first of the smallest rectangles of `c` that
/// contain `(px, py)`.
pub open spec fn smallest_at(c: Seq<RectI>, px: int, py: int, k: int) -> bool {
    &&& rect_i_has(c[k], px, py)
    &&& forall|j: int|
        0 <= j < c.len() && rect_i_has(#[trigger] c[j], px, py) ==> area(c[k]) <= area(c[j])
    &&& forall|j: int|
        0 <= j < k && rect_i_has(#[trigger] c[j], px, py) ==> area(c[k]) < area(c[j])
}

proof fn lemma_smallest_unique(c: Seq<RectI>, px: int, py: int, a: int, b: int)
    requires
        0 <= a < c.len(),
        0 <= b < c.len(),
        smallest_at(c, px, py, a),
        smallest_at(c, px, py, b),
    ensures
        a == b,
{
    if a < b {
        assert(rect_i_has(c[a], px, py));
    } else if b < a {
        assert(rect_i_has(c[b], px, py));
    }
}

/// Returns the smallest-area rectangle among `candidates` that contains
/// `(px, py)` (`None` if none does); on a tie the one found first.
pub fn smallest_containing(candidates: &[RectI], px: i64, py: i64) -> (r: Option<RectI>)
    requires
        forall|i: int|
            0 <= i < candidates@.len() && rect_i_has(#[trigger] candidates@[i], px as int, py as int)
                ==> i64::MIN <= area(candidates@[i]) <= i64::MAX,
    ensures
        r == spec_smallest_containing(candidates@, px as int, py as int),
{
    let ghost c = candidates@;
    let n = candidates.len();
    let mut best: Option<usize> = None;
    let mut best_area: i64 = 0;
    let mut i: usize = 0;
    while i < n
        invariant
            n == c.len(),
            c == candidates@,
            i <= n,
            forall|k: int|
                0 <= k < c.len() && rect_i_has(#[trigger] c[k], px as int, py as int) ==> i64::MIN
                    <= area(c[k]) <= i64::MAX,
            best is None ==> forall|j: int| 0 <= j < i ==> !rect_i_has(#[trigger] c[j], px as int, py as int),
            best matches Some(b) ==> {
                &&& b < i
                &&& best_area == area(c[b as int])
                &&& rect_i_has(c[b as int], px as int, py as int)
                &&& forall|j: int|
                    0 <= j < i && rect_i_has(#[trigger] c[j], px as int, py as int) ==> area(c[b as int])
                        <= area(c[j])
                &&& forall|j: int|
                    0 <= j < b && rect_i_has(#[trigger] c[j], px as int, py as int) ==> area(c[b as int])
                        < area(c[j])
            },
        decreases n - i,
    {
        let r = candidates[i];
        if px >= r.0 && px < r.2 && py >= r.1 && py < r.3 {
            assert(rect_i_has(c[i as int], px as int, py as int));
            proof {
                let w = r.2 - r.0;
                let h = r.3 - r.1;
                assert(w <= w * h && h <= w * h) by (nonlinear_arith)
                    requires
                        w >= 1,
                        h >= 1,
                ;
            }
            let a = (r.2 - r.0) * (r.3 - r.1);
            match best {
                None => {
                    best = Some(i);
                    best_area = a;
                },
                Some(_) => {
                    if a < best_area {
                        best = Some(i);
                        best_area = a;
                    }
                },
            }
        }
        i = i + 1;
    }
    match best {
        None => {
            assert(!exists|k: int| 0 <= k < c.len() && smallest_at(c, px as int, py as int, k));
            None
        },
        Some(b) => {
            assert(smallest_at(c, px as int, py as int, b as int));
            proof {
                let k = choose|k: int| 0 <= k < c.len() && smallest_at(c, px as int, py as int, k);
                lemma_smallest_unique(c, px as int, py as int, k, b as int);
            }
            Some(candidates[b])
        },
    }
}

/// The intersection of `a` and `b`.
pub open spec fn spec_intersect(a: RectI, b: RectI) -> RectI {
    (
        if a.0 >= b.0 { a.0 } else { b.0 },
        if a.1 >= b.1 { a.1 } else { b.1 },
        if a.2 <= b.2 { a.2 } else { b.2 },
        if a.3 <= b.3 { a.3 } else { b.3 },
    )
}

/// The intersection of absolute rectangles `a` and `b`.
pub fn intersect(a: RectI, b: RectI) -> (r: RectI)
    ensures
        r == spec_intersect(a, b),
{
    (
        if a.0 >= b.0 { a.0 } else { b.0 },
        if a.1 >= b.1 { a.1 } else { b.1 },
        if a.2 <= b.2 { a.2 } else { b.2 },
        if a.3 <= b.3 { a.3 } else { b.3 },
    )
}

/// `abs` moved to image coordinates (the image's top-left corner is at
/// `origin`) and clipped to `[0, img_w) x [0, img_h)`; `None` when
/// nothing is left.
pub open spec fn spec_abs_to_src(abs: RectI, origin: (i32, i32), img_w: int, img_h: int) -> Option<
    Rect,
> {
    let x0 = clamp(abs.0 - origin.0, 0, img_w);
    let y0 = clamp(abs.1 - origin.1, 0, img_h);
    let x1 = clamp(abs.2 - origin.0, 0, img_w);
    let y1 = clamp(abs.3 - origin.1, 0, img_h);
    if x1 <= x0 || y1 <= y0 {
        None
    } else {
        Some(Rect { x0: x0 as usize, y0: y0 as usize, x1: x1 as usize, y1: y1 as usize })
    }
}

fn clamp_i128(v: i128, hi: i64) -> (r: i64)
    requires
        hi >= 0,
    ensures
        r == clamp(v as int, 0, hi as int),
{
    if v < 0 {
        0
    } else if v > hi as i128 {
        hi
    } else {
        v as i64
    }
}

/// Converts an absolute rectangle to image coordinates, clipped to the
/// image bounds `[0, img_w) x [0, img_h)`; `None` if nothing is left.
pub fn abs_to_src_clipped(abs: RectI, origin: (i32, i32), img_w: i64, img_h: i64) -> (r: Option<Rect>)
    requires
        0 <= img_w <= usize::MAX,
        0 <= img_h <= usize::MAX,
    ensures
        r == spec_abs_to_src(abs, origin, img_w as int, img_h as int),
{
    let x0 = clamp_i128(abs.0 as i128 - origin.0 as i128, img_w);
    let y0 = clamp_i128(abs.1 as i128 - origin.1 as i128, img_h);
    let x1 = clamp_i128(abs.2 as i128 - origin.0 as i128, img_w);
    let y1 = clamp_i128(abs.3 as i128 - origin.1 as i128, img_h);
    if x1 <= x0 || y1 <= y0 {
        return None;
    }
    Some(Rect { x0: x0 as usize, y0: y0 as usize, x1: x1 as usize, y1: y1 as usize })
}

/// What is known of a top-level window when it is enumerated.
#[derive(Clone, Copy, Debug)]
pub struct WindowFacts {
    pub visible: bool,
    /// Style and extended style, when the window information could be read.
    pub styles: Option<(u32, u32)>,
    /// Whether the compositor reports the window cloaked (on another
    /// virtual desktop, a suspended app).
    pub cloaked: bool,
    /// The visible frame bounds, in absolute coordinates.
    pub bounds: RectI,
    /// Whether the window has no title.
    pub title_empty: bool,
}

/// Whether a top-level window with these facts and class name `cls` is a
/// snapping candidate (before clipping to the image).
pub open spec fn spec_eligible(f: WindowFacts, cls: Seq<char>) -> bool {
    &&& f.visible
    &&& f.styles matches Some((style, exstyle)) && style & WS_MINIMIZE == 0 && !(style & WS_CAPTION
        == 0 && exstyle & WS_EX_LAYERED != 0)
    &&& !f.cloaked
    &&& f.bounds.2 - f.bounds.0 >= MIN_WINDOW_SIZE
    &&& f.bounds.3 - f.bounds.1 >= MIN_WINDOW_SIZE
    &&& !spec_blacklisted(cls)
    &&& !f.title_empty
}

/// Decides whether the enumerated top-level window `hwnd` becomes a
/// candidate: visible, not minimized, not a caption-less layered overlay,
/// not cloaked, at least `MIN_WINDOW_SIZE` in both directions, not a shell
/// class, titled, and with something left inside the image.
pub fn evaluate_window(
    hwnd: isize,
    facts: WindowFacts,
    cls: &str,
    origin: (i32, i32),
    img_w: i64,
    img_h: i64,
) -> (r: Option<SnapWindow>)
    requires
        0 <= img_w <= usize::MAX,
        0 <= img_h <= usize::MAX,
    ensures
        r is Some <==> spec_eligible(facts, cls@) && spec_abs_to_src(
            facts.bounds,
            origin,
            img_w as int,
            img_h as int,
        ) is Some,
        r matches Some(w) ==> w.hwnd == hwnd && w.rect_abs == facts.bounds && Some(w.rect_src)
            == spec_abs_to_src(facts.bounds, origin, img_w as int, img_h as int),
        !facts.visible ==> r is None,
        facts.cloaked ==> r is None,
        facts.title_empty ==> r is None,
        facts.styles is None ==> r is None,
        facts.styles matches Some((style, _)) && style & WS_MINIMIZE != 0 ==> r is None,
        facts.bounds.2 - facts.bounds.0 < MIN_WINDOW_SIZE ==> r is None,
        facts.bounds.3 - facts.bounds.1 < MIN_WINDOW_SIZE ==> r is None,
{
    if !facts.visible {
        return None;
    }
    let (style, exstyle) = match facts.styles {
        Some(s) => s,
        None => {
            return None;
        },
    };
    if style & WS_MINIMIZE != 0 {
        return None;
    }
    if style & WS_CAPTION == 0 && exstyle & WS_EX_LAYERED != 0 {
        return None;
    }
    if facts.cloaked {
        return None;
    }
    let b = facts.bounds;
    if (b.2 as i128) - (b.0 as i128) < MIN_WINDOW_SIZE as i128 || (b.3 as i128) - (b.1 as i128)
        < MIN_WINDOW_SIZE as i128 {
        return None;
    }
    if is_blacklisted_class(cls) {
        return None;
    }
    if facts.title_empty {
        return None;
    }
    match abs_to_src_clipped(b, origin, img_w, img_h) {
        Some(rect_src) => Some(SnapWindow { hwnd, rect_abs: b, rect_src }),
        None => None,
    }
}


/// No hidden window is ever a snapping candidate: one that is not
/// visible, is cloaked by the compositor (on another virtual desktop, a
/// suspended app), is minimized, has no title, or is smaller than
/// `MIN_WINDOW_SIZE` either way is left out, whatever else is true of it.
pub proof fn lemma_hidden_windows_are_never_candidates(f: WindowFacts, cls: Seq<char>)
    ensures
        !f.visible ==> !spec_eligible(f, cls),
        f.cloaked ==> !spec_eligible(f, cls),
        f.title_empty ==> !spec_eligible(f, cls),
        f.styles is None ==> !spec_eligible(f, cls),
        f.styles matches Some((style, _)) && style & WS_MINIMIZE != 0 ==> !spec_eligible(f, cls),
        f.bounds.2 - f.bounds.0 < MIN_WINDOW_SIZE ==> !spec_eligible(f, cls),
        f.bounds.3 - f.bounds.1 < MIN_WINDOW_SIZE ==> !spec_eligible(f, cls),
{
}

} // verus!
