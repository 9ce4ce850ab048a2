//! Recent tab: the scrolling list of editor sessions, one click target
//! per row plus its delete button.

use vstd::prelude::*;
use crate::geometry::clamp;
use crate::settings::{Btn, CONTENT_X, sat_sub};
use crate::settings::upload_tab::max0;
use crate::ui::Rect;

verus! {

pub const SESSION_ROW_H: usize = 64;
pub const SESSION_ROW_GAP: usize = 8;
pub const SESSION_LIST_Y0: usize = 68;
/// Space kept free under the list.
pub const SESSION_LIST_BOTTOM_MARGIN: usize = 64;
pub const SESSION_THUMB_W: usize = 96;
pub const SESSION_THUMB_H: usize = 56;
pub const SESSION_THUMB_MARGIN: usize = 4;
pub const SESSION_LABEL_X_OFFSET: usize = SESSION_THUMB_MARGIN * 2 + SESSION_THUMB_W + 12;
pub const SESSION_DELETE_SIZE: usize = 20;
pub const SESSION_DELETE_MARGIN_RIGHT: usize = 10;

/// Where one session row is drawn: `visible` and `delete_visible` are
/// clipped to the viewport, `raw` and `delete_raw` are not.
#[derive(Clone, Copy, Debug)]
pub struct SessionRowGeom {
    pub index: usize,
    pub visible: Rect,
    pub raw: Rect,
    pub delete_visible: Rect,
    pub delete_raw: Rect,
}

impl SessionRowGeom {
    /// The viewport cuts off the row's top.
    pub fn top_clipped(&self) -> (r: bool)
        ensures
            r == (self.visible.y0 > self.raw.y0),
    {
        self.visible.y0 > self.raw.y0
    }

    /// The viewport cuts off the row's bottom.
    pub fn bottom_clipped(&self) -> (r: bool)
        ensures
            r == (self.visible.y1 < self.raw.y1),
    {
        self.visible.y1 < self.raw.y1
    }
}

pub open spec fn spec_session_viewport(sw: int, sh: int) -> Rect {
    Rect {
        x0: CONTENT_X,
        y0: SESSION_LIST_Y0,
        x1: sat_sub(sw, 16) as usize,
        y1: sat_sub(sh, SESSION_LIST_BOTTOM_MARGIN as int) as usize,
    }
}

/// The list's viewport in a window `sw` by `sh`.
pub fn session_viewport(sw: usize, sh: usize) -> (r: Rect)
    ensures
        r == spec_session_viewport(sw as int, sh as int),
{
    Rect {
        x0: CONTENT_X,
        y0: SESSION_LIST_Y0,
        x1: sw.saturating_sub(16),
        y1: sh.saturating_sub(SESSION_LIST_BOTTOM_MARGIN),
    }
}

/// Height of the whole list of `count` rows.
pub fn session_content_height(count: usize) -> (r: i64)
    requires
        count * (SESSION_ROW_H + SESSION_ROW_GAP) <= i64::MAX,
        count * (SESSION_ROW_H + SESSION_ROW_GAP) <= usize::MAX,
    ensures
        r == count * (SESSION_ROW_H + SESSION_ROW_GAP),
{
    (count * (SESSION_ROW_H + SESSION_ROW_GAP)) as i64
}

/// Top of row `i`, unclipped.
pub open spec fn session_raw_y0(i: int, scroll: int) -> int {
    SESSION_LIST_Y0 + i * (SESSION_ROW_H + SESSION_ROW_GAP) - scroll
}

/// Whether row `i` overlaps the viewport.
pub open spec fn session_row_shows(i: int, scroll: int, sw: int, sh: int) -> bool {
    let vp = spec_session_viewport(sw, sh);
    let raw_y0 = session_raw_y0(i, scroll);
    !(raw_y0 + SESSION_ROW_H <= vp.y0 || raw_y0 >= vp.y1)
}

/// Row `i` of the list scrolled by `scroll`, or `None` when it lies
/// wholly outside the viewport.
pub open spec fn spec_session_row(i: int, scroll: int, sw: int, sh: int) -> Option<SessionRowGeom> {
    let vp = spec_session_viewport(sw, sh);
    let raw_y0 = session_raw_y0(i, scroll);
    let raw_y1 = raw_y0 + SESSION_ROW_H;
    if !session_row_shows(i, scroll, sw, sh) {
        None
    } else {
        let dx1 = sat_sub(vp.x1 as int, SESSION_DELETE_MARGIN_RIGHT as int);
        let dx0 = sat_sub(dx1, SESSION_DELETE_SIZE as int);
        let dt = raw_y0 + (SESSION_ROW_H - SESSION_DELETE_SIZE) / 2;
        let db = dt + SESSION_DELETE_SIZE;
        Some(
            SessionRowGeom {
                index: i as usize,
                visible: Rect {
                    x0: vp.x0,
                    y0: clamp(raw_y0, vp.y0 as int, vp.y1 as int) as usize,
                    x1: vp.x1,
                    y1: clamp(raw_y1, vp.y0 as int, vp.y1 as int) as usize,
                },
                raw: Rect { x0: vp.x0, y0: max0(raw_y0) as usize, x1: vp.x1, y1: max0(raw_y1) as usize },
                delete_visible: Rect {
                    x0: dx0 as usize,
                    y0: clamp(dt, vp.y0 as int, vp.y1 as int) as usize,
                    x1: dx1 as usize,
                    y1: clamp(db, vp.y0 as int, vp.y1 as int) as usize,
                },
                delete_raw: Rect {
                    x0: dx0 as usize,
                    y0: max0(dt) as usize,
                    x1: dx1 as usize,
                    y1: max0(db) as usize,
                },
            },
        )
    }
}

/// The rows among the first `n` that show, in order.
pub open spec fn spec_session_layout(n: nat, scroll: int, sw: int, sh: int) -> Seq<SessionRowGeom>
    decreases n,
{
    if n == 0 {
        Seq::empty()
    } else {
        let prev = spec_session_layout((n - 1) as nat, scroll, sw, sh);
        match spec_session_row(n - 1, scroll, sw, sh) {
            Some(g) => prev.push(g),
            None => prev,
        }
    }
}

fn clamp_i128(v: i128, lo: i128, hi: i128) -> (r: i128)
    requires
        lo <= hi,
    ensures
        r == clamp(v as int, lo as int, hi as int),
{
    if v < lo {
        lo
    } else if v > hi {
        hi
    } else {
        v
    }
}

fn max0_i128(v: i128) -> (r: i128)
    ensures
        r == max0(v as int),
{
    if v < 0 {
        0
    } else {
        v
    }
}

fn session_row(i: usize, scroll: i32, sw: usize, sh: usize) -> (r: Option<SessionRowGeom>)
    requires
        session_row_shows(i as int, scroll as int, sw as int, sh as int) ==> SESSION_LIST_Y0
            <= sat_sub(sh as int, SESSION_LIST_BOTTOM_MARGIN as int),
    ensures
        r == spec_session_row(i as int, scroll as int, sw as int, sh as int),
{
    let vp = session_viewport(sw, sh);
    let vy0 = vp.y0 as i128;
    let vy1 = vp.y1 as i128;
    let raw_y0 = vy0 + (i as i128) * ((SESSION_ROW_H + SESSION_ROW_GAP) as i128) - scroll as i128;
    let raw_y1 = raw_y0 + SESSION_ROW_H as i128;
    if raw_y1 <= vy0 || raw_y0 >= vy1 {
        return None;
    }
    let dx1 = vp.x1.saturating_sub(SESSION_DELETE_MARGIN_RIGHT);
    let dx0 = dx1.saturating_sub(SESSION_DELETE_SIZE);
    let dt = raw_y0 + ((SESSION_ROW_H - SESSION_DELETE_SIZE) / 2) as i128;
    let db = dt + SESSION_DELETE_SIZE as i128;
    Some(
        SessionRowGeom {
            index: i,
            visible: Rect {
                x0: vp.x0,
                y0: clamp_i128(raw_y0, vy0, vy1) as usize,
                x1: vp.x1,
                y1: clamp_i128(raw_y1, vy0, vy1) as usize,
            },
            raw: Rect { x0: vp.x0, y0: max0_i128(raw_y0) as usize, x1: vp.x1, y1: max0_i128(raw_y1) as usize },
            delete_visible: Rect {
                x0: dx0,
                y0: clamp_i128(dt, vy0, vy1) as usize,
                x1: dx1,
                y1: clamp_i128(db, vy0, vy1) as usize,
            },
            delete_raw: Rect { x0: dx0, y0: max0_i128(dt) as usize, x1: dx1, y1: max0_i128(db) as usize },
        },
    )
}

/// Geometry of the rows of a list of `count` sessions scrolled by
/// `scroll` that overlap the viewport, in list order. A window too short
/// for the list (viewport bottom above its top) with a row showing is
/// left out, as clipping to it has no meaning.
pub fn session_layout(count: usize, scroll: i32, sw: usize, sh: usize) -> (r: Vec<SessionRowGeom>)
    requires
        forall|i: int|
            0 <= i < count && #[trigger] session_row_shows(i, scroll as int, sw as int, sh as int)
                ==> SESSION_LIST_Y0 <= sat_sub(sh as int, SESSION_LIST_BOTTOM_MARGIN as int),
    ensures
        r@ == spec_session_layout(count as nat, scroll as int, sw as int, sh as int),
{
    let mut out: Vec<SessionRowGeom> = Vec::new();
    let mut i: usize = 0;
    while i < count
        invariant
            i <= count,
            forall|i: int|
                0 <= i < count && #[trigger] session_row_shows(i, scroll as int, sw as int, sh as int)
                    ==> SESSION_LIST_Y0 <= sat_sub(sh as int, SESSION_LIST_BOTTOM_MARGIN as int),
            out@ == spec_session_layout(i as nat, scroll as int, sw as int, sh as int),
        decreases count - i,
    {
        assert(session_row_shows(i as int, scroll as int, sw as int, sh as int) ==> SESSION_LIST_Y0
            <= sat_sub(sh as int, SESSION_LIST_BOTTOM_MARGIN as int));
        match session_row(i, scroll, sw, sh) {
            Some(g) => out.push(g),
            None => {},
        }
        i = i + 1;
    }
    out
}

/// The hit targets of the first `n` rows: each row's delete button (which
/// lies over the row, so it comes first), then the row.
pub open spec fn session_buttons(rows: Seq<SessionRowGeom>, n: nat) -> Seq<(Btn, Rect)>
    decreases n,
{
    if n == 0 {
        Seq::empty()
    } else {
        let g = rows[n - 1];
        session_buttons(rows, (n - 1) as nat) + seq![
            (Btn::DeleteSession(g.index), g.delete_visible),
            (Btn::OpenSession(g.index), g.visible),
        ]
    }
}

/// The Recent tab's hit targets, in hit-test order.
pub fn buttons_recent(count: usize, scroll: i32, sw: usize, sh: usize) -> (r: Vec<(Btn, Rect)>)
    requires
        forall|i: int|
            0 <= i < count && #[trigger] session_row_shows(i, scroll as int, sw as int, sh as int)
                ==> SESSION_LIST_Y0 <= sat_sub(sh as int, SESSION_LIST_BOTTOM_MARGIN as int),
    ensures
        ({
            let rows = spec_session_layout(count as nat, scroll as int, sw as int, sh as int);
            r@ == session_buttons(rows, rows.len())
        }),
{
    let rows = session_layout(count, scroll, sw, sh);
    let mut v: Vec<(Btn, Rect)> = Vec::new();
    let mut i: usize = 0;
    while i < rows.len()
        invariant
            i <= rows@.len(),
            v@ == session_buttons(rows@, i as nat),
        decreases rows.len() - i,
    {
        let g = rows[i];
        v.push((Btn::DeleteSession(g.index), g.delete_visible));
        v.push((Btn::OpenSession(g.index), g.visible));
        i = i + 1;
        assert(v@ =~= session_buttons(rows@, i as nat));
    }
    v
}

} // verus!
