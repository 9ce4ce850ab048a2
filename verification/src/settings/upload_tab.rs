//! Upload tab: the scrolling list of custom uploaders and the edit fields
//! of the one selected.

use vstd::prelude::*;
use vstd::string::StringExecFns;
use crate::geometry::clamp;
use crate::settings::{Btn, CONTENT_X, field, sat_sub, spec_field};
use crate::store::{ProfileView, UploaderProfile, profiles_view};
use crate::text::{string_from_chars, to_chars};
use crate::textfield::{TextCursor, byte_len, char_index, find_char_index, is_boundary, lemma_start_is_boundary};
use crate::ui::Rect;

verus! {

pub const UPLOADER_ROW_H: usize = 30;
pub const UPLOADER_ROW_GAP: usize = 4;
pub const UPLOADER_LIST_Y0: usize = 76;
pub const UPLOADER_LIST_VISIBLE_H: usize = 132;
pub const UPLOADER_DELETE_SIZE: usize = 20;
pub const UPLOADER_DELETE_MARGIN_RIGHT: usize = 10;
/// Size of the "enabled" checkbox and its margin from the row's left edge.
pub const UPLOADER_CHECK_SIZE: usize = 16;
pub const UPLOADER_CHECK_MARGIN_LEFT: usize = 8;
pub const UPLOADER_ADD_BTN_Y: usize = UPLOADER_LIST_Y0 + UPLOADER_LIST_VISIBLE_H + 8;
pub const UPLOADER_ADD_BTN_W: usize = 120;
pub const UPLOADER_ADD_BTN_H: usize = 26;
pub const UPLOADER_FIELDS_Y0: usize = UPLOADER_ADD_BTN_Y + UPLOADER_ADD_BTN_H + 14;
pub const UPLOADER_FIELD_ROW_H: usize = 32;
/// Width of the field label column used before text can be measured.
pub const UPLOAD_FIELD_COL_W_FALLBACK: usize = 110;

/// Where one list row is drawn. `visible` and the `*_visible` rectangles
/// are clipped to the list's viewport (hit-testing, fills); `raw` and the
/// `*_raw` ones are not (text and icon positions, which must not move
/// while a row scrolls out).
#[derive(Clone, Copy, Debug)]
pub struct UploaderRowGeom {
    pub index: usize,
    pub visible: Rect,
    pub raw: Rect,
    pub delete_visible: Rect,
    pub delete_raw: Rect,
    pub check_visible: Rect,
    pub check_raw: Rect,
}

impl UploaderRowGeom {
    /// The viewport cuts off the row's top.
    pub fn top_clipped(&self) -> (r: bool)
        ensures
            r == (self.visible.y0 > self.raw.y0),
    {
        self.visible.y0 > self.raw.y0
    }

    /// The viewport cuts off the row's bottom.
    pub fn bottom_clipped(&self) -> (r: bool)
        ensures
            r == (self.visible.y1 < self.raw.y1),
    {
        self.visible.y1 < self.raw.y1
    }
}

pub open spec fn spec_uploader_viewport(sw: int) -> Rect {
    Rect {
        x0: CONTENT_X,
        y0: UPLOADER_LIST_Y0,
        x1: sat_sub(sw, 16) as usize,
        y1: (UPLOADER_LIST_Y0 + UPLOADER_LIST_VISIBLE_H) as usize,
    }
}

/// The list's viewport; rows scrolled outside it are hidden.
pub fn uploader_viewport(sw: usize) -> (r: Rect)
    ensures
        r == spec_uploader_viewport(sw as int),
{
    Rect {
        x0: CONTENT_X,
        y0: UPLOADER_LIST_Y0,
        x1: sw.saturating_sub(16),
        y1: UPLOADER_LIST_Y0 + UPLOADER_LIST_VISIBLE_H,
    }
}

/// Height of the whole list of `count` rows (for the scroll range).
pub fn uploader_content_height(count: usize) -> (r: i64)
    requires
        count * (UPLOADER_ROW_H + UPLOADER_ROW_GAP) <= i64::MAX,
        count * (UPLOADER_ROW_H + UPLOADER_ROW_GAP) <= usize::MAX,
    ensures
        r == count * (UPLOADER_ROW_H + UPLOADER_ROW_GAP),
{
    (count * (UPLOADER_ROW_H + UPLOADER_ROW_GAP)) as i64
}

pub open spec fn max0(v: int) -> int {
    if v < 0 {
        0
    } else {
        v
    }
}

/// Row `i` of the list scrolled by `scroll` in a window `sw` wide, or
/// `None` when it lies wholly outside the viewport.
pub open spec fn spec_uploader_row(i: int, scroll: int, sw: int) -> Option<UploaderRowGeom> {
    let vp = spec_uploader_viewport(sw);
    let raw_y0 = vp.y0 + i * (UPLOADER_ROW_H + UPLOADER_ROW_GAP) - scroll;
    let raw_y1 = raw_y0 + UPLOADER_ROW_H;
    if raw_y1 <= vp.y0 || raw_y0 >= vp.y1 {
        None
    } else {
        let dx1 = sat_sub(vp.x1 as int, UPLOADER_DELETE_MARGIN_RIGHT as int);
        let dx0 = sat_sub(dx1, UPLOADER_DELETE_SIZE as int);
        let dt = raw_y0 + (UPLOADER_ROW_H - UPLOADER_DELETE_SIZE) / 2;
        let db = dt + UPLOADER_DELETE_SIZE;
        let cx0 = vp.x0 + UPLOADER_CHECK_MARGIN_LEFT;
        let cx1 = cx0 + UPLOADER_CHECK_SIZE;
        let ct = raw_y0 + (UPLOADER_ROW_H - UPLOADER_CHECK_SIZE) / 2;
        let cb = ct + UPLOADER_CHECK_SIZE;
        Some(
            UploaderRowGeom {
                index: i as usize,
                visible: Rect {
                    x0: vp.x0,
                    y0: clamp(raw_y0, vp.y0 as int, vp.y1 as int) as usize,
                    x1: vp.x1,
                    y1: clamp(raw_y1, vp.y0 as int, vp.y1 as int) as usize,
                },
                raw: Rect {
                    x0: vp.x0,
                    y0: max0(raw_y0) as usize,
                    x1: vp.x1,
                    y1: max0(raw_y1) as usize,
                },
                delete_visible: Rect {
                    x0: dx0 as usize,
                    y0: clamp(dt, vp.y0 as int, vp.y1 as int) as usize,
                    x1: dx1 as usize,
                    y1: clamp(db, vp.y0 as int, vp.y1 as int) as usize,
                },
                delete_raw: Rect {
                    x0: dx0 as usize,
                    y0: max0(dt) as usize,
                    x1: dx1 as usize,
                    y1: max0(db) as usize,
                },
                check_visible: Rect {
                    x0: cx0 as usize,
                    y0: clamp(ct, vp.y0 as int, vp.y1 as int) as usize,
                    x1: cx1 as usize,
                    y1: clamp(cb, vp.y0 as int, vp.y1 as int) as usize,
                },
                check_raw: Rect {
                    x0: cx0 as usize,
                    y0: max0(ct) as usize,
                    x1: cx1 as usize,
                    y1: max0(cb) as usize,
                },
            },
        )
    }
}

/// The rows among the first `n` that show, in order.
pub open spec fn spec_uploader_layout(n: nat, scroll: int, sw: int) -> Seq<UploaderRowGeom>
    decreases n,
{
    if n == 0 {
        Seq::empty()
    } else {
        let prev = spec_uploader_layout((n - 1) as nat, scroll, sw);
        match spec_uploader_row(n - 1, scroll, sw) {
            Some(g) => prev.push(g),
            None => prev,
        }
    }
}

fn clamp_i128(v: i128, lo: i128, hi: i128) -> (r: i128)
    requires
        lo <= hi,
    ensures
        r == clamp(v as int, lo as int, hi as int),
{
    if v < lo {
        lo
    } else if v > hi {
        hi
    } else {
        v
    }
}

fn max0_i128(v: i128) -> (r: i128)
    ensures
        r == max0(v as int),
{
    if v < 0 {
        0
    } else {
        v
    }
}

/// Geometry of row `i`, if it shows.
fn uploader_row(i: usize, scroll: i32, sw: usize) -> (r: Option<UploaderRowGeom>)
    ensures
        r == spec_uploader_row(i as int, scroll as int, sw as int),
{
    let vp = uploader_viewport(sw);
    let vy0 = vp.y0 as i128;
    let vy1 = vp.y1 as i128;
    let raw_y0 = vy0 + (i as i128) * ((UPLOADER_ROW_H + UPLOADER_ROW_GAP) as i128) - scroll as i128;
    let raw_y1 = raw_y0 + UPLOADER_ROW_H as i128;
    if raw_y1 <= vy0 || raw_y0 >= vy1 {
        return None;
    }
    let dx1 = vp.x1.saturating_sub(UPLOADER_DELETE_MARGIN_RIGHT);
    let dx0 = dx1.saturating_sub(UPLOADER_DELETE_SIZE);
    let dt = raw_y0 + ((UPLOADER_ROW_H - UPLOADER_DELETE_SIZE) / 2) as i128;
    let db = dt + UPLOADER_DELETE_SIZE as i128;
    let cx0 = vp.x0 + UPLOADER_CHECK_MARGIN_LEFT;
    let cx1 = cx0 + UPLOADER_CHECK_SIZE;
    let ct = raw_y0 + ((UPLOADER_ROW_H - UPLOADER_CHECK_SIZE) / 2) as i128;
    let cb = ct + UPLOADER_CHECK_SIZE as i128;
    Some(
        UploaderRowGeom {
            index: i,
            visible: Rect {
                x0: vp.x0,
                y0: clamp_i128(raw_y0, vy0, vy1) as usize,
                x1: vp.x1,
                y1: clamp_i128(raw_y1, vy0, vy1) as usize,
            },
            raw: Rect {
                x0: vp.x0,
                y0: max0_i128(raw_y0) as usize,
                x1: vp.x1,
                y1: max0_i128(raw_y1) as usize,
            },
            delete_visible: Rect {
                x0: dx0,
                y0: clamp_i128(dt, vy0, vy1) as usize,
                x1: dx1,
                y1: clamp_i128(db, vy0, vy1) as usize,
            },
            delete_raw: Rect { x0: dx0, y0: max0_i128(dt) as usize, x1: dx1, y1: max0_i128(db) as usize },
            check_visible: Rect {
                x0: cx0,
                y0: clamp_i128(ct, vy0, vy1) as usize,
                x1: cx1,
                y1: clamp_i128(cb, vy0, vy1) as usize,
            },
            check_raw: Rect { x0: cx0, y0: max0_i128(ct) as usize, x1: cx1, y1: max0_i128(cb) as usize },
        },
    )
}

/// Geometry of the rows of a list of `count` uploaders scrolled by
/// `scroll` that overlap the viewport, in list order.
pub fn uploader_layout(count: usize, scroll: i32, sw: usize) -> (r: Vec<UploaderRowGeom>)
    ensures
        r@ == spec_uploader_layout(count as nat, scroll as int, sw as int),
{
    let mut out: Vec<UploaderRowGeom> = Vec::new();
    let mut i: usize = 0;
    while i < count
        invariant
            i <= count,
            out@ == spec_uploader_layout(i as nat, scroll as int, sw as int),
        decreases count - i,
    {
        match uploader_row(i, scroll, sw) {
            Some(g) => out.push(g),
            None => {},
        }
        i = i + 1;
    }
    out
}

/// The value field of edit row `i`, right of a label column `col_w` wide
/// (the widest measured label plus 12, or `UPLOAD_FIELD_COL_W_FALLBACK`),
/// reaching to 20 px short of the window's right edge.
pub fn upload_field_row_rect(i: usize, sw: usize, col_w: usize) -> (r: Rect)
    requires
        UPLOADER_FIELDS_Y0 + i * UPLOADER_FIELD_ROW_H + 26 <= usize::MAX,
        CONTENT_X + col_w + 20 <= usize::MAX,
    ensures
        r == spec_field(
            CONTENT_X + col_w,
            UPLOADER_FIELDS_Y0 + i * UPLOADER_FIELD_ROW_H,
            sat_sub(sw as int, CONTENT_X + col_w + 20),
            26,
        ),
{
    let y = UPLOADER_FIELDS_Y0 + i * UPLOADER_FIELD_ROW_H;
    let x0 = CONTENT_X + col_w;
    field(x0, y, sw.saturating_sub(x0 + 20), 26)
}

/// The editable fields of an uploader profile.
#[derive(Clone, Copy, PartialEq, Eq, Debug, Structural)]
pub enum UploadField {
    Name,
    Url,
    FileField,
    TokenField,
    Token,
    ResponseField,
}

impl UploadField {
    /// Whether the field's value is masked on screen.
    pub fn is_secret(&self) -> (r: bool)
        ensures
            r == (*self == UploadField::Token),
    {
        match self {
            UploadField::Token => true,
            _ => false,
        }
    }
}

/// The text of field `f` of a profile.
pub open spec fn field_text(p: ProfileView, f: UploadField) -> Seq<char> {
    match f {
        UploadField::Name => p.name,
        UploadField::Url => p.url,
        UploadField::FileField => p.file_field,
        UploadField::TokenField => p.token_field,
        UploadField::Token => p.token,
        UploadField::ResponseField => p.response_field,
    }
}

/// The profile with field `f` set to `v`.
pub open spec fn with_field(p: ProfileView, f: UploadField, v: Seq<char>) -> ProfileView {
    match f {
        UploadField::Name => ProfileView { name: v, ..p },
        UploadField::Url => ProfileView { url: v, ..p },
        UploadField::FileField => ProfileView { file_field: v, ..p },
        UploadField::TokenField => ProfileView { token_field: v, ..p },
        UploadField::Token => ProfileView { token: v, ..p },
        UploadField::ResponseField => ProfileView { response_field: v, ..p },
    }
}

/// The current value of `field` in profile `p`.
pub fn upload_field_value(p: &UploaderProfile, field: UploadField) -> (r: &str)
    ensures
        r@ == field_text(p@, field),
{
    match field {
        UploadField::Name => p.name.as_str(),
        UploadField::Url => p.url.as_str(),
        UploadField::FileField => p.file_field.as_str(),
        UploadField::TokenField => p.token_field.as_str(),
        UploadField::Token => p.token.as_str(),
        UploadField::ResponseField => p.response_field.as_str(),
    }
}

/// Replaces the value of `field` in profile `p`.
pub fn set_upload_field(p: &mut UploaderProfile, field: UploadField, value: String)
    ensures
        final(p)@ == with_field(old(p)@, field, value@),
{
    match field {
        UploadField::Name => p.name = value,
        UploadField::Url => p.url = value,
        UploadField::FileField => p.file_field = value,
        UploadField::TokenField => p.token_field = value,
        UploadField::Token => p.token = value,
        UploadField::ResponseField => p.response_field = value,
    }
}

/// The profile that "+ Add uploader" creates.
pub open spec fn new_profile_view() -> ProfileView {
    ProfileView {
        name: "New uploader"@,
        url: Seq::empty(),
        file_field: "file"@,
        token_field: Seq::empty(),
        token: Seq::empty(),
        response_field: "url"@,
        enabled: false,
    }
}

/// The Upload tab's state as values.
pub struct UploadTabView {
    pub profiles: Seq<ProfileView>,
    pub editing: usize,
    pub focus: Option<UploadField>,
    pub buf: Seq<char>,
    pub cursor: TextCursor,
}

impl View for UploadTab {
    type V = UploadTabView;

    open spec fn view(&self) -> UploadTabView {
        UploadTabView {
            profiles: profiles_view(self.uploaders@),
            editing: self.editing,
            focus: self.focus,
            buf: self.buf@,
            cursor: self.cursor,
        }
    }
}

/// Showing profile `i` (ignored past the end).
pub open spec fn spec_select(v: UploadTabView, i: usize) -> UploadTabView {
    if i < v.profiles.len() {
        UploadTabView { editing: i, ..v }
    } else {
        v
    }
}

/// Deleting profile `i` (ignored past the end); an edited index past the
/// new end moves to the new last profile.
pub open spec fn spec_delete(v: UploadTabView, i: usize) -> UploadTabView {
    if i < v.profiles.len() {
        let n = v.profiles.len() - 1;
        UploadTabView {
            profiles: v.profiles.remove(i as int),
            editing: if v.editing >= n {
                sat_sub(n, 1) as usize
            } else {
                v.editing
            },
            ..v
        }
    } else {
        v
    }
}

/// Flipping whether profile `i` is sent to, and showing it.
pub open spec fn spec_toggle(v: UploadTabView, i: usize) -> UploadTabView {
    if i < v.profiles.len() {
        let p = v.profiles[i as int];
        UploadTabView {
            profiles: v.profiles.update(i as int, ProfileView { enabled: !p.enabled, ..p }),
            editing: i,
            ..v
        }
    } else {
        v
    }
}

/// Appending a new profile and showing it.
pub open spec fn spec_add(v: UploadTabView) -> UploadTabView {
    UploadTabView {
        profiles: v.profiles.push(new_profile_view()),
        editing: v.profiles.len() as usize,
        ..v
    }
}

/// Writing the edit buffer into the focused field of the shown profile
/// and leaving the field.
pub open spec fn spec_commit(v: UploadTabView) -> UploadTabView {
    match v.focus {
        None => v,
        Some(f) => UploadTabView {
            profiles: if v.editing < v.profiles.len() {
                v.profiles.update(
                    v.editing as int,
                    with_field(v.profiles[v.editing as int], f, v.buf),
                )
            } else {
                v.profiles
            },
            focus: None,
            buf: Seq::empty(),
            cursor: TextCursor { cursor: 0, anchor: 0 },
            ..v
        },
    }
}

/// Focusing field `f`: a commit, then the field's value in the buffer
/// with the caret at its end.
pub open spec fn spec_focus(v: UploadTabView, f: UploadField) -> UploadTabView {
    let c = spec_commit(v);
    let buf = if c.editing < c.profiles.len() {
        field_text(c.profiles[c.editing as int], f)
    } else {
        Seq::<char>::empty()
    };
    UploadTabView {
        focus: Some(f),
        buf,
        cursor: TextCursor { cursor: byte_len(buf) as usize, anchor: byte_len(buf) as usize },
        ..c
    }
}

/// What a click of `btn` does to the tab.
pub open spec fn spec_activate(v: UploadTabView, btn: Btn) -> UploadTabView {
    match btn {
        Btn::SelectUploader(i) => spec_select(v, i),
        Btn::DeleteUploader(i) => spec_delete(v, i),
        Btn::ToggleUploaderEnabled(i) => spec_toggle(v, i),
        Btn::AddUploader => spec_add(v),
        Btn::UploadField(f) => spec_focus(v, f),
        _ => v,
    }
}

/// The Upload tab's state: the uploader list, which one the edit panel
/// shows, and the field being edited with its buffer and caret.
pub struct UploadTab {
    pub uploaders: Vec<UploaderProfile>,
    pub editing: usize,
    pub focus: Option<UploadField>,
    pub buf: String,
    pub cursor: TextCursor,
}

impl UploadTab {
    /// The edited index points into the list (or is 0 for an empty list),
    /// and the caret lies inside the edit buffer.
    pub open spec fn wf(&self) -> bool {
        &&& (self.editing == 0 || self.editing < self.uploaders@.len())
        &&& self.cursor.wf(self.buf@)
    }

    pub open spec fn profiles(&self) -> Seq<ProfileView> {
        profiles_view(self.uploaders@)
    }

    /// The tab for `uploaders`, showing the first one, no field focused.
    pub fn new(uploaders: Vec<UploaderProfile>) -> (r: Self)
        ensures
            r.profiles() == profiles_view(uploaders@),
            r.editing == 0,
            r.focus is None,
            r.wf(),
    {
        proof {
            lemma_start_is_boundary(Seq::<char>::empty());
        }
        UploadTab {
            uploaders,
            editing: 0,
            focus: None,
            buf: String::new(),
            cursor: TextCursor { cursor: 0, anchor: 0 },
        }
    }

    /// Shows profile `i` in the edit panel (ignored past the end).
    pub fn select(&mut self, i: usize)
        requires
            old(self).wf(),
        ensures
            final(self).wf(),
            final(self).profiles() == old(self).profiles(),
            final(self).editing == if i < old(self).uploaders@.len() {
                i
            } else {
                old(self).editing
            },
            final(self)@ == spec_select(old(self)@, i),
            final(self).focus == old(self).focus,
            final(self).buf@ == old(self).buf@,
            final(self).cursor == old(self).cursor,
    {
        if i < self.uploaders.len() {
            self.editing = i;
        }
    }

    /// Deletes profile `i` (ignored past the end); when the edited index
    /// falls off the end it moves to the new last profile.
    pub fn delete(&mut self, i: usize)
        requires
            old(self).wf(),
        ensures
            final(self).wf(),
            i < old(self).uploaders@.len() ==> {
                let n = (old(self).uploaders@.len() - 1) as int;
                &&& final(self).profiles() == old(self).profiles().remove(i as int)
                &&& final(self).editing == if old(self).editing >= n {
                    sat_sub(n, 1)
                } else {
                    old(self).editing as int
                }
            },
            i >= old(self).uploaders@.len() ==> final(self).profiles() == old(self).profiles()
                && final(self).editing == old(self).editing,
            final(self).focus == old(self).focus,
            final(self).buf@ == old(self).buf@,
            final(self).cursor == old(self).cursor,
            final(self)@ == spec_delete(old(self)@, i),
    {
        if i < self.uploaders.len() {
            let ghost old_list = self.uploaders@;
            let _ = self.uploaders.remove(i);
            proof {
                assert(profiles_view(self.uploaders@) =~= profiles_view(old_list).remove(i as int));
            }
            if self.editing >= self.uploaders.len() {
                self.editing = self.uploaders.len().saturating_sub(1);
            }
        }
    }

    /// Flips whether profile `i` is sent to, and shows it (ignored past
    /// the end).
    pub fn toggle_enabled(&mut self, i: usize)
        requires
            old(self).wf(),
        ensures
            final(self).wf(),
            i < old(self).uploaders@.len() ==> {
                let p = old(self).profiles()[i as int];
                &&& final(self).profiles() == old(self).profiles().update(
                    i as int,
                    ProfileView { enabled: !p.enabled, ..p },
                )
                &&& final(self).editing == i
            },
            i >= old(self).uploaders@.len() ==> final(self).profiles() == old(self).profiles()
                && final(self).editing == old(self).editing,
            final(self).focus == old(self).focus,
            final(self).buf@ == old(self).buf@,
            final(self).cursor == old(self).cursor,
            final(self)@ == spec_toggle(old(self)@, i),
    {
        if i < self.uploaders.len() {
            let ghost old_list = self.uploaders@;
            let mut p = self.uploaders.remove(i);
            p.enabled = !p.enabled;
            self.uploaders.insert(i, p);
            proof {
                assert(profiles_view(self.uploaders@) =~= profiles_view(old_list).update(
                    i as int,
                    ProfileView { enabled: !old_list[i as int].enabled, ..old_list[i as int]@ },
                ));
            }
            self.editing = i;
        }
    }

    /// Appends a new, disabled profile and shows it.
    pub fn add(&mut self)
        requires
            old(self).wf(),
            old(self).uploaders@.len() < usize::MAX,
        ensures
            final(self).wf(),
            final(self).profiles() == old(self).profiles().push(new_profile_view()),
            final(self).editing == old(self).uploaders@.len(),
            final(self).focus == old(self).focus,
            final(self).buf@ == old(self).buf@,
            final(self).cursor == old(self).cursor,
            final(self)@ == spec_add(old(self)@),
    {
        let ghost old_list = self.uploaders@;
        let p = UploaderProfile {
            name: String::from_str("New uploader"),
            url: String::new(),
            file_field: String::from_str("file"),
            token_field: String::new(),
            token: String::new(),
            response_field: String::from_str("url"),
            enabled: false,
        };
        self.uploaders.push(p);
        proof {
            assert(profiles_view(self.uploaders@) =~= profiles_view(old_list).push(
                new_profile_view(),
            ));
        }
        self.editing = self.uploaders.len() - 1;
    }

    /// Writes the edit buffer into the focused field of the shown profile
    /// (if there is one) and leaves the field; does nothing when no field
    /// is focused.
    pub fn commit(&mut self)
        requires
            old(self).wf(),
        ensures
            final(self).wf(),
            final(self).editing == old(self).editing,
            final(self).focus is None,
            match old(self).focus {
                None => final(self).profiles() == old(self).profiles() && final(self).buf@
                    == old(self).buf@ && final(self).cursor == old(self).cursor,
                Some(f) => {
                    &&& final(self).profiles() == if old(self).editing < old(
                        self,
                    ).uploaders@.len() {
                        old(self).profiles().update(
                            old(self).editing as int,
                            with_field(
                                old(self).profiles()[old(self).editing as int],
                                f,
                                old(self).buf@,
                            ),
                        )
                    } else {
                        old(self).profiles()
                    }
                    &&& final(self).buf@.len() == 0
                    &&& final(self).cursor.cursor == 0
                    &&& final(self).cursor.anchor == 0
                },
            },
            final(self)@ == spec_commit(old(self)@),
    {
        let f = match self.focus {
            Some(f) => f,
            None => {
                return;
            },
        };
        self.focus = None;
        let mut value = String::new();
        std::mem::swap(&mut value, &mut self.buf);
        let e = self.editing;
        if e < self.uploaders.len() {
            let ghost old_list = self.uploaders@;
            let mut p = self.uploaders.remove(e);
            set_upload_field(&mut p, f, value);
            self.uploaders.insert(e, p);
            proof {
                assert(profiles_view(self.uploaders@) =~= profiles_view(old_list).update(
                    e as int,
                    with_field(old_list[e as int]@, f, value@),
                ));
            }
        }
        self.cursor = TextCursor { cursor: 0, anchor: 0 };
        proof {
            lemma_start_is_boundary(self.buf@);
        }
    }

    /// Focuses `field` of the shown profile: commits any other field
    /// first, then loads this field's value with the caret at its end.
    pub fn focus_field(&mut self, field: UploadField)
        requires
            old(self).wf(),
        ensures
            final(self).wf(),
            final(self).focus == Some(field),
            final(self).editing == old(self).editing,
            ({
                let committed = if old(self).focus is Some && old(self).editing < old(
                    self,
                ).uploaders@.len() {
                    old(self).profiles().update(
                        old(self).editing as int,
                        with_field(
                            old(self).profiles()[old(self).editing as int],
                            old(self).focus->0,
                            old(self).buf@,
                        ),
                    )
                } else {
                    old(self).profiles()
                };
                &&& final(self).profiles() == committed
                &&& final(self).buf@ == if old(self).editing < old(self).uploaders@.len() {
                    field_text(committed[old(self).editing as int], field)
                } else {
                    Seq::<char>::empty()
                }
            }),
            final(self).cursor.cursor == byte_len(final(self).buf@),
            final(self).cursor.anchor == byte_len(final(self).buf@),
            final(self)@ == spec_focus(old(self)@, field),
    {
        let ghost old_tab_profiles = self.profiles();
        let ghost old_focus = self.focus;
        let ghost old_buf = self.buf@;
        self.commit();
        proof {
            let committed = if old_focus is Some && self.editing < self.uploaders@.len() {
                old_tab_profiles.update(
                    self.editing as int,
                    with_field(old_tab_profiles[self.editing as int], old_focus->0, old_buf),
                )
            } else {
                old_tab_profiles
            };
            assert(self.profiles() == committed);
        }
        let value = if self.editing < self.uploaders.len() {
            assert(self.profiles()[self.editing as int] == self.uploaders@[self.editing as int]@);
            String::from_str(upload_field_value(&self.uploaders[self.editing], field))
        } else {
            String::new()
        };
        self.cursor = TextCursor::at_end(value.as_str());
        self.buf = value;
        self.focus = Some(field);
    }

    /// Leaves the focused field without writing it (Escape).
    pub fn cancel(&mut self)
        requires
            old(self).wf(),
        ensures
            final(self).wf(),
            final(self).focus is None,
            final(self).profiles() == old(self).profiles(),
            final(self).editing == old(self).editing,
            final(self).buf@.len() == 0,
    {
        self.focus = None;
        self.buf = String::new();
        self.cursor = TextCursor { cursor: 0, anchor: 0 };
        proof {
            lemma_start_is_boundary(self.buf@);
        }
    }
}

/// The edit fields in the order of their rows.
pub open spec fn upload_field_at(i: int) -> UploadField {
    if i == 0 {
        UploadField::Name
    } else if i == 1 {
        UploadField::Url
    } else if i == 2 {
        UploadField::FileField
    } else if i == 3 {
        UploadField::TokenField
    } else if i == 4 {
        UploadField::Token
    } else {
        UploadField::ResponseField
    }
}

/// Number of edit fields.
pub const UPLOAD_FIELD_COUNT: usize = 6;

fn upload_field_at_exec(i: usize) -> (r: UploadField)
    ensures
        r == upload_field_at(i as int),
{
    if i == 0 {
        UploadField::Name
    } else if i == 1 {
        UploadField::Url
    } else if i == 2 {
        UploadField::FileField
    } else if i == 3 {
        UploadField::TokenField
    } else if i == 4 {
        UploadField::Token
    } else {
        UploadField::ResponseField
    }
}

/// The hit targets of the first `n` rows: per row its delete button and
/// checkbox (which lie over the row, so they come first), then the row.
pub open spec fn row_buttons(rows: Seq<UploaderRowGeom>, n: nat) -> Seq<(Btn, Rect)>
    decreases n,
{
    if n == 0 {
        Seq::empty()
    } else {
        let g = rows[n - 1];
        row_buttons(rows, (n - 1) as nat) + seq![
            (Btn::DeleteUploader(g.index), g.delete_visible),
            (Btn::ToggleUploaderEnabled(g.index), g.check_visible),
            (Btn::SelectUploader(g.index), g.visible),
        ]
    }
}

/// The edit field rows among the first `n`.
pub open spec fn field_buttons(sw: int, col_w: int, n: nat) -> Seq<(Btn, Rect)>
    decreases n,
{
    if n == 0 {
        Seq::empty()
    } else {
        field_buttons(sw, col_w, (n - 1) as nat).push(
            (
                Btn::UploadField(upload_field_at(n - 1)),
                spec_field(
                    CONTENT_X + col_w,
                    UPLOADER_FIELDS_Y0 + (n - 1) * UPLOADER_FIELD_ROW_H,
                    sat_sub(sw, CONTENT_X + col_w + 20),
                    26,
                ),
            ),
        )
    }
}

/// The Upload tab's hit targets, in hit-test order, for `count`
/// uploaders scrolled by `scroll` in a window `sw` wide whose field labels
/// are `col_w` wide: the visible rows, the add button, and the edit
/// fields when there is a profile to edit.
pub fn buttons_upload(count: usize, scroll: i32, sw: usize, col_w: usize) -> (r: Vec<(Btn, Rect)>)
    requires
        CONTENT_X + col_w + 20 <= usize::MAX,
    ensures
        ({
            let rows = spec_uploader_layout(count as nat, scroll as int, sw as int);
            let head = row_buttons(rows, rows.len()).push(
                (
                    Btn::AddUploader,
                    spec_field(
                        CONTENT_X as int,
                        UPLOADER_ADD_BTN_Y as int,
                        UPLOADER_ADD_BTN_W as int,
                        UPLOADER_ADD_BTN_H as int,
                    ),
                ),
            );
            r@ == if count > 0 {
                head + field_buttons(sw as int, col_w as int, UPLOAD_FIELD_COUNT as nat)
            } else {
                head
            }
        }),
{
    let rows = uploader_layout(count, scroll, sw);
    let mut v: Vec<(Btn, Rect)> = Vec::new();
    let mut i: usize = 0;
    while i < rows.len()
        invariant
            i <= rows@.len(),
            v@ == row_buttons(rows@, i as nat),
        decreases rows.len() - i,
    {
        let g = rows[i];
        v.push((Btn::DeleteUploader(g.index), g.delete_visible));
        v.push((Btn::ToggleUploaderEnabled(g.index), g.check_visible));
        v.push((Btn::SelectUploader(g.index), g.visible));
        i = i + 1;
        assert(v@ =~= row_buttons(rows@, i as nat));
    }
    v.push(
        (Btn::AddUploader, field(CONTENT_X, UPLOADER_ADD_BTN_Y, UPLOADER_ADD_BTN_W, UPLOADER_ADD_BTN_H)),
    );
    if count > 0 {
        let ghost head = v@;
        let mut k: usize = 0;
        while k < UPLOAD_FIELD_COUNT
            invariant
                CONTENT_X + col_w + 20 <= usize::MAX,
                k <= UPLOAD_FIELD_COUNT,
                v@ == head + field_buttons(sw as int, col_w as int, k as nat),
            decreases UPLOAD_FIELD_COUNT - k,
        {
            let rect = upload_field_row_rect(k, sw, col_w);
            v.push((Btn::UploadField(upload_field_at_exec(k)), rect));
            k = k + 1;
            assert(v@ =~= head + field_buttons(sw as int, col_w as int, k as nat));
        }
    }
    v
}

impl UploadTab {
    /// Acts on a click of `btn`: selects, deletes or toggles a profile,
    /// adds one, or focuses an edit field; other buttons are not this
    /// tab's.
    pub fn activate(&mut self, btn: Btn)
        requires
            old(self).wf(),
            old(self).uploaders@.len() < usize::MAX,
        ensures
            final(self).wf(),
            final(self)@ == spec_activate(old(self)@, btn),
    {
        match btn {
            Btn::SelectUploader(i) => self.select(i),
            Btn::DeleteUploader(i) => self.delete(i),
            Btn::ToggleUploaderEnabled(i) => self.toggle_enabled(i),
            Btn::AddUploader => self.add(),
            Btn::UploadField(f) => self.focus_field(f),
            _ => {},
        }
    }
}


/// What a field shows of its text `shown`: the text itself, or for the
/// secret Token field one `*` per character.
pub open spec fn spec_masked(shown: Seq<char>, secret: bool) -> Seq<char> {
    if secret {
        Seq::new(shown.len(), |i: int| '*')
    } else {
        shown
    }
}

/// The text an upload field draws for `shown` (masked when `secret`).
pub fn masked_display(shown: &str, secret: bool) -> (r: String)
    ensures
        r@ == spec_masked(shown@, secret),
{
    if !secret {
        return String::from_str(shown);
    }
    let n = shown.unicode_len();
    let mut v: Vec<char> = Vec::new();
    let mut i: usize = 0;
    while i < n
        invariant
            n == shown@.len(),
            i <= n,
            v@ == Seq::new(i as nat, |k: int| '*'),
        decreases n - i,
    {
        v.push('*');
        i = i + 1;
        assert(v@ =~= Seq::new(i as nat, |k: int| '*'));
    }
    string_from_chars(v.as_slice())
}

/// Where byte offset `idx` of the text `shown` falls in what the field
/// draws: for the masked Token field the number of characters before it,
/// otherwise `idx` itself. For the Token field `idx` must lie on a
/// character boundary.
pub fn display_index(shown: &str, secret: bool, idx: usize) -> (r: usize)
    requires
        secret ==> is_boundary(shown@, idx as int),
    ensures
        r == if secret {
            char_index(shown@, idx as int)
        } else {
            idx as int
        },
{
    if secret {
        let v = to_chars(shown);
        find_char_index(&v, idx)
    } else {
        idx
    }
}

} // verus!
