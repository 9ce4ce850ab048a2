//! Editor tab: how many editor sessions the Recent tab keeps, a number
//! field with a stepper on each side.

use vstd::prelude::*;
use crate::geometry::clamp;
use crate::settings::{Btn, CONTENT_X, field, spec_field};
use crate::text::{decimal, decimal_chars, parse_uint, parse_uint_exec, string_from_chars, to_chars, trim_chars, trimmed};
use crate::textfield::{TextCursor, byte_len, lemma_start_is_boundary};
use crate::ui::Rect;

verus! {

pub const SESSION_LIMIT_ROW_Y: usize = 178;
pub const SESSION_LIMIT_STEP_W: usize = 22;
pub const SESSION_LIMIT_FIELD_W: usize = 48;
pub const SESSION_LIMIT_FIELD_H: usize = 26;
/// Gap between the row's label and its controls.
pub const SESSION_LIMIT_LABEL_GAP: usize = 12;
/// Label column width (label and gap) used before text can be measured.
pub const SESSION_LIMIT_LABEL_W_FALLBACK: usize = 230;
/// Smallest and largest number of sessions kept.
pub const SESSION_LIMIT_MIN: usize = 1;
pub const SESSION_LIMIT_MAX: usize = 999;

/// The (minus button, value field, plus button) rectangles of the row,
/// whose label column is `label_w` wide (the measured label plus
/// `SESSION_LIMIT_LABEL_GAP`, or `SESSION_LIMIT_LABEL_W_FALLBACK`).
pub fn session_limit_row_layout(label_w: usize) -> (r: (Rect, Rect, Rect))
    requires
        CONTENT_X + label_w + 2 * SESSION_LIMIT_STEP_W + SESSION_LIMIT_FIELD_W <= usize::MAX,
    ensures
        ({
            let x0 = CONTENT_X + label_w;
            let y = SESSION_LIMIT_ROW_Y as int;
            let h = SESSION_LIMIT_FIELD_H as int;
            &&& r.0 == spec_field(x0, y, SESSION_LIMIT_STEP_W as int, h)
            &&& r.1 == spec_field(x0 + SESSION_LIMIT_STEP_W, y, SESSION_LIMIT_FIELD_W as int, h)
            &&& r.2 == spec_field(
                x0 + SESSION_LIMIT_STEP_W + SESSION_LIMIT_FIELD_W,
                y,
                SESSION_LIMIT_STEP_W as int,
                h,
            )
        }),
{
    let x0 = CONTENT_X + label_w;
    let minus = field(x0, SESSION_LIMIT_ROW_Y, SESSION_LIMIT_STEP_W, SESSION_LIMIT_FIELD_H);
    let fld = field(
        x0 + SESSION_LIMIT_STEP_W,
        SESSION_LIMIT_ROW_Y,
        SESSION_LIMIT_FIELD_W,
        SESSION_LIMIT_FIELD_H,
    );
    let plus = field(
        x0 + SESSION_LIMIT_STEP_W + SESSION_LIMIT_FIELD_W,
        SESSION_LIMIT_ROW_Y,
        SESSION_LIMIT_STEP_W,
        SESSION_LIMIT_FIELD_H,
    );
    (minus, fld, plus)
}

/// What committing the field's text `buf` makes of the limit `current`:
/// the trimmed text read as a `usize` and clamped to `1..=999`, or
/// `current` when it is not a number.
pub open spec fn spec_parse_session_limit(buf: Seq<char>, current: int) -> int {
    match parse_uint(trimmed(buf), usize::MAX as int) {
        Some(v) => clamp(v, SESSION_LIMIT_MIN as int, SESSION_LIMIT_MAX as int),
        None => current,
    }
}

/// Parses and clamps the field's text; `current` if it is empty or not a
/// number.
pub fn parse_session_limit(buf: &str, current: usize) -> (r: usize)
    ensures
        r == spec_parse_session_limit(buf@, current as int),
{
    let t = trim_chars(to_chars(buf).as_slice());
    match parse_uint_exec(t.as_slice(), usize::MAX as u64) {
        Some(v) => {
            if v < SESSION_LIMIT_MIN as u64 {
                SESSION_LIMIT_MIN
            } else if v > SESSION_LIMIT_MAX as u64 {
                SESSION_LIMIT_MAX
            } else {
                v as usize
            }
        },
        None => current,
    }
}

/// The limit after one step of the stepper from `limit` (read as an
/// `i64`, as it is stored wider than that only when corrupt), clamped to
/// `1..=999`.
pub open spec fn spec_stepped(limit: usize, up: bool) -> int {
    clamp((limit as i64) + if up { 1int } else { -1int }, 1, 999)
}

/// The session limit setting with its in-place editor.
pub struct SessionLimitField {
    pub limit: usize,
    pub focus: bool,
    pub buf: String,
    pub cursor: TextCursor,
}

impl SessionLimitField {
    /// The caret lies inside the edit buffer.
    pub open spec fn wf(&self) -> bool {
        self.cursor.wf(self.buf@)
    }

    /// An unfocused field holding `limit`.
    pub fn new(limit: usize) -> (r: Self)
        ensures
            r.limit == limit,
            !r.focus,
            r.buf@.len() == 0,
            r.wf(),
    {
        proof {
            lemma_start_is_boundary(Seq::<char>::empty());
        }
        SessionLimitField {
            limit,
            focus: false,
            buf: String::new(),
            cursor: TextCursor { cursor: 0, anchor: 0 },
        }
    }

    /// Focuses the field: the buffer starts as the limit in decimal, the
    /// caret at its end.
    pub fn focus(&mut self)
        ensures
            final(self).focus,
            final(self).limit == old(self).limit,
            final(self).buf@ == decimal(old(self).limit as nat),
            final(self).cursor.cursor == byte_len(final(self).buf@),
            final(self).cursor.anchor == byte_len(final(self).buf@),
            final(self).wf(),
    {
        let d = decimal_chars(self.limit as u64);
        self.buf = string_from_chars(d.as_slice());
        self.cursor = TextCursor::at_end(self.buf.as_str());
        self.focus = true;
    }

    /// Commits the buffer (see `parse_session_limit`) and leaves the field;
    /// does nothing when it is not focused.
    pub fn commit(&mut self)
        ensures
            !old(self).focus ==> final(self).limit == old(self).limit && final(self).buf@
                == old(self).buf@ && final(self).cursor == old(self).cursor && !final(self).focus,
            old(self).focus ==> final(self).limit == spec_parse_session_limit(
                old(self).buf@,
                old(self).limit as int,
            ) && final(self).buf@.len() == 0 && !final(self).focus && final(self).cursor.cursor
                == 0 && final(self).cursor.anchor == 0,
            old(self).wf() ==> final(self).wf(),
    {
        if !self.focus {
            return;
        }
        self.focus = false;
        self.limit = parse_session_limit(self.buf.as_str(), self.limit);
        self.buf = String::new();
        self.cursor = TextCursor { cursor: 0, anchor: 0 };
        proof {
            lemma_start_is_boundary(self.buf@);
        }
    }

    /// Leaves the field without changing the limit (Escape).
    pub fn cancel(&mut self)
        ensures
            final(self).limit == old(self).limit,
            !final(self).focus,
            final(self).buf@.len() == 0,
            final(self).wf(),
    {
        self.focus = false;
        self.buf = String::new();
        self.cursor = TextCursor { cursor: 0, anchor: 0 };
        proof {
            lemma_start_is_boundary(self.buf@);
        }
    }

    /// Acts on a click of `btn`: the value field focuses, a stepper button
    /// steps; other buttons (the browse button opens a file dialog) are
    /// not this field's.
    pub fn activate(&mut self, btn: Btn)
        ensures
            btn == Btn::SessionLimitField ==> final(self).focus && final(self).limit == old(
                self,
            ).limit && final(self).buf@ == decimal(old(self).limit as nat)
                && final(self).cursor.cursor == byte_len(final(self).buf@)
                && final(self).cursor.anchor == final(self).cursor.cursor,
            btn matches Btn::SessionLimitStep(up) ==> !final(self).focus && final(self).limit
                == spec_stepped(
                if old(self).focus {
                    spec_parse_session_limit(old(self).buf@, old(self).limit as int) as usize
                } else {
                    old(self).limit
                },
                up,
            ),
            btn != Btn::SessionLimitField && !(btn is SessionLimitStep) ==> final(self).limit == old(
                self,
            ).limit && final(self).focus == old(self).focus && final(self).buf@ == old(self).buf@
                && final(self).cursor == old(self).cursor,
            old(self).wf() ==> final(self).wf(),
    {
        match btn {
            Btn::SessionLimitField => self.focus(),
            Btn::SessionLimitStep(up) => self.step(up),
            _ => {},
        }
    }

    /// One step of the stepper (`up` for plus): commits any typed value
    /// first, then moves the limit by one within `1..=999`.
    pub fn step(&mut self, up: bool)
        ensures
            !final(self).focus,
            ({
                let base = if old(self).focus {
                    spec_parse_session_limit(old(self).buf@, old(self).limit as int) as usize
                } else {
                    old(self).limit
                };
                final(self).limit == spec_stepped(base, up)
            }),
            SESSION_LIMIT_MIN <= final(self).limit <= SESSION_LIMIT_MAX,
            old(self).wf() ==> final(self).wf(),
    {
        self.commit();
        let v = self.limit as i64;
        let w: i128 = if up {
            v as i128 + 1
        } else {
            v as i128 - 1
        };
        self.limit = if w < 1 {
            1
        } else if w > 999 {
            999
        } else {
            w as usize
        };
    }
}

/// Position and size of the "Browse..." button for the external editor.
pub const BROWSE_EDITOR_Y: usize = 80;
pub const BROWSE_EDITOR_W: usize = 100;
pub const BROWSE_EDITOR_H: usize = 30;

/// The Editor tab's hit targets: the browse button, then the stepper's
/// minus button, value field and plus button (label column `label_w`).
pub fn buttons_editor(label_w: usize) -> (r: Vec<(Btn, Rect)>)
    requires
        CONTENT_X + label_w + 2 * SESSION_LIMIT_STEP_W + SESSION_LIMIT_FIELD_W <= usize::MAX,
    ensures
        ({
            let x0 = CONTENT_X + label_w;
            let y = SESSION_LIMIT_ROW_Y as int;
            let h = SESSION_LIMIT_FIELD_H as int;
            r@ == seq![
                (
                    Btn::BrowseEditor,
                    spec_field(
                        CONTENT_X as int,
                        BROWSE_EDITOR_Y as int,
                        BROWSE_EDITOR_W as int,
                        BROWSE_EDITOR_H as int,
                    ),
                ),
                (Btn::SessionLimitStep(false), spec_field(x0, y, SESSION_LIMIT_STEP_W as int, h)),
                (
                    Btn::SessionLimitField,
                    spec_field(x0 + SESSION_LIMIT_STEP_W, y, SESSION_LIMIT_FIELD_W as int, h),
                ),
                (
                    Btn::SessionLimitStep(true),
                    spec_field(
                        x0 + SESSION_LIMIT_STEP_W + SESSION_LIMIT_FIELD_W,
                        y,
                        SESSION_LIMIT_STEP_W as int,
                        h,
                    ),
                ),
            ]
        }),
{
    let mut v: Vec<(Btn, Rect)> = Vec::new();
    v.push((Btn::BrowseEditor, field(CONTENT_X, BROWSE_EDITOR_Y, BROWSE_EDITOR_W, BROWSE_EDITOR_H)));
    let (minus, fld, plus) = session_limit_row_layout(label_w);
    v.push((Btn::SessionLimitStep(false), minus));
    v.push((Btn::SessionLimitField, fld));
    v.push((Btn::SessionLimitStep(true), plus));
    v
}

} // verus!
