//! General tab: the filename template field and the update status line.

use vstd::prelude::*;
use vstd::string::StringExecFns;
use crate::settings::{CONTENT_X, field, sat_sub, spec_field};
use crate::text::{string_from_chars, to_chars, trim_chars, trimmed};
use crate::textfield::{TextCursor, byte_len, lemma_start_is_boundary};
use crate::ui::Rect;
use crate::update::ReleaseInfo;

verus! {

pub const FILENAME_FORMAT_ROW_Y: usize = 88;
pub const FILENAME_FORMAT_ROW_H: usize = 26;
/// Width of the "Filename format:" label column.
pub const FILENAME_FORMAT_LABEL_W: usize = 140;

/// The filename template field: right of its label, reaching to 20 px
/// short of the window's right edge.
pub fn filename_format_row_layout(sw: usize) -> (r: Rect)
    ensures
        r == spec_field(
            CONTENT_X + FILENAME_FORMAT_LABEL_W,
            FILENAME_FORMAT_ROW_Y as int,
            sat_sub(sw as int, CONTENT_X + FILENAME_FORMAT_LABEL_W + 20),
            FILENAME_FORMAT_ROW_H as int,
        ),
{
    let x0 = CONTENT_X + FILENAME_FORMAT_LABEL_W;
    let w = sw.saturating_sub(x0 + 20);
    field(x0, FILENAME_FORMAT_ROW_Y, w, FILENAME_FORMAT_ROW_H)
}

/// Outcome of the last manual update check made in this session.
#[derive(Clone, Copy, PartialEq, Eq, Debug, Structural)]
pub enum UpdateCheckStatus {
    UpToDate,
    Failed,
}

/// The status line under the update button, given the newer version
/// known (if any), the last check's outcome, whether an update is being
/// downloaded, and the last install error: the error first, then the
/// download, then the newer version, then the check outcome; nothing
/// before any check.
pub open spec fn spec_update_status_text(
    available: Option<Seq<char>>,
    status: Option<UpdateCheckStatus>,
    updating: bool,
    install_error: Option<Seq<char>>,
) -> Option<Seq<char>> {
    match install_error {
        Some(msg) => Some("Update failed: "@ + msg),
        None => if updating {
            Some("Downloading update..."@)
        } else {
            match available {
                Some(v) => Some("A new version is available: v"@ + v),
                None => match status {
                    Some(UpdateCheckStatus::UpToDate) => Some("You're up to date."@),
                    Some(UpdateCheckStatus::Failed) => Some(
                        "Update check failed. Try again later."@,
                    ),
                    None => None,
                },
            }
        },
    }
}

/// The status row's message, if there is anything to show yet.
pub fn update_status_text(
    update_available: Option<&ReleaseInfo>,
    status: Option<UpdateCheckStatus>,
    updating: bool,
    install_error: Option<&str>,
) -> (r: Option<String>)
    ensures
        ({
            let available = match update_available {
                Some(info) => Some(info.version@),
                None => None,
            };
            let err = match install_error {
                Some(m) => Some(m@),
                None => None,
            };
            match r {
                Some(s) => spec_update_status_text(available, status, updating, err) == Some(s@),
                None => spec_update_status_text(available, status, updating, err) is None,
            }
        }),
{
    if let Some(msg) = install_error {
        let mut s = String::from_str("Update failed: ");
        s.append(msg);
        Some(s)
    } else if updating {
        Some(String::from_str("Downloading update..."))
    } else if let Some(info) = update_available {
        let mut s = String::from_str("A new version is available: v");
        s.append(info.version.as_str());
        Some(s)
    } else {
        match status {
            Some(UpdateCheckStatus::UpToDate) => Some(String::from_str("You're up to date.")),
            Some(UpdateCheckStatus::Failed) => Some(
                String::from_str("Update check failed. Try again later."),
            ),
            None => None,
        }
    }
}

/// The value a commit of the field's text `buf` leaves: `buf` trimmed, or
/// `current` when nothing but whitespace is left.
pub open spec fn spec_commit_value(buf: Seq<char>, current: Seq<char>) -> Seq<char> {
    if trimmed(buf).len() == 0 {
        current
    } else {
        trimmed(buf)
    }
}

/// Commits the field's text: trimmed, or `current` if it is blank.
pub fn commit_filename_format_value(buf: &str, current: &str) -> (r: String)
    ensures
        r@ == spec_commit_value(buf@, current@),
{
    let t = trim_chars(to_chars(buf).as_slice());
    if t.len() == 0 {
        String::from_str(current)
    } else {
        string_from_chars(t.as_slice())
    }
}

/// The filename template setting with its in-place editor: while focused,
/// edits go to `buf` and only a commit replaces `value`.
pub struct FilenameFormatField {
    pub value: String,
    pub focus: bool,
    pub buf: String,
    pub cursor: TextCursor,
}

impl FilenameFormatField {
    /// The caret lies inside the edit buffer.
    pub open spec fn wf(&self) -> bool {
        self.cursor.wf(self.buf@)
    }

    /// An unfocused field holding `value`.
    pub fn new(value: String) -> (r: Self)
        ensures
            r.value@ == value@,
            !r.focus,
            r.buf@.len() == 0,
            r.wf(),
    {
        proof {
            lemma_start_is_boundary(Seq::<char>::empty());
        }
        FilenameFormatField {
            value,
            focus: false,
            buf: String::new(),
            cursor: TextCursor { cursor: 0, anchor: 0 },
        }
    }

    /// Focuses the field: the buffer starts as the current value with the
    /// caret at its end.
    pub fn focus(&mut self)
        ensures
            final(self).focus,
            final(self).value@ == old(self).value@,
            final(self).buf@ == old(self).value@,
            final(self).cursor.cursor == byte_len(old(self).value@),
            final(self).cursor.anchor == byte_len(old(self).value@),
            final(self).wf(),
    {
        self.buf = self.value.clone();
        self.cursor = TextCursor::at_end(self.buf.as_str());
        self.focus = true;
    }

    /// Commits the buffer (see `commit_filename_format_value`) and leaves
    /// the field; does nothing when it is not focused.
    pub fn commit(&mut self)
        ensures
            !old(self).focus ==> final(self).value@ == old(self).value@ && final(self).buf@
                == old(self).buf@ && final(self).cursor == old(self).cursor && !final(self).focus,
            old(self).focus ==> final(self).value@ == spec_commit_value(
                old(self).buf@,
                old(self).value@,
            ) && final(self).buf@.len() == 0 && !final(self).focus && final(self).cursor.cursor
                == 0 && final(self).cursor.anchor == 0,
            old(self).wf() ==> final(self).wf(),
    {
        if !self.focus {
            return;
        }
        self.focus = false;
        self.value = commit_filename_format_value(self.buf.as_str(), self.value.as_str());
        self.buf = String::new();
        self.cursor = TextCursor { cursor: 0, anchor: 0 };
        proof {
            lemma_start_is_boundary(self.buf@);
        }
    }

    /// Leaves the field without changing the value (Escape).
    pub fn cancel(&mut self)
        ensures
            final(self).value@ == old(self).value@,
            !final(self).focus,
            final(self).buf@.len() == 0,
            final(self).cursor.cursor == 0,
            final(self).cursor.anchor == 0,
            final(self).wf(),
    {
        self.focus = false;
        self.buf = String::new();
        self.cursor = TextCursor { cursor: 0, anchor: 0 };
        proof {
            lemma_start_is_boundary(self.buf@);
        }
    }
}

} // verus!
