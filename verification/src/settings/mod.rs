//! The settings window's logic: row layouts, list scrolling, and the
//! state kept by its editable fields. Drawing and input dispatch are the
//! window's own; they call into these.

use vstd::prelude::*;
use crate::settings::upload_tab::UploadField;
use crate::ui::Rect;

pub mod general;
pub mod editor_tab;
pub mod upload_tab;
pub mod recent;

verus! {

/// Left edge of the content area (right of the tab sidebar).
pub const CONTENT_X: usize = 180;
/// Initial width of the settings window.
pub const WIN_W: usize = 760;

/// `a - b`, or 0 when `b > a` (`usize::saturating_sub`).
pub open spec fn sat_sub(a: int, b: int) -> int {
    if a >= b {
        a - b
    } else {
        0
    }
}

/// The rectangle at `(x, y)` of size `w` by `h`.
pub open spec fn spec_field(x: int, y: int, w: int, h: int) -> Rect {
    Rect { x0: x as usize, y0: y as usize, x1: (x + w) as usize, y1: (y + h) as usize }
}

/// The rectangle at `(x, y)` of size `w` by `h`.
pub fn field(x: usize, y: usize, w: usize, h: usize) -> (r: Rect)
    requires
        x + w <= usize::MAX,
        y + h <= usize::MAX,
    ensures
        r == spec_field(x as int, y as int, w as int, h as int),
{
    Rect { x0: x, y0: y, x1: x + w, y1: y + h }
}

/// The clickable elements of the settings tabs.
#[derive(Clone, Copy, PartialEq, Eq, Debug, Structural)]
pub enum Btn {
    FilenameFormatField,
    CheckForUpdates,
    DownloadUpdate,
    LaunchAtStartup,
    BrowseEditor,
    /// The session limit stepper's plus (`true`) or minus button.
    SessionLimitStep(bool),
    SessionLimitField,
    SelectUploader(usize),
    DeleteUploader(usize),
    ToggleUploaderEnabled(usize),
    AddUploader,
    UploadField(UploadField),
    OpenSession(usize),
    DeleteSession(usize),
}

} // verus!
