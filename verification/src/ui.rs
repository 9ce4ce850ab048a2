//! Geometry shared by the overlay and the settings window.

use vstd::prelude::*;
use vstd::string::StringExecFns;
use crate::text::{string_from_chars, to_chars, trim_chars, trimmed};

verus! {

/// A pixel rectangle `[x0, x1) x [y0, y1)`.
#[derive(Clone, Copy, PartialEq, Eq, Debug, Structural)]
pub struct Rect {
    pub x0: usize,
    pub y0: usize,
    pub x1: usize,
    pub y1: usize,
}

/// What a toast notification reports.
#[derive(Clone, Debug)]
pub enum ToastKind {
    /// Text recognized from the selection (already on the clipboard).
    Ocr(String),
    /// A full-screen screenshot was saved.
    FullScreenshot,
}


/// `s` with every carriage return and line feed turned into a space.
pub open spec fn breaks_to_spaces(s: Seq<char>) -> Seq<char> {
    s.map_values(|c: char| if c == '\r' || c == '\n' { ' ' } else { c })
}

/// The message an OCR toast shows for the recognized text `raw`: the text
/// on one line (line breaks become spaces), trimmed; a fixed notice when
/// nothing is left.
pub open spec fn spec_toast_message(raw: Seq<char>) -> Seq<char> {
    let t = trimmed(breaks_to_spaces(raw));
    if t.len() == 0 {
        "テキストは検出されませんでした"@
    } else {
        t
    }
}

/// The message of an OCR toast for the recognized text `raw`.
pub fn toast_message(raw: &str) -> (r: String)
    ensures
        r@ == spec_toast_message(raw@),
{
    let v = to_chars(raw);
    let mut line: Vec<char> = Vec::new();
    let mut i: usize = 0;
    while i < v.len()
        invariant
            v@ == raw@,
            i <= v@.len(),
            line@ == breaks_to_spaces(raw@.take(i as int)),
        decreases v@.len() - i,
    {
        let c = v[i];
        line.push(
            if c == '\r' || c == '\n' {
                ' '
            } else {
                c
            },
        );
        i = i + 1;
        assert(line@ =~= breaks_to_spaces(raw@.take(i as int)));
    }
    assert(raw@.take(v@.len() as int) =~= raw@);
    let t = trim_chars(line.as_slice());
    if t.len() == 0 {
        String::from_str("テキストは検出されませんでした")
    } else {
        string_from_chars(t.as_slice())
    }
}

} // verus!
