//! Toolbar button icons: decoded once from image files (the format is
//! detected from the bytes) into packed pixels, one icon per button.

use vstd::prelude::*;

verus! {

/// The editor's drawing tools.
#[derive(Clone, Copy, PartialEq, Eq, Debug, Structural)]
pub enum Tool {
    Select,
    Arrow,
    Polyline,
    Draw,
    Rect,
    Ellipse,
    Text,
    NumberMarker,
    Guide,
    Mosaic,
}

/// The editor's toolbar buttons.
#[derive(Clone, Copy, PartialEq, Eq, Debug, Structural)]
pub enum EditorBtn {
    Tool(Tool),
    Pin,
    Save,
    Copy,
}

/// A decoded icon: `w * h` pixels, row by row, each `0xAARRGGBB`.
pub struct Icon {
    pub w: usize,
    pub h: usize,
    pub pixels: Vec<u32>,
}

/// What the `image` crate decodes `bytes` to, as 8-bit RGBA: width,
/// height and the pixel bytes; `None` when it cannot decode them.
pub uninterp spec fn decoded_rgba8(bytes: Seq<u8>) -> Option<(u32, u32, Seq<u8>)>;

/// `image::load_from_memory` followed by `to_rgba8`: the format is guessed
/// from the bytes and the image converted to 8-bit RGBA. The contract
/// names the result (what a given file decodes to is the crate's) and
/// says that the RGBA buffer holds exactly four bytes per pixel.
#[verifier::external_body]
fn decode_rgba8(bytes: &[u8]) -> (r: Option<(u32, u32, Vec<u8>)>)
    ensures
        match r {
            Some((w, h, px)) => decoded_rgba8(bytes@) == Some((w, h, px@)),
            None => decoded_rgba8(bytes@) is None,
        },
        r matches Some((w, h, px)) ==> px@.len() == w * h * 4,
{
    match image::load_from_memory(bytes) {
        Ok(img) => {
            let rgba = img.to_rgba8();
            Some((rgba.width(), rgba.height(), rgba.into_raw()))
        },
        Err(_) => None,
    }
}

/// The pixel `0xAARRGGBB` of the RGBA bytes `r, g, b, a`.
pub open spec fn packed(r: u8, g: u8, b: u8, a: u8) -> u32 {
    (a * 0x100_0000 + r * 0x1_0000 + g * 0x100 + b) as u32
}

/// The packed pixels of the first `n` pixels of RGBA bytes `px`.
pub open spec fn packed_upto(px: Seq<u8>, n: nat) -> Seq<u32>
    decreases n,
{
    if n == 0 {
        Seq::empty()
    } else {
        packed_upto(px, (n - 1) as nat).push(
            packed(
                px[4 * (n - 1)],
                px[4 * (n - 1) + 1],
                px[4 * (n - 1) + 2],
                px[4 * (n - 1) + 3],
            ),
        )
    }
}

/// The icon made of `w` by `h` RGBA pixels `px`, when `px` holds exactly
/// that many.
pub open spec fn spec_from_rgba(w: int, h: int, px: Seq<u8>) -> Option<(usize, usize, Seq<u32>)> {
    if px.len() == w * h * 4 {
        Some((w as usize, h as usize, packed_upto(px, (w * h) as nat)))
    } else {
        None
    }
}

/// What an icon file `bytes` decodes to.
pub open spec fn spec_decode(bytes: Seq<u8>) -> Option<(usize, usize, Seq<u32>)> {
    match decoded_rgba8(bytes) {
        Some((w, h, px)) => spec_from_rgba(w as int, h as int, px),
        None => None,
    }
}

impl Icon {
    /// Packs `w` by `h` RGBA pixels into an icon; `None` unless `px`
    /// holds exactly `w * h * 4` bytes.
    pub fn from_rgba(w: u32, h: u32, px: &[u8]) -> (r: Option<Icon>)
        ensures
            match r {
                Some(i) => spec_from_rgba(w as int, h as int, px@) == Some(
                    (i.w, i.h, i.pixels@),
                ),
                None => spec_from_rgba(w as int, h as int, px@) is None,
            },
    {
        let n = px.len();
        assert((w as int) * (h as int) <= 0xFFFF_FFFF * 0xFFFF_FFFF) by (nonlinear_arith)
            requires
                w <= 0xFFFF_FFFF,
                h <= 0xFFFF_FFFF,
        ;
        let count = (w as u64) * (h as u64);
        if count > (n / 4) as u64 || count * 4 != n as u64 {
            return None;
        }
        let count = count as usize;
        let mut pixels: Vec<u32> = Vec::new();
        let mut i: usize = 0;
        while i < count
            invariant
                n == px@.len(),
                count * 4 == n,
                i <= count,
                pixels@ == packed_upto(px@, i as nat),
            decreases count - i,
        {
            let r = px[4 * i] as u32;
            let g = px[4 * i + 1] as u32;
            let b = px[4 * i + 2] as u32;
            let a = px[4 * i + 3] as u32;
            pixels.push(a * 0x100_0000 + r * 0x1_0000 + g * 0x100 + b);
            i = i + 1;
        }
        Some(Icon { w: w as usize, h: h as usize, pixels })
    }

    /// Decodes an icon file (PNG, or any format the `image` crate
    /// detects); `None` when it cannot be decoded.
    pub fn decode(bytes: &[u8]) -> (r: Option<Icon>)
        ensures
            match r {
                Some(i) => spec_decode(bytes@) == Some((i.w, i.h, i.pixels@)),
                None => spec_decode(bytes@) is None,
            },
            r is Some <==> decoded_rgba8(bytes@) is Some,
    {
        match decode_rgba8(bytes) {
            Some((w, h, px)) => Icon::from_rgba(w, h, px.as_slice()),
            None => None,
        }
    }
}

/// One icon per toolbar button.
pub struct IconSet {
    pub select: Icon,
    pub arrow: Icon,
    pub polyline: Icon,
    pub freehand: Icon,
    pub rect: Icon,
    pub ellipse: Icon,
    pub text: Icon,
    pub number_marker: Icon,
    pub guide: Icon,
    pub mosaic: Icon,
    pub pin: Icon,
    pub save: Icon,
    pub copy: Icon,
}

/// The buttons in the order `IconSet::load` takes their files.
pub open spec fn button_at(i: int) -> EditorBtn {
    if i == 0 {
        EditorBtn::Tool(Tool::Select)
    } else if i == 1 {
        EditorBtn::Tool(Tool::Arrow)
    } else if i == 2 {
        EditorBtn::Tool(Tool::Polyline)
    } else if i == 3 {
        EditorBtn::Tool(Tool::Draw)
    } else if i == 4 {
        EditorBtn::Tool(Tool::Rect)
    } else if i == 5 {
        EditorBtn::Tool(Tool::Ellipse)
    } else if i == 6 {
        EditorBtn::Tool(Tool::Text)
    } else if i == 7 {
        EditorBtn::Tool(Tool::NumberMarker)
    } else if i == 8 {
        EditorBtn::Tool(Tool::Guide)
    } else if i == 9 {
        EditorBtn::Tool(Tool::Mosaic)
    } else if i == 10 {
        EditorBtn::Pin
    } else if i == 11 {
        EditorBtn::Save
    } else {
        EditorBtn::Copy
    }
}

/// Number of toolbar buttons with an icon.
pub const ICON_COUNT: usize = 13;

impl IconSet {
    /// The icon of `btn`.
    pub open spec fn icon_of(&self, btn: EditorBtn) -> &Icon {
        match btn {
            EditorBtn::Tool(Tool::Select) => &self.select,
            EditorBtn::Tool(Tool::Arrow) => &self.arrow,
            EditorBtn::Tool(Tool::Polyline) => &self.polyline,
            EditorBtn::Tool(Tool::Draw) => &self.freehand,
            EditorBtn::Tool(Tool::Rect) => &self.rect,
            EditorBtn::Tool(Tool::Ellipse) => &self.ellipse,
            EditorBtn::Tool(Tool::Text) => &self.text,
            EditorBtn::Tool(Tool::NumberMarker) => &self.number_marker,
            EditorBtn::Tool(Tool::Guide) => &self.guide,
            EditorBtn::Tool(Tool::Mosaic) => &self.mosaic,
            EditorBtn::Pin => &self.pin,
            EditorBtn::Save => &self.save,
            EditorBtn::Copy => &self.copy,
        }
    }

    /// Decodes the icon files `files`, one per button in the order of
    /// `button_at` (select, arrow, polyline, draw, rect, ellipse, text,
    /// number marker, guide, mosaic, pin, save, copy); `None` unless there
    /// are exactly `ICON_COUNT` files and each decodes.
    pub fn load(files: &[&[u8]]) -> (r: Option<IconSet>)
        ensures
            r is Some <==> files@.len() == ICON_COUNT && forall|i: int|
                0 <= i < ICON_COUNT ==> (#[trigger] spec_decode(files@[i]@)) is Some,
            r matches Some(set) ==> forall|i: int|
                0 <= i < ICON_COUNT ==> spec_decode(#[trigger] files@[i]@) == Some(
                    (
                        set.icon_of(button_at(i)).w,
                        set.icon_of(button_at(i)).h,
                        set.icon_of(button_at(i)).pixels@,
                    ),
                ),
    {
        if files.len() != ICON_COUNT {
            return None;
        }
        let mut icons: Vec<Icon> = Vec::new();
        let mut i: usize = 0;
        while i < ICON_COUNT
            invariant
                files@.len() == ICON_COUNT,
                i <= ICON_COUNT,
                icons@.len() == i,
                forall|k: int| 0 <= k < i ==> (#[trigger] spec_decode(files@[k]@)) is Some,
                forall|k: int|
                    0 <= k < i ==> spec_decode(files@[k]@) == Some(
                        (icons@[k].w, icons@[k].h, icons@[k].pixels@),
                    ),
            decreases ICON_COUNT - i,
        {
            match Icon::decode(files[i]) {
                Some(icon) => icons.push(icon),
                None => {
                    return None;
                },
            }
            i = i + 1;
        }
        let ghost all = icons@;
        let copy = icons.pop().unwrap();
        let save = icons.pop().unwrap();
        let pin = icons.pop().unwrap();
        let mosaic = icons.pop().unwrap();
        let guide = icons.pop().unwrap();
        let number_marker = icons.pop().unwrap();
        let text = icons.pop().unwrap();
        let ellipse = icons.pop().unwrap();
        let rect = icons.pop().unwrap();
        let freehand = icons.pop().unwrap();
        let polyline = icons.pop().unwrap();
        let arrow = icons.pop().unwrap();
        let select = icons.pop().unwrap();
        let set = IconSet {
            select,
            arrow,
            polyline,
            freehand,
            rect,
            ellipse,
            text,
            number_marker,
            guide,
            mosaic,
            pin,
            save,
            copy,
        };
        assert forall|k: int| 0 <= k < ICON_COUNT implies spec_decode(#[trigger] files@[k]@) == Some(
            (
                set.icon_of(button_at(k)).w,
                set.icon_of(button_at(k)).h,
                set.icon_of(button_at(k)).pixels@,
            ),
        ) by {
            assert(set.icon_of(button_at(k)) == all[k]);
        }
        Some(set)
    }

    /// The icon of toolbar button `btn`.
    pub fn get(&self, btn: EditorBtn) -> (r: &Icon)
        ensures
            r == self.icon_of(btn),
    {
        match btn {
            EditorBtn::Tool(Tool::Select) => &self.select,
            EditorBtn::Tool(Tool::Arrow) => &self.arrow,
            EditorBtn::Tool(Tool::Polyline) => &self.polyline,
            EditorBtn::Tool(Tool::Draw) => &self.freehand,
            EditorBtn::Tool(Tool::Rect) => &self.rect,
            EditorBtn::Tool(Tool::Ellipse) => &self.ellipse,
            EditorBtn::Tool(Tool::Text) => &self.text,
            EditorBtn::Tool(Tool::NumberMarker) => &self.number_marker,
            EditorBtn::Tool(Tool::Guide) => &self.guide,
            EditorBtn::Tool(Tool::Mosaic) => &self.mosaic,
            EditorBtn::Pin => &self.pin,
            EditorBtn::Save => &self.save,
            EditorBtn::Copy => &self.copy,
        }
    }
}

} // verus!
