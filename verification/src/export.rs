//! Output of a captured selection: PNG encoding of the pixels. Where the
//! file goes and the clipboard are the caller's.

use vstd::prelude::*;
use vstd::string::StringExecFns;

verus! {

/// A cropped selection: RGBA8 pixels, rows top to bottom.
pub struct Shot {
    pub width: u32,
    pub height: u32,
    pub rgba: Vec<u8>,
}

/// The PNG file the `image` crate's encoder writes for a `w` by `h` RGBA8
/// image with pixel bytes `rgba`, or `None` when the encoder fails.
pub uninterp spec fn png_encoding(w: u32, h: u32, rgba: Seq<u8>) -> Option<Seq<u8>>;

/// Whether `rgba` holds at least the `w * h * 4` bytes of a `w` by `h`
/// RGBA8 image, that count (and `4 * w` on the way to it) fitting a
/// `usize`.
pub open spec fn buffer_fits(w: u32, h: u32, rgba: Seq<u8>) -> bool {
    4 * w <= usize::MAX && 4 * w * h <= usize::MAX && 4 * w * h <= rgba.len()
}

/// `RgbaImage::from_raw` on a copy of the bytes, then `write_to` in PNG
/// format. `from_raw` refuses a buffer smaller than `4 * w * h` (or a
/// count past `usize`), which is `Err(None)`; an encoder error is
/// `Err(Some(message))`.
#[verifier::external_body]
fn encode_rgba_png(w: u32, h: u32, rgba: &[u8]) -> (r: Result<Vec<u8>, Option<String>>)
    ensures
        (r == Err::<Vec<u8>, Option<String>>(None)) <==> !buffer_fits(w, h, rgba@),
        r matches Ok(bytes) ==> png_encoding(w, h, rgba@) == Some(bytes@),
        r matches Err(Some(_)) ==> png_encoding(w, h, rgba@) is None,
{
    let img = match image::RgbaImage::from_raw(w, h, rgba.to_vec()) {
        Some(img) => img,
        None => return Err(None),
    };
    let mut buf: Vec<u8> = Vec::new();
    match img.write_to(&mut std::io::Cursor::new(&mut buf), image::ImageFormat::Png) {
        Ok(()) => Ok(buf),
        Err(e) => Err(Some(e.to_string())),
    }
}

/// The message for pixels that do not cover the image.
pub open spec fn size_mismatch_message() -> Seq<char> {
    "画像バッファのサイズが width*height*4 と一致しません"@
}

/// Encodes the shot as a PNG file in memory (for uses without a file,
/// such as upload). Fails when the pixels do not cover the image, or when
/// the encoder reports an error (its message).
pub fn encode_png(shot: &Shot) -> (r: Result<Vec<u8>, String>)
    ensures
        !buffer_fits(shot.width, shot.height, shot.rgba@) ==> (r matches Err(e) && e@
            == size_mismatch_message()),
        buffer_fits(shot.width, shot.height, shot.rgba@) ==> match r {
            Ok(bytes) => png_encoding(shot.width, shot.height, shot.rgba@) == Some(bytes@),
            Err(_) => png_encoding(shot.width, shot.height, shot.rgba@) is None,
        },
{
    match encode_rgba_png(shot.width, shot.height, shot.rgba.as_slice()) {
        Ok(bytes) => Ok(bytes),
        Err(None) => Err(String::from_str("画像バッファのサイズが width*height*4 と一致しません")),
        Err(Some(msg)) => Err(msg),
    }
}


/// What the `image` crate decodes `bytes` to as 8-bit RGBA when the format
/// is taken from the file extension `ext` (compared case-insensitively):
/// width, height and pixel bytes; `None` when `ext` names no format the
/// crate knows or the bytes do not decode in that format.
pub uninterp spec fn decoded_image(bytes: Seq<u8>, ext: Seq<char>) -> Option<(u32, u32, Seq<u8>)>;

/// `ImageFormat::from_extension`, then `load_from_memory_with_format` and
/// `to_rgba8`. The contract names the result (what a given file decodes to
/// is the crate's) and says that the RGBA buffer `to_rgba8` builds holds
/// exactly four bytes per pixel.
#[verifier::external_body]
pub(crate) fn decode_image(bytes: &[u8], ext: &str) -> (r: Option<(u32, u32, Vec<u8>)>)
    ensures
        match r {
            Some((w, h, px)) => decoded_image(bytes@, ext@) == Some((w, h, px@)),
            None => decoded_image(bytes@, ext@) is None,
        },
        r matches Some((w, h, px)) ==> px@.len() == w * h * 4,
{
    let format = image::ImageFormat::from_extension(ext)?;
    match image::load_from_memory_with_format(bytes, format) {
        Ok(img) => {
            let rgba = img.to_rgba8();
            Some((rgba.width(), rgba.height(), rgba.into_raw()))
        },
        Err(_) => None,
    }
}

/// The shot held by an image file's bytes `bytes`, its format named by the
/// file's extension `ext`; `None` when it does not decode.
pub fn shot_from_file_bytes(bytes: &[u8], ext: &str) -> (r: Option<Shot>)
    ensures
        match r {
            Some(s) => decoded_image(bytes@, ext@) == Some((s.width, s.height, s.rgba@)),
            None => decoded_image(bytes@, ext@) is None,
        },
        r matches Some(s) ==> s.rgba@.len() == s.width * s.height * 4,
{
    match decode_image(bytes, ext) {
        Some((width, height, rgba)) => Some(Shot { width, height, rgba }),
        None => None,
    }
}

} // verus!
