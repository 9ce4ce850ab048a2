//! Recording: the request and per-format settings, and the pure steps of
//! the frame and audio pipelines (frame pacing, row flipping, PCM
//! conversion, buffer capping, click detection for the ripple overlay).
//! Capturing, encoding and the audio devices are the caller's.

use vstd::prelude::*;
use vstd::string::StringExecFns;
use std::collections::VecDeque;
use crate::store::hotkeys::strings_view;

verus! {

/// Recording output format.
#[derive(Clone, Copy, PartialEq, Eq, Debug, Structural)]
pub enum RecordFormat {
    Mp4,
    Gif,
}

/// A recording request. The region is in absolute virtual-desktop
/// coordinates (physical pixels, `x1`/`y1` exclusive, possibly negative);
/// recording is limited to the monitor holding the region's center.
#[derive(Clone, Debug)]
pub struct RecordRequest {
    pub x0: i32,
    pub y0: i32,
    pub x1: i32,
    pub y1: i32,
    pub path: String,
    pub format: RecordFormat,
    pub desktop_audio: bool,
    pub mic: bool,
    pub fps: u32,
    /// Whether the mouse cursor is captured.
    pub show_cursor: bool,
    /// MP4 bitrate in Mbps (a gif has none).
    pub bitrate_mbps: u32,
    /// Width cap in px, 0 for none; a larger region is scaled down.
    pub max_width: u32,
    /// Height cap in px, 0 for none.
    pub max_height: u32,
    /// Whether clicks leave an expanding ring in the video.
    pub show_click_ripple: bool,
    /// Ring colors for left and right clicks (`0x00RRGGBB`).
    pub click_color_left: u32,
    pub click_color_right: u32,
    /// Loopback device name, empty for the system default.
    pub audio_output_device: String,
    /// Microphone name, empty for the system default.
    pub audio_input_device: String,
    /// Sample rate (Hz) both sources are resampled to before mixing.
    pub audio_sample_rate: u32,
    /// Whether an mp4 whose audio stayed silent loses its audio track.
    pub strip_silent_audio: bool,
}

/// The negotiated audio format handed to the encoder.
#[derive(Clone, Copy, PartialEq, Eq, Debug, Structural)]
pub struct AudioFormat {
    pub sample_rate: u32,
    pub channels: u32,
}

/// Settings of a gif recording.
#[derive(Debug)]
pub struct GifFlags {
    pub crop: (u32, u32, u32, u32),
    pub path: String,
    pub fps: u32,
    /// Width and height caps in px (0 for none).
    pub max_width: u32,
    pub max_height: u32,
    pub show_click_ripple: bool,
    pub click_color_left: u32,
    pub click_color_right: u32,
    /// Absolute screen coordinates of the frame's top-left pixel.
    pub capture_origin: (i32, i32),
}

/// Settings of a JPEG XL recording.
#[derive(Clone, Copy, Debug)]
pub struct JxlFlags {
    pub crop: (u32, u32, u32, u32),
    pub fps: u32,
    /// Width and height caps in px (0 for none).
    pub max_width: u32,
    pub max_height: u32,
    pub show_click_ripple: bool,
    pub click_color_left: u32,
    pub click_color_right: u32,
    /// Absolute screen coordinates of the frame's top-left pixel.
    pub capture_origin: (i32, i32),
}

/// Most frames a JPEG XL recording keeps (30 s at 30 fps); later frames
/// are dropped.
pub const MAX_JXL_FRAMES: u32 = 900;

/// How many frames a JPEG XL recording has kept, and whether it has
/// started dropping them.
pub struct JxlFrameBudget {
    pub frames: u32,
    pub truncated: bool,
}

impl JxlFrameBudget {
    pub fn new() -> (r: Self)
        ensures
            r.frames == 0,
            !r.truncated,
    {
        JxlFrameBudget { frames: 0, truncated: false }
    }

    /// Whether the next frame is kept (counting it): yes while fewer than
    /// `MAX_JXL_FRAMES` are kept; after that every frame is dropped and
    /// the recording is marked truncated.
    pub fn take_frame(&mut self) -> (r: bool)
        requires
            old(self).frames <= MAX_JXL_FRAMES,
        ensures
            r == (old(self).frames < MAX_JXL_FRAMES),
            final(self).frames == if r {
                old(self).frames + 1
            } else {
                old(self).frames as int
            },
            final(self).truncated == (old(self).truncated || !r),
            final(self).frames <= MAX_JXL_FRAMES,
    {
        if self.frames >= MAX_JXL_FRAMES {
            self.truncated = true;
            return false;
        }
        self.frames = self.frames + 1;
        true
    }
}

/// Arguments of the `cjxl` run turning the APNG at `apng` into the JPEG
/// XL file `out`: visually lossless (`-d 1.0`), fast effort (`-e 3`).
pub fn cjxl_args(apng: &str, out: &str) -> (r: Vec<String>)
    ensures
        strings_view(r@) == seq![apng@, out@, "-d"@, "1.0"@, "-e"@, "3"@],
{
    let mut v: Vec<String> = Vec::new();
    v.push(String::from_str(apng));
    v.push(String::from_str(out));
    v.push(String::from_str("-d"));
    v.push(String::from_str("1.0"));
    v.push(String::from_str("-e"));
    v.push(String::from_str("3"));
    assert(strings_view(v@) =~= seq![apng@, out@, "-d"@, "1.0"@, "-e"@, "3"@]);
    v
}

/// Whether the frame arriving at `now_ms` is kept when frames are paced
/// `interval_ms` apart: the first frame of the recording always is, a
/// later one only once `interval_ms` have passed since the last kept one
/// (a clock reading before that one counts as no time passed).
pub open spec fn spec_frame_due(started: bool, last_ms: Option<u64>, now_ms: u64, interval_ms: u64) -> bool {
    match last_ms {
        Some(last) => !started || (if now_ms >= last {
            now_ms - last
        } else {
            0
        }) >= interval_ms,
        None => true,
    }
}

/// Frame pacing: whether the frame arriving at `now_ms` is kept.
pub fn frame_due(started: bool, last_ms: Option<u64>, now_ms: u64, interval_ms: u64) -> (r: bool)
    ensures
        r == spec_frame_due(started, last_ms, now_ms, interval_ms),
{
    match last_ms {
        Some(last) => {
            let d = if now_ms >= last {
                now_ms - last
            } else {
                0
            };
            !started || d >= interval_ms
        },
        None => true,
    }
}

/// The first `k` rows of `row` bytes of `s`, last row first.
pub open spec fn rows_reversed(s: Seq<u8>, row: int, k: nat) -> Seq<u8>
    decreases k,
{
    if k == 0 {
        Seq::empty()
    } else {
        s.subrange((k - 1) * row, k * row) + rows_reversed(s, row, (k - 1) as nat)
    }
}

/// The `h` rows of `row` bytes at the start of `src`, bottom row first
/// (the encoder takes frames bottom to top).
pub fn flip_rows(src: &[u8], row: usize, h: usize) -> (r: Vec<u8>)
    requires
        row * h <= src@.len(),
    ensures
        r@ == rows_reversed(src@, row as int, h as nat),
        r@.len() == row * h,
{
    let mut out: Vec<u8> = Vec::new();
    let mut k: usize = h;
    let src_len = src.len();
    while k > 0
        invariant
            src_len == src@.len(),
            k <= h,
            row * h <= src@.len(),
            out@ + rows_reversed(src@, row as int, k as nat) == rows_reversed(
                src@,
                row as int,
                h as nat,
            ),
            out@.len() == row * (h - k),
        decreases k,
    {
        proof {
            assert(row * k <= row * h) by (nonlinear_arith)
                requires
                    k <= h,
            ;
            assert(row * (k - 1) + row == row * k) by (nonlinear_arith);
            assert(row * (k - 1) <= row * k) by (nonlinear_arith);
            assert(row * (h - k) + row == row * (h - (k - 1))) by (nonlinear_arith)
                requires
                    k >= 1,
            ;
        }
        let start = row * (k - 1);
        let ghost before = out@;
        let mut i: usize = 0;
        while i < row
            invariant
                src_len == src@.len(),
                start + row <= src@.len(),
                i <= row,
                out@ == before + src@.subrange(start as int, start + i),
            decreases row - i,
        {
            out.push(src[start + i]);
            i = i + 1;
            assert(out@ =~= before + src@.subrange(start as int, start + i));
        }
        proof {
            let kk = k as nat;
            assert(rows_reversed(src@, row as int, kk) == src@.subrange(
                (kk - 1) * row,
                kk * row,
            ) + rows_reversed(src@, row as int, (kk - 1) as nat));
            assert((kk - 1) * row == start) by (nonlinear_arith)
                requires
                    start == row * (k - 1),
                    kk == k,
            ;
            assert(kk * row == start + row) by (nonlinear_arith)
                requires
                    start == row * (k - 1),
                    kk == k,
                    k >= 1,
            ;
            assert(out@ + rows_reversed(src@, row as int, (k - 1) as nat) =~= before
                + rows_reversed(src@, row as int, kk));
        }
        k = k - 1;
    }
    assert(out@ =~= out@ + rows_reversed(src@, row as int, 0));
    out
}

/// The signed 16-bit value of the little-endian bytes `lo`, `hi`.
pub open spec fn i16_from_le(lo: u8, hi: u8) -> int {
    let u = lo + 256 * hi;
    if u >= 32768 {
        u - 65536
    } else {
        u
    }
}

/// The little-endian bytes of `v`.
pub open spec fn i16_le_bytes(v: i16) -> Seq<u8> {
    let u = if v < 0 {
        v + 65536
    } else {
        v as int
    };
    seq![(u % 256) as u8, (u / 256) as u8]
}

/// Reads stereo PCM given as little-endian 16-bit bytes; an odd last byte
/// is ignored.
pub fn bytes_to_i16(bytes: &[u8]) -> (r: Vec<i16>)
    ensures
        r@.len() == bytes@.len() / 2,
        forall|i: int|
            0 <= i < r@.len() ==> #[trigger] r@[i] as int == i16_from_le(
                bytes@[2 * i],
                bytes@[2 * i + 1],
            ),
{
    let len = bytes.len();
    let n = len / 2;
    let mut out: Vec<i16> = Vec::new();
    let mut i: usize = 0;
    while i < n
        invariant
            len == bytes@.len(),
            n == bytes@.len() / 2,
            i <= n,
            out@.len() == i,
            forall|k: int|
                0 <= k < i ==> #[trigger] out@[k] as int == i16_from_le(
                    bytes@[2 * k],
                    bytes@[2 * k + 1],
                ),
        decreases n - i,
    {
        assert(2 * i + 1 < bytes@.len());
        let lo = bytes[2 * i];
        let hi = bytes[2 * i + 1];
        let u: u32 = lo as u32 + 256 * (hi as u32);
        let v: i16 = if u >= 32768 {
            (u as i32 - 65536) as i16
        } else {
            u as i16
        };
        out.push(v);
        i = i + 1;
    }
    out
}

/// One frame of stereo output for frame `f` of `data` (`ch` channels
/// interleaved): its first channel as left, its second (or the first
/// again, for mono) as right.
pub open spec fn stereo_frame(data: Seq<i16>, ch: int, f: int) -> Seq<u8> {
    let l = data[f * ch];
    let r = if ch >= 2 {
        data[f * ch + 1]
    } else {
        l
    };
    i16_le_bytes(l) + i16_le_bytes(r)
}

/// The stereo bytes of the first `n` frames.
pub open spec fn stereo_upto(data: Seq<i16>, ch: int, n: nat) -> Seq<u8>
    decreases n,
{
    if n == 0 {
        Seq::empty()
    } else {
        stereo_upto(data, ch, (n - 1) as nat) + stereo_frame(data, ch, n - 1)
    }
}

fn push_i16_le(out: &mut Vec<u8>, v: i16)
    ensures
        final(out)@ == old(out)@ + i16_le_bytes(v),
{
    let u: u32 = if v < 0 {
        (v as i32 + 65536) as u32
    } else {
        v as u32
    };
    out.push((u % 256) as u8);
    out.push((u / 256) as u8);
}

/// Converts interleaved samples of `channels` channels to stereo 16-bit
/// little-endian bytes (extra channels dropped, mono doubled, a partial
/// last frame ignored); nothing for zero channels.
pub fn to_stereo_i16(data: &[i16], channels: usize) -> (r: Vec<u8>)
    ensures
        r@ == if channels == 0 {
            Seq::<u8>::empty()
        } else {
            stereo_upto(data@, channels as int, ((data@.len() as int) / (channels as int)) as nat)
        },
{
    if channels == 0 {
        return Vec::new();
    }
    let len = data.len();
    let frames = len / channels;
    let mut out: Vec<u8> = Vec::new();
    let mut f: usize = 0;
    while f < frames
        invariant
            len == data@.len(),
            channels > 0,
            frames == (data@.len() as int) / (channels as int),
            f <= frames,
            out@ == stereo_upto(data@, channels as int, f as nat),
        decreases frames - f,
    {
        proof {
            assert((f + 1) * channels <= frames * channels) by (nonlinear_arith)
                requires
                    f < frames,
            ;
            assert(frames * channels <= data@.len()) by (nonlinear_arith)
                requires
                    frames == (data@.len() as int) / (channels as int),
                    channels > 0,
            ;
            assert((f + 1) * channels == f * channels + channels) by (nonlinear_arith);
            assert(f * channels + channels <= data@.len());
        }
        let base = f * channels;
        let l = data[base];
        let r = if channels >= 2 {
            data[base + 1]
        } else {
            l
        };
        push_i16_le(&mut out, l);
        push_i16_le(&mut out, r);
        f = f + 1;
        assert(out@ =~= stereo_upto(data@, channels as int, f as nat));
    }
    out
}

/// An unsigned 16-bit sample (silence at 32768) as a signed one.
pub fn sample_from_u16(s: u16) -> (r: i16)
    ensures
        r == s - 32768,
{
    (s as i32 - 32768) as i16
}

/// `v / 2` rounded toward zero, as Rust's integer division does.
pub open spec fn half_toward_zero(v: int) -> int {
    if v >= 0 {
        v / 2
    } else {
        -((-v) / 2)
    }
}

/// The center of region `(x0, y0, x1, y1)`, the point whose monitor
/// records it.
pub fn region_center(req: (i32, i32, i32, i32)) -> (r: (i32, i32))
    requires
        i32::MIN <= req.0 + req.2 <= i32::MAX,
        i32::MIN <= req.1 + req.3 <= i32::MAX,
    ensures
        r.0 == half_toward_zero(req.0 + req.2),
        r.1 == half_toward_zero(req.1 + req.3),
{
    ((req.0 + req.2) / 2, (req.1 + req.3) / 2)
}

/// How a region is recorded on the monitor at `origin` of size `size`.
#[derive(Clone, Copy, PartialEq, Eq, Debug)]
pub enum CapturePlan {
    /// The region spans monitors: GDI polling of the region as it is.
    Gdi,
    /// Graphics Capture of the monitor, cropped to `crop` (monitor
    /// coordinates); the crop's top-left is at `capture_origin` on screen.
    Graphics { crop: (u32, u32, u32, u32), capture_origin: (i32, i32) },
    /// Nothing of the region is on the monitor.
    Outside,
}

/// The plan for region `req` on the monitor at `origin` of size `size`:
/// GDI unless the region fits the monitor, else its crop.
pub open spec fn spec_plan(
    req: (i32, i32, i32, i32),
    origin: (i32, i32),
    size: (u32, u32),
) -> CapturePlan {
    let bounds = (origin.0 as int, origin.1 as int, origin.0 + size.0, origin.1 + size.1);
    if !(req.0 >= bounds.0 && req.1 >= bounds.1 && req.2 <= bounds.2 && req.3 <= bounds.3) {
        CapturePlan::Gdi
    } else {
        match crate::geometry::spec_clamp_to_monitor(req, origin, size) {
            Some(c) => CapturePlan::Graphics {
                crop: c,
                capture_origin: ((origin.0 + c.0) as i32, (origin.1 + c.1) as i32),
            },
            None => CapturePlan::Outside,
        }
    }
}

/// Decides how to record region `req` given the monitor holding its
/// center (its `origin` and `size`).
pub fn plan_capture(req: (i32, i32, i32, i32), origin: (i32, i32), size: (u32, u32)) -> (r:
    CapturePlan)
    requires
        size.0 <= i32::MAX,
        size.1 <= i32::MAX,
        origin.0 + size.0 <= i32::MAX,
        origin.1 + size.1 <= i32::MAX,
        i32::MIN <= req.0 - origin.0 <= i32::MAX,
        i32::MIN <= req.1 - origin.1 <= i32::MAX,
        i32::MIN <= req.2 - origin.0 <= i32::MAX,
        i32::MIN <= req.3 - origin.1 <= i32::MAX,
    ensures
        r == spec_plan(req, origin, size),
{
    let bounds = (origin.0, origin.1, origin.0 + size.0 as i32, origin.1 + size.1 as i32);
    if !crate::geometry::rect_fits(req, bounds) {
        return CapturePlan::Gdi;
    }
    match crate::geometry::clamp_to_monitor(req, origin, size) {
        Some(c) => {
            proof {
                crate::geometry::lemma_clamp_to_monitor_inside(req, origin, size);
            }
            CapturePlan::Graphics {
                crop: c,
                capture_origin: (origin.0 + c.0 as i32, origin.1 + c.1 as i32),
            }
        },
        None => CapturePlan::Outside,
    }
}

/// Largest sample magnitude among the first `n` samples.
pub open spec fn peak_upto(samples: Seq<i16>, n: nat) -> int
    decreases n,
{
    if n == 0 {
        0
    } else {
        let m = peak_upto(samples, (n - 1) as nat);
        let v = samples[n - 1] as int;
        let a = if v < 0 {
            -v
        } else {
            v
        };
        if a > m {
            a
        } else {
            m
        }
    }
}

/// A peak magnitude in per mille of full scale (32768), at most 1000.
pub open spec fn milli_of(peak: int) -> int {
    let m = peak * 1000 / 32768;
    if m > 1000 {
        1000
    } else {
        m
    }
}

/// The loudness of a chunk of samples for the level meter: its largest
/// magnitude in per mille of full scale.
pub fn peak_milli(samples: &[i16]) -> (r: u32)
    ensures
        r == milli_of(peak_upto(samples@, samples@.len())),
{
    let mut peak: u32 = 0;
    let mut i: usize = 0;
    while i < samples.len()
        invariant
            i <= samples@.len(),
            peak == peak_upto(samples@, i as nat),
            peak <= 32768,
        decreases samples.len() - i,
    {
        let v = samples[i] as i32;
        let a: u32 = if v < 0 {
            (-v) as u32
        } else {
            v as u32
        };
        if a > peak {
            peak = a;
        }
        i = i + 1;
    }
    let m = peak * 1000 / 32768;
    if m > 1000 {
        1000
    } else {
        m
    }
}

/// Per-mille peak at or below which a recording's audio counts as silent
/// (room for the device's noise floor).
pub const SILENCE_THRESHOLD_MILLI: u32 = 5;

/// Takes one stereo frame from the front of a source's queue; a missing
/// sample is silence.
pub fn pop_frame(q: &mut VecDeque<i16>) -> (r: (i16, i16))
    ensures
        r.0 == if old(q)@.len() > 0 {
            old(q)@[0]
        } else {
            0
        },
        r.1 == if old(q)@.len() > 1 {
            old(q)@[1]
        } else {
            0
        },
        final(q)@ == if old(q)@.len() >= 2 {
            old(q)@.subrange(2, old(q)@.len() as int)
        } else {
            Seq::<i16>::empty()
        },
{
    let l = match q.pop_front() {
        Some(v) => v,
        None => 0,
    };
    let r = match q.pop_front() {
        Some(v) => v,
        None => 0,
    };
    proof {
        if q@.len() == 0 {
            assert(q@ =~= Seq::<i16>::empty());
        }
    }
    (l, r)
}

/// Most stereo samples buffered per source before the oldest are dropped
/// (about one second at 48 kHz).
pub const BUF_CAP: usize = 96_000;

/// Trims `q` to its newest `BUF_CAP` samples (absorbs clock drift).
pub fn cap(q: &mut VecDeque<i16>)
    ensures
        final(q)@ == if old(q)@.len() > BUF_CAP {
            old(q)@.subrange(old(q)@.len() - BUF_CAP, old(q)@.len() as int)
        } else {
            old(q)@
        },
{
    let ghost start = q@;
    while q.len() > BUF_CAP
        invariant
            start.len() >= q@.len(),
            q@.len() >= if start.len() > BUF_CAP {
                BUF_CAP as int
            } else {
                start.len() as int
            },
            q@ == start.subrange(start.len() - q@.len(), start.len() as int),
        decreases q@.len(),
    {
        let _ = q.pop_front();
    }
    proof {
        if start.len() <= BUF_CAP {
            assert(start.subrange(0, start.len() as int) =~= start);
        }
    }
}

/// How long a click ring lasts, in ms.
pub const RIPPLE_DURATION_MS: u64 = 500;

/// A click ring: where (absolute screen coordinates), when (ms on the
/// caller's clock) and in which color.
#[derive(Clone, Copy, Debug)]
pub struct Ripple {
    pub pos: (i32, i32),
    pub started_ms: u64,
    pub color: (u8, u8, u8),
}

/// Whether a button whose state word (as `GetAsyncKeyState` gives it) is
/// `state` was clicked since the last poll, when it was down then if
/// `was_down`: pressed now and not before, or the low "pressed since the
/// last query" bit set.
pub open spec fn spec_clicked(state: i16, was_down: bool) -> bool {
    let is_down = state < 0;
    let low_bit = (if state < 0 {
        state + 65536
    } else {
        state as int
    }) % 2 == 1;
    low_bit || (is_down && !was_down)
}

/// Clicks seen during a recording and the rings still showing.
pub struct ClickTracker {
    pub left_color: (u8, u8, u8),
    pub right_color: (u8, u8, u8),
    /// Whether each button was down at the previous poll.
    pub was_down_left: bool,
    pub was_down_right: bool,
    pub ripples: Vec<Ripple>,
}

/// The rings of `s` among its first `n` still showing at `now_ms`.
pub open spec fn live_upto(s: Seq<Ripple>, now_ms: int, n: nat) -> Seq<Ripple>
    decreases n,
{
    if n == 0 {
        Seq::empty()
    } else {
        let prev = live_upto(s, now_ms, (n - 1) as nat);
        if now_ms - s[n - 1].started_ms < RIPPLE_DURATION_MS {
            prev.push(s[n - 1])
        } else {
            prev
        }
    }
}

impl ClickTracker {
    /// A tracker with no rings, both buttons up.
    pub fn new(left_color: (u8, u8, u8), right_color: (u8, u8, u8)) -> (r: Self)
        ensures
            r.left_color == left_color,
            r.right_color == right_color,
            !r.was_down_left,
            !r.was_down_right,
            r.ripples@.len() == 0,
    {
        ClickTracker {
            left_color,
            right_color,
            was_down_left: false,
            was_down_right: false,
            ripples: Vec::new(),
        }
    }

    /// Detects a click of one button from its state word; `was_down` is
    /// updated to whether it is down now.
    pub fn poll_button(state: i16, was_down: &mut bool) -> (r: bool)
        ensures
            r == spec_clicked(state, *old(was_down)),
            *final(was_down) == (state < 0),
    {
        let is_down = state < 0;
        let u: u32 = if state < 0 {
            (state as i32 + 65536) as u32
        } else {
            state as u32
        };
        let low_bit_hit = u % 2 == 1;
        let clicked = low_bit_hit || (is_down && !*was_down);
        *was_down = is_down;
        clicked
    }

    /// One poll per frame at `now_ms` (a ring started later than that
    /// counts as just started), with the buttons' state words and the cursor position: a click
    /// adds a ring at the cursor (left then right, each in its color;
    /// none when the cursor position is unknown), and rings older than
    /// `RIPPLE_DURATION_MS` are dropped.
    pub fn poll(&mut self, now_ms: u64, left_state: i16, right_state: i16, cursor: Option<(i32, i32)>)
        ensures
            final(self).left_color == old(self).left_color,
            final(self).right_color == old(self).right_color,
            final(self).was_down_left == (left_state < 0),
            final(self).was_down_right == (right_state < 0),
            ({
                let l = spec_clicked(left_state, old(self).was_down_left);
                let r = spec_clicked(right_state, old(self).was_down_right);
                let with_left = match cursor {
                    Some(p) if l => old(self).ripples@.push(
                        Ripple { pos: p, started_ms: now_ms, color: old(self).left_color },
                    ),
                    _ => old(self).ripples@,
                };
                let added = match cursor {
                    Some(p) if r => with_left.push(
                        Ripple { pos: p, started_ms: now_ms, color: old(self).right_color },
                    ),
                    _ => with_left,
                };
                final(self).ripples@ == live_upto(added, now_ms as int, added.len())
            }),
    {
        let left_clicked = Self::poll_button(left_state, &mut self.was_down_left);
        let right_clicked = Self::poll_button(right_state, &mut self.was_down_right);
        if let Some(pos) = cursor {
            if left_clicked {
                self.ripples.push(Ripple { pos, started_ms: now_ms, color: self.left_color });
            }
            if right_clicked {
                self.ripples.push(Ripple { pos, started_ms: now_ms, color: self.right_color });
            }
        }
        let ghost added = self.ripples@;
        let n = self.ripples.len();
        let mut kept: Vec<Ripple> = Vec::new();
        let mut i: usize = 0;
        while i < n
            invariant
                n == added.len(),
                added == self.ripples@,
                i <= n,
                kept@ == live_upto(added, now_ms as int, i as nat),
            decreases n - i,
        {
            let r = self.ripples[i];
            let age = if now_ms >= r.started_ms {
                now_ms - r.started_ms
            } else {
                0
            };
            if age < RIPPLE_DURATION_MS {
                kept.push(r);
            }
            i = i + 1;
        }
        self.ripples = kept;
    }
}

/// After a poll at `now_ms` only rings younger than
/// `RIPPLE_DURATION_MS` are left, in the order they were added.
pub proof fn lemma_live_rings_are_fresh(s: Seq<Ripple>, now_ms: int, n: nat)
    requires
        n <= s.len(),
    ensures
        forall|i: int|
            0 <= i < live_upto(s, now_ms, n).len() ==> now_ms - (#[trigger] live_upto(
                s,
                now_ms,
                n,
            )[i]).started_ms < RIPPLE_DURATION_MS,
        live_upto(s, now_ms, n).len() <= n,
    decreases n,
{
    if n > 0 {
        lemma_live_rings_are_fresh(s, now_ms, (n - 1) as nat);
    }
}

} // verus!
