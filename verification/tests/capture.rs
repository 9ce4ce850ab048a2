use std::collections::VecDeque;
use std::time::Duration;

use pashari::capture::{
    bytes_to_i16, cap, cjxl_args, flip_rows, frame_due, to_stereo_i16, ClickTracker, BUF_CAP,
};
use pashari::geometry::{
    clamp_to_monitor, gif_delay_cs, interval_for_fps, rect_fits, scale_pixels_nearest,
    scale_to_fit, unpack_color,
};

#[test]
fn interval_for_fps_matches_expected_values() {
    assert_eq!(Duration::from_millis(interval_for_fps(30)), Duration::from_millis(33));
    assert_eq!(Duration::from_millis(interval_for_fps(60)), Duration::from_millis(16));
    assert_eq!(Duration::from_millis(interval_for_fps(15)), Duration::from_millis(66));
}

#[test]
fn interval_for_fps_guards_against_zero() {
    assert_eq!(Duration::from_millis(interval_for_fps(0)), Duration::from_millis(1000));
}

#[test]
fn gif_delay_cs_matches_expected_values() {
    assert_eq!(gif_delay_cs(15), 6);
    assert_eq!(gif_delay_cs(30), 3);
    assert_eq!(gif_delay_cs(60), 1);
}

#[test]
fn gif_delay_cs_never_zero() {
    assert_eq!(gif_delay_cs(200), 1);
    assert_eq!(gif_delay_cs(0), 100);
}

#[test]
fn interval_for_fps_never_below_one_ms() {
    assert_eq!(interval_for_fps(5000), 1);
    assert_eq!(interval_for_fps(1000), 1);
    assert_eq!(interval_for_fps(1), 1000);
}

#[test]
fn cjxl_args_use_visually_lossless_quality() {
    let args = cjxl_args("a.apng", "b.jxl");
    let pos = args.iter().position(|a| a == "-d").expect("-d があるはず");
    assert_eq!(args[pos + 1], "1.0");
}

#[test]
fn cjxl_args_full_vector() {
    let args = cjxl_args("in.apng", "out.jxl");
    assert_eq!(args, vec!["in.apng", "out.jxl", "-d", "1.0", "-e", "3"]);
}

#[test]
fn rect_fits_true_when_fully_inside() {
    assert!(rect_fits((100, 100, 500, 500), (0, 0, 1920, 1080)));
}

#[test]
fn rect_fits_true_when_exactly_matches_bounds() {
    assert!(rect_fits((0, 0, 1920, 1080), (0, 0, 1920, 1080)));
}

#[test]
fn rect_fits_false_when_exceeds_right_edge() {
    assert!(!rect_fits((1800, 100, 2000, 300), (0, 0, 1920, 1080)));
}

#[test]
fn rect_fits_false_when_exceeds_left_edge_with_negative_bounds() {
    assert!(!rect_fits((-2000, 50, -100, 250), (-1920, 0, 0, 1080)));
}

#[test]
fn clamp_to_monitor_converts_to_relative_coords() {
    let r = clamp_to_monitor((2000, 100, 2200, 300), (1920, 0), (1920, 1080));
    assert_eq!(r, Some((80, 100, 280, 300)));
}

#[test]
fn clamp_to_monitor_clamps_when_spanning_boundary() {
    let r = clamp_to_monitor((1800, 100, 2200, 300), (0, 0), (1920, 1080));
    assert_eq!(r, Some((1800, 100, 1920, 300)));
}

#[test]
fn clamp_to_monitor_negative_origin() {
    let r = clamp_to_monitor((-1800, 50, -100, 250), (-1920, 0), (1920, 1080));
    assert_eq!(r, Some((120, 50, 1820, 250)));
}

#[test]
fn clamp_to_monitor_none_when_fully_outside() {
    let r = clamp_to_monitor((3000, 100, 3200, 300), (0, 0), (1920, 1080));
    assert_eq!(r, None);
}

#[test]
fn clamp_to_monitor_clamps_top_left_to_zero() {
    let r = clamp_to_monitor((-50, -20, 100, 200), (0, 0), (1920, 1080));
    assert_eq!(r, Some((0, 0, 100, 200)));
}

#[test]
fn scale_to_fit_disabled_when_both_max_are_zero() {
    assert_eq!(scale_to_fit(3840, 2160, 0, 0), (3840, 2160));
}

#[test]
fn scale_to_fit_does_not_upscale_when_already_within_bounds() {
    assert_eq!(scale_to_fit(800, 600, 1920, 1920), (800, 600));
}

#[test]
fn scale_to_fit_shrinks_preserving_aspect_ratio() {
    assert_eq!(scale_to_fit(2560, 1440, 1920, 1920), (1920, 1080));
}

#[test]
fn scale_to_fit_handles_extreme_aspect_ratio_without_div_by_zero() {
    let (w, h) = scale_to_fit(5000, 10, 1920, 1920);
    assert!(w <= 1920 && h <= 1920);
    assert!(w >= 1);
    assert!(h >= 1);
}

#[test]
fn scale_to_fit_limits_width_only_when_height_is_unlimited() {
    assert_eq!(scale_to_fit(3840, 1000, 1920, 0), (1920, 500));
}

#[test]
fn scale_to_fit_limits_height_only_when_width_is_unlimited() {
    assert_eq!(scale_to_fit(1000, 3840, 0, 1920), (500, 1920));
}

#[test]
fn scale_to_fit_applies_the_tighter_of_independent_width_and_height_limits() {
    assert_eq!(scale_to_fit(3840, 2400, 1920, 2000), (1920, 1200));
}

#[test]
fn scale_to_fit_rounds_half_up() {
    // 1001 * 0.5 = 500.5 rounds up to 501.
    assert_eq!(scale_to_fit(2000, 1001, 1000, 0), (1000, 501));
}

#[test]
fn scale_pixels_nearest_downscales_2x2_to_1x1_picking_top_left_pixel() {
    let src: [u8; 2 * 2 * 4] = [
        10, 20, 30, 255, 40, 50, 60, 255, 70, 80, 90, 255, 100, 110, 120, 255,
    ];
    let mut dst = [0u8; 4];
    scale_pixels_nearest(&src, 2, 2, &mut dst, 1, 1);
    assert_eq!(dst, [10, 20, 30, 255]);
}

#[test]
fn scale_pixels_nearest_identity_when_same_size() {
    let src: [u8; 2 * 2 * 4] = [1, 2, 3, 4, 5, 6, 7, 8, 9, 10, 11, 12, 13, 14, 15, 16];
    let mut dst = [0u8; 2 * 2 * 4];
    scale_pixels_nearest(&src, 2, 2, &mut dst, 2, 2);
    assert_eq!(dst, src);
}

#[test]
fn scale_pixels_nearest_upscales_by_repeating() {
    let src: [u8; 4] = [1, 2, 3, 4];
    let mut dst = [0u8; 2 * 2 * 4];
    scale_pixels_nearest(&src, 1, 1, &mut dst, 2, 2);
    assert_eq!(dst, [1, 2, 3, 4, 1, 2, 3, 4, 1, 2, 3, 4, 1, 2, 3, 4]);
}

#[test]
fn unpack_color_splits_channels() {
    assert_eq!(unpack_color(0x00FF_8001), (0xFF, 0x80, 0x01));
    assert_eq!(unpack_color(0xAB12_3456), (0x12, 0x34, 0x56));
}

#[test]
fn bytes_to_i16_reads_little_endian_and_drops_odd_byte() {
    assert_eq!(bytes_to_i16(&[0x01, 0x00, 0xFF, 0xFF, 0x00, 0x80, 0x7F]), vec![1, -1, -32768]);
    assert!(bytes_to_i16(&[]).is_empty());
}

#[test]
fn to_stereo_i16_doubles_mono_and_drops_extra_channels() {
    // Mono: each sample becomes left and right.
    assert_eq!(to_stereo_i16(&[1, -2], 1), vec![1, 0, 1, 0, 0xFE, 0xFF, 0xFE, 0xFF]);
    // Three channels: the third is dropped; a partial last frame ignored.
    assert_eq!(to_stereo_i16(&[1, 2, 3, 4, 5, 6, 7], 3), vec![1, 0, 2, 0, 4, 0, 5, 0]);
    // No channels: nothing.
    assert!(to_stereo_i16(&[1, 2, 3], 0).is_empty());
}

#[test]
fn cap_keeps_newest_samples() {
    let mut q: VecDeque<i16> = (0..(BUF_CAP as i32 + 5)).map(|i| (i % 1000) as i16).collect();
    cap(&mut q);
    assert_eq!(q.len(), BUF_CAP);
    assert_eq!(q[0], 5);
    let mut small: VecDeque<i16> = VecDeque::from(vec![1, 2, 3]);
    cap(&mut small);
    assert_eq!(small, VecDeque::from(vec![1, 2, 3]));
}

#[test]
fn flip_rows_reverses_row_order() {
    let src = [1u8, 2, 3, 4, 5, 6];
    assert_eq!(flip_rows(&src, 2, 3), vec![5, 6, 3, 4, 1, 2]);
    // Extra bytes past the rows are ignored.
    assert_eq!(flip_rows(&[1, 2, 3, 4, 9], 2, 2), vec![3, 4, 1, 2]);
}

#[test]
fn frame_due_paces_frames() {
    assert!(frame_due(false, None, 0, 33));
    assert!(frame_due(false, Some(10), 11, 33));
    assert!(!frame_due(true, Some(10), 20, 33));
    assert!(frame_due(true, Some(10), 43, 33));
    // A clock reading before the last frame counts as no time passed.
    assert!(!frame_due(true, Some(100), 50, 33));
}

#[test]
fn click_tracker_adds_rings_and_expires_them() {
    let mut t = ClickTracker::new((255, 0, 0), (0, 0, 255));
    // Left pressed (high bit set): a red ring at the cursor.
    t.poll(1000, i16::MIN, 0, Some((10, 20)));
    assert_eq!(t.ripples.len(), 1);
    assert_eq!(t.ripples[0].pos, (10, 20));
    assert_eq!(t.ripples[0].color, (255, 0, 0));
    // Still held: no new click.
    t.poll(1100, i16::MIN, 0, Some((10, 20)));
    assert_eq!(t.ripples.len(), 1);
    // Right click via the low bit only, released left.
    t.poll(1200, 0, 1, Some((5, 5)));
    assert_eq!(t.ripples.len(), 2);
    assert_eq!(t.ripples[1].color, (0, 0, 255));
    // 500 ms after the first ring, it is gone.
    t.poll(1500, 0, 0, None);
    assert_eq!(t.ripples.len(), 1);
    assert_eq!(t.ripples[0].started_ms, 1200);
}

#[test]
fn click_without_cursor_adds_no_ring() {
    let mut t = ClickTracker::new((1, 2, 3), (4, 5, 6));
    t.poll(0, i16::MIN, i16::MIN, None);
    assert!(t.ripples.is_empty());
    assert!(t.was_down_left && t.was_down_right);
}

#[test]
fn sample_from_u16_recenters() {
    assert_eq!(pashari::capture::sample_from_u16(32768), 0);
    assert_eq!(pashari::capture::sample_from_u16(0), -32768);
    assert_eq!(pashari::capture::sample_from_u16(65535), 32767);
}

use pashari::capture::{
    peak_milli, plan_capture, pop_frame, region_center, CapturePlan, JxlFrameBudget,
    MAX_JXL_FRAMES,
};

#[test]
fn push_frame_caps_at_max_frames() {
    let mut s = JxlFrameBudget::new();
    for _ in 0..MAX_JXL_FRAMES + 10 {
        s.take_frame();
    }
    assert_eq!(s.frames, MAX_JXL_FRAMES);
    assert!(s.truncated);
}

#[test]
fn frame_budget_keeps_frames_until_the_cap() {
    let mut s = JxlFrameBudget::new();
    assert!(s.take_frame());
    assert_eq!(s.frames, 1);
    assert!(!s.truncated);
}

#[test]
fn region_center_rounds_toward_zero() {
    assert_eq!(region_center((0, 0, 101, 51)), (50, 25));
    assert_eq!(region_center((-3, -5, 0, 0)), (-1, -2));
}

#[test]
fn plan_capture_picks_graphics_gdi_or_outside() {
    assert_eq!(plan_capture((2000, 100, 2200, 300), (1920, 0), (1920, 1080)),
        CapturePlan::Graphics { crop: (80, 100, 280, 300), capture_origin: (2000, 100) });
    assert_eq!(plan_capture((1800, 100, 2200, 300), (0, 0), (1920, 1080)), CapturePlan::Gdi);
    assert_eq!(plan_capture((100, 100, 100, 300), (0, 0), (1920, 1080)), CapturePlan::Outside);
}

#[test]
fn peak_milli_measures_loudest_sample() {
    assert_eq!(peak_milli(&[]), 0);
    assert_eq!(peak_milli(&[100, -16384, 200]), 500);
    assert_eq!(peak_milli(&[i16::MIN]), 1000);
    assert_eq!(peak_milli(&[i16::MAX]), 999);
}

#[test]
fn pop_frame_takes_two_samples_or_silence() {
    let mut q: VecDeque<i16> = VecDeque::from(vec![1, 2, 3]);
    assert_eq!(pop_frame(&mut q), (1, 2));
    assert_eq!(pop_frame(&mut q), (3, 0));
    assert_eq!(pop_frame(&mut q), (0, 0));
    assert!(q.is_empty());
}

#[test]
fn poll_button_detects_press_edge_and_pressed_since_bit() {
    let mut was = false;
    assert!(ClickTracker::poll_button(i16::MIN, &mut was));
    assert!(was);
    assert!(!ClickTracker::poll_button(i16::MIN, &mut was));
    assert!(!ClickTracker::poll_button(0, &mut was));
    assert!(!was);
    assert!(ClickTracker::poll_button(1, &mut was));
    assert!(!was);
    assert!(ClickTracker::poll_button(-1, &mut was));
    assert!(was);
}

#[test]
fn scale_pixels_nearest_samples_index_zero_of_an_empty_axis() {
    let src = [7u8, 8, 9, 10];
    let mut dst = [0u8; 8];
    scale_pixels_nearest(&src, 0, 0, &mut dst, 2, 1);
    assert_eq!(dst, [7, 8, 9, 10, 7, 8, 9, 10]);
}

#[test]
fn scale_to_fit_rounds_the_exact_ratio_half_up() {
    assert_eq!(scale_to_fit(10, 45, 7, 0), (7, 32));
}
