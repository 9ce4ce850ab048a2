use pashari::snap::{
    abs_to_src_clipped, evaluate_window, fully_covered, intersect, is_adoptable_descendant,
    is_blacklisted_class, smallest_containing, SnapWindow, Snapshot, WindowFacts,
    WS_EX_TOOLWINDOW,
};
use pashari::ui::Rect;

/// The transparent extended window style bit.
const WS_EX_TRANSPARENT: u32 = 0x20;

fn win(rect_src: Rect) -> SnapWindow {
    SnapWindow::new(0, (0, 0, 0, 0), rect_src)
}

fn r(x0: usize, y0: usize, x1: usize, y1: usize) -> Rect {
    Rect { x0, y0, x1, y1 }
}

#[test]
fn fully_covered_detects_containment() {
    let claimed = vec![win(r(0, 0, 100, 100))];
    assert!(fully_covered(r(10, 10, 50, 50), &claimed));
    assert!(fully_covered(r(0, 0, 100, 100), &claimed));
    assert!(!fully_covered(r(50, 50, 150, 150), &claimed));
    assert!(!fully_covered(r(10, 10, 20, 20), &[]));
}

#[test]
fn window_at_index_prefers_front() {
    let snap = Snapshot::new(
        vec![win(r(10, 10, 60, 60)), win(r(0, 0, 200, 200))],
        (0, 0),
        200,
        200,
    );
    assert_eq!(snap.window_at_index(30, 30), Some(0));
    assert_eq!(snap.window_at_index(100, 100), Some(1));
    assert_eq!(snap.window_at_index(300, 300), None);
}

#[test]
fn window_at_index_ignores_negative_points() {
    let snap = Snapshot::new(vec![win(r(0, 0, 200, 200))], (0, 0), 200, 200);
    assert_eq!(snap.window_at_index(-1, 5), None);
}

#[test]
fn is_adoptable_descendant_accepts_normal_window() {
    assert!(is_adoptable_descendant((0, 0, 900, 900), 0));
}

#[test]
fn is_adoptable_descendant_rejects_too_small() {
    assert!(!is_adoptable_descendant((0, 0, 100, 100), 0));
}

#[test]
fn is_adoptable_descendant_rejects_toolwindow() {
    assert!(!is_adoptable_descendant((0, 0, 900, 900), WS_EX_TOOLWINDOW));
}

#[test]
fn is_adoptable_descendant_accepts_transparent() {
    assert!(is_adoptable_descendant((0, 0, 900, 900), WS_EX_TRANSPARENT));
}

#[test]
fn smallest_containing_prefers_smaller_over_larger() {
    let candidates = [(0, 0, 1000, 1000), (100, 100, 900, 800)];
    assert_eq!(smallest_containing(&candidates, 500, 500), Some((100, 100, 900, 800)));
}

#[test]
fn smallest_containing_ignores_non_containing_candidates() {
    let candidates = [(0, 0, 100, 100)];
    assert_eq!(smallest_containing(&candidates, 500, 500), None);
}

#[test]
fn smallest_containing_keeps_first_on_tie() {
    let candidates = [(0, 0, 10, 10), (5, 5, 15, 15), (0, 0, 10, 10)];
    assert_eq!(smallest_containing(&candidates, 7, 7), Some((0, 0, 10, 10)));
    assert_eq!(smallest_containing(&candidates, 12, 12), Some((5, 5, 15, 15)));
}

#[test]
fn abs_to_src_clips_to_image_bounds() {
    let origin = (-100, -50);
    let out = abs_to_src_clipped((-50, 0, 300, 300), origin, 200, 200).unwrap();
    assert_eq!(out, r(50, 50, 200, 200));
    assert_eq!(abs_to_src_clipped((500, 500, 600, 600), origin, 200, 200), None);
}

#[test]
fn intersect_takes_the_overlap() {
    assert_eq!(intersect((0, 0, 10, 10), (5, -5, 20, 8)), (5, 0, 10, 8));
}

#[test]
fn blacklisted_classes_are_the_shell_ones() {
    assert!(is_blacklisted_class("Progman"));
    assert!(is_blacklisted_class("WorkerW"));
    assert!(is_blacklisted_class("Shell_TrayWnd"));
    assert!(is_blacklisted_class("SysListView32"));
    assert!(!is_blacklisted_class("Chrome_WidgetWin_1"));
    assert!(!is_blacklisted_class("progman"));
}

fn facts(bounds: (i64, i64, i64, i64)) -> WindowFacts {
    WindowFacts {
        visible: true,
        styles: Some((0x00C0_0000, 0)),
        cloaked: false,
        bounds,
        title_empty: false,
    }
}

#[test]
fn evaluate_window_accepts_plain_window_and_rejects_the_rest() {
    let w = evaluate_window(7, facts((10, 10, 300, 200)), "Notepad", (0, 0), 1000, 1000).unwrap();
    assert_eq!(w.hwnd, 7);
    assert_eq!(w.rect_src, r(10, 10, 300, 200));
    // Too small.
    assert!(evaluate_window(7, facts((10, 10, 30, 200)), "Notepad", (0, 0), 1000, 1000).is_none());
    // Shell class.
    assert!(evaluate_window(7, facts((10, 10, 300, 200)), "Progman", (0, 0), 1000, 1000).is_none());
    // Minimized.
    let mut f = facts((10, 10, 300, 200));
    f.styles = Some((0x2000_0000 | 0x00C0_0000, 0));
    assert!(evaluate_window(7, f, "Notepad", (0, 0), 1000, 1000).is_none());
    // Caption-less layered overlay.
    let mut g = facts((10, 10, 300, 200));
    g.styles = Some((0, 0x0008_0000));
    assert!(evaluate_window(7, g, "Notepad", (0, 0), 1000, 1000).is_none());
    // Outside the image.
    assert!(evaluate_window(7, facts((2000, 10, 2300, 200)), "Notepad", (0, 0), 1000, 1000).is_none());
}

#[test]
fn record_skips_windows_hidden_behind_earlier_ones() {
    let mut snap = Snapshot::new(Vec::new(), (0, 0), 500, 500);
    snap.record(win(r(0, 0, 300, 300)));
    snap.record(win(r(10, 10, 100, 100)));
    snap.record(win(r(200, 200, 400, 400)));
    assert_eq!(snap.windows.len(), 2);
    assert_eq!(snap.windows[1].rect_src, r(200, 200, 400, 400));
}

#[test]
fn snap_rect_prefers_smallest_descendant_and_falls_back_to_window() {
    let top = SnapWindow::new(1, (0, 0, 800, 600), r(0, 0, 800, 600));
    let snap = Snapshot::new(vec![top], (0, 0), 800, 600);
    let desc = [(0, 0, 800, 600), (100, 100, 500, 400)];
    assert_eq!(snap.snap_rect(0, 200, 200, &desc), Some(r(100, 100, 500, 400)));
    assert_eq!(snap.snap_rect(0, 700, 500, &desc), Some(r(0, 0, 800, 600)));
    assert_eq!(snap.snap_rect(0, 700, 500, &[]), Some(r(0, 0, 800, 600)));
}
