use pashari::settings::editor_tab::{parse_session_limit, session_limit_row_layout, SessionLimitField};
use pashari::settings::general::{
    commit_filename_format_value, filename_format_row_layout, update_status_text,
    FilenameFormatField, UpdateCheckStatus,
};
use pashari::settings::recent::{session_content_height, session_layout, session_viewport};
use pashari::settings::upload_tab::{
    set_upload_field, upload_field_row_rect, upload_field_value, uploader_content_height,
    uploader_layout,
    uploader_viewport, UploadField, UploadTab,
};
use pashari::settings::{CONTENT_X, WIN_W};
use pashari::store::uploaders::UploaderConfig;
use pashari::store::UploaderProfile;
use pashari::ui::Rect;
use pashari::update::ReleaseInfo;

#[test]
fn parse_session_limit_clamps_and_keeps_current() {
    assert_eq!(parse_session_limit("20", 10), 20);
    assert_eq!(parse_session_limit("0", 10), 1);
    assert_eq!(parse_session_limit("99999", 10), 999);
    assert_eq!(parse_session_limit("", 10), 10);
    assert_eq!(parse_session_limit("abc", 10), 10);
}

#[test]
fn parse_session_limit_trims_and_rejects_overflow() {
    assert_eq!(parse_session_limit("  42 ", 10), 42);
    assert_eq!(parse_session_limit("+7", 10), 7);
    assert_eq!(parse_session_limit("-7", 10), 10);
    assert_eq!(parse_session_limit("99999999999999999999999", 10), 10);
}

#[test]
fn session_limit_field_focus_commit_and_step() {
    let mut f = SessionLimitField::new(10);
    f.focus();
    assert!(f.focus);
    assert_eq!(f.buf, "10");
    assert_eq!(f.cursor.cursor, 2);
    f.buf = "5000".to_string();
    f.cursor.cursor = 4;
    f.cursor.anchor = 4;
    f.commit();
    assert!(!f.focus);
    assert_eq!(f.limit, 999);
    f.step(true);
    assert_eq!(f.limit, 999);
    f.step(false);
    assert_eq!(f.limit, 998);
    let mut g = SessionLimitField::new(1);
    g.step(false);
    assert_eq!(g.limit, 1);
}

#[test]
fn session_limit_row_layout_places_stepper() {
    let (minus, fld, plus) = session_limit_row_layout(230);
    let x0 = CONTENT_X + 230;
    assert_eq!(minus, Rect { x0, y0: 178, x1: x0 + 22, y1: 204 });
    assert_eq!(fld, Rect { x0: x0 + 22, y0: 178, x1: x0 + 70, y1: 204 });
    assert_eq!(plus, Rect { x0: x0 + 70, y0: 178, x1: x0 + 92, y1: 204 });
}

#[test]
fn commit_filename_format_value_trims_and_keeps_current_when_empty() {
    assert_eq!(commit_filename_format_value("pashari_%Y%m%d", "old"), "pashari_%Y%m%d");
    assert_eq!(commit_filename_format_value("  spaced  ", "old"), "spaced");
    assert_eq!(commit_filename_format_value("", "old"), "old");
    assert_eq!(commit_filename_format_value("   ", "old"), "old");
}

#[test]
fn filename_format_field_commit_and_cancel() {
    let mut f = FilenameFormatField::new("old".to_string());
    f.commit();
    assert_eq!(f.value, "old");
    f.focus();
    assert_eq!(f.buf, "old");
    f.buf = " new ".to_string();
    f.cursor.cursor = 0;
    f.cursor.anchor = 0;
    f.commit();
    assert_eq!(f.value, "new");
    f.focus();
    f.cancel();
    assert_eq!(f.value, "new");
    assert!(!f.focus && f.buf.is_empty());
}

#[test]
fn filename_format_row_layout_follows_window_width() {
    let r = filename_format_row_layout(WIN_W);
    assert_eq!(r, Rect { x0: CONTENT_X + 140, y0: 88, x1: WIN_W - 20, y1: 114 });
    let narrow = filename_format_row_layout(10);
    assert_eq!(narrow.x1, narrow.x0);
}

fn test_release_info() -> ReleaseInfo {
    ReleaseInfo {
        version: "9.9.9".to_string(),
        url: "https://example.test/release".to_string(),
        exe_url: None,
        setup_url: None,
    }
}

#[test]
fn update_status_text_is_none_before_any_check() {
    assert_eq!(update_status_text(None, None, false, None), None);
}

#[test]
fn update_status_text_reports_a_newer_version_regardless_of_status() {
    let info = test_release_info();
    let text = update_status_text(Some(&info), None, false, None).unwrap();
    assert!(text.contains("9.9.9"));
    let text_with_status =
        update_status_text(Some(&info), Some(UpdateCheckStatus::Failed), false, None).unwrap();
    assert!(text_with_status.contains("9.9.9"));
}

#[test]
fn update_status_text_reports_up_to_date_and_failed_when_no_newer_version() {
    assert!(update_status_text(None, Some(UpdateCheckStatus::UpToDate), false, None)
        .unwrap()
        .contains("up to date"));
    assert!(update_status_text(None, Some(UpdateCheckStatus::Failed), false, None)
        .unwrap()
        .contains("failed"));
}

#[test]
fn update_status_text_shows_downloading_while_updating() {
    let info = test_release_info();
    let text = update_status_text(Some(&info), None, true, None).unwrap();
    assert!(text.contains("Downloading"));
}

#[test]
fn update_status_text_install_error_takes_priority_over_everything_else() {
    let info = test_release_info();
    let text = update_status_text(Some(&info), Some(UpdateCheckStatus::Failed), true, Some("boom"))
        .unwrap();
    assert!(text.contains("boom"));
}

#[test]
fn update_status_text_exact_messages() {
    let info = test_release_info();
    assert_eq!(
        update_status_text(Some(&info), None, false, None).unwrap(),
        "A new version is available: v9.9.9"
    );
    assert_eq!(update_status_text(None, None, false, Some("x")).unwrap(), "Update failed: x");
    assert_eq!(
        update_status_text(None, Some(UpdateCheckStatus::UpToDate), false, None).unwrap(),
        "You're up to date."
    );
}

#[test]
fn uploader_layout_clamps_visible_rows_to_viewport_bounds() {
    let viewport = uploader_viewport(WIN_W);
    let rows = uploader_layout(10, 0, WIN_W);
    assert!(!rows.is_empty());
    assert!(rows.len() < 10);
    for row in &rows {
        assert!(row.visible.y0 >= viewport.y0 && row.visible.y1 <= viewport.y1);
    }
}

#[test]
fn uploader_layout_scrolling_reveals_later_rows() {
    let rows_top = uploader_layout(10, 0, WIN_W);
    let viewport = uploader_viewport(WIN_W);
    let max_scroll = (uploader_content_height(10) - (viewport.y1 - viewport.y0) as i64).max(0);
    let rows_bottom = uploader_layout(10, max_scroll as i32, WIN_W);
    assert!(rows_top.iter().any(|r| r.index == 0));
    assert!(!rows_bottom.iter().any(|r| r.index == 0));
    assert!(rows_bottom.iter().any(|r| r.index == 9));
}

#[test]
fn uploader_layout_row_geometry() {
    let rows = uploader_layout(10, 20, WIN_W);
    // Row 0 spans 56..86 unclipped; its top is cut at the viewport (76).
    let first = &rows[0];
    assert_eq!(first.index, 0);
    assert_eq!(first.raw.y0, 56);
    assert_eq!(first.visible.y0, 76);
    assert!(first.top_clipped());
    assert!(!first.bottom_clipped());
    assert_eq!(first.delete_raw, Rect { x0: WIN_W - 16 - 10 - 20, y0: 61, x1: WIN_W - 26, y1: 81 });
    assert_eq!(first.check_raw, Rect { x0: CONTENT_X + 8, y0: 63, x1: CONTENT_X + 24, y1: 79 });
    assert_eq!(first.check_visible.y0, 76);
}

#[test]
fn upload_field_row_rect_stacks_rows() {
    let r0 = upload_field_row_rect(0, WIN_W, 110);
    let r1 = upload_field_row_rect(1, WIN_W, 110);
    assert_eq!(r0, Rect { x0: CONTENT_X + 110, y0: 256, x1: WIN_W - 20, y1: 282 });
    assert_eq!(r1.y0, 288);
}

#[test]
fn session_layout_shows_rows_inside_viewport() {
    let sh = 500;
    let vp = session_viewport(WIN_W, sh);
    let rows = session_layout(20, 0, WIN_W, sh);
    assert!(!rows.is_empty() && rows.len() < 20);
    for row in &rows {
        assert!(row.visible.y0 >= vp.y0 && row.visible.y1 <= vp.y1);
    }
    assert_eq!(rows[0].delete_raw.y0, 68 + 22);
    assert_eq!(session_content_height(3), 216);
}

fn profile(name: &str) -> UploaderProfile {
    UploaderProfile {
        name: name.to_string(),
        url: String::new(),
        file_field: "file".to_string(),
        token_field: String::new(),
        token: String::new(),
        response_field: "url".to_string(),
        enabled: false,
    }
}

#[test]
fn upload_tab_add_select_toggle_delete_keep_edited_index_valid() {
    let mut tab = UploadTab::new(UploaderConfig::default().uploaders);
    tab.add();
    assert_eq!(tab.uploaders.len(), 2);
    assert_eq!(tab.editing, 1);
    assert_eq!(tab.uploaders[1].name, "New uploader");
    assert_eq!(tab.uploaders[1].file_field, "file");
    assert_eq!(tab.uploaders[1].response_field, "url");
    tab.toggle_enabled(1);
    assert!(tab.uploaders[1].enabled);
    tab.select(0);
    assert_eq!(tab.editing, 0);
    tab.select(5);
    assert_eq!(tab.editing, 0);
    tab.select(1);
    tab.delete(1);
    assert_eq!(tab.uploaders.len(), 1);
    assert_eq!(tab.editing, 0);
    tab.delete(0);
    assert!(tab.uploaders.is_empty());
    assert_eq!(tab.editing, 0);
}

#[test]
fn upload_tab_focus_commit_writes_field() {
    let mut tab = UploadTab::new(vec![profile("a"), profile("b")]);
    tab.select(1);
    tab.focus_field(UploadField::Url);
    assert_eq!(tab.buf, "");
    tab.buf = "https://x.test".to_string();
    tab.cursor.cursor = 0;
    tab.cursor.anchor = 0;
    // Focusing another field commits the first.
    tab.focus_field(UploadField::Name);
    assert_eq!(tab.uploaders[1].url, "https://x.test");
    assert_eq!(tab.buf, "b");
    assert_eq!(tab.cursor.cursor, 1);
    tab.cancel();
    assert_eq!(tab.uploaders[1].name, "b");
    assert_eq!(upload_field_value(&tab.uploaders[1], UploadField::FileField), "file");
    assert!(UploadField::Token.is_secret());
    assert!(!UploadField::Url.is_secret());
}

use pashari::settings::editor_tab::buttons_editor;
use pashari::settings::recent::buttons_recent;
use pashari::settings::upload_tab::buttons_upload;
use pashari::settings::Btn;

#[test]
fn buttons_upload_lists_rows_then_add_then_fields() {
    let v = buttons_upload(2, 0, WIN_W, 110);
    let kinds: Vec<Btn> = v.iter().map(|(b, _)| *b).collect();
    assert_eq!(
        kinds,
        vec![
            Btn::DeleteUploader(0),
            Btn::ToggleUploaderEnabled(0),
            Btn::SelectUploader(0),
            Btn::DeleteUploader(1),
            Btn::ToggleUploaderEnabled(1),
            Btn::SelectUploader(1),
            Btn::AddUploader,
            Btn::UploadField(UploadField::Name),
            Btn::UploadField(UploadField::Url),
            Btn::UploadField(UploadField::FileField),
            Btn::UploadField(UploadField::TokenField),
            Btn::UploadField(UploadField::Token),
            Btn::UploadField(UploadField::ResponseField),
        ]
    );
    assert_eq!(v[6].1, Rect { x0: CONTENT_X, y0: 216, x1: CONTENT_X + 120, y1: 242 });
    assert_eq!(buttons_upload(0, 0, WIN_W, 110).len(), 1);
}

#[test]
fn buttons_recent_pairs_delete_and_open() {
    let v = buttons_recent(2, 0, WIN_W, 500);
    let kinds: Vec<Btn> = v.iter().map(|(b, _)| *b).collect();
    assert_eq!(
        kinds,
        vec![Btn::DeleteSession(0), Btn::OpenSession(0), Btn::DeleteSession(1), Btn::OpenSession(1)]
    );
}

#[test]
fn buttons_editor_browse_then_stepper() {
    let v = buttons_editor(230);
    assert_eq!(v[0], (Btn::BrowseEditor, Rect { x0: CONTENT_X, y0: 80, x1: CONTENT_X + 100, y1: 110 }));
    assert_eq!(v[1].0, Btn::SessionLimitStep(false));
    assert_eq!(v[2].0, Btn::SessionLimitField);
    assert_eq!(v[3].0, Btn::SessionLimitStep(true));
}

#[test]
fn session_limit_field_activate() {
    let mut f = SessionLimitField::new(5);
    f.activate(Btn::SessionLimitStep(true));
    assert_eq!(f.limit, 6);
    f.activate(Btn::SessionLimitField);
    assert!(f.focus);
    f.activate(Btn::BrowseEditor);
    assert!(f.focus && f.limit == 6);
}

#[test]
fn upload_tab_activate_dispatches() {
    let mut tab = UploadTab::new(vec![profile("a")]);
    tab.activate(Btn::AddUploader);
    assert_eq!(tab.uploaders.len(), 2);
    tab.activate(Btn::ToggleUploaderEnabled(0));
    assert!(tab.uploaders[0].enabled);
    assert_eq!(tab.editing, 0);
    tab.activate(Btn::UploadField(UploadField::Name));
    assert_eq!(tab.focus, Some(UploadField::Name));
    tab.activate(Btn::DeleteUploader(1));
    assert_eq!(tab.uploaders.len(), 1);
    tab.activate(Btn::OpenSession(0));
    assert_eq!(tab.uploaders.len(), 1);
}

#[test]
fn set_upload_field_replaces_only_that_field() {
    let mut p = UploaderConfig::default().uploaders.remove(0);
    let before_url = p.url.clone();
    set_upload_field(&mut p, UploadField::Token, "secret".to_string());
    assert_eq!(p.token, "secret");
    assert_eq!(upload_field_value(&p, UploadField::Token), "secret");
    assert_eq!(p.url, before_url);
    set_upload_field(&mut p, UploadField::Name, "Mine".to_string());
    assert_eq!(upload_field_value(&p, UploadField::Name), "Mine");
    assert_eq!(p.token, "secret");
}

use pashari::settings::upload_tab::{display_index, masked_display};
use pashari::ui::toast_message;

#[test]
fn token_field_is_masked_per_character() {
    assert_eq!(masked_display("a\u{e9}\u{3042}", true), "***");
    assert_eq!(masked_display("a\u{e9}\u{3042}", false), "a\u{e9}\u{3042}");
    assert_eq!(masked_display("", true), "");
}

#[test]
fn display_index_maps_bytes_to_mask_positions() {
    let s = "a\u{e9}\u{3042}b";
    assert_eq!(display_index(s, true, 0), 0);
    assert_eq!(display_index(s, true, 1), 1);
    assert_eq!(display_index(s, true, 3), 2);
    assert_eq!(display_index(s, true, 6), 3);
    assert_eq!(display_index(s, true, 7), 4);
    assert_eq!(display_index(s, false, 3), 3);
}

#[test]
fn toast_message_joins_lines_and_trims() {
    assert_eq!(toast_message("  hello\r\nworld \n"), "hello  world");
    assert_eq!(toast_message("\r\n \t"), "テキストは検出されませんでした");
    assert_eq!(toast_message(""), "テキストは検出されませんでした");
    assert_eq!(toast_message("abc"), "abc");
}

#[test]
fn session_limit_field_activate_puts_caret_at_end() {
    let mut f = SessionLimitField::new(123);
    f.activate(Btn::SessionLimitField);
    assert!(f.focus);
    assert_eq!(f.buf, "123");
    assert_eq!((f.cursor.cursor, f.cursor.anchor), (3, 3));
}
