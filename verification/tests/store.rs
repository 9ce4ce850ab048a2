use pashari::store::hotkeys::{render_string_list, render_toml, HotkeyConfig};
use pashari::store::uploaders::{render_toml as render_uploaders, render_uploaders_toml, UploaderConfig};
use pashari::store::UploaderProfile;

fn strings(v: &toml::Value) -> Vec<String> {
    match v {
        toml::Value::String(s) => vec![s.clone()],
        toml::Value::Array(a) => a.iter().map(|x| x.as_str().unwrap().to_string()).collect(),
        _ => panic!("not a hotkey list"),
    }
}

fn parse(text: &str) -> toml::Table {
    text.parse::<toml::Table>().expect("生成した toml が解釈できるはず")
}

fn field_or<'a>(t: &'a toml::Table, key: &str, default: &'a [String]) -> Vec<String> {
    t.get(key).map(strings).unwrap_or_else(|| default.to_vec())
}

#[test]
fn hotkey_fields_accept_old_scalar_string_format() {
    let text = r#"
hotkey = "Ctrl+Shift+2"
hotkey_undo = "Ctrl+Z"
hotkey_redo = "Ctrl+Shift+Z"
hotkey_reuse_region = "R"
hotkey_clear_selection = "X"
hotkey_quit = "Q"
hotkey_menu_save = "S"
hotkey_menu_copy = "C"
hotkey_menu_edit = "E"
hotkey_menu_upload = "U"
hotkey_menu_record = "V"
hotkey_editor_reset_zoom = "Ctrl+0"
"#;
    let parsed = text.parse::<toml::Table>().expect("旧形式のスカラー文字列でも解釈できるはず");
    assert_eq!(strings(&parsed["hotkey"]), vec!["Ctrl+Shift+2".to_string()]);
    assert_eq!(strings(&parsed["hotkey_undo"]), vec!["Ctrl+Z".to_string()]);
    assert_eq!(strings(&parsed["hotkey_editor_reset_zoom"]), vec!["Ctrl+0".to_string()]);
}

#[test]
fn render_toml_round_trips_multiple_hotkey_bindings() {
    let mut cfg = HotkeyConfig::default();
    cfg.hotkey = vec!["Ctrl+Shift+2".into(), "F9".into()];
    cfg.hotkey_undo = vec!["Ctrl+Z".into(), "Ctrl+Shift+U".into()];
    let text = render_toml(&cfg);
    let parsed = parse(&text);
    assert_eq!(strings(&parsed["hotkey"]), vec!["Ctrl+Shift+2".to_string(), "F9".to_string()]);
    assert_eq!(strings(&parsed["hotkey_undo"]), vec!["Ctrl+Z".to_string(), "Ctrl+Shift+U".to_string()]);
}

#[test]
fn render_toml_round_trips_editor_tool_shortcut_defaults() {
    let text = render_toml(&HotkeyConfig::default());
    let parsed = parse(&text);
    assert_eq!(strings(&parsed["hotkey_editor_tool_select"]), vec!["V".to_string()]);
    assert_eq!(strings(&parsed["hotkey_editor_tool_arrow"]), vec!["A".to_string()]);
    assert_eq!(strings(&parsed["hotkey_editor_tool_polyline"]), vec!["L".to_string()]);
    assert_eq!(strings(&parsed["hotkey_editor_tool_draw"]), vec!["D".to_string()]);
    assert_eq!(strings(&parsed["hotkey_editor_tool_rect"]), vec!["R".to_string()]);
    assert_eq!(strings(&parsed["hotkey_editor_tool_ellipse"]), vec!["C".to_string()]);
    assert_eq!(strings(&parsed["hotkey_editor_tool_text"]), vec!["T".to_string()]);
    assert_eq!(strings(&parsed["hotkey_editor_tool_number_marker"]), vec!["N".to_string()]);
}

#[test]
fn hotkey_fields_missing_from_toml_fall_back_to_defaults() {
    let parsed = "".parse::<toml::Table>().expect("空の toml でも解釈できるはず");
    let d = HotkeyConfig::default();
    assert_eq!(field_or(&parsed, "hotkey", &d.hotkey), d.hotkey);
    assert_eq!(field_or(&parsed, "hotkey_undo", &d.hotkey_undo), d.hotkey_undo);
}

#[test]
fn render_string_list_escapes_quotes_and_backslashes() {
    let v = vec!["a\"b".to_string(), "c\\d".to_string(), "e".to_string()];
    let text = render_string_list(&v);
    assert_eq!(text, r#"["a\"b", "c\\d", "e"]"#);
    let parsed = format!("x = {text}").parse::<toml::Table>().unwrap();
    assert_eq!(strings(&parsed["x"]), v);
    assert_eq!(render_string_list(&[]), "[]");
}

#[test]
fn hotkey_defaults_one_binding_each() {
    let d = HotkeyConfig::default();
    assert_eq!(d.hotkey, vec!["Ctrl+Shift+2"]);
    assert_eq!(d.hotkey_full_screenshot, vec!["Ctrl+Shift+3"]);
    assert_eq!(d.hotkey_full_record, vec!["Ctrl+Shift+4"]);
    assert_eq!(d.hotkey_menu_ocr, vec!["O"]);
}

fn profile_fields(t: &toml::Value) -> (String, String, String, String, String, String, bool) {
    let s = |k: &str| t.get(k).and_then(|v| v.as_str()).unwrap_or("").to_string();
    (
        s("name"),
        s("url"),
        s("file_field"),
        s("token_field"),
        s("token"),
        s("response_field"),
        t.get("enabled").and_then(|v| v.as_bool()).unwrap_or(false),
    )
}

fn uploaders(text: &str) -> Vec<toml::Value> {
    let parsed = parse(text);
    parsed["uploaders"].as_array().unwrap().clone()
}

#[test]
fn render_toml_round_trips_default_uploaders() {
    let original = UploaderConfig::default();
    let text = render_uploaders(&original);
    let parsed = uploaders(&text);
    assert_eq!(parsed.len(), original.uploaders.len());
    for (a, b) in parsed.iter().zip(original.uploaders.iter()) {
        let (name, url, file_field, token_field, token, response_field, enabled) = profile_fields(a);
        assert_eq!(name, b.name);
        assert_eq!(url, b.url);
        assert_eq!(file_field, b.file_field);
        assert_eq!(token_field, b.token_field);
        assert_eq!(token, b.token);
        assert_eq!(response_field, b.response_field);
        assert_eq!(enabled, b.enabled);
    }
}

#[test]
fn render_toml_round_trips_multiple_uploaders() {
    let mut cfg = UploaderConfig::default();
    cfg.uploaders.push(UploaderProfile {
        name: "My S3".into(),
        url: "https://example.test/upload".into(),
        file_field: "file".into(),
        token_field: String::new(),
        token: String::new(),
        response_field: "data.link".into(),
        enabled: true,
    });
    let text = render_uploaders(&cfg);
    let parsed = uploaders(&text);
    assert_eq!(parsed.len(), 2);
    let second = profile_fields(&parsed[1]);
    assert_eq!(second.0, "My S3");
    assert_eq!(second.5, "data.link");
    assert_eq!(second.3, "");
    assert!(profile_fields(&parsed[0]).6);
    assert!(second.6);
}

#[test]
fn render_toml_defaults_enabled_to_false_when_field_is_missing() {
    let text = r#"
[[uploaders]]
name = "Old profile"
url = 'https://example.test/upload'
file_field = "file"
token_field = ""
token = ""
response_field = "url"
"#;
    let parsed = text.parse::<toml::Table>().expect("enabled 無しでも解釈できるはず");
    let list = parsed["uploaders"].as_array().unwrap();
    assert_eq!(list.len(), 1);
    assert!(!profile_fields(&list[0]).6);
}

#[test]
fn render_toml_handles_zero_uploaders() {
    let mut cfg = UploaderConfig::default();
    cfg.uploaders.clear();
    let text = render_uploaders(&cfg);
    let parsed = uploaders(&text);
    assert!(parsed.is_empty());
    assert!(render_uploaders_toml(&[]).ends_with("uploaders = []\n"));
}

#[test]
fn uploader_default_is_gyazo() {
    let d = UploaderConfig::default();
    assert_eq!(d.uploaders.len(), 1);
    assert_eq!(d.uploaders[0].name, "Gyazo");
    assert_eq!(d.uploaders[0].url, "https://upload.gyazo.com/api/upload");
    assert!(d.uploaders[0].enabled);
}
