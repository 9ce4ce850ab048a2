//! The hotkey configuration file: its defaults and the commented TOML
//! text written for it.

use vstd::prelude::*;
use vstd::string::StringExecFns;
use crate::text::{occurs_at, push_str, string_from_chars, to_chars};

verus! {

/// The hotkey configuration: global hotkeys and in-app shortcuts, each
/// a list of key combinations (any of which works).
#[derive(Clone, Debug)]
pub struct HotkeyConfig {
    pub hotkey: Vec<String>,
    pub hotkey_full_screenshot: Vec<String>,
    pub hotkey_full_record: Vec<String>,
    pub hotkey_undo: Vec<String>,
    pub hotkey_redo: Vec<String>,
    pub hotkey_reuse_region: Vec<String>,
    pub hotkey_clear_selection: Vec<String>,
    pub hotkey_save_as: Vec<String>,
    pub hotkey_edit_external: Vec<String>,
    pub hotkey_quit: Vec<String>,
    pub hotkey_menu_save: Vec<String>,
    pub hotkey_menu_copy: Vec<String>,
    pub hotkey_menu_edit: Vec<String>,
    pub hotkey_menu_upload: Vec<String>,
    pub hotkey_menu_record: Vec<String>,
    pub hotkey_menu_ocr: Vec<String>,
    pub hotkey_editor_reset_zoom: Vec<String>,
    pub hotkey_editor_tool_select: Vec<String>,
    pub hotkey_editor_tool_arrow: Vec<String>,
    pub hotkey_editor_tool_polyline: Vec<String>,
    pub hotkey_editor_tool_draw: Vec<String>,
    pub hotkey_editor_tool_rect: Vec<String>,
    pub hotkey_editor_tool_ellipse: Vec<String>,
    pub hotkey_editor_tool_text: Vec<String>,
    pub hotkey_editor_tool_number_marker: Vec<String>,
}

/// The key combination texts of a list.
pub open spec fn strings_view(v: Seq<String>) -> Seq<Seq<char>> {
    v.map_values(|s: String| s@)
}

/// A list holding only `s`.
fn one(s: &str) -> (r: Vec<String>)
    ensures
        strings_view(r@) == seq![s@],
{
    let mut v: Vec<String> = Vec::new();
    v.push(String::from_str(s));
    proof {
        assert(strings_view(v@) =~= seq![s@]);
    }
    v
}

impl Default for HotkeyConfig {
    /// One binding per action.
    fn default() -> (r: Self)
        ensures
            strings_view(r.hotkey@) == seq!["Ctrl+Shift+2"@],
            strings_view(r.hotkey_full_screenshot@) == seq!["Ctrl+Shift+3"@],
            strings_view(r.hotkey_full_record@) == seq!["Ctrl+Shift+4"@],
            strings_view(r.hotkey_undo@) == seq!["Ctrl+Z"@],
            strings_view(r.hotkey_redo@) == seq!["Ctrl+Shift+Z"@],
            strings_view(r.hotkey_reuse_region@) == seq!["R"@],
            strings_view(r.hotkey_clear_selection@) == seq!["X"@],
            strings_view(r.hotkey_save_as@) == seq!["Shift+S"@],
            strings_view(r.hotkey_edit_external@) == seq!["Shift+E"@],
            strings_view(r.hotkey_quit@) == seq!["Q"@],
            strings_view(r.hotkey_menu_save@) == seq!["S"@],
            strings_view(r.hotkey_menu_copy@) == seq!["C"@],
            strings_view(r.hotkey_menu_edit@) == seq!["E"@],
            strings_view(r.hotkey_menu_upload@) == seq!["U"@],
            strings_view(r.hotkey_menu_record@) == seq!["V"@],
            strings_view(r.hotkey_menu_ocr@) == seq!["O"@],
            strings_view(r.hotkey_editor_reset_zoom@) == seq!["Ctrl+0"@],
            strings_view(r.hotkey_editor_tool_select@) == seq!["V"@],
            strings_view(r.hotkey_editor_tool_arrow@) == seq!["A"@],
            strings_view(r.hotkey_editor_tool_polyline@) == seq!["L"@],
            strings_view(r.hotkey_editor_tool_draw@) == seq!["D"@],
            strings_view(r.hotkey_editor_tool_rect@) == seq!["R"@],
            strings_view(r.hotkey_editor_tool_ellipse@) == seq!["C"@],
            strings_view(r.hotkey_editor_tool_text@) == seq!["T"@],
            strings_view(r.hotkey_editor_tool_number_marker@) == seq!["N"@],
    {
        HotkeyConfig {
            hotkey: one("Ctrl+Shift+2"),
            hotkey_full_screenshot: one("Ctrl+Shift+3"),
            hotkey_full_record: one("Ctrl+Shift+4"),
            hotkey_undo: one("Ctrl+Z"),
            hotkey_redo: one("Ctrl+Shift+Z"),
            hotkey_reuse_region: one("R"),
            hotkey_clear_selection: one("X"),
            hotkey_save_as: one("Shift+S"),
            hotkey_edit_external: one("Shift+E"),
            hotkey_quit: one("Q"),
            hotkey_menu_save: one("S"),
            hotkey_menu_copy: one("C"),
            hotkey_menu_edit: one("E"),
            hotkey_menu_upload: one("U"),
            hotkey_menu_record: one("V"),
            hotkey_menu_ocr: one("O"),
            hotkey_editor_reset_zoom: one("Ctrl+0"),
            hotkey_editor_tool_select: one("V"),
            hotkey_editor_tool_arrow: one("A"),
            hotkey_editor_tool_polyline: one("L"),
            hotkey_editor_tool_draw: one("D"),
            hotkey_editor_tool_rect: one("R"),
            hotkey_editor_tool_ellipse: one("C"),
            hotkey_editor_tool_text: one("T"),
            hotkey_editor_tool_number_marker: one("N"),
        }
    }
}

/// Number of settings in the hotkey file.
pub const HOTKEY_SETTING_COUNT: usize = 25;

/// The comment lines written above setting `j`: the file's header above
/// the first, the block on in-app shortcuts (after a blank line) above
/// `hotkey_undo`, none elsewhere.
pub open spec fn hotkey_comment(j: int) -> Seq<char> {
    if j == 0 {
        "# pashari ホットキー設定ファイル。トレイ → Settings → Hotkeys タブの GUI から\n# 変更できます（手編集も可）。変更は GUI の Save で即反映、手編集の場合は\n# 再起動で反映されます。\n\n# 領域選択を起動するグローバルホットキー（複数登録可）。\n# 修飾子: Ctrl / Shift / Alt / Super(Win)。キー: 数字 / 英字 / F1..F12 / NumpadSubtract など。\n# 例: [\"Ctrl+Shift+2\", \"Alt+PrintScreen\"]"@ + seq!['\n']
    } else if j == 3 {
        seq!['\n'] + "# アプリ内のローカルショートカット（Undo/Redo・領域選択・エディタ。複数登録可）。\n# 設定GUIの Hotkeys タブから変更してください。手編集する場合は\n# \"R\" や \"Ctrl+Z\" のように、Ctrl/Shift/Alt の組み合わせ＋英数字1文字で書きます。"@ + seq!['\n']
    } else {
        Seq::empty()
    }
}

/// The text written for setting `j` of `c`: its comment lines, then
/// `key = [..]` and a line break.
pub open spec fn hotkey_entry(c: HotkeyConfig, j: int) -> Seq<char> {
    hotkey_comment(j) + hotkey_key_name(j) + seq![' ', '=', ' '] + spec_string_list(
        strings_view(hotkey_field(c, j)),
    ) + seq!['\n']
}

/// The text of the first `n` settings of `c`.
pub open spec fn hotkeys_toml_upto(c: HotkeyConfig, n: nat) -> Seq<char>
    decreases n,
{
    if n == 0 {
        Seq::empty()
    } else {
        hotkeys_toml_upto(c, (n - 1) as nat) + hotkey_entry(c, n - 1)
    }
}

/// The text written for `c`: a commented template with each list in place.
pub open spec fn spec_hotkeys_toml(c: HotkeyConfig) -> Seq<char> {
    hotkeys_toml_upto(c, 25)
}

/// The key of setting `j` (0 to 24) in the file.
pub open spec fn hotkey_key_name(j: int) -> Seq<char> {
    if j == 0 {
        "hotkey"@
    } else if j == 1 {
        "hotkey_full_screenshot"@
    } else if j == 2 {
        "hotkey_full_record"@
    } else if j == 3 {
        "hotkey_undo"@
    } else if j == 4 {
        "hotkey_redo"@
    } else if j == 5 {
        "hotkey_reuse_region"@
    } else if j == 6 {
        "hotkey_clear_selection"@
    } else if j == 7 {
        "hotkey_save_as"@
    } else if j == 8 {
        "hotkey_edit_external"@
    } else if j == 9 {
        "hotkey_quit"@
    } else if j == 10 {
        "hotkey_menu_save"@
    } else if j == 11 {
        "hotkey_menu_copy"@
    } else if j == 12 {
        "hotkey_menu_edit"@
    } else if j == 13 {
        "hotkey_menu_upload"@
    } else if j == 14 {
        "hotkey_menu_record"@
    } else if j == 15 {
        "hotkey_menu_ocr"@
    } else if j == 16 {
        "hotkey_editor_reset_zoom"@
    } else if j == 17 {
        "hotkey_editor_tool_select"@
    } else if j == 18 {
        "hotkey_editor_tool_arrow"@
    } else if j == 19 {
        "hotkey_editor_tool_polyline"@
    } else if j == 20 {
        "hotkey_editor_tool_draw"@
    } else if j == 21 {
        "hotkey_editor_tool_rect"@
    } else if j == 22 {
        "hotkey_editor_tool_ellipse"@
    } else if j == 23 {
        "hotkey_editor_tool_text"@
    } else {
        "hotkey_editor_tool_number_marker"@
    }
}

/// The bindings of setting `j` of `c`, in file order.
pub open spec fn hotkey_field(c: HotkeyConfig, j: int) -> Seq<String> {
    if j == 0 {
        c.hotkey@
    } else if j == 1 {
        c.hotkey_full_screenshot@
    } else if j == 2 {
        c.hotkey_full_record@
    } else if j == 3 {
        c.hotkey_undo@
    } else if j == 4 {
        c.hotkey_redo@
    } else if j == 5 {
        c.hotkey_reuse_region@
    } else if j == 6 {
        c.hotkey_clear_selection@
    } else if j == 7 {
        c.hotkey_save_as@
    } else if j == 8 {
        c.hotkey_edit_external@
    } else if j == 9 {
        c.hotkey_quit@
    } else if j == 10 {
        c.hotkey_menu_save@
    } else if j == 11 {
        c.hotkey_menu_copy@
    } else if j == 12 {
        c.hotkey_menu_edit@
    } else if j == 13 {
        c.hotkey_menu_upload@
    } else if j == 14 {
        c.hotkey_menu_record@
    } else if j == 15 {
        c.hotkey_menu_ocr@
    } else if j == 16 {
        c.hotkey_editor_reset_zoom@
    } else if j == 17 {
        c.hotkey_editor_tool_select@
    } else if j == 18 {
        c.hotkey_editor_tool_arrow@
    } else if j == 19 {
        c.hotkey_editor_tool_polyline@
    } else if j == 20 {
        c.hotkey_editor_tool_draw@
    } else if j == 21 {
        c.hotkey_editor_tool_rect@
    } else if j == 22 {
        c.hotkey_editor_tool_ellipse@
    } else if j == 23 {
        c.hotkey_editor_tool_text@
    } else {
        c.hotkey_editor_tool_number_marker@
    }
}

/// The key of setting `j`.
fn hotkey_key_name_exec(j: usize) -> (r: &'static str)
    requires
        j < HOTKEY_SETTING_COUNT,
    ensures
        r@ == hotkey_key_name(j as int),
{
    if j == 0 {
        "hotkey"
    } else if j == 1 {
        "hotkey_full_screenshot"
    } else if j == 2 {
        "hotkey_full_record"
    } else if j == 3 {
        "hotkey_undo"
    } else if j == 4 {
        "hotkey_redo"
    } else if j == 5 {
        "hotkey_reuse_region"
    } else if j == 6 {
        "hotkey_clear_selection"
    } else if j == 7 {
        "hotkey_save_as"
    } else if j == 8 {
        "hotkey_edit_external"
    } else if j == 9 {
        "hotkey_quit"
    } else if j == 10 {
        "hotkey_menu_save"
    } else if j == 11 {
        "hotkey_menu_copy"
    } else if j == 12 {
        "hotkey_menu_edit"
    } else if j == 13 {
        "hotkey_menu_upload"
    } else if j == 14 {
        "hotkey_menu_record"
    } else if j == 15 {
        "hotkey_menu_ocr"
    } else if j == 16 {
        "hotkey_editor_reset_zoom"
    } else if j == 17 {
        "hotkey_editor_tool_select"
    } else if j == 18 {
        "hotkey_editor_tool_arrow"
    } else if j == 19 {
        "hotkey_editor_tool_polyline"
    } else if j == 20 {
        "hotkey_editor_tool_draw"
    } else if j == 21 {
        "hotkey_editor_tool_rect"
    } else if j == 22 {
        "hotkey_editor_tool_ellipse"
    } else if j == 23 {
        "hotkey_editor_tool_text"
    } else {
        "hotkey_editor_tool_number_marker"
    }
}

/// The bindings of setting `j` of `c`.
fn hotkey_field_exec(c: &HotkeyConfig, j: usize) -> (r: &Vec<String>)
    requires
        j < HOTKEY_SETTING_COUNT,
    ensures
        r@ == hotkey_field(*c, j as int),
{
    if j == 0 {
        &c.hotkey
    } else if j == 1 {
        &c.hotkey_full_screenshot
    } else if j == 2 {
        &c.hotkey_full_record
    } else if j == 3 {
        &c.hotkey_undo
    } else if j == 4 {
        &c.hotkey_redo
    } else if j == 5 {
        &c.hotkey_reuse_region
    } else if j == 6 {
        &c.hotkey_clear_selection
    } else if j == 7 {
        &c.hotkey_save_as
    } else if j == 8 {
        &c.hotkey_edit_external
    } else if j == 9 {
        &c.hotkey_quit
    } else if j == 10 {
        &c.hotkey_menu_save
    } else if j == 11 {
        &c.hotkey_menu_copy
    } else if j == 12 {
        &c.hotkey_menu_edit
    } else if j == 13 {
        &c.hotkey_menu_upload
    } else if j == 14 {
        &c.hotkey_menu_record
    } else if j == 15 {
        &c.hotkey_menu_ocr
    } else if j == 16 {
        &c.hotkey_editor_reset_zoom
    } else if j == 17 {
        &c.hotkey_editor_tool_select
    } else if j == 18 {
        &c.hotkey_editor_tool_arrow
    } else if j == 19 {
        &c.hotkey_editor_tool_polyline
    } else if j == 20 {
        &c.hotkey_editor_tool_draw
    } else if j == 21 {
        &c.hotkey_editor_tool_rect
    } else if j == 22 {
        &c.hotkey_editor_tool_ellipse
    } else if j == 23 {
        &c.hotkey_editor_tool_text
    } else {
        &c.hotkey_editor_tool_number_marker
    }
}

/// Renders `c` as the commented TOML file text.
pub fn render_toml(c: &HotkeyConfig) -> (r: String)
    ensures
        r@ == spec_hotkeys_toml(*c),
{
    let mut out: Vec<char> = Vec::new();
    let mut j: usize = 0;
    while j < HOTKEY_SETTING_COUNT
        invariant
            j <= HOTKEY_SETTING_COUNT,
            out@ == hotkeys_toml_upto(*c, j as nat),
        decreases HOTKEY_SETTING_COUNT - j,
    {
        let ghost start = out@;
        if j == 0 {
            push_str(&mut out, "# pashari ホットキー設定ファイル。トレイ → Settings → Hotkeys タブの GUI から\n# 変更できます（手編集も可）。変更は GUI の Save で即反映、手編集の場合は\n# 再起動で反映されます。\n\n# 領域選択を起動するグローバルホットキー（複数登録可）。\n# 修飾子: Ctrl / Shift / Alt / Super(Win)。キー: 数字 / 英字 / F1..F12 / NumpadSubtract など。\n# 例: [\"Ctrl+Shift+2\", \"Alt+PrintScreen\"]");
            out.push('\n');
        } else if j == 3 {
            out.push('\n');
            push_str(&mut out, "# アプリ内のローカルショートカット（Undo/Redo・領域選択・エディタ。複数登録可）。\n# 設定GUIの Hotkeys タブから変更してください。手編集する場合は\n# \"R\" や \"Ctrl+Z\" のように、Ctrl/Shift/Alt の組み合わせ＋英数字1文字で書きます。");
            out.push('\n');
        }
        assert(out@ == start + hotkey_comment(j as int));
        push_str(&mut out, hotkey_key_name_exec(j));
        out.push(' ');
        out.push('=');
        out.push(' ');
        push_string_list(&mut out, hotkey_field_exec(c, j).as_slice());
        out.push('\n');
        assert(out@ =~= start + hotkey_entry(*c, j as int));
        j = j + 1;
    }
    string_from_chars(out.as_slice())
}

/// `s` with `\` and `"` escaped by a backslash, as inside a TOML basic string.
pub open spec fn escaped(s: Seq<char>) -> Seq<char>
    decreases s.len(),
{
    if s.len() == 0 {
        Seq::empty()
    } else {
        escaped(s.drop_last()) + escape_char(s.last())
    }
}

/// One character of `escaped`.
pub open spec fn escape_char(c: char) -> Seq<char> {
    if c == '\\' {
        seq!['\\', '\\']
    } else if c == '"' {
        seq!['\\', '"']
    } else {
        seq![c]
    }
}

/// `s` as a TOML basic string.
pub open spec fn quoted(s: Seq<char>) -> Seq<char> {
    seq!['"'] + escaped(s) + seq!['"']
}

/// The first `n` strings of `v` quoted and separated by `", "`.
pub open spec fn joined(v: Seq<Seq<char>>, n: nat) -> Seq<char>
    decreases n,
{
    if n == 0 {
        Seq::empty()
    } else if n == 1 {
        quoted(v[0])
    } else {
        joined(v, (n - 1) as nat) + ", "@ + quoted(v[n - 1])
    }
}

/// `v` as a TOML array of strings: `["a", "b"]`.
pub open spec fn spec_string_list(v: Seq<Seq<char>>) -> Seq<char> {
    seq!['['] + joined(v, v.len()) + seq![']']
}

/// Appends `s` as a TOML basic string.
fn push_quoted(out: &mut Vec<char>, s: &str)
    ensures
        final(out)@ == old(out)@ + quoted(s@),
{
    let ghost start = out@;
    let v = to_chars(s);
    out.push('"');
    let mut i: usize = 0;
    while i < v.len()
        invariant
            v@ == s@,
            i <= v@.len(),
            out@ == start + seq!['"'] + escaped(v@.take(i as int)),
        decreases v.len() - i,
    {
        let c = v[i];
        if c == '\\' {
            out.push('\\');
            out.push('\\');
        } else if c == '"' {
            out.push('\\');
            out.push('"');
        } else {
            out.push(c);
        }
        proof {
            assert(v@.take(i as int + 1).drop_last() =~= v@.take(i as int));
        }
        i = i + 1;
        assert(out@ =~= start + seq!['"'] + escaped(v@.take(i as int)));
    }
    out.push('"');
    assert(v@.take(v@.len() as int) =~= v@);
    assert(out@ =~= start + quoted(s@));
}

/// Appends `v` as a TOML array of strings.
fn push_string_list(out: &mut Vec<char>, v: &[String])
    ensures
        final(out)@ == old(out)@ + spec_string_list(strings_view(v@)),
{
    let ghost start = out@;
    let ghost sv = strings_view(v@);
    out.push('[');
    let mut i: usize = 0;
    while i < v.len()
        invariant
            sv == strings_view(v@),
            i <= v@.len(),
            out@ == start + seq!['['] + joined(sv, i as nat),
        decreases v.len() - i,
    {
        if i > 0 {
            out.push(',');
            out.push(' ');
        }
        push_quoted(out, v[i].as_str());
        proof {
            assert(sv[i as int] == v@[i as int]@);
            if i > 0 {
                assert(joined(sv, (i + 1) as nat) == joined(sv, i as nat) + ", "@ + quoted(sv[i as int]));
                assert(", "@ =~= seq![',', ' ']) by {
                    reveal_strlit(", ");
                }
            }
        }
        i = i + 1;
        assert(out@ =~= start + seq!['['] + joined(sv, i as nat));
    }
    out.push(']');
    assert(out@ =~= start + spec_string_list(sv));
}

/// Formats `v` as a TOML array literal of strings (`["a", "b"]`).
pub fn render_string_list(v: &[String]) -> (r: String)
    ensures
        r@ == spec_string_list(strings_view(v@)),
{
    let mut out: Vec<char> = Vec::new();
    push_string_list(&mut out, v);
    assert(out@ =~= spec_string_list(strings_view(v@)));
    string_from_chars(out.as_slice())
}


/// Whether the text `t` holds, at the start of a line, the line
/// `key = value`.
pub open spec fn has_setting(t: Seq<char>, key: Seq<char>, value: Seq<char>) -> bool {
    exists|a: int| #[trigger] occurs_at(t, a, setting_line(key, value)) && a >= 1 && t[a - 1] == '\n'
}

/// The line `key = value` with its line break.
pub open spec fn setting_line(key: Seq<char>, value: Seq<char>) -> Seq<char> {
    key + seq![' ', '=', ' '] + value + seq!['\n']
}

proof fn lemma_upto_prefix(c: HotkeyConfig, i: nat, n: nat)
    requires
        i <= n,
    ensures
        hotkeys_toml_upto(c, n).subrange(0, hotkeys_toml_upto(c, i).len() as int)
            == hotkeys_toml_upto(c, i),
        hotkeys_toml_upto(c, i).len() <= hotkeys_toml_upto(c, n).len(),
    decreases n - i,
{
    if i < n {
        lemma_upto_prefix(c, i, (n - 1) as nat);
        let p = hotkeys_toml_upto(c, (n - 1) as nat);
        assert(hotkeys_toml_upto(c, n) == p + hotkey_entry(c, n - 1));
        assert(hotkeys_toml_upto(c, n).subrange(0, hotkeys_toml_upto(c, i).len() as int)
            =~= p.subrange(0, hotkeys_toml_upto(c, i).len() as int));
    } else {
        assert(hotkeys_toml_upto(c, n).subrange(0, hotkeys_toml_upto(c, i).len() as int)
            =~= hotkeys_toml_upto(c, i));
    }
}

proof fn lemma_setting_at(c: HotkeyConfig, j: int)
    requires
        0 <= j < 25,
    ensures
        has_setting(
            spec_hotkeys_toml(c),
            hotkey_key_name(j),
            spec_string_list(strings_view(hotkey_field(c, j))),
        ),
{
    let t = spec_hotkeys_toml(c);
    lemma_upto_prefix(c, (j + 1) as nat, 25);
    let before = hotkeys_toml_upto(c, j as nat);
    let e = hotkey_entry(c, j);
    let upto = hotkeys_toml_upto(c, (j + 1) as nat);
    assert(upto == before + e);
    let cm = hotkey_comment(j);
    let line = setting_line(hotkey_key_name(j), spec_string_list(strings_view(hotkey_field(c, j))));
    assert(e =~= cm + line);
    let a: int = (before.len() + cm.len()) as int;
    assert(t.subrange(0, upto.len() as int) == upto);
    assert(t.subrange(a, a + line.len()) =~= upto.subrange(a, a + line.len()));
    assert(upto.subrange(a, a + line.len()) =~= line);
    assert(occurs_at(t, a, line));
    if cm.len() > 0 {
        assert(cm[cm.len() - 1] == '\n');
        assert(t[a - 1] == upto[a - 1]);
        assert(upto[a - 1] == cm[cm.len() - 1]);
    } else {
        assert(j >= 1);
        lemma_upto_prefix(c, j as nat, 25);
        let prev = hotkeys_toml_upto(c, (j - 1) as nat);
        let pe = hotkey_entry(c, j - 1);
        assert(before == prev + pe);
        assert(pe[pe.len() - 1] == '\n');
        assert(t[a - 1] == upto[a - 1]);
        assert(upto[a - 1] == before[a - 1]);
    }
}

/// Every binding list is written back under its own key: the file text
/// holds, each at the start of a line, `hotkey = ` followed by the list
/// `c.hotkey`, `hotkey_redo = ` followed by `c.hotkey_redo`, and so on for
/// all 25 settings, so reading the file back gives each list unchanged.
pub proof fn lemma_hotkeys_toml_keeps_each_binding(c: HotkeyConfig)
    ensures
        ({
            let t = spec_hotkeys_toml(c);
            &&& has_setting(t, "hotkey"@, spec_string_list(strings_view(c.hotkey@)))
            &&& has_setting(t, "hotkey_full_screenshot"@, spec_string_list(strings_view(c.hotkey_full_screenshot@)))
            &&& has_setting(t, "hotkey_full_record"@, spec_string_list(strings_view(c.hotkey_full_record@)))
            &&& has_setting(t, "hotkey_undo"@, spec_string_list(strings_view(c.hotkey_undo@)))
            &&& has_setting(t, "hotkey_redo"@, spec_string_list(strings_view(c.hotkey_redo@)))
            &&& has_setting(t, "hotkey_reuse_region"@, spec_string_list(strings_view(c.hotkey_reuse_region@)))
            &&& has_setting(t, "hotkey_clear_selection"@, spec_string_list(strings_view(c.hotkey_clear_selection@)))
            &&& has_setting(t, "hotkey_save_as"@, spec_string_list(strings_view(c.hotkey_save_as@)))
            &&& has_setting(t, "hotkey_edit_external"@, spec_string_list(strings_view(c.hotkey_edit_external@)))
            &&& has_setting(t, "hotkey_quit"@, spec_string_list(strings_view(c.hotkey_quit@)))
            &&& has_setting(t, "hotkey_menu_save"@, spec_string_list(strings_view(c.hotkey_menu_save@)))
            &&& has_setting(t, "hotkey_menu_copy"@, spec_string_list(strings_view(c.hotkey_menu_copy@)))
            &&& has_setting(t, "hotkey_menu_edit"@, spec_string_list(strings_view(c.hotkey_menu_edit@)))
            &&& has_setting(t, "hotkey_menu_upload"@, spec_string_list(strings_view(c.hotkey_menu_upload@)))
            &&& has_setting(t, "hotkey_menu_record"@, spec_string_list(strings_view(c.hotkey_menu_record@)))
            &&& has_setting(t, "hotkey_menu_ocr"@, spec_string_list(strings_view(c.hotkey_menu_ocr@)))
            &&& has_setting(t, "hotkey_editor_reset_zoom"@, spec_string_list(strings_view(c.hotkey_editor_reset_zoom@)))
            &&& has_setting(t, "hotkey_editor_tool_select"@, spec_string_list(strings_view(c.hotkey_editor_tool_select@)))
            &&& has_setting(t, "hotkey_editor_tool_arrow"@, spec_string_list(strings_view(c.hotkey_editor_tool_arrow@)))
            &&& has_setting(t, "hotkey_editor_tool_polyline"@, spec_string_list(strings_view(c.hotkey_editor_tool_polyline@)))
            &&& has_setting(t, "hotkey_editor_tool_draw"@, spec_string_list(strings_view(c.hotkey_editor_tool_draw@)))
            &&& has_setting(t, "hotkey_editor_tool_rect"@, spec_string_list(strings_view(c.hotkey_editor_tool_rect@)))
            &&& has_setting(t, "hotkey_editor_tool_ellipse"@, spec_string_list(strings_view(c.hotkey_editor_tool_ellipse@)))
            &&& has_setting(t, "hotkey_editor_tool_text"@, spec_string_list(strings_view(c.hotkey_editor_tool_text@)))
            &&& has_setting(t, "hotkey_editor_tool_number_marker"@, spec_string_list(strings_view(c.hotkey_editor_tool_number_marker@)))
        }),
{
    let t = spec_hotkeys_toml(c);
    assert(has_setting(t, "hotkey"@, spec_string_list(strings_view(c.hotkey@)))) by {
        lemma_setting_at(c, 0);
    }
    assert(has_setting(t, "hotkey_full_screenshot"@, spec_string_list(strings_view(c.hotkey_full_screenshot@)))) by {
        lemma_setting_at(c, 1);
    }
    assert(has_setting(t, "hotkey_full_record"@, spec_string_list(strings_view(c.hotkey_full_record@)))) by {
        lemma_setting_at(c, 2);
    }
    assert(has_setting(t, "hotkey_undo"@, spec_string_list(strings_view(c.hotkey_undo@)))) by {
        lemma_setting_at(c, 3);
    }
    assert(has_setting(t, "hotkey_redo"@, spec_string_list(strings_view(c.hotkey_redo@)))) by {
        lemma_setting_at(c, 4);
    }
    assert(has_setting(t, "hotkey_reuse_region"@, spec_string_list(strings_view(c.hotkey_reuse_region@)))) by {
        lemma_setting_at(c, 5);
    }
    assert(has_setting(t, "hotkey_clear_selection"@, spec_string_list(strings_view(c.hotkey_clear_selection@)))) by {
        lemma_setting_at(c, 6);
    }
    assert(has_setting(t, "hotkey_save_as"@, spec_string_list(strings_view(c.hotkey_save_as@)))) by {
        lemma_setting_at(c, 7);
    }
    assert(has_setting(t, "hotkey_edit_external"@, spec_string_list(strings_view(c.hotkey_edit_external@)))) by {
        lemma_setting_at(c, 8);
    }
    assert(has_setting(t, "hotkey_quit"@, spec_string_list(strings_view(c.hotkey_quit@)))) by {
        lemma_setting_at(c, 9);
    }
    assert(has_setting(t, "hotkey_menu_save"@, spec_string_list(strings_view(c.hotkey_menu_save@)))) by {
        lemma_setting_at(c, 10);
    }
    assert(has_setting(t, "hotkey_menu_copy"@, spec_string_list(strings_view(c.hotkey_menu_copy@)))) by {
        lemma_setting_at(c, 11);
    }
    assert(has_setting(t, "hotkey_menu_edit"@, spec_string_list(strings_view(c.hotkey_menu_edit@)))) by {
        lemma_setting_at(c, 12);
    }
    assert(has_setting(t, "hotkey_menu_upload"@, spec_string_list(strings_view(c.hotkey_menu_upload@)))) by {
        lemma_setting_at(c, 13);
    }
    assert(has_setting(t, "hotkey_menu_record"@, spec_string_list(strings_view(c.hotkey_menu_record@)))) by {
        lemma_setting_at(c, 14);
    }
    assert(has_setting(t, "hotkey_menu_ocr"@, spec_string_list(strings_view(c.hotkey_menu_ocr@)))) by {
        lemma_setting_at(c, 15);
    }
    assert(has_setting(t, "hotkey_editor_reset_zoom"@, spec_string_list(strings_view(c.hotkey_editor_reset_zoom@)))) by {
        lemma_setting_at(c, 16);
    }
    assert(has_setting(t, "hotkey_editor_tool_select"@, spec_string_list(strings_view(c.hotkey_editor_tool_select@)))) by {
        lemma_setting_at(c, 17);
    }
    assert(has_setting(t, "hotkey_editor_tool_arrow"@, spec_string_list(strings_view(c.hotkey_editor_tool_arrow@)))) by {
        lemma_setting_at(c, 18);
    }
    assert(has_setting(t, "hotkey_editor_tool_polyline"@, spec_string_list(strings_view(c.hotkey_editor_tool_polyline@)))) by {
        lemma_setting_at(c, 19);
    }
    assert(has_setting(t, "hotkey_editor_tool_draw"@, spec_string_list(strings_view(c.hotkey_editor_tool_draw@)))) by {
        lemma_setting_at(c, 20);
    }
    assert(has_setting(t, "hotkey_editor_tool_rect"@, spec_string_list(strings_view(c.hotkey_editor_tool_rect@)))) by {
        lemma_setting_at(c, 21);
    }
    assert(has_setting(t, "hotkey_editor_tool_ellipse"@, spec_string_list(strings_view(c.hotkey_editor_tool_ellipse@)))) by {
        lemma_setting_at(c, 22);
    }
    assert(has_setting(t, "hotkey_editor_tool_text"@, spec_string_list(strings_view(c.hotkey_editor_tool_text@)))) by {
        lemma_setting_at(c, 23);
    }
    assert(has_setting(t, "hotkey_editor_tool_number_marker"@, spec_string_list(strings_view(c.hotkey_editor_tool_number_marker@)))) by {
        lemma_setting_at(c, 24);
    }
}

} // verus!
