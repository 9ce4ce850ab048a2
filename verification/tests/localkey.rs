use pashari::localkey::{parse, LocalKey};

#[test]
fn parse_display_roundtrip() {
    for spec in ["R", "X", "Q", "Ctrl+Z", "Ctrl+Shift+Z", "Ctrl+0", "Alt+S"] {
        let k = parse(spec).unwrap_or_else(|| panic!("{spec} should parse"));
        assert_eq!(k.to_string(), spec);
    }
}

#[test]
fn parse_is_case_insensitive_for_modifiers_and_key() {
    assert_eq!(parse("ctrl+z"), parse("Ctrl+Z"));
    assert_eq!(parse("CTRL+SHIFT+z"), parse("Ctrl+Shift+Z"));
}

#[test]
fn parse_rejects_multi_char_or_missing_key() {
    assert_eq!(parse("Ctrl+"), None);
    assert_eq!(parse("Ctrl+Foo"), None);
    assert_eq!(parse(""), None);
    assert_eq!(parse("Ctrl+Z+X"), None);
}

#[test]
fn equality_requires_exact_modifier_match() {
    let plain = LocalKey::new(false, false, false, 'r');
    let ctrl = LocalKey::new(true, false, false, 'r');
    assert_ne!(plain, ctrl);
    assert_eq!(plain, LocalKey::new(false, false, false, 'R'));
}

#[test]
fn parse_accepts_aliases_and_spaces() {
    assert_eq!(parse(" control + option + shift + q "), Some(LocalKey::new(true, true, true, 'q')));
    assert_eq!(LocalKey::new(true, true, true, 'q').to_string(), "Ctrl+Shift+Alt+Q");
}

#[test]
fn roundtrip_holds_for_every_modifier_combination() {
    for bits in 0..8u8 {
        let k = LocalKey::new(bits & 1 != 0, bits & 2 != 0, bits & 4 != 0, 'k');
        assert_eq!(parse(&k.to_string()), Some(k));
    }
}
