use global_hotkey::hotkey::{Code, HotKey, Modifiers};
use pashari::hotkey::{parse, parse_spec};

#[test]
fn parses_friendly_hotkey_strings() {
    assert_eq!(
        parse("Ctrl+Shift+2"),
        Some(HotKey::new(Some(Modifiers::CONTROL | Modifiers::SHIFT), Code::Digit2))
    );
    assert_eq!(parse("alt+a"), Some(HotKey::new(Some(Modifiers::ALT), Code::KeyA)));
    assert_eq!(parse("F5"), Some(HotKey::new(None, Code::F5)));
    assert_eq!(
        parse("Ctrl+NumpadSubtract"),
        Some(HotKey::new(Some(Modifiers::CONTROL), Code::NumpadSubtract))
    );
    assert_eq!(parse("Ctrl+"), None);
}

#[test]
fn parse_spec_expands_digits_and_letters() {
    let h = parse_spec(" win + Option + q ").unwrap();
    assert!(h.meta && h.alt && !h.ctrl && !h.shift);
    assert_eq!(h.code, "KeyQ");
    assert_eq!(parse_spec("7").unwrap().code, "Digit7");
    assert_eq!(parse_spec("Shift+PrintScreen").unwrap().code, "PrintScreen");
    assert!(parse_spec("Ctrl+Shift").is_none());
}

#[test]
fn last_key_token_wins_and_unknown_names_fail() {
    assert_eq!(parse("A+B"), Some(HotKey::new(None, Code::KeyB)));
    assert_eq!(parse("Ctrl+NotAKey"), None);
    assert_eq!(parse("cmd+Space"), Some(HotKey::new(Some(Modifiers::META), Code::Space)));
}

use pashari::hotkey::modifier_bits;

#[test]
fn modifier_bits_match_the_modifiers_flags() {
    assert_eq!(modifier_bits(false, false, false, false), None);
    assert_eq!(modifier_bits(true, false, false, false), Some(Modifiers::CONTROL.bits()));
    assert_eq!(modifier_bits(false, true, false, false), Some(Modifiers::SHIFT.bits()));
    assert_eq!(modifier_bits(false, false, true, false), Some(Modifiers::ALT.bits()));
    assert_eq!(modifier_bits(false, false, false, true), Some(Modifiers::META.bits()));
    assert_eq!(
        modifier_bits(true, true, true, true),
        Some((Modifiers::CONTROL | Modifiers::SHIFT | Modifiers::ALT | Modifiers::META).bits())
    );
}

#[test]
fn parse_keeps_ctrl_and_shift_apart() {
    let k = parse("Ctrl+2").unwrap();
    assert_eq!(k.mods, Modifiers::CONTROL);
    assert_eq!(k.key, Code::Digit2);
    let k = parse("Shift+2").unwrap();
    assert_eq!(k.mods, Modifiers::SHIFT);
}
