use pashari::session::{
    label_from_dir_name, list, name_le_exec, prune, sort_names, summarize, timestamp_dir_name,
};

fn strings(v: &[&str]) -> Vec<String> {
    v.iter().map(|s| s.to_string()).collect()
}

#[test]
fn label_from_dir_name_formats_date_and_time() {
    assert_eq!(label_from_dir_name("2026-07-18_15-30-02_1234_5678"), "2026-07-18 15:30:02");
}

#[test]
fn label_from_dir_name_falls_back_to_raw_name_when_too_short() {
    assert_eq!(label_from_dir_name("weird"), "weird");
}

#[test]
fn label_from_dir_name_exactly_nineteen_bytes() {
    assert_eq!(label_from_dir_name("2026-01-02_03-04-05"), "2026-01-02 03:04:05");
}

#[test]
fn prune_in_removes_oldest_beyond_limit() {
    let names = strings(&[
        "2026-01-03_00-00-01_1_1",
        "2026-01-01_00-00-01_1_1",
        "2026-01-02_00-00-01_1_1",
    ]);
    assert_eq!(prune(&names, 2), vec!["2026-01-01_00-00-01_1_1"]);
}

#[test]
fn prune_in_keeps_everything_when_under_limit() {
    let names = strings(&["2026-01-01_00-00-01_1_1"]);
    assert!(prune(&names, 10).is_empty());
}

#[test]
fn prune_to_zero_removes_all_oldest_first() {
    let names = strings(&["b", "a", "c"]);
    assert_eq!(prune(&names, 0), vec!["a", "b", "c"]);
}

#[test]
fn list_orders_newest_first() {
    let names = strings(&["2026-01-02_x", "2026-01-03_x", "2026-01-01_x"]);
    assert_eq!(list(&names), vec!["2026-01-03_x", "2026-01-02_x", "2026-01-01_x"]);
}

#[test]
fn sort_names_matches_string_order() {
    let names = strings(&["b", "ab", "a", "", "ä", "Z", "abc"]);
    let mut expected = names.clone();
    expected.sort();
    assert_eq!(sort_names(&names), expected);
}

#[test]
fn name_order_is_byte_order() {
    assert!(name_le_exec("a", "ab"));
    assert!(!name_le_exec("ab", "a"));
    assert!(name_le_exec("Z", "a"));
    assert!(name_le_exec("z", "é"));
    assert!(name_le_exec("", ""));
}

#[test]
fn timestamp_dir_name_has_expected_shape() {
    let now = std::time::SystemTime::now()
        .duration_since(std::time::UNIX_EPOCH)
        .unwrap();
    let name = timestamp_dir_name(
        now.as_secs() as i64,
        now.subsec_nanos(),
        0,
        4242,
        now.as_nanos(),
    )
    .unwrap();
    let parts: Vec<&str> = name.splitn(3, '_').collect();
    assert_eq!(parts.len(), 3);
    assert_eq!(parts[0].len(), 10);
    assert_eq!(parts[1].len(), 8);
    assert!(!parts[2].is_empty());
}

#[test]
fn timestamp_dir_name_exact_at_epoch() {
    assert_eq!(
        timestamp_dir_name(0, 0, 0, 42, 7).unwrap(),
        "1970-01-01_00-00-00_42_7"
    );
}

#[test]
fn timestamp_dir_name_applies_offset() {
    // 2026-07-18 15:30:02 UTC, shown nine hours east.
    let secs = 1_784_388_602;
    assert_eq!(
        timestamp_dir_name(secs, 0, 9 * 3600, 1234, 340_282_366_920_938_463_463_374_607_431_768_211_455)
            .unwrap(),
        "2026-07-19_00-30-02_1234_340282366920938463463374607431768211455"
    );
}

#[test]
fn timestamp_dir_name_refuses_bad_offset() {
    assert!(timestamp_dir_name(0, 0, 86_400, 1, 1).is_none());
}

#[test]
fn timestamp_dir_name_label_round_trip() {
    let name = timestamp_dir_name(1_784_388_602, 0, 0, 99, 5).unwrap();
    assert_eq!(label_from_dir_name(&name), "2026-07-18 15:30:02");
}

#[test]
fn summarize_packs_thumbnail_and_labels() {
    let rgba = [0x11, 0x22, 0x33, 0xFF, 0xAA, 0xBB, 0xCC, 0x00, 0x01];
    let s = summarize("C:/s/x".to_string(), "2026-07-18_15-30-02_1_2", 2, 1, &rgba);
    assert_eq!(s.dir, "C:/s/x");
    assert_eq!(s.label, "2026-07-18 15:30:02");
    assert_eq!((s.thumb_w, s.thumb_h), (2, 1));
    assert_eq!(*s.thumb, vec![0x0011_2233, 0x00AA_BBCC]);
}

use pashari::export::{encode_png, Shot};
use pashari::session::summarize_from_thumb;

#[test]
fn label_counts_characters_not_bytes() {
    let name = format!("\u{e9}{}", "x".repeat(18));
    assert_eq!(label_from_dir_name(&name), format!("\u{e9}xxxxxxxxx {}", "x".repeat(8)));
    let kana = "\u{3042}".repeat(12);
    assert_eq!(label_from_dir_name(&kana), kana);
    let long = "\u{3042}".repeat(20);
    assert_eq!(
        label_from_dir_name(&long),
        format!("{} {}", "\u{3042}".repeat(10), "\u{3042}".repeat(8))
    );
}

#[test]
fn summarize_from_thumb_decodes_png_and_skips_garbage() {
    let png = encode_png(&Shot { width: 1, height: 2, rgba: vec![1, 2, 3, 4, 5, 6, 7, 8] }).unwrap();
    let s = summarize_from_thumb("d".to_string(), "2026-07-18_15-30-02_1_2", &png).unwrap();
    assert_eq!((s.thumb_w, s.thumb_h), (1, 2));
    assert_eq!(*s.thumb, vec![0x0001_0203, 0x0005_0607]);
    assert_eq!(s.label, "2026-07-18 15:30:02");
    assert!(summarize_from_thumb("d".to_string(), "x", b"nope").is_none());
}
