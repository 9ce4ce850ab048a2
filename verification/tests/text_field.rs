use pashari::textfield::{byte_index_for_char_count, next_char_boundary, prev_char_boundary, TextCursor};

#[test]
fn text_cursor_move_left_right_stop_at_bounds() {
    let buf = "abc";
    let mut c = TextCursor::at_end(buf);
    c.move_left(buf, false);
    assert_eq!(c, TextCursor { cursor: 2, anchor: 2 });
    c.move_left(buf, false);
    c.move_left(buf, false);
    assert_eq!(c, TextCursor { cursor: 0, anchor: 0 });
    c.move_left(buf, false);
    assert_eq!(c, TextCursor { cursor: 0, anchor: 0 });
    c.move_right(buf, false);
    assert_eq!(c, TextCursor { cursor: 1, anchor: 1 });
    c.move_right(buf, false);
    c.move_right(buf, false);
    assert_eq!(c, TextCursor { cursor: 3, anchor: 3 });
    c.move_right(buf, false);
    assert_eq!(c, TextCursor { cursor: 3, anchor: 3 });
}

#[test]
fn text_cursor_move_left_right_skip_whole_multibyte_char() {
    let buf = "aあb";
    let mut c = TextCursor::at_end(buf);
    c.move_left(buf, false);
    assert_eq!(c.cursor, 4);
    c.move_left(buf, false);
    assert_eq!(c.cursor, 1);
    c.move_right(buf, false);
    assert_eq!(c.cursor, 4);
}

#[test]
fn text_cursor_shift_extends_selection_and_plain_arrow_collapses_it() {
    let buf = "abcdef";
    let mut c = TextCursor { cursor: 2, anchor: 2 };
    c.move_right(buf, true);
    c.move_right(buf, true);
    assert_eq!(c.selection(), Some((2, 4)));
    c.move_right(buf, false);
    assert_eq!(c, TextCursor { cursor: 4, anchor: 4 });
    assert_eq!(c.selection(), None);

    let mut c2 = TextCursor { cursor: 4, anchor: 2 };
    c2.move_left(buf, false);
    assert_eq!(c2, TextCursor { cursor: 2, anchor: 2 });
}

#[test]
fn text_cursor_home_end_and_select_all() {
    let buf = "hello";
    let mut c = TextCursor { cursor: 2, anchor: 2 };
    c.move_home(false);
    assert_eq!(c, TextCursor { cursor: 0, anchor: 0 });
    c.move_end(buf, false);
    assert_eq!(c, TextCursor { cursor: 5, anchor: 5 });

    let mut c2 = TextCursor { cursor: 3, anchor: 3 };
    c2.move_home(true);
    assert_eq!(c2.selection(), Some((0, 3)));

    let mut c3 = TextCursor::default();
    c3.select_all(buf);
    assert_eq!(c3.selection(), Some((0, 5)));
}

#[test]
fn text_cursor_insert_replaces_selection_or_inserts_at_cursor() {
    let mut buf = "abcdef".to_string();
    let mut c = TextCursor { cursor: 4, anchor: 1 };
    c.insert(&mut buf, "X");
    assert_eq!(buf, "aXef");
    assert_eq!(c, TextCursor { cursor: 2, anchor: 2 });

    let mut buf2 = "abc".to_string();
    let mut c2 = TextCursor { cursor: 1, anchor: 1 };
    c2.insert(&mut buf2, "Z");
    assert_eq!(buf2, "aZbc");
    assert_eq!(c2, TextCursor { cursor: 2, anchor: 2 });
}

#[test]
fn text_cursor_backspace_and_delete_forward() {
    let mut buf2 = "abc".to_string();
    let mut c2 = TextCursor { cursor: 2, anchor: 2 };
    c2.backspace(&mut buf2);
    assert_eq!(buf2, "ac");
    assert_eq!(c2.cursor, 1);

    let mut buf3 = "abc".to_string();
    let mut c3 = TextCursor { cursor: 1, anchor: 1 };
    c3.delete_forward(&mut buf3);
    assert_eq!(buf3, "ac");
    assert_eq!(c3.cursor, 1);

    let mut buf4 = "abcdef".to_string();
    let mut c4 = TextCursor { cursor: 4, anchor: 1 };
    c4.backspace(&mut buf4);
    assert_eq!(buf4, "aef");
    assert_eq!(c4, TextCursor { cursor: 1, anchor: 1 });
}

#[test]
fn byte_index_for_char_count_handles_multibyte_and_out_of_range() {
    assert_eq!(byte_index_for_char_count("aあb", 0), 0);
    assert_eq!(byte_index_for_char_count("aあb", 1), 1);
    assert_eq!(byte_index_for_char_count("aあb", 2), 1 + 'あ'.len_utf8());
    assert_eq!(byte_index_for_char_count("aあb", 3), "aあb".len());
    assert_eq!(byte_index_for_char_count("aあb", 99), "aあb".len());
}

#[test]
fn insert_then_backspace_restores_text() {
    let mut buf = "aあb".to_string();
    let mut c = TextCursor { cursor: 4, anchor: 4 };
    c.insert(&mut buf, "é");
    assert_eq!(buf, "aあéb");
    c.backspace(&mut buf);
    assert_eq!(buf, "aあb");
    assert_eq!(c, TextCursor { cursor: 4, anchor: 4 });
}

#[test]
fn boundaries_step_over_multibyte_chars() {
    assert_eq!(prev_char_boundary("aあb", 4), Some(1));
    assert_eq!(prev_char_boundary("aあb", 0), None);
    assert_eq!(next_char_boundary("aあb", 1), Some(4));
    assert_eq!(next_char_boundary("aあb", 5), None);
}

#[test]
fn delete_forward_at_end_and_backspace_at_start_do_nothing() {
    let mut buf = "ab".to_string();
    let mut c = TextCursor { cursor: 2, anchor: 2 };
    c.delete_forward(&mut buf);
    assert_eq!(buf, "ab");
    let mut d = TextCursor { cursor: 0, anchor: 0 };
    d.backspace(&mut buf);
    assert_eq!(buf, "ab");
    assert_eq!(d, TextCursor { cursor: 0, anchor: 0 });
}

#[test]
fn set_from_click_moves_caret_and_extends_when_dragging() {
    let mut c = TextCursor { cursor: 1, anchor: 1 };
    c.set_from_click(3, true);
    assert_eq!(c, TextCursor { cursor: 3, anchor: 1 });
    c.set_from_click(2, false);
    assert_eq!(c, TextCursor { cursor: 2, anchor: 2 });
}

#[test]
fn delete_selection_removes_selected_text_either_direction() {
    let mut buf = String::from("h\u{e9}llo");
    let mut c = TextCursor { cursor: 1, anchor: 4 };
    assert!(c.delete_selection(&mut buf));
    assert_eq!(buf, "hlo");
    assert_eq!(c, TextCursor { cursor: 1, anchor: 1 });
    assert!(!c.delete_selection(&mut buf));
    assert_eq!(buf, "hlo");
    let mut c = TextCursor { cursor: 3, anchor: 1 };
    assert!(c.delete_selection(&mut buf));
    assert_eq!(buf, "h");
    assert_eq!(c, TextCursor { cursor: 1, anchor: 1 });
}
