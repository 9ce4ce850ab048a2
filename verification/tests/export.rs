use chrono::TimeZone;

use pashari::filename::{
    extract_counter_tokens, output_file_name, placeholder_char, render_skeleton,
    sanitize_filename, substitute_counter_placeholders, try_parse_counter_token, uses_fs_counter,
    uses_persistent_counter, CounterToken,
};

/// The instant 2026-07-21 09:05:03 local time, as seconds, nanoseconds and
/// the local UTC offset.
fn sample_now() -> (i64, u32, i32) {
    let dt = chrono::Local.with_ymd_and_hms(2026, 7, 21, 9, 5, 3).unwrap();
    (dt.timestamp(), dt.timestamp_subsec_nanos(), dt.offset().local_minus_utc())
}

#[test]
fn extract_counter_tokens_parses_default_and_persistent_forms() {
    let (skeleton, tokens) = extract_counter_tokens("shot_%n");
    assert_eq!(skeleton, format!("shot_{}", placeholder_char(0)));
    assert_eq!(tokens.len(), 1);
    assert!(!tokens[0].persistent);
    assert_eq!(tokens[0].width, 4);

    let (skeleton, tokens) = extract_counter_tokens("shot_%#n");
    assert_eq!(skeleton, format!("shot_{}", placeholder_char(0)));
    assert_eq!(tokens.len(), 1);
    assert!(tokens[0].persistent);
    assert_eq!(tokens[0].width, 4);
}

#[test]
fn extract_counter_tokens_parses_explicit_width() {
    let (_, tokens) = extract_counter_tokens("%04n");
    assert_eq!(tokens[0].width, 4);
    assert!(!tokens[0].persistent);

    let (_, tokens) = extract_counter_tokens("%#012n");
    assert_eq!(tokens[0].width, 12);
    assert!(tokens[0].persistent);
}

#[test]
fn extract_counter_tokens_leaves_unrelated_percent_sequences_untouched() {
    let (skeleton, tokens) = extract_counter_tokens("pashari_%Y-%m-%d_%H-%M-%S");
    assert_eq!(skeleton, "pashari_%Y-%m-%d_%H-%M-%S");
    assert!(tokens.is_empty());
}

#[test]
fn extract_counter_tokens_returns_input_unchanged_when_no_token_present() {
    let (skeleton, tokens) = extract_counter_tokens("no_counter_here");
    assert_eq!(skeleton, "no_counter_here");
    assert!(tokens.is_empty());
}

#[test]
fn extract_counter_tokens_numbers_placeholders_in_order() {
    let (skeleton, tokens) = extract_counter_tokens("%n-%#2n-%x");
    assert_eq!(
        skeleton,
        format!("{}-{}-%x", placeholder_char(0), placeholder_char(1))
    );
    assert_eq!(
        tokens,
        vec![
            CounterToken { persistent: false, width: 4 },
            CounterToken { persistent: true, width: 2 }
        ]
    );
}

#[test]
fn try_parse_counter_token_reports_consumed_length() {
    let t: Vec<char> = "a%#03nb".chars().collect();
    assert_eq!(
        try_parse_counter_token(&t, 1),
        Some((5, CounterToken { persistent: true, width: 3 }))
    );
    let u: Vec<char> = "%#x".chars().collect();
    assert_eq!(try_parse_counter_token(&u, 0), None);
}

#[test]
fn substitute_counter_placeholders_pads_persistent_and_candidate_values() {
    let tokens = vec![
        CounterToken { persistent: true, width: 4 },
        CounterToken { persistent: false, width: 2 },
    ];
    let dated = format!("{}_{}", placeholder_char(0), placeholder_char(1));
    let out = substitute_counter_placeholders(&dated, &tokens, Some(7), 3);
    assert_eq!(out, "0007_03");
}

#[test]
fn substitute_counter_placeholders_sanitizes_forbidden_windows_characters() {
    let out = substitute_counter_placeholders(r#"a:b/c\d*e?f"g<h>i|j"#, &[], None, 0);
    assert_eq!(out, "a_b_c_d_e_f_g_h_i_j");
}

#[test]
fn substitute_counter_placeholders_keeps_wide_values_and_missing_persistent_is_zero() {
    let tokens = vec![CounterToken { persistent: true, width: 2 }, CounterToken { persistent: false, width: 1 }];
    let dated = format!("{}/{}", placeholder_char(0), placeholder_char(1));
    assert_eq!(substitute_counter_placeholders(&dated, &tokens, None, 12345), "00_12345");
}

#[test]
fn sanitize_filename_replaces_only_forbidden_characters() {
    assert_eq!(sanitize_filename("ok name.png"), "ok name.png");
    assert_eq!(sanitize_filename("a<b>"), "a_b_");
}

#[test]
fn output_file_name_adds_extension() {
    let tokens = vec![CounterToken { persistent: false, width: 3 }];
    let dated = format!("shot_{}", placeholder_char(0));
    assert_eq!(output_file_name(&dated, &tokens, None, 7, "png"), "shot_007.png");
    assert!(uses_fs_counter(&tokens));
    assert!(!uses_persistent_counter(&tokens));
    assert!(!uses_fs_counter(&[]));
}

#[test]
fn render_skeleton_default_template_matches_old_hardcoded_format() {
    let (s, n, o) = sample_now();
    let (dated, tokens) = render_skeleton("pashari_%Y-%m-%d_%H-%M-%S", s, n, o);
    assert_eq!(dated, "pashari_2026-07-21_09-05-03");
    assert!(tokens.is_empty());
}

#[test]
fn render_skeleton_does_not_panic_on_invalid_specifier() {
    let (s, n, o) = sample_now();
    let (dated, _) = render_skeleton("weird_%Q_shot", s, n, o);
    assert!(!dated.is_empty());
}

#[test]
fn render_skeleton_keeps_counter_tokens_as_placeholders() {
    let (s, n, o) = sample_now();
    let (dated, tokens) = render_skeleton("shot_%Y_%n", s, n, o);
    assert_eq!(dated, format!("shot_2026_{}", placeholder_char(0)));
    assert_eq!(tokens.len(), 1);
}

use pashari::export::{encode_png, Shot};

#[test]
fn encode_png_round_trips_pixels() {
    let shot = Shot { width: 2, height: 1, rgba: vec![1, 2, 3, 4, 5, 6, 7, 8] };
    let bytes = encode_png(&shot).unwrap();
    assert_eq!(&bytes[..8], &[137, 80, 78, 71, 13, 10, 26, 10]);
    let back = image::load_from_memory(&bytes).unwrap().to_rgba8();
    assert_eq!((back.width(), back.height()), (2, 1));
    assert_eq!(back.into_raw(), shot.rgba);
}

#[test]
fn encode_png_rejects_short_buffer() {
    let shot = Shot { width: 2, height: 2, rgba: vec![0; 15] };
    assert_eq!(
        encode_png(&shot).unwrap_err(),
        "画像バッファのサイズが width*height*4 と一致しません"
    );
}

use pashari::export::shot_from_file_bytes;

#[test]
fn shot_from_file_bytes_round_trips_a_png() {
    let shot = Shot { width: 2, height: 1, rgba: vec![1, 2, 3, 255, 4, 5, 6, 128] };
    let png = encode_png(&shot).unwrap();
    let back = shot_from_file_bytes(&png, "png").unwrap();
    assert_eq!((back.width, back.height), (2, 1));
    assert_eq!(back.rgba, shot.rgba);
    let upper = shot_from_file_bytes(&png, "PNG").unwrap();
    assert_eq!(upper.rgba, shot.rgba);
}

#[test]
fn shot_from_file_bytes_refuses_unknown_extension_and_garbage() {
    let shot = Shot { width: 1, height: 1, rgba: vec![9, 9, 9, 255] };
    let png = encode_png(&shot).unwrap();
    assert!(shot_from_file_bytes(&png, "").is_none());
    assert!(shot_from_file_bytes(&png, "notanimage").is_none());
    assert!(shot_from_file_bytes(b"not a png", "png").is_none());
}

use pashari::filename::{counter_token_count, next_candidate};

#[test]
fn counter_token_count_counts_tokens_not_percents() {
    assert_eq!(counter_token_count("%Y-%m-%d_%H%M%S"), 0);
    assert_eq!(counter_token_count("shot_%n_%#3n_%%"), 2);
    assert_eq!(counter_token_count("%q%n%"), 1);
    assert_eq!(
        counter_token_count("%n"),
        extract_counter_tokens("%n").1.len()
    );
}

#[test]
fn next_candidate_advances_only_when_taken_with_fs_counter() {
    assert_eq!(next_candidate(true, true, 0), Some(1));
    assert_eq!(next_candidate(true, false, 5), None);
    assert_eq!(next_candidate(false, true, 5), None);
    assert_eq!(next_candidate(false, false, 0), None);
}
