use pashari::update::{is_newer, parse_version};

#[test]
fn is_newer_compares_major_minor_patch_numerically() {
    assert!(is_newer("0.6.0", "0.5.0"));
    assert!(is_newer("0.5.10", "0.5.9"));
    assert!(is_newer("1.0.0", "0.9.9"));
    assert!(!is_newer("0.5.0", "0.5.0"));
    assert!(!is_newer("0.5.0", "0.6.0"));
}

#[test]
fn is_newer_treats_malformed_or_short_versions_as_zero_without_panicking() {
    assert!(!is_newer("garbage", "0.0.0"));
    assert!(is_newer("1", "0.9.9"));
    assert!(!is_newer("0.5", "0.5.1"));
}

#[test]
fn parse_version_reads_each_component() {
    assert_eq!(parse_version("1.2.3"), (1, 2, 3));
    assert_eq!(parse_version("1.x.3.9"), (1, 0, 3));
    assert_eq!(parse_version("+4.5"), (4, 5, 0));
    assert_eq!(parse_version("99999999999.1.1"), (0, 1, 1));
}

#[test]
fn is_newer_is_irreflexive_and_asymmetric_on_samples() {
    for (a, b) in [("1.2.3", "1.2.4"), ("2.0", "1.9.9"), ("x", "0.0.1")] {
        assert!(!is_newer(a, a));
        assert!(!(is_newer(a, b) && is_newer(b, a)));
    }
}

use pashari::update::{latest_from_body, release_check, RELEASES_URL};

#[test]
fn release_check_strips_v_and_reports_newer_releases() {
    let info = release_check(Ok((Some("vv1.2.0".to_string()), Some("https://x.test/r".to_string()))), "1.1.9")
        .unwrap()
        .unwrap();
    assert_eq!(info.version, "1.2.0");
    assert_eq!(info.url, "https://x.test/r");
    assert!(info.exe_url.is_none() && info.setup_url.is_none());
    assert!(release_check(Ok((Some("v1.0.0".to_string()), None)), "1.0.0").unwrap().is_none());
}

#[test]
fn release_check_errors() {
    assert_eq!(release_check(Err("bad".to_string()), "1.0.0").unwrap_err(), "json: bad");
    assert_eq!(release_check(Ok((None, None)), "1.0.0").unwrap_err(), "tag_name が取得できません");
}

#[test]
fn latest_from_body_reads_the_reply() {
    let body = br#"{"tag_name": "v2.0.0", "name": "x"}"#;
    let info = latest_from_body(body, "1.9.9").unwrap().unwrap();
    assert_eq!(info.version, "2.0.0");
    assert_eq!(info.url, RELEASES_URL);
    assert!(latest_from_body(br#"{"tag_name": 5}"#, "1.0.0").is_err());
    assert!(latest_from_body(b"not json", "1.0.0").unwrap_err().starts_with("json: "));
}
