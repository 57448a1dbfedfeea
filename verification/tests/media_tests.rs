//! Tests of slot naming, base-name extraction, and manifest building.

use genanki_rs::media::base_name;
use genanki_rs::media::dec_string;
use genanki_rs::media::media_manifest_entries;
use genanki_rs::PkgError;

#[test]
fn dec_string_zero() {
    assert_eq!(dec_string(0), "0");
}

#[test]
fn dec_string_round_numbers() {
    assert_eq!(dec_string(10), "10");
    assert_eq!(dec_string(100), "100");
}

#[test]
fn dec_string_large() {
    assert_eq!(dec_string(1234567890123), "1234567890123");
    assert_eq!(dec_string(u64::MAX), "18446744073709551615");
}

#[test]
fn base_name_plain_file() {
    assert_eq!(base_name("img.png"), Some("img.png".to_string()));
}

#[test]
fn base_name_with_directories() {
    assert_eq!(base_name("images/image.jpg"), Some("image.jpg".to_string()));
    assert_eq!(base_name("/a/b/c.mp3"), Some("c.mp3".to_string()));
}

#[test]
fn base_name_ignores_trailing_separators_and_dots() {
    assert_eq!(base_name("foo/"), Some("foo".to_string()));
    assert_eq!(base_name("foo//"), Some("foo".to_string()));
    assert_eq!(base_name("foo/."), Some("foo".to_string()));
    assert_eq!(base_name("a/./b"), Some("b".to_string()));
}

#[test]
fn base_name_none_cases() {
    assert_eq!(base_name(""), None);
    assert_eq!(base_name("/"), None);
    assert_eq!(base_name("."), None);
    assert_eq!(base_name(".."), None);
    assert_eq!(base_name("foo/.."), None);
}

#[test]
fn base_name_keeps_dotted_names() {
    assert_eq!(base_name("..."), Some("...".to_string()));
    assert_eq!(base_name("x."), Some("x.".to_string()));
    assert_eq!(base_name("a/..b"), Some("..b".to_string()));
}

#[test]
fn manifest_entries_slot_keys_and_base_names() {
    let paths = vec![
        "dir/img.png".to_string(),
        "b.jpg".to_string(),
        "deep/er/sound.mp3".to_string(),
    ];
    let entries = media_manifest_entries(&paths).unwrap();
    assert_eq!(entries.len(), 3);
    assert_eq!(entries[0], ("0".to_string(), "img.png".to_string()));
    assert_eq!(entries[1], ("1".to_string(), "b.jpg".to_string()));
    assert_eq!(entries[2], ("2".to_string(), "sound.mp3".to_string()));
}

#[test]
fn manifest_entries_empty() {
    let paths: Vec<String> = Vec::new();
    let entries = media_manifest_entries(&paths).unwrap();
    assert_eq!(entries.len(), 0);
}

#[test]
fn manifest_entries_reject_nameless_path() {
    let paths = vec!["ok.png".to_string(), "..".to_string()];
    let r = media_manifest_entries(&paths);
    assert!(matches!(r, Err(PkgError::PathFormat)));
}

#[test]
fn manifest_entries_share_base_names() {
    let paths = vec!["a/img.png".to_string(), "b/img.png".to_string()];
    let entries = media_manifest_entries(&paths).unwrap();
    assert_eq!(entries[0].1, "img.png");
    assert_eq!(entries[1].1, "img.png");
    assert_ne!(entries[0].0, entries[1].0);
}
