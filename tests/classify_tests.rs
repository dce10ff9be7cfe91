use media_sync::classify::{classify, photo_number, Classification};
use media_sync::media::{is_media_extension, is_media_file};

fn codes(list: &[&str]) -> Vec<String> {
    list.iter().map(|s| s.to_string()).collect()
}

fn matched(c: &Classification) -> Option<(String, u32)> {
    match c {
        Classification::Matched { code, photo } => Some((code.clone(), *photo)),
        _ => None,
    }
}

#[test]
fn media_extensions_in_any_case() {
    assert!(is_media_file("photo.JPG"));
    assert!(is_media_file("clip.Mp4"));
    assert!(is_media_file("dir/a.webp"));
    assert!(is_media_file("a.jpeg"));
    assert!(!is_media_file("notes.txt"));
    assert!(!is_media_file("noextension"));
    assert!(!is_media_file(".jpg"));
    assert!(!is_media_file(""));
}

#[test]
fn media_extension_list() {
    for e in ["png", "jpg", "jpeg", "gif", "bmp", "webp", "mov", "mp4"] {
        assert!(is_media_extension(e));
    }
    assert!(!is_media_extension("PNG"));
    assert!(!is_media_extension("tiff"));
    assert!(!is_media_extension(""));
}

#[test]
fn numbered_name_gives_its_photo_number() {
    let c = classify("ABC001_2.jpg", &codes(&["abc001"]));
    assert_eq!(matched(&c), Some(("abc001".to_string(), 2)));
}

#[test]
fn dotted_name_gives_photo_one() {
    let c = classify("ABC001.png", &codes(&["abc001"]));
    assert_eq!(matched(&c), Some(("abc001".to_string(), 1)));
}

#[test]
fn wrong_shape_after_code_is_told_apart() {
    let c = classify("ABC0012.png", &codes(&["abc001"]));
    match c {
        Classification::WrongPattern { code } => assert_eq!(code, "abc001"),
        other => panic!("unexpected {:?}", other),
    }
}

#[test]
fn no_code_prefix() {
    let c = classify("XYZ_1.png", &codes(&["abc001"]));
    assert!(matches!(c, Classification::NoPrefix));
    let c = classify("XYZ_1.png", &codes(&[]));
    assert!(matches!(c, Classification::NoPrefix));
}

#[test]
fn longest_code_wins() {
    let c = classify("abc001_3.jpg", &codes(&["abc", "abc001", "ab"]));
    assert_eq!(matched(&c), Some(("abc001".to_string(), 3)));
    let c = classify("abc_3.jpg", &codes(&["abc", "abc001", "ab"]));
    assert_eq!(matched(&c), Some(("abc".to_string(), 3)));
}

#[test]
fn equal_length_codes_pick_the_first_listed() {
    let c = classify("ABC_4.jpg", &codes(&["ABC", "abc"]));
    assert_eq!(matched(&c), Some(("ABC".to_string(), 4)));
    let c = classify("ABC_4.jpg", &codes(&["abc", "ABC"]));
    assert_eq!(matched(&c), Some(("abc".to_string(), 4)));
}

#[test]
fn upper_case_code_matches_lower_case_name() {
    let c = classify("abc001-07.mp4", &codes(&["ABC001"]));
    assert_eq!(matched(&c), Some(("ABC001".to_string(), 7)));
}

#[test]
fn photo_number_shapes() {
    assert_eq!(photo_number("_12.jpg"), Some(12));
    assert_eq!(photo_number("-3.png"), Some(3));
    assert_eq!(photo_number("_0.png"), Some(0));
    assert_eq!(photo_number(".png"), Some(1));
    assert_eq!(photo_number("_99999999999.jpg"), Some(1));
    assert_eq!(photo_number("_4294967295.jpg"), Some(4294967295));
    assert_eq!(photo_number("_.jpg"), None);
    assert_eq!(photo_number("_1."), None);
    assert_eq!(photo_number("_1.tar.gz"), None);
    assert_eq!(photo_number("x_1.jpg"), None);
    assert_eq!(photo_number(""), None);
    assert_eq!(photo_number("2.jpg"), None);
}
