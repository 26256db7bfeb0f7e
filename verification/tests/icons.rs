use ripdrag::icons::{contains_substr, icon_for, IconChoice};
use ripdrag::paths::is_canonical;

#[test]
fn substring_search_finds_and_rejects() {
    assert!(contains_substr("image/png", "image"));
    assert!(contains_substr("x-image", "image"));
    assert!(contains_substr("anything", ""));
    assert!(!contains_substr("text/plain", "image"));
    assert!(!contains_substr("imag", "image"));
}

#[test]
fn image_types_get_thumbnails() {
    assert!(matches!(
        icon_for(false, Some("image/png".to_string()), false),
        IconChoice::Thumbnail
    ));
}

#[test]
fn disabling_thumbnails_falls_back_to_generic_icon() {
    match icon_for(false, Some("image/png".to_string()), true) {
        IconChoice::GenericIcon(mime) => assert_eq!(mime, "image/png"),
        IconChoice::Thumbnail => panic!("thumbnails are disabled"),
    }
}

#[test]
fn directories_use_their_own_type() {
    match icon_for(true, Some("image/png".to_string()), false) {
        IconChoice::GenericIcon(mime) => assert_eq!(mime, "inode/directory"),
        IconChoice::Thumbnail => panic!("directories get no thumbnail"),
    }
}

#[test]
fn unknown_content_falls_back_to_plain_text() {
    match icon_for(false, None, false) {
        IconChoice::GenericIcon(mime) => assert_eq!(mime, "text/plain"),
        IconChoice::Thumbnail => panic!("nothing was sniffed"),
    }
}

#[test]
fn canonical_shape_check() {
    assert!(is_canonical("/"));
    assert!(is_canonical("/tmp/a.txt"));
    assert!(is_canonical("/tmp/.hidden"));
    assert!(is_canonical("/a..b/c"));
    assert!(!is_canonical(""));
    assert!(!is_canonical("relative/path"));
    assert!(!is_canonical("/tmp/"));
    assert!(!is_canonical("/tmp//a"));
    assert!(!is_canonical("/tmp/./a"));
    assert!(!is_canonical("/tmp/../a"));
    assert!(!is_canonical("/tmp/.."));
    assert!(!is_canonical("/tmp/."));
}
