use audio_hub::assets::hash_bytes;
use audio_hub::media::{extension_for_mime, is_supported_extension};
use audio_hub::names::slugify;

#[test]
fn slugify_strips_and_collapses() {
    assert_eq!(slugify("A-Ha: Hunting High & Low"), "a-ha-hunting-high-low");
    assert_eq!(slugify("   "), "cover");
    assert_eq!(slugify("--Already--Slug--"), "already-slug");
}

#[test]
fn is_supported_extension_accepts_known() {
    assert!(is_supported_extension("flac"));
    assert!(is_supported_extension("mp3"));
    assert!(is_supported_extension("opus"));
    assert!(!is_supported_extension("txt"));
}

#[test]
fn hash_bytes_is_stable() {
    let first = hash_bytes(b"test");
    let second = hash_bytes(b"test");
    assert_eq!(first, second);
}

#[test]
fn extension_for_mime_handles_common_types() {
    assert_eq!(extension_for_mime("image/jpeg"), Some("jpg"));
    assert_eq!(extension_for_mime("image/png"), Some("png"));
    assert_eq!(extension_for_mime("image/webp"), Some("webp"));
    assert_eq!(extension_for_mime("image/gif"), None);
}
