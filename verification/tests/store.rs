use audio_hub::store::db_path_for;
use audio_hub::tags::is_blank;

#[test]
fn db_path_for_places_db_under_audio_hub_dir() {
    let path = db_path_for("/music/library");
    assert_eq!(path, "/music/library/.audio-hub/metadata.sqlite");
}

#[test]
fn is_blank_handles_empty_and_whitespace() {
    assert!(is_blank(&None));
    assert!(is_blank(&Some("".to_string())));
    assert!(is_blank(&Some("  ".to_string())));
    assert!(!is_blank(&Some("a".to_string())));
}
