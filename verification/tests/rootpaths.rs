use audio_hub::rootpaths::{
    candidate_path, check_track_path, check_under_root, migration_target, path_from_db, path_to_db,
    relative_from_absolute, root_name_candidate, starts_with_root, strip_root, TrackPathError,
    UnderRootError,
};

#[test]
fn relative_from_absolute_supports_root_basename_heuristic() {
    let root = "/tmp/audio-hub-path-rel/music";
    let legacy = "/legacy/mount/music/Artist/Album/song.flac";
    assert_eq!(
        root_name_candidate(legacy, root),
        Some("Artist/Album/song.flac".to_string())
    );
    let rel = relative_from_absolute(legacy, root, true).expect("relative path");
    assert_eq!(rel, "Artist/Album/song.flac");
    assert_eq!(relative_from_absolute(legacy, root, false), None);
}

#[test]
fn strip_root_is_component_wise() {
    assert_eq!(strip_root("/music/a/b.flac", "/music"), Some("a/b.flac".to_string()));
    assert_eq!(strip_root("/music/a/b.flac", "/music/"), Some("a/b.flac".to_string()));
    assert_eq!(strip_root("/musical/b.flac", "/music"), None);
    assert_eq!(strip_root("music/b.flac", "/music"), None);
    assert_eq!(strip_root("/music", "/music"), Some(String::new()));
    assert!(starts_with_root("/music//a/./b", "/music/a"));
    assert!(!starts_with_root("/other/a", "/music"));
}

#[test]
fn db_paths_are_stored_relative_and_given_back_absolute() {
    let root = Some("/srv/music");
    assert_eq!(path_to_db(root, "/srv/music/A/x.flac", false), "A/x.flac");
    assert_eq!(path_to_db(root, "A/x.flac", false), "A/x.flac");
    assert_eq!(path_to_db(None, "/srv/music/A/x.flac", false), "/srv/music/A/x.flac");
    assert_eq!(path_to_db(root, "/elsewhere/x.flac", true), "/elsewhere/x.flac");
    assert_eq!(path_from_db(root, "A/x.flac".to_string()), "/srv/music/A/x.flac");
    assert_eq!(path_from_db(root, "/abs/x.flac".to_string()), "/abs/x.flac");
    assert_eq!(path_from_db(None, "A/x.flac".to_string()), "A/x.flac");
}

#[test]
fn migration_target_only_for_changed_absolute_paths() {
    assert_eq!(
        migration_target("/srv/music/A/x.flac", "/srv/music", false),
        Some("A/x.flac".to_string())
    );
    assert_eq!(migration_target("A/x.flac", "/srv/music", true), None);
    assert_eq!(migration_target("/other/x.flac", "/srv/music", false), None);
}

#[test]
fn resolve_track_path_rejects_outside_root() {
    let root = "/tmp/root-a";
    let other = "/tmp/root-b/outside.flac";
    let candidate = candidate_path(root, other);
    assert_eq!(candidate, other);
    let result = check_track_path(root, Some(candidate), true);
    assert_eq!(result, Err(TrackPathError::OutsideRoot));
}

#[test]
fn resolve_track_path_accepts_file_under_root() {
    let root = "/tmp/root-a";
    let path = "/tmp/root-a/inside.flac";
    let result = check_track_path(root, Some(candidate_path(root, path)), true);
    assert_eq!(result, Ok(path.to_string()));
}

#[test]
fn resolve_track_path_accepts_relative_path_under_root() {
    let root = "/tmp/root-a";
    let candidate = candidate_path(root, "album/inside.flac");
    assert_eq!(candidate, "/tmp/root-a/album/inside.flac");
    let result = check_track_path(root, Some(candidate), true);
    assert_eq!(result, Ok("/tmp/root-a/album/inside.flac".to_string()));
}

#[test]
fn resolve_track_path_reports_missing_and_non_files() {
    assert_eq!(check_track_path("/r", None, true), Err(TrackPathError::NotFound));
    assert_eq!(
        check_track_path("/r", Some("/r/dir".to_string()), false),
        Err(TrackPathError::NotFound)
    );
}

#[test]
fn canonicalize_under_root_accepts_relative_paths() {
    let root = "/tmp/hub-root";
    let candidate = candidate_path(root, "a.flac");
    let resolved = check_under_root(root, Some(candidate)).expect("canonicalize");
    assert_eq!(resolved, "/tmp/hub-root/a.flac");
}

#[test]
fn canonicalize_under_root_rejects_missing_path() {
    assert_eq!(check_under_root("/tmp/hub-root", None), Err(UnderRootError::Missing));
}

#[test]
fn canonicalize_under_root_rejects_outside_root() {
    let result = check_under_root("/tmp/hub-root", Some("/tmp/hub-outside/outside.flac".to_string()));
    assert_eq!(result, Err(UnderRootError::Outside));
}
