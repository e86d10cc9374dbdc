use audio_hub::coverart::{
    album_cover_hint, cover_for_track, cover_front_url, cover_hint, cover_store_path, find_cached_cover,
    folder_cover_file, needs_folder_cover, plan_cover_apply, read_fetched_cover, CoverApply, CoverArtStrategy,
    FetchedCover,
};
use audio_hub::library::{CoverArt, LibraryIndex, TrackMeta};
use audio_hub::media::{cover_extension_for_mime_type, mime_for_extension};
use audio_hub::models::LibraryEntry;
use audio_hub::scanning::{
    album_key, album_marker_path, album_uuid_for_track, build_track_record, normalization_event, removal_path,
    rescan_unchanged, scan_album_event, stale_track_paths,
};
use audio_hub::events::MetadataEvent;
use audio_hub::store::TrackRecord;

fn meta() -> TrackMeta {
    TrackMeta {
        duration_ms: None,
        sample_rate: None,
        bit_depth: None,
        album: None,
        artist: None,
        album_artist: None,
        compilation: false,
        title: None,
        track_number: None,
        disc_number: None,
        year: None,
        format: None,
        cover_art: None,
    }
}

fn record(album: Option<&str>, artist: Option<&str>) -> TrackRecord {
    let mut m = meta();
    m.album = album.map(|s| s.to_string());
    m.artist = artist.map(|s| s.to_string());
    m.album_artist = artist.map(|s| s.to_string());
    build_track_record("/r/track.flac", "track.flac", &m, 0, 5, None)
}

fn art(data: &[u8]) -> CoverArt {
    CoverArt { mime_type: "image/jpeg".to_string(), data: data.to_vec() }
}

#[test]
fn mime_and_extension_round_trip() {
    assert_eq!(mime_for_extension(Some("jpg")), Some("image/jpeg"));
    assert_eq!(mime_for_extension(Some("png")), Some("image/png"));
    assert_eq!(cover_extension_for_mime_type("image/jpeg"), Some("jpg"));
    assert_eq!(cover_extension_for_mime_type("image/png"), Some("png"));
    assert_eq!(cover_extension_for_mime_type("application/octet-stream"), None);
}

#[test]
fn cover_store_writes_and_finds_cached_art() {
    let relative = cover_store_path("Test Album", "image/jpeg", b"cover-bytes");
    assert!(relative.starts_with(".audio-hub/art/test-album-"));
    assert!(relative.ends_with(".jpg"));
    let name = relative.trim_start_matches(".audio-hub/art/").to_string();
    assert_eq!(name.len(), "test-album-".len() + 16 + ".jpg".len());
    let found = find_cached_cover("Test Album", &vec!["other-1.jpg".to_string(), name]).expect("find cached cover");
    assert_eq!(found, relative);
    assert_eq!(find_cached_cover("Missing", &vec!["test-album-x.jpg".to_string()]), None);
}

#[test]
fn resolver_skips_when_cover_already_present() {
    let rec = record(Some("Album"), Some("Artist"));
    let plan = plan_cover_apply(&rec, true, &Some(art(b"embedded")), &vec![]);
    assert!(matches!(plan, CoverApply::Skip));
    let plan = plan_cover_apply(&record(None, Some("Artist")), false, &Some(art(b"x")), &vec![]);
    assert!(matches!(plan, CoverApply::Skip));
}

#[test]
fn resolver_uses_cache_then_stores() {
    let rec = record(Some("Album"), Some("Artist"));
    match plan_cover_apply(&rec, false, &Some(art(b"embedded")), &vec!["artist-album-00.jpg".to_string()]) {
        CoverApply::UseCached(p) => assert_eq!(p, ".audio-hub/art/artist-album-00.jpg"),
        _ => panic!("expected cached"),
    }
    match plan_cover_apply(&rec, false, &Some(art(b"embedded")), &vec![]) {
        CoverApply::Store(p) => assert!(p.starts_with(".audio-hub/art/artist-album-")),
        _ => panic!("expected store"),
    }
    assert_eq!(cover_hint(Some("Artist"), "Album"), "Artist-Album");
    assert_eq!(cover_hint(None, "Album"), "Album");
}

#[test]
fn cover_source_prefers_embedded_when_configured() {
    let s = CoverArtStrategy::EmbeddedThenFolder;
    assert!(!needs_folder_cover(s, true));
    let cover = cover_for_track(s, Some(art(b"embedded")), None).unwrap();
    assert_eq!(cover.data, b"embedded");
}

#[test]
fn cover_source_prefers_folder_when_configured() {
    let s = CoverArtStrategy::FolderThenEmbedded;
    assert!(needs_folder_cover(s, true));
    let cover = cover_for_track(s, Some(art(b"embedded")), Some(art(b"folder"))).unwrap();
    assert_eq!(cover.data, b"folder");
    let cover = cover_for_track(s, Some(art(b"embedded")), None).unwrap();
    assert_eq!(cover.data, b"embedded");
    assert!(cover_for_track(CoverArtStrategy::FolderOnly, Some(art(b"e")), None).is_none());
}

#[test]
fn folder_cover_is_the_first_existing_name() {
    let mut exists = vec![false; 10];
    assert_eq!(folder_cover_file(&exists), None);
    exists[5] = true;
    exists[8] = true;
    assert_eq!(folder_cover_file(&exists), Some(("folder.png", "image/png")));
}

#[test]
fn cover_fetch_outcomes_and_urls() {
    assert_eq!(album_cover_hint(42), "album-42");
    assert_eq!(cover_front_url("abc"), "https://coverartarchive.org/release/abc/front-500");
    assert!(matches!(read_fetched_cover(Ok(("image/png".to_string(), vec![]))), FetchedCover::Empty));
    assert!(matches!(read_fetched_cover(Err("timeout".to_string())), FetchedCover::Failed(e) if e == "timeout"));
    assert!(matches!(read_fetched_cover(Ok(("image/png".to_string(), vec![1]))), FetchedCover::Image(m, _) if m == "image/png"));
}

#[test]
fn build_track_record_copies_meta_and_fs_fields() {
    let m = TrackMeta {
        title: Some("Title".to_string()),
        artist: Some("Artist".to_string()),
        album: Some("Album".to_string()),
        album_artist: Some("Album Artist".to_string()),
        track_number: Some(3),
        disc_number: Some(1),
        year: Some(1999),
        duration_ms: Some(1234),
        sample_rate: Some(44100),
        bit_depth: Some(24),
        format: Some("FLAC".to_string()),
        ..meta()
    };
    let record = build_track_record("/tmp/root/song.flac", "song.flac", &m, 77, 5, None);
    assert_eq!(record.title.as_deref(), Some("Title"));
    assert_eq!(record.artist.as_deref(), Some("Artist"));
    assert_eq!(record.album.as_deref(), Some("Album"));
    assert_eq!(record.album_artist.as_deref(), Some("Album Artist"));
    assert_eq!(record.track_number, Some(3));
    assert_eq!(record.disc_number, Some(1));
    assert_eq!(record.year, Some(1999));
    assert_eq!(record.duration_ms, Some(1234));
    assert_eq!(record.sample_rate, Some(44100));
    assert_eq!(record.bit_depth, Some(24));
    assert_eq!(record.format.as_deref(), Some("FLAC"));
    assert_eq!(record.size_bytes, 5);
    assert_eq!(record.mtime_ms, 77);
}

#[test]
fn album_normalization_is_reported_when_the_title_changes() {
    let e = normalization_event(Some(7), &Some("A (Disc 2)".to_string()), &Some("A".to_string()), Some(2), Some("tag"));
    assert!(matches!(e, Some(MetadataEvent::AlbumNormalization { ref source, disc_number: Some(2), .. }) if source == "tag"));
    assert!(normalization_event(None, &Some("A".to_string()), &Some("A".to_string()), None, Some("tag")).is_none());
    assert!(normalization_event(None, &Some("A (1)".to_string()), &Some("A".to_string()), Some(1), None).is_none());
}

#[test]
fn rescan_skips_unchanged_indexed_files() {
    assert!(rescan_unchanged(Some((10, 20)), 10, 20, true));
    assert!(!rescan_unchanged(Some((10, 20)), 10, 21, true));
    assert!(!rescan_unchanged(Some((10, 20)), 10, 20, false));
    assert!(!rescan_unchanged(None, 10, 20, true));
}

#[test]
fn album_markers_keep_album_ids() {
    assert_eq!(album_marker_path("/m/Album"), "/m/Album/.audio-hub/album.json");
    let mut m = meta();
    assert!(album_key("/m/Album/a.flac", &m).is_none());
    m.album = Some("  Album ".to_string());
    m.artist = Some("Artist".to_string());
    m.year = Some(1985);
    let key = album_key("/m/Album/a.flac", &m).unwrap();
    assert_eq!(key.title, "Album");
    assert_eq!(key.dir, "/m/Album");
    assert_eq!(key.artist.as_deref(), Some("Artist"));
    let (id, marker) = album_uuid_for_track(&key, m.year, Some("from-marker".to_string()), None, 5);
    assert_eq!(id, "from-marker");
    assert!(marker.is_none());
    let (id, marker) = album_uuid_for_track(&key, m.year, None, Some("from-db".to_string()), 5);
    assert_eq!(id, "from-db");
    let marker = marker.unwrap();
    assert_eq!(marker.original_year, Some(1985));
    let (id, _) = album_uuid_for_track(&key, None, None, None, 5);
    assert_eq!(id.len(), 36);
}

#[test]
fn scans_report_folders_and_prune_unseen_tracks() {
    assert!(scan_album_event("/m/Album", 0, false).is_none());
    assert!(matches!(scan_album_event("/m/Album", 0, true), Some(MetadataEvent::LibraryScanAlbumStart { ref album }) if album == "Album"));
    assert!(matches!(scan_album_event("/m/Album", 3, true), Some(MetadataEvent::LibraryScanAlbumFinish { tracks: 3, .. })));
    let stale = stale_track_paths(
        &vec!["a".to_string(), "b".to_string(), "c".to_string()],
        &vec!["b".to_string()],
    );
    assert_eq!(stale, vec!["a".to_string(), "c".to_string()]);
    assert_eq!(removal_path("/m", "/m/x.flac", None), Some("/m/x.flac".to_string()));
    assert_eq!(removal_path("/m", "/m/x.flac", Some("/elsewhere/x.flac".to_string())), None);
}

#[test]
fn scan_library_lists_dirs_and_tracks() {
    let mut index = LibraryIndex::new("/tmp/lib".to_string());
    let dirs = vec![LibraryEntry::Dir { path: "/tmp/lib/Artists".to_string(), name: "Artists".to_string() }];
    let tracks = vec![audio_hub::library::track_entry(
        "/tmp/lib/song.flac".to_string(),
        "song.flac".to_string(),
        "flac".to_string(),
        meta(),
    )];
    let listing = audio_hub::library::directory_listing(dirs, tracks);
    index.set_listing("/tmp/lib".to_string(), listing);
    let root = index.root().to_string();
    let entries = index.list_dir(&root).expect("entries");
    let names: Vec<String> = entries
        .iter()
        .map(|entry| match entry {
            LibraryEntry::Dir { name, .. } => name.clone(),
            LibraryEntry::Track { file_name, .. } => file_name.clone(),
        })
        .collect();
    assert!(names.contains(&"Artists".to_string()));
    assert!(names.contains(&"song.flac".to_string()));
}

#[test]
fn find_track_by_path_locates_track() {
    let mut index = LibraryIndex::new("/tmp/lib".to_string());
    let tracks = vec![audio_hub::library::track_entry(
        "/tmp/lib/song.flac".to_string(),
        "song.flac".to_string(),
        "flac".to_string(),
        meta(),
    )];
    index.set_listing("/tmp/lib".to_string(), audio_hub::library::directory_listing(vec![], tracks));
    let found = index.find_track_by_path("/tmp/lib/song.flac");
    assert!(matches!(found, Some(LibraryEntry::Track { .. })));
}

#[test]
fn probe_track_meta_sets_format_from_ext() {
    let meta = audio_hub::library::assemble_track_meta("flac", None, None, None, &vec![], None);
    assert_eq!(meta.format, Some("FLAC".to_string()));
}

#[test]
fn removed_track_is_reported_and_no_longer_found() {
    let mut index = LibraryIndex::new("/tmp/lib".to_string());
    let tracks = vec![
        audio_hub::library::track_entry("/tmp/lib/a.flac".to_string(), "a.flac".to_string(), "flac".to_string(), meta()),
        audio_hub::library::track_entry("/tmp/lib/b.flac".to_string(), "b.flac".to_string(), "flac".to_string(), meta()),
    ];
    index.set_listing("/tmp/lib".to_string(), audio_hub::library::directory_listing(vec![], tracks));
    assert!(index.remove_track("/tmp/lib/a.flac"));
    assert!(index.find_track_by_path("/tmp/lib/a.flac").is_none());
    assert!(index.find_track_by_path("/tmp/lib/b.flac").is_some());
    assert!(!index.remove_track("/tmp/lib/a.flac"));
    assert!(!index.remove_track("/elsewhere/a.flac"));
}

#[test]
fn directory_lookups_compare_paths_by_components() {
    let mut index = LibraryIndex::new("/r".to_string());
    let tracks = vec![audio_hub::library::track_entry(
        "/r/a/song.flac".to_string(),
        "song.flac".to_string(),
        "flac".to_string(),
        meta(),
    )];
    index.set_listing("/r/a".to_string(), audio_hub::library::directory_listing(vec![], tracks));
    assert!(index.list_dir("/r/a").is_some());
    assert!(index.list_dir("/r/a/").is_some());
    assert!(index.list_dir("/r//a").is_some());
    assert!(index.list_dir("/r/./a").is_some());
    assert!(index.list_dir("/r/missing").is_none());
    assert!(index.list_dir("r/a").is_none());
    assert!(index.find_track_by_path("/r/a/song.flac").is_some());
    assert_eq!(audio_hub::rootpaths::path_key("./x//y/"), "./x/y");
    assert_eq!(audio_hub::rootpaths::path_key("/"), "/");
    assert_eq!(audio_hub::rootpaths::parent_key("/r/a/song.flac"), Some("/r/a".to_string()));
    assert_eq!(audio_hub::rootpaths::parent_key("/"), None);
    assert_eq!(audio_hub::rootpaths::parent_key("song.flac"), Some(String::new()));
}

#[test]
fn scan_items_list_dirs_and_supported_files() {
    assert!(matches!(audio_hub::library::scan_item("/r/Album", true, false), audio_hub::library::ScanItem::Dir { ref name, ref path } if name == "Album" && path == "/r/Album"));
    assert!(matches!(audio_hub::library::scan_item("/r/a.FLAC", false, true), audio_hub::library::ScanItem::Track { ref file_name, ref ext } if file_name == "a.FLAC" && ext == "flac"));
    assert!(matches!(audio_hub::library::scan_item("/r/cover.jpg", false, true), audio_hub::library::ScanItem::Skip));
    assert!(matches!(audio_hub::library::scan_item("/r/a.flac", false, false), audio_hub::library::ScanItem::Skip));
    assert!(matches!(audio_hub::library::scan_item("/r/README", false, true), audio_hub::library::ScanItem::Skip));
}

#[test]
fn file_names_are_read_from_components() {
    assert_eq!(audio_hub::paths::file_name("/music/a.flac"), Some("a.flac".to_string()));
    assert_eq!(audio_hub::paths::file_name("/music/album/."), Some("album".to_string()));
    assert_eq!(audio_hub::paths::file_name("/music/album//"), Some("album".to_string()));
    assert_eq!(audio_hub::paths::file_name("/music/.."), None);
    assert_eq!(audio_hub::paths::file_name("/"), None);
    assert_eq!(audio_hub::paths::file_name("."), None);
}
