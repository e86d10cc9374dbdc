use audio_hub::library::TrackMeta;
use audio_hub::musicbrainz::MusicBrainzMatch;
use audio_hub::scanning::build_track_record;
use audio_hub::store::{
    album_cover_url, album_updates, next_cover_candidate, plan_upsert, schema_plan, search_pattern,
    track_cover_url, track_updates_for_match, AlbumStep, ArtistStep, ExistingTrack, SchemaStep, StoreUpdate,
    UpsertPlan,
};

fn meta() -> TrackMeta {
    TrackMeta {
        duration_ms: None,
        sample_rate: None,
        bit_depth: None,
        album: Some("Hunting High and Low".to_string()),
        artist: Some("a-ha".to_string()),
        album_artist: None,
        compilation: false,
        title: Some("Take On Me".to_string()),
        track_number: Some(1),
        disc_number: None,
        year: Some(1985),
        format: Some("FLAC".to_string()),
        cover_art: None,
    }
}

fn matched() -> MusicBrainzMatch {
    MusicBrainzMatch {
        recording_mbid: Some("rec".to_string()),
        artist_mbid: Some("art".to_string()),
        artist_sort_name: Some("a-ha".to_string()),
        album_mbid: Some("rel".to_string()),
        release_year: Some(1985),
        release_candidates: vec!["r1".to_string(), "r2".to_string()],
    }
}

#[test]
fn upsert_skips_unchanged_rows_and_plans_links() {
    let record = build_track_record("/m/a.flac", "a.flac", &meta(), 10, 20, Some("uuid-1".to_string()));
    let same = ExistingTrack {
        mtime_ms: 10,
        size_bytes: 20,
        artist_id: Some(1),
        album_id: Some(2),
        track_mbid: None,
        artist_mbid: None,
        album_mbid: None,
        album_title: Some("Hunting High and Low".to_string()),
        album_artist: Some("a-ha".to_string()),
        disc_number: None,
        bit_depth: None,
    };
    assert!(matches!(plan_upsert(&record, Some(same)), UpsertPlan::Unchanged));
    match plan_upsert(&record, None) {
        UpsertPlan::Write { artist, album_artist, album } => {
            assert!(matches!(artist, ArtistStep::Upsert(ref n) if n == "a-ha"));
            assert_eq!(album_artist.as_deref(), Some("a-ha"));
            assert!(matches!(album, AlbumStep::UpsertWithUuid { ref uuid, .. } if uuid == "uuid-1"));
        }
        UpsertPlan::Unchanged => panic!("new track must be written"),
    }
}

#[test]
fn schema_plan_runs_migrations_for_the_stored_version() {
    let fresh = schema_plan(None);
    assert_eq!(fresh[0], SchemaStep::CreateTables);
    let current = schema_plan(Some("10"));
    assert_eq!(current, vec![SchemaStep::CreateTables]);
    let older = schema_plan(Some("9"));
    assert_eq!(older, vec![SchemaStep::CreateTables, SchemaStep::AddOrphanedAt, SchemaStep::UpdateVersion]);
}

#[test]
fn match_updates_encode_release_candidates() {
    let updates = track_updates_for_match(Some(1), Some(2), &matched(), false).expect("encodes");
    let json: Vec<String> = updates
        .iter()
        .filter_map(|u| match u {
            StoreUpdate::AlbumReleaseCandidates { candidates_json, .. } => Some(candidates_json.clone()),
            _ => None,
        })
        .collect();
    assert_eq!(json, vec!["[\"r1\",\"r2\"]".to_string()]);
    assert!(matches!(updates.last(), Some(StoreUpdate::TrackMbid { mbid, .. }) if mbid == "rec"));
    let album = album_updates(Some(1), 2, &matched(), true);
    assert!(matches!(album[0], StoreUpdate::ArtistMbid { artist_id: 1, .. }));
}

#[test]
fn cover_candidates_advance_through_the_stored_list() {
    let (next, rest) = next_cover_candidate(Some("[\"a\",\"b\",\"c\"]")).unwrap().unwrap();
    assert_eq!(next, "a");
    assert_eq!(rest.as_deref(), Some("[\"b\",\"c\"]"));
    let (next, rest) = next_cover_candidate(Some("[\"z\"]")).unwrap().unwrap();
    assert_eq!((next.as_str(), rest), ("z", None));
    assert!(next_cover_candidate(Some("not json")).unwrap().is_none());
    assert!(next_cover_candidate(None).unwrap().is_none());
}

#[test]
fn cover_urls_and_search_patterns() {
    assert_eq!(album_cover_url(7, &Some("a.jpg".to_string())), Some("/albums/7/cover".to_string()));
    assert_eq!(album_cover_url(7, &Some("  ".to_string())), None);
    assert_eq!(track_cover_url(3, &Some("a.jpg".to_string())), Some("/tracks/3/cover".to_string()));
    assert_eq!(search_pattern(Some("AbC")), Some("%abc%".to_string()));
    assert_eq!(search_pattern(None), None);
}

#[test]
fn next_cover_candidate_moves_through_the_stored_ids() {
    assert_eq!(next_cover_candidate(None), Ok(None));
    assert_eq!(next_cover_candidate(Some("[]")), Ok(None));
    assert_eq!(next_cover_candidate(Some("[\"r1\"]")), Ok(Some(("r1".to_string(), None))));
    assert_eq!(
        next_cover_candidate(Some("[\"r1\",\"r2\",\"r3\"]")),
        Ok(Some(("r1".to_string(), Some("[\"r2\",\"r3\"]".to_string()))))
    );
}
