use audio_hub::musicbrainz::{
    build_query, build_release_query, fallback_parts, select_best_recording, strip_parenthetical,
    RecordingResult,
};
use audio_hub::tags::parse_year;

fn recording(id: &str, score: Option<i32>, title: &str) -> RecordingResult {
    RecordingResult {
        id: id.to_string(),
        score,
        title: title.to_string(),
        artist_credit: None,
        releases: None,
    }
}

#[test]
fn build_query_includes_release_when_present() {
    let query = build_query("Track", "Artist", Some("Album"));
    assert_eq!(query, "recording:\"Track\" AND artist:\"Artist\" AND release:\"Album\"");
}

#[test]
fn build_query_escapes_quotes() {
    let query = build_query("Track \"One\"", "Artist", None);
    assert_eq!(query, "recording:\"Track \\\"One\\\"\" AND artist:\"Artist\"");
}

#[test]
fn build_release_query_escapes_quotes() {
    let query = build_release_query("Album \"One\"", "Artist");
    assert_eq!(query, "release:\"Album \\\"One\\\"\" AND artist:\"Artist\"");
}

#[test]
fn parse_year_handles_full_date() {
    assert_eq!(parse_year("1999-04-01"), Some(1999));
}

#[test]
fn strip_parenthetical_removes_suffix() {
    let stripped = strip_parenthetical("Hunting High and Low (2015 Remaster)");
    assert_eq!(stripped.as_deref(), Some("Hunting High and Low"));
}

#[test]
fn strip_parenthetical_removes_dash_suffix() {
    let stripped = strip_parenthetical("One Assassination Under God - Chapter 1");
    assert_eq!(stripped.as_deref(), Some("One Assassination Under God"));
}

#[test]
fn strip_parenthetical_removes_brackets() {
    let stripped = strip_parenthetical("Album Title [Deluxe Edition]");
    assert_eq!(stripped.as_deref(), Some("Album Title"));
}

#[test]
fn fallback_parts_returns_none_when_no_change() {
    let fallback = fallback_parts("Album", Some("Album"));
    assert!(fallback.is_none());
}

#[test]
fn fallback_parts_strips_album_only() {
    let fallback = fallback_parts("Track", Some("Album (Deluxe)"));
    assert_eq!(fallback, Some(("Track".to_string(), Some("Album".to_string()))));
}

#[test]
fn select_best_recording_prefers_higher_score() {
    let low = recording("low", Some(10), "Low");
    let high = recording("high", Some(95), "High");
    let best = select_best_recording(Some(low), Some(high)).unwrap();
    assert_eq!(best.id, "high");
}

#[test]
fn select_best_recording_handles_none() {
    let single = recording("one", None, "Single");
    let best = select_best_recording(None, Some(single)).unwrap();
    assert_eq!(best.id, "one");
}
