use audio_hub::transport::{bridge_endpoint, play_request, worker_play_fields, build_stream_url_for, build_stream_url_for_id, clamp_volume, play_url, SseReader};

#[test]
fn build_stream_url_for_encodes_and_trims() {
    let url = build_stream_url_for("/music/My Song.flac", "http://host/");
    assert_eq!(url, "http://host/stream?path=%2Fmusic%2FMy%20Song.flac");
}

#[test]
fn stream_url_keeps_unreserved_bytes_and_encodes_utf8() {
    let url = build_stream_url_for("a-b_c.d~e/é", "http://h");
    assert_eq!(url, "http://h/stream?path=a-b_c.d~e%2F%C3%A9");
}

#[test]
fn stream_url_for_id_trims_every_trailing_slash() {
    assert_eq!(build_stream_url_for_id(42, "http://host//"), "http://host/stream/track/42");
    assert_eq!(build_stream_url_for_id(-7, "http://host"), "http://host/stream/track/-7");
}

#[test]
fn play_url_prefers_track_id() {
    assert_eq!(play_url("/x.flac", Some(5), "http://h/"), "http://h/stream/track/5");
    assert_eq!(play_url("/x.flac", None, "http://h/"), "http://h/stream?path=%2Fx.flac");
}

#[test]
fn volume_is_clamped_to_one_hundred() {
    assert_eq!(clamp_volume(150), 100);
    assert_eq!(clamp_volume(100), 100);
    assert_eq!(clamp_volume(37), 37);
}

#[test]
fn sse_reader_emits_events_across_chunks() {
    let mut r = SseReader::new();
    let first = r.feed(b"event: status\ndata: {\"a\":");
    assert!(first.is_empty());
    let second = r.feed(b"1}\r\n\r\n");
    assert_eq!(second.len(), 1);
    assert_eq!(second[0].event, "status");
    assert_eq!(second[0].data, "{\"a\":1}");
}

#[test]
fn sse_reader_joins_data_lines_and_skips_empty_events() {
    let mut r = SseReader::new();
    let evs = r.feed(b": comment\n\ndata: one\ndata:two\n\nevent: x\n\n");
    assert_eq!(evs.len(), 1);
    assert_eq!(evs[0].event, "");
    assert_eq!(evs[0].data, "one\ntwo");
}

#[test]
fn bridge_requests_are_built_from_paths_and_ids() {
    assert_eq!(bridge_endpoint("10.0.0.2:5556", "/play"), "http://10.0.0.2:5556/play");
    let req = play_request("/m/a.flac", Some(9), Some("http://hub/"), Some("flac"), Some("a.flac"), None).unwrap();
    assert_eq!(req.url, "http://hub/stream/track/9");
    assert_eq!(req.ext_hint.as_deref(), Some("flac"));
    assert_eq!(req.title.as_deref(), Some("a.flac"));
    let req = play_request("/m/a b.flac", None, Some("http://hub"), None, None, Some(5)).unwrap();
    assert_eq!(req.url, "http://hub/stream?path=%2Fm%2Fa%20b.flac");
    assert_eq!(req.seek_ms, Some(5));
    assert_eq!(
        play_request("/m/a.flac", None, None, None, None, None).unwrap_err(),
        "public base url not configured"
    );
    assert_eq!(worker_play_fields("/music/track.flac", " "), (None, Some("track.flac".to_string())));
    assert_eq!(worker_play_fields("/", "mp3"), (Some("mp3".to_string()), None));
}

#[test]
fn sse_reader_replaces_invalid_utf8() {
    let mut r = SseReader::new();
    let evs = r.feed(b"data: a\xffb\n\n");
    assert_eq!(evs.len(), 1);
    assert_eq!(evs[0].data, "a\u{FFFD}b");
}
