use audio_hub::localplayer::{next_session_id, LocalPlayerState, StatusNote};
use audio_hub::playback::BridgeCommand;
use audio_hub::events::{HubEvent, MetadataEvent};
use audio_hub::local_sessions::{local_play_url, session_info, validate_register_request, LocalPlaybackSession, RegisterError};
use audio_hub::models::{LocalPlaybackRegisterRequest, SessionCreateRequest, SessionMode};
use audio_hub::musicbrainz::{enrich_step, lookup_record, no_match_key, should_lookup, EnrichStep, MusicBrainzLookup};
use audio_hub::playqueue::{added_message, clear_options};
use audio_hub::requests::{health_response, ListQuery};
use audio_hub::sessions::{heartbeat_state, session_locks_response, validate_session_create, viewer_client_id};
use audio_hub::sse::{
    albums_stream_step, is_local_session, metadata_stream_step, outputs_stream_step, ping_due, session_queue_step,
    session_should_periodic_refresh, session_status_step, should_send, sse_event, StreamSignal, StreamStep,
};
use audio_hub::store::MusicBrainzCandidate;
use audio_hub::transport::{device_name_for, HttpDeviceInfo};

#[test]
fn sse_event_frames_each_data_line() {
    assert_eq!(sse_event("status", "{\"a\":1}"), "event: status\ndata: {\"a\":1}\n\n");
    assert_eq!(sse_event("x", "one\r\ntwo\n"), "event: x\ndata: one\ndata: two\n\n");
    assert_eq!(sse_event("x", ""), "event: x\n\n");
    assert_eq!(sse_event("x", "a\n\nb"), "event: x\ndata: a\ndata: \ndata: b\n\n");
}

#[test]
fn streams_react_to_their_events() {
    assert_eq!(outputs_stream_step(&StreamSignal::Hub(HubEvent::OutputsChanged)), StreamStep::Refresh { emit_unchanged: true });
    assert_eq!(outputs_stream_step(&StreamSignal::Tick), StreamStep::Idle);
    assert_eq!(outputs_stream_step(&StreamSignal::Closed), StreamStep::Close);
    assert_eq!(session_status_step(&StreamSignal::Tick, true), StreamStep::Refresh { emit_unchanged: false });
    assert_eq!(session_status_step(&StreamSignal::Tick, false), StreamStep::Idle);
    assert_eq!(session_status_step(&StreamSignal::Hub(HubEvent::QueueChanged), true), StreamStep::Idle);
    assert_eq!(session_queue_step(&StreamSignal::Hub(HubEvent::QueueChanged)), StreamStep::Refresh { emit_unchanged: false });
    assert_eq!(albums_stream_step(&StreamSignal::Lagged), StreamStep::Refresh { emit_unchanged: true });
    let ev = MetadataEvent::CoverArtBatch { count: 2 };
    assert!(matches!(metadata_stream_step(StreamSignal::Hub(HubEvent::Metadata(ev))), Some(Some(MetadataEvent::CoverArtBatch { count: 2 }))));
    assert!(matches!(metadata_stream_step(StreamSignal::Lagged), Some(None)));
    assert!(metadata_stream_step(StreamSignal::Closed).is_none());
    assert!(should_send(false, &None, "x"));
    assert!(!should_send(false, &Some("x".to_string()), "x"));
    assert!(should_send(true, &Some("x".to_string()), "x"));
    assert!(ping_due(true, 15000));
    assert!(!ping_due(false, 20000));
    assert!(!ping_due(true, 14999));
    assert!(session_should_periodic_refresh(Some("cast:abc")));
    assert!(!session_should_periodic_refresh(Some("bridge:a:b")));
    assert!(is_local_session(Some(SessionMode::Local)));
    assert!(!is_local_session(None));
}

#[test]
fn local_playback_registration_is_checked() {
    let req = LocalPlaybackRegisterRequest {
        kind: " iOS ".to_string(),
        name: " Phone ".to_string(),
        client_id: "c1".to_string(),
        app_version: "1.0".to_string(),
    };
    let (kind, name, client, version) = validate_register_request(&req).unwrap();
    assert_eq!((kind.as_str(), name.as_str(), client.as_str(), version.as_str()), ("ios", "Phone", "c1", "1.0"));
    let bad = LocalPlaybackRegisterRequest { kind: "!!".to_string(), ..req.clone() };
    assert_eq!(validate_register_request(&bad), Err(RegisterError::InvalidKind));
    let blank = LocalPlaybackRegisterRequest { name: "  ".to_string(), ..req };
    assert_eq!(validate_register_request(&blank), Err(RegisterError::MissingFields));
    assert_eq!(RegisterError::MissingFields.message(), "kind, name, client_id, and app_version are required");
    assert_eq!(local_play_url("local:ios:x"), "/local-playback/local:ios:x/play");
    let s = LocalPlaybackSession {
        session_id: "s".to_string(),
        kind: "ios".to_string(),
        name: "n".to_string(),
        app_version: "v".to_string(),
        created_at_ms: 100,
        last_seen_ms: 250,
    };
    let info = session_info(&s, 300);
    assert_eq!((info.created_age_ms, info.last_seen_age_ms), (200, 50));
    assert_eq!(session_info(&s, 50).created_age_ms, 0);
}

#[test]
fn session_requests_are_checked() {
    let req = SessionCreateRequest {
        name: " Desk ".to_string(),
        mode: SessionMode::Remote,
        client_id: "c".to_string(),
        app_version: "2".to_string(),
        owner: None,
        lease_ttl_sec: None,
    };
    assert_eq!(validate_session_create(&req), Some(("Desk".to_string(), "c".to_string(), "2".to_string())));
    let blank = SessionCreateRequest { client_id: " ".to_string(), ..req };
    assert_eq!(validate_session_create(&blank), None);
    assert_eq!(viewer_client_id(Some("  ")), None);
    assert_eq!(viewer_client_id(Some(" c ")), Some("c".to_string()));
    assert_eq!(heartbeat_state(" foreground "), Some("foreground".to_string()));
    assert_eq!(heartbeat_state(""), None);
    let locks = session_locks_response(&vec![("bridge:a:b".to_string(), "s1".to_string())], &vec![]);
    assert_eq!(locks.output_locks[0].key, "bridge:a:b");
    assert_eq!(locks.output_locks[0].session_id, "s1");
    assert!(locks.bridge_locks.is_empty());
}

#[test]
fn enrichment_skips_known_misses_and_reads_outcomes() {
    let mut c = MusicBrainzCandidate {
        path: "/m/a.flac".to_string(),
        title: "Take On Me".to_string(),
        artist: "a-ha".to_string(),
        album: None,
        album_artist: None,
        no_match_key: None,
    };
    assert!(should_lookup(&c));
    c.no_match_key = Some(no_match_key("Take On Me", "a-ha", None));
    assert!(!should_lookup(&c));
    let rec = lookup_record(&c);
    assert_eq!(rec.title.as_deref(), Some("Take On Me"));
    assert_eq!(rec.file_name, "");
    let step = enrich_step(
        &c,
        Ok(MusicBrainzLookup::NoMatch { query: "q".to_string(), top_score: None, best_recording_id: None, best_recording_title: None }),
    );
    assert!(matches!(step, EnrichStep::RememberNoMatch(k) if k == "take on me|a-ha|"));
    assert!(matches!(enrich_step(&c, Err("down".to_string())), EnrichStep::Failed(e) if e == "down"));
}

#[test]
fn small_answers_and_defaults() {
    assert_eq!(added_message(3), "added 3");
    assert_eq!(clear_options(None), (true, false));
    assert_eq!(health_response().status, "ok");
    let q = ListQuery { search: None, limit: Some(5000), offset: Some(-3) };
    assert_eq!(q.paging(), (1000, 0));
    let devices = vec![
        HttpDeviceInfo { id: "d1".to_string(), name: "USB DAC".to_string(), min_rate: 44100, max_rate: 192000 },
    ];
    assert_eq!(device_name_for(&devices, "d1"), Some("USB DAC".to_string()));
    assert_eq!(device_name_for(&devices, "d2"), None);
}

#[test]
fn local_player_follows_commands() {
    let mut p = LocalPlayerState::new();
    let a = p.on_command(BridgeCommand::Seek { ms: 5 });
    assert!(a.start.is_none() && !a.cancel_session);
    let a = p.on_command(BridgeCommand::Play {
        path: "/m/a.flac".to_string(),
        ext_hint: "flac".to_string(),
        seek_ms: None,
        start_paused: true,
    });
    assert!(a.cancel_session);
    assert_eq!(a.start.as_ref().map(|s| s.path.as_str()), Some("/m/a.flac"));
    assert!(p.paused);
    let a = p.on_command(BridgeCommand::PauseToggle);
    assert_eq!(a.set_paused, Some(false));
    assert_eq!(a.status, StatusNote::PauseToggled);
    let a = p.on_command(BridgeCommand::Seek { ms: 42 });
    let s = a.start.unwrap();
    assert_eq!((s.path.as_str(), s.seek_ms, s.paused), ("/m/a.flac", Some(42), false));
    let a = p.on_command(BridgeCommand::Stop);
    assert_eq!(a.status, StatusNote::Stopped);
    assert!(p.current.is_none());
    assert!(p.on_command(BridgeCommand::Quit).quit);
    assert_eq!(next_session_id(u64::MAX), u64::MAX);
    assert_eq!(next_session_id(4), 5);
}

#[test]
fn framed_event_is_read_back_by_the_stream_reader() {
    let frame = sse_event(" status ", "{\"a\":1}\n  {\"b\":2}");
    let mut reader = audio_hub::transport::SseReader::new();
    let events = reader.feed(frame.as_bytes());
    assert_eq!(events.len(), 1);
    assert_eq!(events[0].event, "status");
    assert_eq!(events[0].data, "{\"a\":1}\n{\"b\":2}");
}

#[test]
fn no_match_key_lowercases_and_trims_each_part() {
    assert_eq!(no_match_key("  ÉTÉ Song ", "A-HA", Some(" Hunting HIGH ")), "été song|a-ha|hunting high");
    assert_eq!(no_match_key("X", "Y", None), "x|y|");
}
