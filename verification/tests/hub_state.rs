use audio_hub::browser::{
    browser_base_url, browser_ended_action, browser_message_for, browser_output_id, browser_status_action,
    BrowserProviderState, BrowserServerMessage, BrowserStatusAction, BrowserUrlError,
};
use audio_hub::config::{
    bridges_from_config, media_dir_from_config, metadata_db_path_from_config, musicbrainz_settings,
    public_base_url_from_config, BridgeConfig, MusicBrainzConfig, ServerConfig,
};
use audio_hub::events::{LogBuffer, LogEvent, LogVisitor};
use audio_hub::playback::BridgeCommand;

fn empty_config() -> ServerConfig {
    ServerConfig {
        bind: None,
        media_dir: None,
        metadata_db_path: None,
        public_base_url: None,
        bridges: None,
        local_outputs: None,
        local_id: None,
        local_name: None,
        local_device: None,
        musicbrainz: None,
        tls_cert: None,
        tls_key: None,
        outputs: None,
    }
}

fn log(msg: &str) -> LogEvent {
    LogEvent { level: "INFO".to_string(), target: "t".to_string(), message: msg.to_string(), timestamp_ms: 1 }
}

#[test]
fn public_base_url_uses_config_when_present() {
    let mut cfg = empty_config();
    cfg.public_base_url = Some("http://example.com/".to_string());
    let url = public_base_url_from_config(&cfg, "127.0.0.1:8080", false, false).unwrap();
    assert_eq!(url, "http://example.com");
}

#[test]
fn public_base_url_requires_explicit_when_unspecified_bind() {
    let cfg = empty_config();
    assert!(public_base_url_from_config(&cfg, "0.0.0.0:8080", true, false).is_err());
}

#[test]
fn public_base_url_falls_back_to_bind_address() {
    let cfg = empty_config();
    assert_eq!(
        public_base_url_from_config(&cfg, "127.0.0.1:8080", false, true).unwrap(),
        "https://127.0.0.1:8080"
    );
    assert_eq!(
        public_base_url_from_config(&cfg, "127.0.0.1:8080", false, false).unwrap(),
        "http://127.0.0.1:8080"
    );
}

#[test]
fn config_paths_and_bridges_resolve() {
    let mut cfg = empty_config();
    assert_eq!(media_dir_from_config(&cfg), Err("media_dir is required in config".to_string()));
    cfg.media_dir = Some("/music".to_string());
    assert_eq!(media_dir_from_config(&cfg), Ok("/music".to_string()));
    cfg.metadata_db_path = Some("   ".to_string());
    assert_eq!(metadata_db_path_from_config(&cfg), None);
    cfg.metadata_db_path = Some(" /db/meta.sqlite ".to_string());
    assert_eq!(metadata_db_path_from_config(&cfg), Some("/db/meta.sqlite".to_string()));
    cfg.bridges = Some(vec![
        BridgeConfig { id: "b1".to_string(), name: None, http_addr: "10.0.0.2:5556".to_string() },
        BridgeConfig { id: "b2".to_string(), name: Some("Den".to_string()), http_addr: "bad".to_string() },
    ]);
    let ok = bridges_from_config(&cfg, &vec![Some("10.0.0.2:5556".to_string()), Some("10.0.0.3:5556".to_string())])
        .unwrap();
    assert_eq!(ok.len(), 2);
    assert_eq!(ok[0].name, "b1");
    assert_eq!(ok[1].name, "Den");
    let err = bridges_from_config(&cfg, &vec![Some("10.0.0.2:5556".to_string()), None]).unwrap_err();
    assert_eq!(err, "parse bridge http_addr bad");
}

#[test]
fn musicbrainz_settings_need_enabled_and_user_agent() {
    let cfg = MusicBrainzConfig { enabled: Some(true), user_agent: None, base_url: None, rate_limit_ms: None };
    assert!(musicbrainz_settings(&cfg).is_none());
    let cfg = MusicBrainzConfig {
        enabled: Some(true),
        user_agent: Some("hub/1 (me@example.com)".to_string()),
        base_url: None,
        rate_limit_ms: None,
    };
    let s = musicbrainz_settings(&cfg).unwrap();
    assert_eq!(s.base_url, "https://musicbrainz.org/ws/2");
    assert_eq!(s.rate_limit_ms, 1000);
    let cfg = MusicBrainzConfig {
        enabled: None,
        user_agent: Some("ua".to_string()),
        base_url: Some("http://mb.local/ws/2/".to_string()),
        rate_limit_ms: Some(5),
    };
    assert!(musicbrainz_settings(&cfg).is_none());
}

#[test]
fn browser_sessions_register_rename_and_remove() {
    let mut reg = BrowserProviderState::new();
    let a = reg.register_session("Browser".to_string());
    let b = reg.register_session("Browser".to_string());
    assert_eq!(a, "browser-1");
    assert_eq!(b, "browser-2");
    reg.update_name(&a, "Kitchen".to_string());
    reg.update_last_duration(&a, Some(1234));
    let s = reg.get_session(&a).unwrap();
    assert_eq!(s.name, "Kitchen");
    assert_eq!(reg.get_last_duration(&a), Some(1234));
    assert_eq!(reg.get_last_duration("nope"), None);
    assert_eq!(reg.list_sessions().len(), 2);
    assert!(reg.remove_session(&b).is_some());
    assert!(reg.remove_session(&b).is_none());
    assert_eq!(reg.list_sessions().len(), 1);
}

#[test]
fn browser_messages_follow_commands() {
    let play = BridgeCommand::Play {
        path: "/music/a b.flac".to_string(),
        ext_hint: "flac".to_string(),
        seek_ms: Some(5),
        start_paused: true,
    };
    match browser_message_for(&play, "http://hub:8080/").unwrap() {
        BrowserServerMessage::Play { url, path, start_paused, seek_ms } => {
            assert_eq!(url, "http://hub:8080/stream?path=%2Fmusic%2Fa%20b.flac");
            assert_eq!(path, "/music/a b.flac");
            assert!(start_paused);
            assert_eq!(seek_ms, Some(5));
        }
        other => panic!("unexpected {:?}", other),
    }
    assert!(browser_message_for(&BridgeCommand::Quit, "http://hub").is_none());
    assert!(matches!(
        browser_message_for(&BridgeCommand::Seek { ms: 9 }, "http://hub"),
        Some(BrowserServerMessage::Seek { ms: 9 })
    ));
}

#[test]
fn browser_status_reports_only_for_active_output() {
    assert_eq!(browser_output_id("browser-3"), "browser:browser-3");
    let ignored = browser_status_action(Some("browser-3"), Some("bridge:x:y"), false, Some(1), None, None);
    assert!(matches!(ignored, BrowserStatusAction::Ignore));
    let stopped = browser_status_action(Some("browser-3"), Some("browser:browser-3"), true, None, None, None);
    assert!(matches!(stopped, BrowserStatusAction::Stopped));
    match browser_status_action(Some("browser-3"), Some("browser:browser-3"), true, Some(10), Some(20), None) {
        BrowserStatusAction::Report(s) => {
            assert!(s.paused);
            assert_eq!(s.elapsed_ms, Some(10));
            assert_eq!(s.duration_ms, Some(20));
        }
        _ => panic!("expected report"),
    }
    assert!(matches!(browser_ended_action(None, Some("browser:x")), BrowserStatusAction::Ignore));
    assert!(matches!(
        browser_ended_action(Some("x"), Some("browser:x")),
        BrowserStatusAction::Report(_)
    ));
}

#[test]
fn browser_base_url_checks_scheme_and_host() {
    assert_eq!(browser_base_url("https", "hub.local:8443"), Ok("https://hub.local:8443".to_string()));
    assert_eq!(browser_base_url("ws", "hub"), Err(BrowserUrlError::InvalidScheme));
    let long = "h".repeat(256);
    assert_eq!(browser_base_url("http", &long), Err(BrowserUrlError::HostTooLong));
}

#[test]
fn log_buffer_keeps_the_most_recent_lines() {
    let mut buf = LogBuffer::new(2);
    buf.publish(log("a"));
    buf.publish(log("b"));
    buf.publish(log("c"));
    let lines: Vec<String> = buf.snapshot().into_iter().map(|e| e.message).collect();
    assert_eq!(lines, vec!["b".to_string(), "c".to_string()]);
    buf.clear();
    assert!(buf.snapshot().is_empty());
}

#[test]
fn log_visitor_builds_the_line_text() {
    let mut v = LogVisitor::new();
    assert_eq!(v.into_message(), "log event");
    v.record_debug("message", "\"bridge up\"");
    v.record_str("bridge_id", "b1");
    v.record_debug("count", "3");
    assert_eq!(v.into_message(), "bridge up bridge_id=b1 count=3");
}

#[test]
fn local_sessions_stay_registered_when_others_register() {
    let mut store = audio_hub::local_sessions::LocalPlaybackStore::new();
    let a = store.register_session("ios".to_string(), "Phone".to_string(), "c1".to_string(), "1.0".to_string(), 10);
    let b = store.register_session("ios".to_string(), "Tablet".to_string(), "c2".to_string(), "1.0".to_string(), 20);
    assert_ne!(a, b);
    assert!(store.has_session(&a));
    assert!(store.has_session(&b));
    assert!(a.starts_with("local:ios:"));
    let again = store.register_session("ios".to_string(), "Phone 2".to_string(), "c1".to_string(), "1.1".to_string(), 30);
    assert_eq!(again, a);
    assert!(store.touch_session(&b, 40));
    assert!(!store.touch_session("local:ios:missing", 50));
    assert_eq!(store.list_sessions().len(), 2);
}

#[test]
fn local_session_last_seen_never_goes_back() {
    let mut store = audio_hub::local_sessions::LocalPlaybackStore::new();
    let a = store.register_session("ios".to_string(), "Phone".to_string(), "c1".to_string(), "1.0".to_string(), 100);
    assert!(store.touch_session(&a, 50));
    assert_eq!(store.list_sessions()[0].last_seen_ms, 100);
    assert!(store.touch_session(&a, 150));
    assert_eq!(store.list_sessions()[0].last_seen_ms, 150);
    store.register_session("ios".to_string(), "Phone".to_string(), "c1".to_string(), "1.1".to_string(), 120);
    assert_eq!(store.list_sessions()[0].last_seen_ms, 150);
    assert_eq!(store.list_sessions()[0].created_at_ms, 100);
}
