use audio_hub::bridges::{merge_bridges, parse_output_id, parse_provider_id, BridgeConfigResolved};
use audio_hub::paths::title_from_path;
use audio_hub::playback::update_online_and_should_emit;
use audio_hub::tags::ext_hint_option;

fn bridge(id: &str, addr: &str) -> BridgeConfigResolved {
    BridgeConfigResolved { id: id.to_string(), name: id.to_string(), http_addr: addr.to_string() }
}

#[test]
fn title_from_path_returns_file_name() {
    assert_eq!(title_from_path("/music/track.flac"), Some("track.flac".to_string()));
}

#[test]
fn title_from_path_returns_none_for_dir() {
    assert!(title_from_path("/").is_none());
}

#[test]
fn ext_hint_option_rejects_empty() {
    assert!(ext_hint_option("").is_none());
    assert!(ext_hint_option("   ").is_none());
    assert_eq!(ext_hint_option("flac"), Some("flac"));
}

#[test]
fn update_online_and_should_emit_tracks_transitions() {
    let mut online = false;
    assert!(update_online_and_should_emit(&mut online, true));
    assert!(!update_online_and_should_emit(&mut online, true));
    assert!(update_online_and_should_emit(&mut online, false));
    assert!(!update_online_and_should_emit(&mut online, false));
}

#[test]
fn parse_output_id_accepts_valid() {
    let (bridge_id, device_id) = parse_output_id("bridge:one:device").unwrap();
    assert_eq!(bridge_id, "one");
    assert_eq!(device_id, "device");
}

#[test]
fn parse_output_id_rejects_invalid() {
    assert!(parse_output_id("bridge::device").is_err());
    assert!(parse_output_id("local:one:device").is_err());
    assert!(parse_output_id("bridge:one").is_err());
}

#[test]
fn parse_provider_id_accepts_valid() {
    let bridge_id = parse_provider_id("bridge:one").unwrap();
    assert_eq!(bridge_id, "one");
}

#[test]
fn parse_provider_id_rejects_invalid() {
    assert!(parse_provider_id("bridge:").is_err());
    assert!(parse_provider_id("local:one").is_err());
}

#[test]
fn merge_bridges_prefers_configured_and_skips_duplicate_addr() {
    let configured = vec![bridge("a", "127.0.0.1:5556")];
    let discovered = vec![
        ("a".to_string(), bridge("a", "127.0.0.1:5556")),
        ("b".to_string(), bridge("b", "127.0.0.1:5556")),
        ("c".to_string(), bridge("c", "127.0.0.1:5557")),
    ];
    let merged = merge_bridges(&configured, &discovered);
    let ids = merged.iter().map(|b| b.id.as_str()).collect::<Vec<_>>();
    assert!(ids.contains(&"a"));
    assert!(ids.contains(&"c"));
    assert_eq!(merged.len(), 2);
}

#[test]
fn parse_output_id_keeps_colons_in_device() {
    let (bridge_id, device_id) = parse_output_id("bridge:one:hw:0,0").unwrap();
    assert_eq!(bridge_id, "one");
    assert_eq!(device_id, "hw:0,0");
    assert_eq!(parse_output_id("nothing").unwrap_err(), "invalid output id");
    assert_eq!(parse_provider_id("bridge").unwrap_err(), "invalid provider id");
}

#[test]
fn merge_bridges_keeps_discovered_order() {
    let configured = vec![bridge("a", "10.0.0.1:1")];
    let discovered = vec![
        ("c".to_string(), bridge("c", "10.0.0.3:1")),
        ("b".to_string(), bridge("b", "10.0.0.2:1")),
        ("d".to_string(), bridge("d", "10.0.0.3:1")),
    ];
    let merged = merge_bridges(&configured, &discovered);
    let ids = merged.iter().map(|b| b.id.clone()).collect::<Vec<_>>();
    assert_eq!(ids, vec!["a".to_string(), "c".to_string(), "b".to_string()]);
}
