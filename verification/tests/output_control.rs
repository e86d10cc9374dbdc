use audio_hub::bridges::BridgeConfigResolved;
use audio_hub::control::{
    check_requested_output, disables_active, exclusive_target, normalize_outputs_response,
    plan_bridge_unregister, plan_output_switch, provider_address, resolve_active_output_id,
    validate_output_selection, OutputControlError, ResumePlan, SelectOutputError,
};
use audio_hub::models::{OutputCapabilities, OutputInfo, OutputSettings, OutputsResponse, QueueMode, SessionMode};
use audio_hub::playqueue::PlayQueue;
use audio_hub::rootpaths::{candidate_path, keep_under_root};
use std::collections::HashMap;

fn output(id: &str) -> OutputInfo {
    OutputInfo {
        id: id.to_string(),
        kind: "bridge".to_string(),
        name: id.to_string(),
        state: "online".to_string(),
        provider_id: None,
        provider_name: None,
        supported_rates: None,
        capabilities: OutputCapabilities { device_select: true, volume: true },
    }
}

#[test]
fn apply_queue_mode_keep_preserves_items() {
    let mut q = PlayQueue::new();
    q.add_paths(vec!["/music/a.flac".to_string()]);
    q.apply_queue_mode("/music/b.flac", QueueMode::Keep);
    assert_eq!(q.items(), vec!["/music/a.flac".to_string()]);
}

#[test]
fn apply_queue_mode_replace_clears_queue() {
    let mut q = PlayQueue::new();
    q.add_paths(vec!["/music/a.flac".to_string()]);
    q.apply_queue_mode("/music/b.flac", QueueMode::Replace);
    assert_eq!(q.len(), 0);
}

#[test]
fn apply_queue_mode_append_adds_once() {
    let mut q = PlayQueue::new();
    q.apply_queue_mode("/music/a.flac", QueueMode::Append);
    q.apply_queue_mode("/music/a.flac", QueueMode::Append);
    assert_eq!(q.items(), vec!["/music/a.flac".to_string()]);
}

#[test]
fn queue_play_from_returns_false_when_missing() {
    let mut q = PlayQueue::new();
    assert!(!q.play_from("/tmp/root/track.flac"));
    assert_eq!(q.len(), 0);
}

#[test]
fn queue_play_from_drops_items_ahead() {
    let mut q = PlayQueue::new();
    q.add_paths(vec!["a".to_string(), "b".to_string(), "c".to_string()]);
    assert!(q.play_from("b"));
    assert_eq!(q.items(), vec!["c".to_string()]);
}

#[test]
fn queue_add_paths_skips_missing_files() {
    let root = "/tmp/hub-root";
    let resolved = vec![Some(candidate_path(root, "a.flac")), None];
    let kept = keep_under_root(root, resolved);
    let mut q = PlayQueue::new();
    let added = q.add_paths(kept);
    assert_eq!(added, 1);
    assert_eq!(q.items(), vec!["/tmp/hub-root/a.flac".to_string()]);
}

#[test]
fn queue_remove_path_returns_false_when_not_queued() {
    let mut q = PlayQueue::new();
    assert!(!q.remove_path("/tmp/hub-root/a.flac"));
}

#[test]
fn queue_remove_path_removes_existing_item() {
    let mut q = PlayQueue::new();
    assert_eq!(q.add_paths(vec!["/tmp/hub-root/a.flac".to_string()]), 1);
    assert!(q.remove_path("/tmp/hub-root/a.flac"));
    assert_eq!(q.len(), 0);
}

#[test]
fn add_next_paths_go_first_in_order_and_pop_takes_the_front() {
    let mut q = PlayQueue::new();
    q.add_paths(vec!["c".to_string()]);
    assert_eq!(q.add_next_paths(vec!["a".to_string(), "b".to_string()]), 2);
    assert_eq!(q.items(), vec!["a".to_string(), "b".to_string(), "c".to_string()]);
    assert_eq!(q.pop_next(), Some("a".to_string()));
    q.clear();
    assert_eq!(q.pop_next(), None);
}

#[test]
fn resolve_active_output_id_rejects_missing_active() {
    let result = resolve_active_output_id(None, None, true);
    assert!(matches!(result, Err(OutputControlError::NoActiveOutput)));
}

#[test]
fn resolve_active_output_id_rejects_mismatched_request() {
    let result = resolve_active_output_id(
        Some("bridge:test:device".to_string()),
        Some("bridge:other:device"),
        true,
    );
    assert!(matches!(result, Err(OutputControlError::UnsupportedOutput { .. })));
    let err = result.unwrap_err();
    assert_eq!(err.status_code(), 400);
    assert_eq!(
        err.message(),
        "unsupported output id: bridge:other:device (active: bridge:test:device)"
    );
}

#[test]
fn resolve_active_output_id_rejects_offline_output() {
    let result = resolve_active_output_id(Some("bridge:test:device".to_string()), None, false);
    assert!(matches!(result, Err(OutputControlError::OutputOffline { .. })));
    let err = result.unwrap_err();
    assert_eq!(err.status_code(), 503);
    assert_eq!(err.message(), "output offline: bridge:test:device");
}

#[test]
fn resolve_active_output_id_accepts_matching_connected_output() {
    let ok = resolve_active_output_id(
        Some("bridge:test:device".to_string()),
        Some("bridge:test:device"),
        true,
    );
    assert_eq!(ok.unwrap(), "bridge:test:device");
    assert!(check_requested_output(Some("x".to_string()), None).is_ok());
    assert_eq!(OutputControlError::NoActiveOutput.message(), "no active output selected");
    assert_eq!(OutputControlError::PlayerOffline.status_code(), 500);
}

#[test]
fn outputs_response_drops_unlisted_active_id() {
    let resp = OutputsResponse { active_id: Some("gone".to_string()), outputs: vec![output("a")] };
    assert_eq!(normalize_outputs_response(resp).active_id, None);
    let resp = OutputsResponse { active_id: Some("a".to_string()), outputs: vec![output("a")] };
    assert_eq!(normalize_outputs_response(resp).active_id, Some("a".to_string()));
}

#[test]
fn output_selection_is_validated() {
    assert_eq!(
        validate_output_selection("  ", Some(SessionMode::Local)),
        Err(SelectOutputError::OutputIdRequired)
    );
    assert_eq!(
        validate_output_selection("browser:tab", None),
        Err(SelectOutputError::SessionNotFound)
    );
    assert_eq!(
        validate_output_selection("browser:tab", Some(SessionMode::Remote)),
        Err(SelectOutputError::BrowserNeedsLocalSession)
    );
    assert_eq!(
        validate_output_selection(" bridge:b:d ", None),
        Ok("bridge:b:d".to_string())
    );
    assert_eq!(SelectOutputError::OutputIdRequired.message(), "output_id is required");
    assert_eq!(SelectOutputError::SessionNotFound.status_code(), 404);
}

#[test]
fn output_switch_stops_and_resumes_where_it_was() {
    let plan = plan_output_switch(Some("bridge:a:x"), "bridge:b:y", true, Some(1500), Some(true));
    assert!(plan.stop_first);
    assert_eq!(plan.resume, Some(ResumePlan { seek_ms: Some(1500), paused: true }));
    let plan = plan_output_switch(Some("bridge:b:y"), "bridge:b:y", true, Some(0), None);
    assert!(!plan.stop_first);
    assert_eq!(plan.resume, Some(ResumePlan { seek_ms: None, paused: false }));
    let plan = plan_output_switch(None, "bridge:b:y", false, Some(10), Some(false));
    assert!(!plan.stop_first);
    assert_eq!(plan.resume, None);
}

#[test]
fn bridge_unregister_releases_its_sessions() {
    assert!(plan_bridge_unregister("  ", None, None, &vec![]).is_none());
    let sessions = vec![
        ("s1".to_string(), Some("bridge:b1:dev".to_string())),
        ("s2".to_string(), Some("bridge:b10:dev".to_string())),
        ("s3".to_string(), None),
        ("s4".to_string(), Some("bridge:b1:other".to_string())),
    ];
    let plan = plan_bridge_unregister(" b1 ", Some("bridge:b1:dev"), None, &sessions).unwrap();
    assert_eq!(plan.bridge_id, "b1");
    assert!(plan.clear_active_output);
    assert_eq!(plan.release_sessions, vec!["s1".to_string(), "s4".to_string()]);
    let plan = plan_bridge_unregister("b2", Some("bridge:b1:dev"), Some("b2"), &sessions).unwrap();
    assert!(plan.clear_active_output);
    assert!(plan.release_sessions.is_empty());
}

#[test]
fn settings_update_disables_and_reapplies_exclusive_mode() {
    let settings = OutputSettings {
        disabled: vec!["bridge:b1:off".to_string()],
        renames: HashMap::new(),
        exclusive: vec!["bridge:b1:dev".to_string()],
    };
    assert!(disables_active(&settings, Some("bridge:b1:off")));
    assert!(!disables_active(&settings, Some("bridge:b1:dev")));
    let bridges = vec![BridgeConfigResolved {
        id: "b1".to_string(),
        name: "Bridge".to_string(),
        http_addr: "10.0.0.2:5556".to_string(),
    }];
    let target = exclusive_target(&settings, Some("bridge:b1:dev"), &bridges).unwrap();
    assert_eq!(target.http_addr, "10.0.0.2:5556");
    assert_eq!(target.device_id, "dev");
    assert!(target.exclusive);
    assert!(exclusive_target(&settings, Some("bridge:zz:dev"), &bridges).is_none());
    assert!(exclusive_target(&settings, Some("local:x"), &bridges).is_none());
    assert_eq!(provider_address("bridge:b1", &bridges, &vec![]), Some("10.0.0.2:5556".to_string()));
    assert_eq!(provider_address("cast:b1", &bridges, &vec![]), None);
}

#[test]
fn select_output_while_playing_stops_previous_output_and_starts_new_output() {
    let new_output_id = "cast:new-device";
    let output_id = validate_output_selection(new_output_id, Some(SessionMode::Remote)).unwrap();
    let plan = plan_output_switch(Some("cast:old-device"), &output_id, true, Some(12_345), Some(false));
    assert!(plan.stop_first, "old output should receive stop");
    assert_eq!(plan.resume, Some(ResumePlan { seek_ms: Some(12_345), paused: false }));
}
