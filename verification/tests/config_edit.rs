use audio_hub::config::{update_output_settings, ConfigEditError, OutputSettingsConfig};

#[test]
fn output_settings_replace_the_outputs_section() {
    let raw = "bind = \"127.0.0.1:8080\"\n\n[outputs]\ndisabled = [\"old\"]\n";
    let settings = OutputSettingsConfig {
        disabled: Some(vec![]),
        renames: Some(vec![("bridge:a:b".to_string(), "Living Room".to_string())]),
        exclusive: Some(vec!["bridge:a:b".to_string(), "bridge:a:c".to_string()]),
    };
    let out = update_output_settings(raw, &settings).expect("valid toml");
    assert!(out.contains("bind = \"127.0.0.1:8080\""));
    assert!(!out.contains("disabled"));
    assert!(out.contains("exclusive = [\"bridge:a:b\", \"bridge:a:c\"]"));
    assert!(out.contains("\"bridge:a:b\" = \"Living Room\""));
}

#[test]
fn empty_output_settings_remove_the_section() {
    let raw = "media_dir = \"/music\"\n\n[outputs]\ndisabled = [\"old\"]\n";
    let settings = OutputSettingsConfig { disabled: None, renames: None, exclusive: Some(vec![]) };
    let out = update_output_settings(raw, &settings).expect("valid toml");
    assert_eq!(out, "media_dir = \"/music\"\n");
}

#[test]
fn invalid_config_text_is_refused() {
    let settings = OutputSettingsConfig { disabled: None, renames: None, exclusive: None };
    let err = update_output_settings("bind = = 1", &settings).unwrap_err();
    match err {
        ConfigEditError::InvalidToml(msg) => assert!(!msg.is_empty()),
    }
}

#[test]
fn output_settings_write_the_disabled_ids_and_later_renames() {
    let raw = "media_dir = \"/music\"\n";
    let settings = OutputSettingsConfig {
        disabled: Some(vec!["x".to_string(), "y".to_string()]),
        renames: Some(vec![("a".to_string(), "First".to_string()), ("a".to_string(), "Second".to_string())]),
        exclusive: None,
    };
    let out = update_output_settings(raw, &settings).expect("valid toml");
    assert!(out.starts_with("media_dir = \"/music\"\n"));
    assert!(out.contains("disabled = [\"x\", \"y\"]"));
    assert!(out.contains("a = \"Second\""));
    assert!(!out.contains("First"));
    assert!(!out.contains("exclusive"));
}
