use rusthome::config::PhysicalProjectionMode;
use rusthome::pipeline::RunLimits;
use rusthome::rusthome_file::{
    build_run_limits, build_runtime_config, parse_physical_projection_mode, resolve_rules_digest,
    resolve_rules_preset, validate_rusthome_file, RulesPreset, RunLimitsConfig, RusthomeFile,
    Zigbee2MqttConfig,
};

#[test]
fn zigbee2mqtt_defaults_resolve() {
    let z = Zigbee2MqttConfig::default();
    assert_eq!(z.resolved_topic_prefix(), "zigbee2mqtt");
    assert_eq!(z.resolved_permit_join_seconds(), 120);
}

#[test]
fn io_anchored_cli_wins_over_file_simulation() {
    let f = RusthomeFile {
        physical_projection_mode: Some("simulation".into()),
        ..Default::default()
    };
    validate_rusthome_file(&f).unwrap();
    let cfg = build_runtime_config(&f, true);
    assert_eq!(cfg.physical_projection_mode, PhysicalProjectionMode::IoAnchored);
}

#[test]
fn physical_mode_from_file_when_cli_false() {
    let f = RusthomeFile {
        physical_projection_mode: Some("io_anchored".into()),
        ..Default::default()
    };
    validate_rusthome_file(&f).unwrap();
    let cfg = build_runtime_config(&f, false);
    assert_eq!(cfg.physical_projection_mode, PhysicalProjectionMode::IoAnchored);
}

#[test]
fn data_dir_toml_selects_minimal() {
    let file = RusthomeFile { rules_preset: Some("minimal".into()), ..Default::default() };
    let p = resolve_rules_preset(None, &file).unwrap();
    assert_eq!(p, RulesPreset::Minimal);
}

#[test]
fn cli_overrides_file() {
    let file = RusthomeFile { rules_preset: Some("minimal".into()), ..Default::default() };
    let p = resolve_rules_preset(Some("v0"), &file).unwrap();
    assert_eq!(p, RulesPreset::V0);
}

#[test]
fn io_timeout_from_file() {
    let file = RusthomeFile { io_timeout_logical_delta: Some(120), ..Default::default() };
    let cfg = build_runtime_config(&file, false);
    assert_eq!(cfg.io_timeout_logical_delta, 120);
}

#[test]
fn unknown_physical_mode_fails() {
    let file = RusthomeFile {
        physical_projection_mode: Some("banana".into()),
        ..Default::default()
    };
    let e = validate_rusthome_file(&file).unwrap_err();
    assert!(e.contains("physical_projection_mode"), "{}", e);
}

#[test]
fn non_positive_io_timeout_fails() {
    let file = RusthomeFile { io_timeout_logical_delta: Some(0), ..Default::default() };
    assert!(validate_rusthome_file(&file).is_err());
}

#[test]
fn bad_rules_preset_in_file_fails() {
    let file = RusthomeFile { rules_preset: Some("nope".into()), ..Default::default() };
    assert!(validate_rusthome_file(&file).is_err());
}

#[test]
fn run_limits_partial_merge() {
    let file = RusthomeFile {
        run_limits: Some(RunLimitsConfig {
            max_events_per_run: Some(2000),
            max_wall_ms_per_run: Some(5000),
            ..Default::default()
        }),
        ..Default::default()
    };
    validate_rusthome_file(&file).unwrap();
    let lim = build_run_limits(&file);
    assert_eq!(lim.max_events_per_run, 2000);
    assert_eq!(lim.max_wall_ms_per_run, 5000);
    assert_eq!(
        lim.max_events_generated_per_root,
        RunLimits::default().max_events_generated_per_root
    );
}

#[test]
fn run_limits_zero_fails() {
    let file = RusthomeFile {
        run_limits: Some(RunLimitsConfig { max_events_per_run: Some(0), ..Default::default() }),
        ..Default::default()
    };
    assert!(validate_rusthome_file(&file).is_err());
}

#[test]
fn zigbee2mqtt_bad_prefix_fails() {
    let file = RusthomeFile {
        zigbee2mqtt: Some(Zigbee2MqttConfig {
            mqtt_topic_prefix: Some("bad#topic".into()),
            permit_join_seconds: None,
        }),
        ..Default::default()
    };
    assert_eq!(
        validate_rusthome_file(&file).unwrap_err(),
        "zigbee2mqtt.mqtt_topic_prefix: must not contain #, +, or spaces"
    );
}

#[test]
fn permit_join_out_of_range_fails() {
    let file = RusthomeFile {
        zigbee2mqtt: Some(Zigbee2MqttConfig { mqtt_topic_prefix: None, permit_join_seconds: Some(901) }),
        ..Default::default()
    };
    assert_eq!(
        validate_rusthome_file(&file).unwrap_err(),
        "zigbee2mqtt.permit_join_seconds: must be between 1 and 900, got 901"
    );
}

#[test]
fn presets_and_digests() {
    assert_eq!(RulesPreset::parse("home").unwrap(), RulesPreset::Home);
    assert_eq!(RulesPreset::parse("x").unwrap_err(), "unknown rules preset \"x\"");
    assert_eq!(RulesPreset::Minimal.as_str(), "minimal");
    assert_eq!(resolve_rules_digest(None, RulesPreset::Home), "rules-home");
    assert_eq!(resolve_rules_digest(Some("  "), RulesPreset::V0), "rules-v0");
    assert_eq!(resolve_rules_digest(Some(" custom "), RulesPreset::V0), "custom");
    assert_eq!(resolve_rules_preset(None, &RusthomeFile::default()).unwrap(), RulesPreset::V0);
    assert_eq!(
        parse_physical_projection_mode("  IO_Anchored "),
        Some(PhysicalProjectionMode::IoAnchored)
    );
    assert_eq!(parse_physical_projection_mode("sim"), None);
}
