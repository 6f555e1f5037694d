use rusthome::bridge::{
    apply_z2m_bridge_info_payload, default_port, default_z2m_prefix, extract_z2m_friendly_name,
    plan_z2m_publish, validate_rusthome_id, BrokerConfig, Config, DeviceRule, FieldMapping,
    SensorPayload, Z2mBridgeSnapshot, Z2mConfig, z2m_bridge_info_topic,
};

fn mapping(json_key: &str, family: &str, rusthome_id: &str) -> FieldMapping {
    FieldMapping {
        json_key: json_key.to_string(),
        family: family.to_string(),
        rusthome_id: rusthome_id.to_string(),
    }
}

fn sample_devices() -> Vec<DeviceRule> {
    vec![
        DeviceRule {
            match_friendly_name: "living_multi".to_string(),
            mapping: vec![
                mapping("temperature", "temperature", "living"),
                mapping("humidity", "humidity", "living"),
            ],
        },
        DeviceRule {
            match_friendly_name: "front_door".to_string(),
            mapping: vec![mapping("contact", "contact", "front_door")],
        },
        DeviceRule {
            match_friendly_name: "hall_motion".to_string(),
            mapping: vec![mapping("occupancy", "motion", "hall")],
        },
    ]
}

fn number_of(p: &SensorPayload) -> f64 {
    match p {
        SensorPayload::Celsius(t) | SensorPayload::Humidity(t) => t.parse::<f64>().unwrap(),
        other => panic!("not a number: {other:?}"),
    }
}

#[test]
fn skips_bridge_topics() {
    let devs = sample_devices();
    let out = plan_z2m_publish("zigbee2mqtt", "zigbee2mqtt/bridge/devices", br#"{}"#, &devs);
    assert!(out.is_empty());
}

#[test]
fn skips_unknown_friendly_name() {
    let devs = sample_devices();
    let out =
        plan_z2m_publish("zigbee2mqtt", "zigbee2mqtt/unknown_device", br#"{"temperature":21}"#, &devs);
    assert!(out.is_empty());
}

#[test]
fn temperature_and_humidity_from_one_payload() {
    let devs = sample_devices();
    let out = plan_z2m_publish(
        "zigbee2mqtt",
        "zigbee2mqtt/living_multi",
        br#"{"temperature":21.5,"humidity":55}"#,
        &devs,
    );
    assert_eq!(out.len(), 2);
    assert_eq!(out[0].topic, "sensors/temperature/living");
    assert_eq!(out[1].topic, "sensors/humidity/living");
    assert!(matches!(out[0].payload, SensorPayload::Celsius(_)));
    assert_eq!(number_of(&out[0].payload), 21.5);
    assert!(matches!(out[1].payload, SensorPayload::Humidity(_)));
    assert_eq!(number_of(&out[1].payload), 55.0);
}

#[test]
fn z2m_contact_true_means_closed() {
    let devs = sample_devices();
    let out = plan_z2m_publish("zigbee2mqtt", "zigbee2mqtt/front_door", br#"{"contact":true}"#, &devs);
    assert_eq!(out.len(), 1);
    assert_eq!(out[0].payload, SensorPayload::Open(false));
}

#[test]
fn motion_only_when_occupancy_true() {
    let devs = sample_devices();
    let out =
        plan_z2m_publish("zigbee2mqtt", "zigbee2mqtt/hall_motion", br#"{"occupancy":true}"#, &devs);
    assert_eq!(out.len(), 1);
    assert_eq!(out[0].topic, "sensors/motion/hall");
    assert_eq!(out[0].payload, SensorPayload::Room("hall".to_string()));

    let out_clear =
        plan_z2m_publish("zigbee2mqtt", "zigbee2mqtt/hall_motion", br#"{"occupancy":false}"#, &devs);
    assert!(out_clear.is_empty());
}

#[test]
fn extract_name_ok() {
    assert_eq!(extract_z2m_friendly_name("zigbee2mqtt", "zigbee2mqtt/foo").as_deref(), Some("foo"));
}

#[test]
fn extract_name_edges() {
    assert_eq!(extract_z2m_friendly_name("/zigbee2mqtt/", "zigbee2mqtt/foo/").as_deref(), Some("foo"));
    assert_eq!(extract_z2m_friendly_name("zigbee2mqtt", "zigbee2mqtt/foo/set"), None);
    assert_eq!(extract_z2m_friendly_name("zigbee2mqtt", "zigbee2mqtt/"), None);
    assert_eq!(extract_z2m_friendly_name("", "zigbee2mqtt/foo"), None);
    assert_eq!(extract_z2m_friendly_name("zigbee2mqtt", "other/foo"), None);
}

#[test]
fn null_and_invalid_payloads_publish_nothing() {
    let devs = sample_devices();
    assert!(plan_z2m_publish("zigbee2mqtt", "zigbee2mqtt/living_multi", b"not json", &devs).is_empty());
    assert!(plan_z2m_publish(
        "zigbee2mqtt",
        "zigbee2mqtt/living_multi",
        br#"{"temperature":null,"humidity":"wet"}"#,
        &devs
    )
    .is_empty());
}

#[test]
fn parses_permit_join_true() {
    let mut s = Z2mBridgeSnapshot::default();
    assert!(apply_z2m_bridge_info_payload(&mut s, br#"{"permit_join":true,"commit":"abc"}"#));
    assert_eq!(s.permit_join, Some(true));
    assert!(s.updated_ms.is_some());
}

#[test]
fn parses_permit_join_false() {
    let mut s = Z2mBridgeSnapshot::default();
    assert!(apply_z2m_bridge_info_payload(&mut s, br#"{"permit_join":false}"#));
    assert_eq!(s.permit_join, Some(false));
}

#[test]
fn invalid_json_no_update() {
    let mut s = Z2mBridgeSnapshot { permit_join: Some(true), updated_ms: Some(1) };
    assert!(!apply_z2m_bridge_info_payload(&mut s, b"not json"));
    assert_eq!(s.permit_join, Some(true));
}

#[test]
fn bridge_info_topic_trims_slashes() {
    assert_eq!(z2m_bridge_info_topic("/zigbee2mqtt/"), "zigbee2mqtt/bridge/info");
}

fn config_with(devices: Vec<DeviceRule>) -> Config {
    Config {
        broker: BrokerConfig {
            host: "localhost".to_string(),
            port: default_port(),
            username: None,
            password: Some("file-secret".to_string()),
            password_env: Some("BRIDGE_PW".to_string()),
        },
        z2m: Z2mConfig { topic_prefix: default_z2m_prefix() },
        devices,
    }
}

#[test]
fn config_validation() {
    assert!(config_with(sample_devices()).validate().is_ok());
    assert_eq!(
        config_with(vec![]).validate().unwrap_err(),
        "at least one [[devices]] entry is required"
    );
    let no_map = vec![DeviceRule { match_friendly_name: "x".into(), mapping: vec![] }];
    assert_eq!(
        config_with(no_map).validate().unwrap_err(),
        "device \"x\" must have at least one mapping"
    );
    let bad_family = vec![DeviceRule {
        match_friendly_name: "x".into(),
        mapping: vec![mapping("t", "Pressure", "p1")],
    }];
    assert_eq!(
        config_with(bad_family).validate().unwrap_err(),
        "unknown family \"Pressure\" for device \"x\""
    );
    let upper_ok = vec![DeviceRule {
        match_friendly_name: "x".into(),
        mapping: vec![mapping("t", "TEMPERATURE", "p1")],
    }];
    assert!(config_with(upper_ok).validate().is_ok());
    assert_eq!(
        validate_rusthome_id("a/b").unwrap_err(),
        "rusthome_id must not contain spaces or / + #"
    );
    assert_eq!(validate_rusthome_id("   ").unwrap_err(), "rusthome_id must be 1..=128 non-whitespace chars");
    assert!(validate_rusthome_id(&"x".repeat(128)).is_ok());
    assert!(validate_rusthome_id(&"x".repeat(129)).is_err());
    assert!(validate_rusthome_id(&"é".repeat(65)).is_err());
}

#[test]
fn password_prefers_environment() {
    let c = config_with(sample_devices());
    assert_eq!(c.resolve_password_with(Some("env-secret")).as_deref(), Some("env-secret"));
    assert_eq!(c.resolve_password_with(Some("")).as_deref(), Some("file-secret"));
    assert_eq!(c.resolve_password_with(None).as_deref(), Some("file-secret"));
}
