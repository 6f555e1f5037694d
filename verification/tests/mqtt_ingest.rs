use rusthome::bridge::Z2mBridgeSnapshot;
use rusthome::config::ConfigSnapshot;
use rusthome::event::{CommandEvent, Event, ObservationEvent};
use rusthome::journal::Journal;
use rusthome::mqtt::{
    command_from_mqtt, dispatch_mqtt_publish, entity_from_payload_and_topic, ingest_publish,
    next_ts, observation_from_mqtt, optional_ts_from_payload, parse_contact, parse_temperature,
    split_slash, wall_millis, describe_command, describe_observation, millis_of, parse_i32, DispatchError,
    IngestAction,
};
use rusthome::pipeline::{Rule, RuleContext, RunLimits};
use rusthome::event::EventKind;
use rusthome::state::{State, StateView};

/// What the caller computes in floating point for a payload's `celsius` field.
fn celsius_of(c: f64) -> Option<i32> {
    Some((c * 1000.0) as i32)
}

#[test]
fn motion_topic_parses() {
    let obs = observation_from_mqtt("sensors/motion/hall", b"hall", None).unwrap();
    assert!(matches!(
        obs,
        Some(ObservationEvent::MotionDetected { room }) if room == "hall"
    ));
}

#[test]
fn motion_json_payload() {
    let obs = observation_from_mqtt("sensors/motion/x", br#"{"room":"kitchen"}"#, None).unwrap();
    assert!(matches!(
        obs,
        Some(ObservationEvent::MotionDetected { room }) if room == "kitchen"
    ));
}

#[test]
fn temperature_millidegrees() {
    let obs = observation_from_mqtt(
        "sensors/temperature/outdoor",
        br#"{"millidegrees_c": -5300}"#,
        None,
    )
    .unwrap();
    assert!(matches!(
        obs,
        Some(ObservationEvent::TemperatureReading { sensor_id, millidegrees_c })
            if sensor_id == "outdoor" && millidegrees_c == -5300
    ));
}

#[test]
fn temperature_celsius_float() {
    let obs = observation_from_mqtt(
        "sensors/temperature/living",
        br#"{"celsius": 21.5}"#,
        celsius_of(21.5),
    )
    .unwrap();
    assert!(matches!(
        obs,
        Some(ObservationEvent::TemperatureReading { millidegrees_c, .. })
            if millidegrees_c == 21500
    ));
}

#[test]
fn temperature_raw_integer() {
    let obs = observation_from_mqtt("sensors/temperature/attic", b"19200", None).unwrap();
    assert!(matches!(
        obs,
        Some(ObservationEvent::TemperatureReading { millidegrees_c, .. })
            if millidegrees_c == 19200
    ));
}

#[test]
fn contact_open_json() {
    let obs =
        observation_from_mqtt("sensors/contact/front-door", br#"{"open": true}"#, None).unwrap();
    assert!(matches!(obs, Some(ObservationEvent::ContactChanged { open: true, .. })));
}

#[test]
fn contact_closed_string() {
    let obs = observation_from_mqtt("sensors/contact/window", b"closed", None).unwrap();
    assert!(matches!(obs, Some(ObservationEvent::ContactChanged { open: false, .. })));
}

#[test]
fn contact_zigbee2mqtt_convention() {
    let obs =
        observation_from_mqtt("sensors/contact/gate", br#"{"contact": true}"#, None).unwrap();
    assert!(matches!(obs, Some(ObservationEvent::ContactChanged { open: false, .. })));
}

#[test]
fn unknown_category_returns_none() {
    let obs = observation_from_mqtt("sensors/humidity/bath", b"80", None).unwrap();
    assert!(obs.is_none());
}

#[test]
fn non_sensor_topic_returns_none() {
    let obs = observation_from_mqtt("other/topic", b"data", None).unwrap();
    assert!(obs.is_none());
}

#[test]
fn command_light_on() {
    let cmd = command_from_mqtt("commands/light/hall/on", b"").unwrap();
    assert!(matches!(cmd, Some(CommandEvent::TurnOnLight { room, .. }) if room == "hall"));
}

#[test]
fn command_light_off() {
    let cmd = command_from_mqtt("commands/light/kitchen/off", b"").unwrap();
    assert!(matches!(cmd, Some(CommandEvent::TurnOffLight { room, .. }) if room == "kitchen"));
}

#[test]
fn command_unknown_returns_none() {
    let cmd = command_from_mqtt("commands/thermostat/living/set", b"").unwrap();
    assert!(cmd.is_none());
}

#[test]
fn command_malformed_light_topic() {
    let result = command_from_mqtt("commands/light/", b"");
    assert!(result.is_err());
}

#[test]
fn non_command_topic_returns_none() {
    let cmd = command_from_mqtt("sensors/motion/hall", b"").unwrap();
    assert!(cmd.is_none());
}

#[test]
fn malformed_command_message_names_topic() {
    assert_eq!(
        command_from_mqtt("commands/light/hall/on/x", b"").unwrap_err(),
        "malformed command topic: commands/light/hall/on/x"
    );
    assert!(command_from_mqtt("commands/light//on", b"").is_err());
    assert!(command_from_mqtt("commands/light", b"").is_err());
}

#[test]
fn next_ts_is_strictly_increasing() {
    let mut last: i64 = 10;
    assert_eq!(next_ts(&mut last, 5), 11);
    assert_eq!(last, 11);
    assert_eq!(next_ts(&mut last, 100), 100);
    assert_eq!(last, 100);
    assert_eq!(next_ts(&mut last, 100), 101);
}

#[test]
fn wall_clock_is_after_2020() {
    assert!(wall_millis() > 1_577_836_800_000);
}

#[test]
fn split_keeps_empty_segments() {
    let s = split_slash("a//b/");
    assert_eq!(s, vec!["a".to_string(), "".to_string(), "b".to_string(), "".to_string()]);
    assert_eq!(split_slash(""), vec!["".to_string()]);
}

#[test]
fn entity_falls_back_to_topic() {
    assert_eq!(entity_from_payload_and_topic(b"", "sensors/motion/hall/#", "room").unwrap(), "hall");
    assert_eq!(
        entity_from_payload_and_topic(br#"{"other":1}"#, "sensors/motion/den", "room").unwrap(),
        "den"
    );
    assert_eq!(
        entity_from_payload_and_topic(b"  porch  ", "sensors/motion/x", "room").unwrap(),
        "porch"
    );
    assert_eq!(
        entity_from_payload_and_topic(&[0xff, 0xfe], "sensors/motion/x", "room").unwrap_err(),
        "payload is not UTF-8"
    );
    assert_eq!(
        entity_from_payload_and_topic(b"", "+/#", "room").unwrap_err(),
        "could not extract entity from payload or topic"
    );
}

#[test]
fn payload_ts_is_read_when_integer() {
    assert_eq!(optional_ts_from_payload(br#" {"ts": 42} "#), Some(42));
    assert_eq!(optional_ts_from_payload(br#"{"ts": 4.5}"#), None);
    assert_eq!(optional_ts_from_payload(b"42"), None);
}

#[test]
fn temperature_and_contact_errors() {
    assert_eq!(
        parse_temperature(b"warm", None).unwrap_err(),
        "cannot parse temperature from payload: warm"
    );
    assert_eq!(parse_temperature(br#"{"value": 18000}"#, None).unwrap(), 18000);
    assert_eq!(parse_temperature(br#"{"millidegrees_c": 1, "value": 2}"#, Some(3)).unwrap(), 1);
    assert_eq!(parse_temperature(br#"{"celsius": 0.5, "value": 2}"#, Some(500)).unwrap(), 500);
    assert_eq!(parse_contact(b"OPEN").unwrap(), true);
    assert_eq!(parse_contact(b"0").unwrap(), false);
    assert_eq!(
        parse_contact(b"ajar").unwrap_err(),
        "cannot parse contact state from payload: ajar"
    );
}

struct NoRule;

impl Rule for NoRule {
    fn rule_id(&self) -> &str {
        "none"
    }

    fn priority(&self) -> i32 {
        0
    }

    fn consumes(&self) -> &[EventKind] {
        &[]
    }

    fn produces(&self) -> &[EventKind] {
        &[]
    }

    fn namespaces(&self) -> Vec<&str> {
        vec![]
    }

    fn eval(&self, _event: &Event, _ctx: &RuleContext) -> Vec<Event> {
        vec![]
    }
}

#[test]
fn dispatch_journals_observation_at_payload_time() {
    let mut journal = Journal::new();
    let mut state = State::new();
    let mut last: i64 = 0;
    let rules: Vec<NoRule> = vec![];
    let r = dispatch_mqtt_publish(
        "sensors/motion/hall",
        br#"{"room":"hall","ts":500}"#,
        None,
        &mut journal,
        &mut state,
        &rules,
        &ConfigSnapshot::default(),
        RunLimits::default(),
        &mut last,
    )
    .unwrap();
    assert_eq!(r.as_deref(), Some("MotionDetected { room: \"hall\" }"));
    assert_eq!(last, 500);
    let lines = journal.take_pending();
    assert_eq!(lines.len(), 1);
    assert_eq!(lines[0].timestamp, 500);
    assert!(matches!(
        &lines[0].event,
        Event::Observation(ObservationEvent::MotionDetected { room }) if room == "hall"
    ));

    let skipped = dispatch_mqtt_publish(
        "other/topic",
        b"x",
        None,
        &mut journal,
        &mut state,
        &rules,
        &ConfigSnapshot::default(),
        RunLimits::default(),
        &mut last,
    )
    .unwrap();
    assert!(skipped.is_none());
    assert_eq!(last, 500);

    let bad = dispatch_mqtt_publish(
        "sensors/temperature/attic",
        b"hot",
        None,
        &mut journal,
        &mut state,
        &rules,
        &ConfigSnapshot::default(),
        RunLimits::default(),
        &mut last,
    )
    .unwrap_err();
    assert_eq!(
        bad,
        DispatchError::Parse("cannot parse temperature from payload: hot".to_string())
    );
    assert_eq!(bad.message(), "parse error: cannot parse temperature from payload: hot");
}

#[test]
fn ingest_step_routes_bridge_info() {
    let mut journal = Journal::new();
    let mut state = State::new();
    let mut last: i64 = 0;
    let mut snap = Z2mBridgeSnapshot::default();
    let rules: Vec<NoRule> = vec![];
    let a = ingest_publish(
        "zigbee2mqtt/bridge/info",
        br#"{"permit_join":true}"#,
        None,
        Some("zigbee2mqtt/bridge/info"),
        &mut snap,
        &mut journal,
        &mut state,
        &rules,
        &ConfigSnapshot::default(),
        RunLimits::default(),
        &mut last,
    );
    assert_eq!(a, IngestAction::BridgeInfo { read: true });
    assert_eq!(snap.permit_join, Some(true));
    assert_eq!(journal.next_sequence, 0);
    let b = ingest_publish(
        "commands/light/hall/on",
        b"",
        None,
        Some("zigbee2mqtt/bridge/info"),
        &mut snap,
        &mut journal,
        &mut state,
        &rules,
        &ConfigSnapshot::default(),
        RunLimits::default(),
        &mut last,
    );
    assert!(matches!(b, IngestAction::Ingested(_)));
    assert_eq!(journal.next_sequence, 1);
    let c = ingest_publish(
        "weather/today",
        b"sunny",
        None,
        None,
        &mut snap,
        &mut journal,
        &mut state,
        &rules,
        &ConfigSnapshot::default(),
        RunLimits::default(),
        &mut last,
    );
    assert_eq!(c, IngestAction::Skipped);
}

#[test]
fn unknown_command_topic_skipped() {
    let mut journal = Journal::new();
    let mut state = State::new();
    let rules: Vec<NoRule> = vec![];
    let mut last_ts = wall_millis();
    let result = dispatch_mqtt_publish(
        "commands/thermostat/living/set",
        b"22000",
        None,
        &mut journal,
        &mut state,
        &rules,
        &ConfigSnapshot::default(),
        RunLimits::default(),
        &mut last_ts,
    )
    .unwrap();
    assert!(result.is_none(), "unknown command topic should be skipped");
    assert_eq!(journal.take_pending().len(), 0);
}

#[test]
fn replay_after_mqtt_commands_is_deterministic() {
    let mut journal = Journal::new();
    let mut state = State::new();
    let rules: Vec<NoRule> = vec![];
    let mut last_ts = wall_millis();
    dispatch_mqtt_publish(
        "commands/light/garage/on",
        b"",
        None,
        &mut journal,
        &mut state,
        &rules,
        &ConfigSnapshot::default(),
        RunLimits::default(),
        &mut last_ts,
    )
    .unwrap();
    let lines = journal.take_pending();
    let replayed = rusthome::journal::replay_state(&lines).unwrap();
    assert_eq!(state.light_on("garage"), replayed.light_on("garage"));
    assert_eq!(state, replayed);
}

#[test]
fn observation_descriptions_are_debug_text() {
    let cases = vec![
        ObservationEvent::MotionDetected { room: "hall".to_string() },
        ObservationEvent::TemperatureReading { sensor_id: "t\"1".to_string(), millidegrees_c: -21500 },
        ObservationEvent::ContactChanged { sensor_id: "door".to_string(), open: true },
        ObservationEvent::ContactChanged { sensor_id: "door".to_string(), open: false },
        ObservationEvent::HumidityReading { sensor_id: "h".to_string(), permille_rh: 455 },
    ];
    for o in &cases {
        assert_eq!(describe_observation(o), format!("{o:?}"));
    }
    assert_eq!(
        describe_observation(&cases[1]),
        "TemperatureReading { sensor_id: \"t\\\"1\", millidegrees_c: -21500 }"
    );
}

#[test]
fn command_descriptions_print_ids_as_uuids() {
    let on = CommandEvent::TurnOnLight { room: "hall".to_string(), command_id: 42 };
    assert_eq!(
        describe_command(&on),
        "TurnOnLight { room: \"hall\", command_id: 00000000-0000-0000-0000-00000000002a }"
    );
    let notify = CommandEvent::NotifyUser { command_id: 0x67e5504410b1426f9247bb680e5fe0c8 };
    assert_eq!(
        describe_command(&notify),
        "NotifyUser { command_id: 67e55044-10b1-426f-9247-bb680e5fe0c8 }"
    );
    let log = CommandEvent::LogUsage { item: "light:hall".to_string(), command_id: 1 };
    assert_eq!(
        describe_command(&log),
        "LogUsage { item: \"light:hall\", command_id: 00000000-0000-0000-0000-000000000001 }"
    );
}

#[test]
fn clock_readings_become_i64_millis() {
    assert_eq!(millis_of(None), 0);
    assert_eq!(millis_of(Some(1_700_000_000_123)), 1_700_000_000_123);
    assert_eq!(millis_of(Some((1u128 << 64) + 5)), 5);
}

#[test]
fn integer_text_parses_as_std_does() {
    for t in ["42", "-2147483648", "2147483647", "+7", "007", "2147483648", "-2147483649", "", "-",
        "+", "1a", " 1", "99999999999999999999", "-0"]
    {
        assert_eq!(parse_i32(t), t.parse::<i32>().ok(), "{t}");
    }
    assert_eq!(parse_i32("-2147483648"), Some(i32::MIN));
    assert_eq!(parse_i32("2147483648"), None);
}
