use rusthome::config::{ConfigSnapshot, PhysicalProjectionMode};
use rusthome::error::ApplyError;
use rusthome::event::{CommandIoPhase, ErrorOccurredEvent, Event, FactEvent, Provenance};
use rusthome::ids::deterministic_command_id;
use rusthome::journal::{
    journal_schema_supported, replay_state, verify_contiguous_sequence, Journal, JournalAppend,
    JournalAppendOutcome,
};
use rusthome::reducer::{apply_event, validate_fact_for_append};
use rusthome::state::{State, StateView};

fn append_of(timestamp: i64, event: Event) -> JournalAppend {
    JournalAppend {
        timestamp,
        causal_chain_id: 0,
        parent_sequence: None,
        parent_event_id: None,
        rule_id: None,
        event_id: None,
        correlation_id: None,
        trace_id: None,
        event,
    }
}

#[test]
fn supported_range_matches_constants() {
    assert!(!journal_schema_supported(0));
    assert!(!journal_schema_supported(1));
    assert!(journal_schema_supported(2));
    assert!(journal_schema_supported(3));
    assert!(journal_schema_supported(4));
    assert!(!journal_schema_supported(5));
}

#[test]
fn light_on_then_validate_duplicate_fails() {
    let s0 = State::new();
    let f = FactEvent::LightOn { room: "hall".into(), provenance: Provenance::Derived };
    validate_fact_for_append(&s0, &f).unwrap();
    let s1 = apply_event(&s0, &f).unwrap();
    let r = validate_fact_for_append(&s1, &f);
    assert_eq!(r, Err(ApplyError::LightAlreadyOn("hall".into())));
}

#[test]
fn usage_logged_applies() {
    let s0 = State::new();
    let f = FactEvent::UsageLogged { item: "light".into(), provenance: Provenance::Derived };
    let s1 = apply_event(&s0, &f).unwrap();
    assert_eq!(s1.last_log_item(), Some("light"));
}

#[test]
fn ack_without_open_dispatch_rejected_for_room_key() {
    let state = State::new();
    let f = FactEvent::CommandIo {
        command_id: None,
        room: Some("lab".into()),
        phase: CommandIoPhase::Acked,
        provenance: Provenance::Observed,
    };
    let err = apply_event(&state, &f).unwrap_err();
    assert!(matches!(
        err,
        ApplyError::IoTerminalWithoutOpenDispatch(ref k) if k.contains("lab")
    ));
}

#[test]
fn timeout_then_redispatch_once_then_block() {
    let mut state = State::new();
    let d = |s: &State, ts: i64| {
        apply_event(
            s,
            &FactEvent::CommandIo {
                command_id: None,
                room: Some("lab".into()),
                phase: CommandIoPhase::Dispatched { logical_deadline: Some(ts + 10) },
                provenance: Provenance::Observed,
            },
        )
    };
    let t = |s: &State| {
        apply_event(
            s,
            &FactEvent::CommandIo {
                command_id: None,
                room: Some("lab".into()),
                phase: CommandIoPhase::Timeout,
                provenance: Provenance::Observed,
            },
        )
    };
    state = d(&state, 1).unwrap();
    state = t(&state).unwrap();
    state = d(&state, 20).unwrap();
    state = t(&state).unwrap();
    let err = d(&state, 30).unwrap_err();
    assert!(matches!(err, ApplyError::IoRetryBudgetExhausted(_)));
}

#[test]
fn config_carries_io_timeout_delta_default() {
    let c = ConfigSnapshot {
        physical_projection_mode: PhysicalProjectionMode::Simulation,
        ..Default::default()
    };
    assert_eq!(c.io_timeout_logical_delta, 60);
}

#[test]
fn deterministic_same_inputs_same_uuid() {
    let a = deterministic_command_id("R1", "turn_on", Some(3), 0, "hall");
    let b = deterministic_command_id("R1", "turn_on", Some(3), 0, "hall");
    assert_eq!(a, b);
}

#[test]
fn different_payload_differs() {
    let a = deterministic_command_id("R1", "turn_on", Some(3), 0, "a");
    let b = deterministic_command_id("R1", "turn_on", Some(3), 0, "b");
    assert_ne!(a, b);
}

#[test]
fn command_id_is_the_v5_uuid_of_its_name() {
    // The name is rule, kind, parent sequence, causal chain and payload joined by U+001F.
    let name = "R1\u{1f}turn_on\u{1f}3\u{1f}00000000-0000-0000-0000-000000000000\u{1f}hall";
    let ns = uuid::Uuid::from_u128(0x6d3b_e10c_4f5a_6e7b_8c9d_0e1f_2a3b_4c5d);
    let expected = uuid::Uuid::new_v5(&ns, name.as_bytes()).as_u128();
    assert_eq!(deterministic_command_id("R1", "turn_on", Some(3), 0, "hall"), expected);
    let none_name = "R1\u{1f}turn_on\u{1f}none\u{1f}00000000-0000-0000-0000-000000000000\u{1f}hall";
    let expected_none = uuid::Uuid::new_v5(&ns, none_name.as_bytes()).as_u128();
    assert_eq!(deterministic_command_id("R1", "turn_on", None, 0, "hall"), expected_none);
}

#[test]
fn second_append_same_command_id_skips_line() {
    let mut journal = Journal::new();
    let cid: u128 = 0xdead_beef_0001;
    let base = append_of(
        1,
        Event::Command(rusthome::event::CommandEvent::TurnOnLight {
            room: "r".into(),
            command_id: cid,
        }),
    );
    let o1 = journal.append(base.clone()).unwrap();
    assert!(matches!(o1, JournalAppendOutcome::Committed(_)));
    let o2 = journal.append(JournalAppend { timestamp: 2, ..base.clone() }).unwrap();
    assert!(matches!(
        o2,
        JournalAppendOutcome::DuplicateCommandSkipped { command_id } if command_id == cid
    ));
    assert_eq!(journal.next_sequence, 1);

    let lines = journal.take_pending();
    let mut journal2 = Journal::open(lines).unwrap();
    let o3 = journal2.append(base).unwrap();
    assert!(matches!(
        o3,
        JournalAppendOutcome::DuplicateCommandSkipped { command_id } if command_id == cid
    ));
}

#[test]
fn replay_skips_error_occurred_lines() {
    let mut journal = Journal::new();
    journal
        .append(append_of(
            1,
            Event::ErrorOccurred(ErrorOccurredEvent {
                error_type: "test.fake".into(),
                context: "audit only".into(),
            }),
        ))
        .unwrap()
        .expect_committed();
    journal
        .append(append_of(
            1,
            Event::Fact(FactEvent::LightOn { room: "z".into(), provenance: Provenance::Derived }),
        ))
        .unwrap()
        .expect_committed();
    let entries = journal.take_pending();
    verify_contiguous_sequence(&entries).unwrap();
    let state = replay_state(&entries).unwrap();
    assert!(state.light_on("z"));
}

#[test]
fn replay_fails_on_contradictory_duplicate_light_on() {
    let mut journal = Journal::new();
    let f = FactEvent::LightOn { room: "x".into(), provenance: Provenance::Derived };
    for _ in 0..2 {
        journal.append(append_of(1, Event::Fact(f.clone()))).unwrap().expect_committed();
    }
    let entries = journal.take_pending();
    verify_contiguous_sequence(&entries).unwrap();
    let mut state = State::new();
    for e in entries {
        if let Event::Fact(ref fact) = e.event {
            match apply_event(&state, fact) {
                Ok(s) => state = s,
                Err(ApplyError::LightAlreadyOn(room)) => {
                    assert_eq!(room, "x");
                    return;
                },
                Err(e) => panic!("unexpected {e:?}"),
            }
        }
    }
    panic!("expected second LightOn to fail with LightAlreadyOn");
}

#[test]
fn light_on_then_off_clears_light() {
    let s0 = State::new();
    let s1 = apply_event(
        &s0,
        &FactEvent::LightOn { room: "hall".into(), provenance: Provenance::Observed },
    )
    .unwrap();
    assert!(s1.light_on("hall"));
    let s2 = apply_event(
        &s1,
        &FactEvent::LightOff { room: "hall".into(), provenance: Provenance::Observed },
    )
    .unwrap();
    assert!(!s2.light_on("hall"));
    assert_eq!(s2.light_last_provenance("hall"), Some(Provenance::Observed));
}

#[test]
fn light_off_when_off_fails() {
    let s0 = State::new();
    let r = apply_event(
        &s0,
        &FactEvent::LightOff { room: "hall".into(), provenance: Provenance::Derived },
    );
    assert_eq!(r.unwrap_err(), ApplyError::LightAlreadyOff("hall".into()));
}

#[test]
fn second_dispatch_while_open_is_duplicate() {
    let s0 = State::new();
    let d = FactEvent::CommandIo {
        command_id: Some(7),
        room: None,
        phase: CommandIoPhase::Dispatched { logical_deadline: None },
        provenance: Provenance::Observed,
    };
    let s1 = apply_event(&s0, &d).unwrap();
    let err = apply_event(&s1, &d).unwrap_err();
    assert_eq!(
        err,
        ApplyError::IoDuplicateDispatch("cmd:00000000-0000-0000-0000-000000000007".into())
    );
    let ack = FactEvent::CommandIo {
        command_id: Some(7),
        room: None,
        phase: CommandIoPhase::Acked,
        provenance: Provenance::Observed,
    };
    let s2 = apply_event(&s1, &ack).unwrap();
    assert!(apply_event(&s2, &d).is_ok());
}

#[test]
fn sensor_readings_last_value_wins() {
    let s0 = State::new();
    let t = |s: &State, v: i32| {
        apply_event(
            s,
            &FactEvent::TemperatureRecorded {
                sensor_id: "living".into(),
                millidegrees_c: v,
                provenance: Provenance::Observed,
            },
        )
        .unwrap()
    };
    let s1 = t(&s0, 21000);
    let s2 = t(&s1, 19500);
    assert_eq!(s2.temperature("living"), Some(19500));
    let s3 = apply_event(
        &s2,
        &FactEvent::ContactStateChanged {
            sensor_id: "door".into(),
            open: true,
            provenance: Provenance::Observed,
        },
    )
    .unwrap();
    assert_eq!(s3.contact_open("door"), Some(true));
    let s4 = apply_event(
        &s3,
        &FactEvent::HumidityRecorded {
            sensor_id: "bath".into(),
            permille_rh: 550,
            provenance: Provenance::Observed,
        },
    )
    .unwrap();
    assert_eq!(s4.humidity_permille("bath"), Some(550));
    assert_eq!(s4.temperature("living"), Some(19500));
}

#[test]
fn command_io_fact_replay_is_state_noop() {
    let mut journal = Journal::new();
    journal
        .append(append_of(
            1,
            Event::Fact(FactEvent::CommandIo {
                command_id: None,
                room: None,
                phase: CommandIoPhase::Acked,
                provenance: Provenance::Observed,
            }),
        ))
        .unwrap()
        .expect_committed();
    let entries = journal.take_pending();
    let st = replay_state(&entries).unwrap();
    assert!(!st.light_on("any"));
    let s0 = State::new();
    let f = FactEvent::CommandIo {
        command_id: None,
        room: None,
        phase: CommandIoPhase::Dispatched { logical_deadline: None },
        provenance: Provenance::Derived,
    };
    let s1 = apply_event(&s0, &f).unwrap();
    assert_eq!(s1, s0);
}

#[test]
fn state_accessors_list_rows_in_key_order() {
    let mut s = State::new();
    for (room, on) in [("kitchen", true), ("bath", true), ("attic", false)] {
        let f = if on {
            FactEvent::LightOn { room: room.into(), provenance: Provenance::Derived }
        } else {
            FactEvent::LightOn { room: room.into(), provenance: Provenance::Observed }
        };
        s = apply_event(&s, &f).unwrap();
        if !on {
            s = apply_event(&s, &FactEvent::LightOff { room: room.into(), provenance: Provenance::Observed })
                .unwrap();
        }
    }
    let rows = s.light_room_rows();
    assert_eq!(
        rows,
        vec![
            ("attic".to_string(), false, Some(Provenance::Observed)),
            ("bath".to_string(), true, Some(Provenance::Derived)),
            ("kitchen".to_string(), true, Some(Provenance::Derived)),
        ]
    );
    assert_eq!(s.temperature_readings().len(), 0);
    assert_eq!(s.contact_states().len(), 0);
}

#[test]
fn event_kind_and_fact_access() {
    let f = FactEvent::UsageLogged { item: "x".into(), provenance: Provenance::Observed };
    let e = Event::Fact(f.clone());
    assert_eq!(e.kind(), rusthome::event::EventKind::UsageLogged);
    assert_eq!(e.as_fact(), Some(&f));
    assert_eq!(f.provenance(), Provenance::Observed);
    let c = Event::Command(rusthome::event::CommandEvent::NotifyUser { command_id: 5 });
    assert!(c.as_fact().is_none());
    assert_eq!(c.kind(), rusthome::event::EventKind::NotifyUser);
}

#[test]
fn schema_check_of_an_entry() {
    let mut journal = Journal::new();
    let mut e = journal
        .append(append_of(1, Event::Fact(FactEvent::UsageLogged { item: "x".into(), provenance: Provenance::Observed })))
        .unwrap()
        .expect_committed();
    assert!(e.validate_supported_schema().is_ok());
    e.schema_version = 9;
    assert_eq!(
        e.validate_supported_schema().unwrap_err(),
        rusthome::error::JournalSchemaError::UnsupportedVersion { found: 9, min: 2, max: 4 }
    );
}
