use rusthome::error::JournalError;
use rusthome::event::{Event, FactEvent, ObservationEvent, Provenance};
use rusthome::journal::{
    entries_in_chain, load_and_sort, repair_lines, snapshot_sequence, sort_entries,
    verify_contiguous_sequence, Journal, JournalAppend, JournalEntry, ParsedLine, SCHEMA_VERSION,
};
use rusthome::snapshot::{fnv1a64, Snapshot};
use rusthome::state::{State, StateView};
use rusthome::reducer::apply_event;

fn entry(schema_version: u32, timestamp: i64, sequence: u64, causal: u128, room: &str) -> JournalEntry {
    JournalEntry {
        schema_version,
        timestamp,
        sequence,
        event_id: None,
        causal_chain_id: causal,
        parent_sequence: None,
        parent_event_id: None,
        rule_id: None,
        correlation_id: None,
        trace_id: None,
        event: Event::Observation(ObservationEvent::MotionDetected { room: room.into() }),
    }
}

#[test]
fn load_accepts_schema_version_2_minimal_line() {
    let lines = vec![ParsedLine::Entry { line: 1, entry: entry(2, 0, 0, 0, "hall") }];
    let entries = load_and_sort(&lines).unwrap();
    assert_eq!(entries.len(), 1);
    assert_eq!(entries[0].schema_version, 2);
}

#[test]
fn load_rejects_unsupported_schema_and_corrupt_lines() {
    let lines = vec![
        ParsedLine::Entry { line: 1, entry: entry(2, 0, 0, 0, "a") },
        ParsedLine::Entry { line: 3, entry: entry(1, 0, 1, 0, "b") },
    ];
    assert_eq!(
        load_and_sort(&lines).unwrap_err(),
        JournalError::UnsupportedSchemaVersion { line: 3, found: 1, min: 2, max: SCHEMA_VERSION }
    );
    let corrupt = vec![ParsedLine::Corrupt { line: 2, message: "eof".into() }];
    assert_eq!(
        load_and_sort(&corrupt).unwrap_err(),
        JournalError::Corrupt { line: 2, message: "eof".into() }
    );
}

#[test]
fn load_sorts_by_timestamp_then_sequence() {
    let lines = vec![
        ParsedLine::Entry { line: 1, entry: entry(4, 5, 1, 0, "b") },
        ParsedLine::Entry { line: 2, entry: entry(4, 3, 2, 0, "c") },
        ParsedLine::Entry { line: 3, entry: entry(4, 5, 0, 0, "a") },
    ];
    let entries = load_and_sort(&lines).unwrap();
    let keys: Vec<(i64, u64)> = entries.iter().map(|e| e.sort_key()).collect();
    assert_eq!(keys, vec![(3, 2), (5, 0), (5, 1)]);
    let sorted = sort_entries(entries.clone());
    assert_eq!(sorted, entries);
}

#[test]
fn sequence_gap_is_reported() {
    let entries = vec![entry(4, 0, 0, 0, "a"), entry(4, 0, 2, 0, "b")];
    assert_eq!(
        verify_contiguous_sequence(&entries).unwrap_err(),
        JournalError::SequenceMismatch { line: 2, expected: 1, found: 2 }
    );
    assert!(Journal::open(entries).is_err());
}

#[test]
fn reopened_journal_continues_sequence_and_gate() {
    let entries = vec![entry(4, 7, 0, 0, "a"), entry(4, 3, 1, 0, "b")];
    let mut j = Journal::open(entries).unwrap();
    assert_eq!(j.next_sequence, 2);
    assert_eq!(j.last_timestamp_committed, Some(7));
    let a = JournalAppend {
        timestamp: 6,
        causal_chain_id: 0,
        parent_sequence: None,
        parent_event_id: None,
        rule_id: None,
        event_id: None,
        correlation_id: None,
        trace_id: None,
        event: Event::Observation(ObservationEvent::MotionDetected { room: "c".into() }),
    };
    assert_eq!(j.append(a.clone()).unwrap_err(), JournalError::TimestampRegressed { ts: 6, last: 7 });
    let e = j.append(JournalAppend { timestamp: 7, ..a }).unwrap().expect_committed();
    assert_eq!(e.sequence, 2);
    assert_eq!(e.schema_version, SCHEMA_VERSION);
    assert_eq!(j.take_pending().len(), 1);
    assert_eq!(j.take_pending().len(), 0);
}

#[test]
fn error_messages() {
    assert_eq!(
        JournalError::TimestampRegressed { ts: 1, last: 2 }.message(),
        "timestamp 1 regresses last committed 2"
    );
}

#[test]
fn chain_lines_and_snapshot_sequence() {
    let entries = vec![entry(4, 0, 0, 1, "a"), entry(4, 0, 1, 2, "b"), entry(4, 0, 2, 1, "c")];
    let chain = entries_in_chain(&entries, 1);
    assert_eq!(chain.len(), 2);
    assert_eq!(chain[1].sequence, 2);
    assert_eq!(snapshot_sequence(&entries), 2);
    assert_eq!(snapshot_sequence(&vec![]), 0);
}

#[test]
fn repair_truncates_after_last_valid_line() {
    let lines: Vec<String> = vec!["{a}".into(), "  ".into(), "{b}".into(), "garbage".into(), "{c}".into(), "".into()];
    let parsed = vec![
        Some(entry(4, 0, 0, 0, "a")),
        None,
        Some(entry(2, 0, 1, 0, "b")),
        None,
        Some(entry(4, 0, 2, 0, "c")),
        None,
    ];
    let out = repair_lines(&lines, &parsed);
    assert_eq!(out.kept, 2);
    assert_eq!(out.dropped, 2);
    assert_eq!(out.content, "{a}\n{b}\n");

    let old_schema = vec![Some(entry(1, 0, 0, 0, "a"))];
    let out2 = repair_lines(&vec!["{a}".to_string()], &old_schema);
    assert_eq!((out2.kept, out2.dropped, out2.content.as_str()), (0, 1, ""));
}

#[test]
fn fnv1a64_known_values() {
    assert_eq!(fnv1a64(b""), 0xcbf29ce484222325);
    assert_eq!(fnv1a64(b"a"), 0xaf63dc4c8601ec8c);
    assert_eq!(fnv1a64(b"foobar"), 0x85944171f73967e8);
}

#[test]
fn snapshot_hash_roundtrip() {
    let s0 = State::new();
    let s1 = apply_event(&s0, &FactEvent::LightOn { room: "hall".into(), provenance: Provenance::Derived }).unwrap();
    let json = br#"{"lights":{"hall":true}}"#;
    let snap = Snapshot::from_state(SCHEMA_VERSION, 4, &s1, json, "rules-v0");
    assert!(snap.verify_hash(json));
    assert!(!snap.verify_hash(b"{}"));
    assert!(snap.state.light_on("hall"));
    assert_eq!(snap.rules_digest, "rules-v0");
    let back = snap.check_loaded(json).unwrap();
    assert_eq!(back.last_sequence, 4);
    let bad = Snapshot::from_state(SCHEMA_VERSION, 4, &s1, json, "rules-v0").check_loaded(b"{}");
    assert!(matches!(bad, Err(JournalError::Corrupt { line: 0, message }) if message == "snapshot state_hash mismatch"));
}

#[test]
fn data_directory_files() {
    assert_eq!(rusthome::journal::journal_path("data"), "data/events.jsonl");
    assert_eq!(rusthome::journal::journal_path("data/"), "data/events.jsonl");
    assert_eq!(rusthome::journal::snapshot_path(""), "snapshot.json");
    assert_eq!(
        rusthome::journal::journal_path("data"),
        std::path::Path::new("data").join("events.jsonl").to_str().unwrap()
    );
}

#[test]
fn io_error_text_quotes_the_path() {
    let e = JournalError::Io { path: "/var/lib/rusthome/journal.jsonl".into(), message: "denied".into() };
    assert_eq!(e.message(), "IO error on \"/var/lib/rusthome/journal.jsonl\": denied");
}
