use std::collections::VecDeque;

use rusthome::config::{ConfigSnapshot, PhysicalProjectionMode};
use rusthome::error::RunError;
use rusthome::event::{CommandEvent, Event, EventKind, FactEvent, ObservationEvent, Provenance};
use rusthome::journal::{replay_state, Journal, JournalAppend, JournalEntry};
use rusthome::pipeline::{
    drain_fifo, ingest_command_with_causal, ingest_command_with_causal_traced,
    ingest_observation_with_causal,
    ingest_observation_with_causal_traced, Rule, RuleContext, RuleEvaluationRecord, RunLimits,
};
use rusthome::reconciliation::{
    append_observed_light_fact, correction_for_observed_light, ObservedLightAppend,
};
use rusthome::state::{State, StateView};

/// Motion in a room turns its light on (derived), unless it is already on.
struct MotionTurnsLightOn;

/// A light turned on is logged as used.
struct LightOnLogsUsage;

/// A usage-log command records the usage fact.
struct LogUsageRecords;

impl Rule for MotionTurnsLightOn {
    fn rule_id(&self) -> &str {
        "R1"
    }

    fn priority(&self) -> i32 {
        10
    }

    fn consumes(&self) -> &[EventKind] {
        &[EventKind::MotionDetected]
    }

    fn produces(&self) -> &[EventKind] {
        &[EventKind::LightOn]
    }

    fn namespaces(&self) -> Vec<&str> {
        vec!["lighting"]
    }

    fn eval(&self, event: &Event, ctx: &RuleContext) -> Vec<Event> {
        match event {
            Event::Observation(ObservationEvent::MotionDetected { room }) if !ctx.state.light_on(room) => {
                vec![Event::Fact(FactEvent::LightOn { room: room.clone(), provenance: Provenance::Derived })]
            },
            _ => vec![],
        }
    }
}

impl Rule for LightOnLogsUsage {
    fn rule_id(&self) -> &str {
        "R2"
    }

    fn priority(&self) -> i32 {
        5
    }

    fn consumes(&self) -> &[EventKind] {
        &[EventKind::LightOn]
    }

    fn produces(&self) -> &[EventKind] {
        &[EventKind::LogUsage]
    }

    fn namespaces(&self) -> Vec<&str> {
        vec!["usage"]
    }

    fn eval(&self, event: &Event, ctx: &RuleContext) -> Vec<Event> {
        match event {
            Event::Fact(FactEvent::LightOn { room, .. }) => vec![Event::Command(CommandEvent::LogUsage {
                item: room.clone(),
                command_id: 1000 + ctx.parent_sequence.unwrap_or(0) as u128,
            })],
            _ => vec![],
        }
    }
}

impl Rule for LogUsageRecords {
    fn rule_id(&self) -> &str {
        "R3"
    }

    fn priority(&self) -> i32 {
        1
    }

    fn consumes(&self) -> &[EventKind] {
        &[EventKind::LogUsage]
    }

    fn produces(&self) -> &[EventKind] {
        &[EventKind::UsageLogged]
    }

    fn namespaces(&self) -> Vec<&str> {
        vec!["usage"]
    }

    fn eval(&self, event: &Event, _ctx: &RuleContext) -> Vec<Event> {
        match event {
            Event::Command(CommandEvent::LogUsage { item, .. }) => vec![Event::Fact(
                FactEvent::UsageLogged { item: item.clone(), provenance: Provenance::Derived },
            )],
            _ => vec![],
        }
    }
}

/// The three rules above, behind one type.
enum Chain {
    Motion(MotionTurnsLightOn),
    Usage(LightOnLogsUsage),
    Record(LogUsageRecords),
}

impl Chain {
    fn rule(&self) -> &dyn Rule {
        match self {
            Chain::Motion(r) => r,
            Chain::Usage(r) => r,
            Chain::Record(r) => r,
        }
    }
}

impl Rule for Chain {
    fn rule_id(&self) -> &str {
        self.rule().rule_id()
    }

    fn priority(&self) -> i32 {
        self.rule().priority()
    }

    fn consumes(&self) -> &[EventKind] {
        self.rule().consumes()
    }

    fn produces(&self) -> &[EventKind] {
        self.rule().produces()
    }

    fn namespaces(&self) -> Vec<&str> {
        self.rule().namespaces()
    }

    fn eval(&self, event: &Event, ctx: &RuleContext) -> Vec<Event> {
        self.rule().eval(event, ctx)
    }
}

fn chain_registry() -> Vec<Chain> {
    vec![
        Chain::Motion(MotionTurnsLightOn),
        Chain::Usage(LightOnLogsUsage),
        Chain::Record(LogUsageRecords),
    ]
}

fn motion_entry(journal: &mut Journal, room: &str) -> JournalEntry {
    journal
        .append(JournalAppend {
            timestamp: 0,
            causal_chain_id: 0xC0FFEE,
            parent_sequence: None,
            parent_event_id: None,
            rule_id: None,
            event_id: None,
            correlation_id: None,
            trace_id: None,
            event: Event::Observation(ObservationEvent::MotionDetected { room: room.into() }),
        })
        .unwrap()
        .expect_committed()
}

#[test]
fn drain_fifo_max_events_per_run_stops_cascade() {
    let mut journal = Journal::new();
    let reg = chain_registry();
    let config = ConfigSnapshot::default();
    let mut state = State::new();
    let entry = motion_entry(&mut journal, "lab");
    let queue = VecDeque::from([entry]);
    let limits = RunLimits { max_events_per_run: 1, ..RunLimits::default() };
    let mut trace: Vec<RuleEvaluationRecord> = Vec::new();
    let err = drain_fifo(&mut journal, &mut state, &reg, &config, queue, limits, &mut trace)
        .expect_err("second dequeue should exceed max_events_per_run");
    assert!(matches!(err, RunError::MaxEventsPerRun { .. }));
}

#[test]
fn drain_fifo_with_no_rules_applies_the_queue() {
    let mut journal = Journal::new();
    let reg: Vec<Chain> = vec![];
    let config = ConfigSnapshot::default();
    let mut state = State::new();
    let first = motion_entry(&mut journal, "lab");
    let second = journal
        .append(JournalAppend {
            timestamp: 1,
            causal_chain_id: 1,
            parent_sequence: None,
            parent_event_id: None,
            rule_id: None,
            event_id: None,
            correlation_id: None,
            trace_id: None,
            event: Event::Fact(FactEvent::LightOn { room: "lab".into(), provenance: Provenance::Observed }),
        })
        .unwrap()
        .expect_committed();
    let queue = VecDeque::from([first, second]);
    let limits = RunLimits { max_events_per_run: 2, max_pending_events: 1, ..RunLimits::default() };
    let mut trace: Vec<RuleEvaluationRecord> = Vec::new();
    drain_fifo(&mut journal, &mut state, &reg, &config, queue, limits, &mut trace).unwrap();
    assert!(state.light_on("lab"));
    assert_eq!(journal.next_sequence, 2);
    assert!(trace.is_empty());
}

#[test]
fn drain_fifo_max_events_generated_per_root_stops_deep_cascade() {
    let mut journal = Journal::new();
    let reg = chain_registry();
    let config = ConfigSnapshot::default();
    let mut state = State::new();
    let entry = motion_entry(&mut journal, "lab");
    let queue = VecDeque::from([entry]);
    let limits = RunLimits { max_events_generated_per_root: 1, ..RunLimits::default() };
    let mut trace: Vec<RuleEvaluationRecord> = Vec::new();
    let err = drain_fifo(&mut journal, &mut state, &reg, &config, queue, limits, &mut trace)
        .expect_err("the cascade appends more than one line from the root");
    assert!(matches!(err, RunError::MaxEventsGeneratedPerRoot { generated: 2, max: 1 }));
    // The failure is audited in the journal.
    let lines = journal.take_pending();
    assert!(matches!(lines.last().unwrap().event, Event::ErrorOccurred(_)));
}

#[test]
fn full_cascade_and_replay_agree() {
    let mut journal = Journal::new();
    let reg = chain_registry();
    let config = ConfigSnapshot::default();
    let mut state = State::new();
    let mut trace: Vec<RuleEvaluationRecord> = Vec::new();
    ingest_observation_with_causal_traced(
        &mut journal,
        &mut state,
        &reg,
        &config,
        5,
        ObservationEvent::MotionDetected { room: "hall".into() },
        7,
        RunLimits::default(),
        &mut trace,
    )
    .unwrap();
    assert!(state.light_on("hall"));
    assert_eq!(state.last_log_item(), Some("hall"));
    let lines = journal.take_pending();
    // motion, LightOn, LogUsage, UsageLogged
    assert_eq!(lines.len(), 4);
    assert_eq!(lines[1].parent_sequence, Some(0));
    assert_eq!(lines[1].rule_id.as_deref(), Some("R1"));
    assert!(lines.iter().all(|e| e.causal_chain_id == 7));
    // one trace row per rule and per processed line
    assert_eq!(trace.len(), 3 * 4);
    let replayed = replay_state(&lines).unwrap();
    assert_eq!(replayed, state);
}

#[test]
fn io_anchored_rejects_derived_light_from_rule() {
    let mut journal = Journal::new();
    let reg = chain_registry();
    let config = ConfigSnapshot {
        physical_projection_mode: PhysicalProjectionMode::IoAnchored,
        ..Default::default()
    };
    let mut state = State::new();
    let err = ingest_observation_with_causal(
        &mut journal,
        &mut state,
        &reg,
        &config,
        1,
        ObservationEvent::MotionDetected { room: "hall".into() },
        1,
        RunLimits::default(),
    )
    .unwrap_err();
    assert!(matches!(err, RunError::IoAnchoredDerivedActuator(_)));
    assert!(!state.light_on("hall"));
}

#[test]
fn duplicate_command_is_skipped() {
    let mut journal = Journal::new();
    let reg: Vec<Chain> = vec![];
    let config = ConfigSnapshot::default();
    let mut state = State::new();
    let cmd = CommandEvent::TurnOffLight { room: "hall".into(), command_id: 99 };
    ingest_command_with_causal(&mut journal, &mut state, &reg, &config, 1, cmd.clone(), 3, RunLimits::default())
        .unwrap();
    ingest_command_with_causal(&mut journal, &mut state, &reg, &config, 2, cmd, 3, RunLimits::default())
        .unwrap();
    assert_eq!(journal.next_sequence, 1);
}

#[test]
fn duplicate_command_leaves_trace_and_full_journal_alone() {
    let mut journal = Journal::new();
    let reg = vec![LogUsageRecords];
    let config = ConfigSnapshot::default();
    let mut state = State::new();
    let cmd = CommandEvent::LogUsage { item: "light:hall".into(), command_id: 7 };
    let mut trace: Vec<RuleEvaluationRecord> = Vec::new();
    ingest_command_with_causal_traced(
        &mut journal, &mut state, &reg, &config, 1, cmd.clone(), 3, RunLimits::default(), &mut trace,
    )
    .unwrap();
    let rows = trace.len();
    assert!(rows >= 1);
    let lines = journal.next_sequence;
    ingest_command_with_causal_traced(
        &mut journal, &mut state, &reg, &config, 2, cmd.clone(), 3, RunLimits::default(), &mut trace,
    )
    .unwrap();
    assert_eq!(trace.len(), rows);
    assert_eq!(journal.next_sequence, lines);
    // With the sequence space used up, a known command is still skipped, a new one refused.
    journal.next_sequence = u64::MAX;
    ingest_command_with_causal(&mut journal, &mut state, &reg, &config, 3, cmd, 3, RunLimits::default())
        .unwrap();
    let fresh = CommandEvent::LogUsage { item: "light:hall".into(), command_id: 8 };
    let err = ingest_command_with_causal(
        &mut journal, &mut state, &reg, &config, 3, fresh, 3, RunLimits::default(),
    )
    .unwrap_err();
    assert!(matches!(err, RunError::Journal(_)));
}

#[test]
fn timestamp_regression_is_refused() {
    let mut journal = Journal::new();
    let reg: Vec<Chain> = vec![];
    let config = ConfigSnapshot::default();
    let mut state = State::new();
    ingest_observation_with_causal(
        &mut journal,
        &mut state,
        &reg,
        &config,
        10,
        ObservationEvent::MotionDetected { room: "a".into() },
        1,
        RunLimits::default(),
    )
    .unwrap();
    let err = ingest_observation_with_causal(
        &mut journal,
        &mut state,
        &reg,
        &config,
        9,
        ObservationEvent::MotionDetected { room: "a".into() },
        1,
        RunLimits::default(),
    )
    .unwrap_err();
    assert!(matches!(err, RunError::Journal(_)));
    assert_eq!(journal.next_sequence, 1);
}

#[test]
fn correction_none_when_projection_matches_observed() {
    let state = State::new();
    assert!(correction_for_observed_light(&state, "r", true).is_none());
}

#[test]
fn derived_on_then_observed_off_emits_correction_and_final_state_off() {
    let mut journal = Journal::new();
    journal
        .append(JournalAppend {
            timestamp: 1,
            causal_chain_id: 0,
            parent_sequence: None,
            parent_event_id: None,
            rule_id: None,
            event_id: None,
            correlation_id: None,
            trace_id: None,
            event: Event::Fact(FactEvent::LightOn { room: "living".into(), provenance: Provenance::Derived }),
        })
        .unwrap()
        .expect_committed();
    let first = journal.pending.clone();
    let mut state = replay_state(&first).unwrap();
    assert!(state.light_on("living"));
    assert_eq!(state.light_last_provenance("living"), Some(Provenance::Derived));

    let registry: Vec<Chain> = vec![];
    let config = ConfigSnapshot {
        physical_projection_mode: PhysicalProjectionMode::Simulation,
        ..Default::default()
    };
    let mut trace: Vec<RuleEvaluationRecord> = Vec::new();
    append_observed_light_fact(
        &mut journal,
        &mut state,
        &registry,
        &config,
        ObservedLightAppend {
            timestamp: 2,
            causal_chain_id: 0,
            room: "living".into(),
            on: false,
            correlation_id: None,
            trace_id: None,
        },
        RunLimits::default(),
        &mut trace,
    )
    .unwrap();

    assert!(!state.light_on("living"));
    assert_eq!(state.light_last_provenance("living"), Some(Provenance::Observed));
    let entries = journal.take_pending();
    assert_eq!(entries.len(), 3);
    let n_corr = entries
        .iter()
        .filter(|e| matches!(e.event, Event::Fact(FactEvent::StateCorrectedFromObservation { .. })))
        .count();
    assert_eq!(n_corr, 1);
    let st2 = replay_state(&entries).unwrap();
    assert_eq!(state, st2);
}

#[test]
fn ingest_with_random_chain() {
    let mut journal = Journal::new();
    let reg = chain_registry();
    let config = ConfigSnapshot::default();
    let mut state = State::new();
    rusthome::pipeline::ingest_observation(
        &mut journal,
        &mut state,
        &reg,
        &config,
        1,
        ObservationEvent::MotionDetected { room: "den".into() },
        RunLimits::default(),
    )
    .unwrap();
    assert!(state.light_on("den"));
    rusthome::pipeline::ingest_command(
        &mut journal,
        &mut state,
        &reg,
        &config,
        2,
        CommandEvent::TurnOffLight { room: "den".into(), command_id: 77 },
        RunLimits::default(),
    )
    .unwrap();
    let lines = journal.take_pending();
    assert_eq!(lines.len(), 5);
    assert!(lines[..4].iter().all(|e| e.causal_chain_id == lines[0].causal_chain_id));
    assert_eq!(replay_state(&lines).unwrap(), state);
}
