//! System truth: an observation wins over a derived projection.
use vstd::prelude::*;
use std::collections::VecDeque;
use crate::config::ConfigSnapshot;
use crate::error::{ApplyErrorView, RunError};
use crate::event::{Event, FactEvent, LightActuatorState, Provenance};
use crate::journal::{entry_of, replay_spec, Journal, JournalAppend, JournalAppendOutcome, JournalEntry};
use crate::pipeline::{
    drain_fifo, drain_run, drain_stopped, root_tree, RuleOutput, RunModel, journal_grew, lemma_grew_refl, lemma_grew_trans, RuleEvaluationRecord, Rule,
    RunLimits,
};
use crate::reducer::{apply_spec, fact_error_spec, validate_fact_for_append};
use crate::state::{light_on_spec, map_get, State, StateModel, StateView};
use crate::text::owned;

verus! {

/// Parameters of an observed `LightOn` / `LightOff` append (not from a rule).
#[derive(PartialEq, Eq, Debug)]
pub struct ObservedLightAppend {
    pub timestamp: i64,
    pub causal_chain_id: u128,
    pub room: String,
    /// `true` = `LightOn`, `false` = `LightOff`.
    pub on: bool,
    pub correlation_id: Option<u128>,
    pub trace_id: Option<u128>,
}

/// The actuator state a boolean stands for.
pub open spec fn actuator_of(on: bool) -> LightActuatorState {
    if on {
        LightActuatorState::On
    } else {
        LightActuatorState::Off
    }
}

/// When the light of `room` was last set by a derived fact and the observation contradicts the
/// projection, the audit fact that records the divergence.
pub open spec fn correction_spec(m: StateModel, room: Seq<char>, on: bool) -> Option<(
    LightActuatorState,
    LightActuatorState,
)> {
    if map_get(m.light_last_provenance, room) != Some(Provenance::Derived) {
        None
    } else if actuator_of(light_on_spec(m, room)) == actuator_of(on) {
        None
    } else {
        Some((actuator_of(light_on_spec(m, room)), actuator_of(on)))
    }
}

fn actuator_expected(state: &State, room: &str) -> (r: LightActuatorState)
    requires
        state.wf(),
    ensures
        r == actuator_of(light_on_spec(state@, room@)),
{
    if state.light_on(room) {
        LightActuatorState::On
    } else {
        LightActuatorState::Off
    }
}

fn actuator_observed(on: bool) -> (r: LightActuatorState)
    ensures
        r == actuator_of(on),
{
    if on {
        LightActuatorState::On
    } else {
        LightActuatorState::Off
    }
}

/// If the projection of `room` rests on a derived fact that the observation `on` contradicts,
/// the `StateCorrectedFromObservation` fact to journal (with `Derived` provenance).
pub fn correction_for_observed_light(state: &State, room: &str, on: bool) -> (r: Option<FactEvent>)
    requires
        state.wf(),
    ensures
        match correction_spec(state@, room@, on) {
            None => r is None,
            Some((expected, observed)) => r matches Some(
                FactEvent::StateCorrectedFromObservation { entity_id, expected: x, observed: y, provenance },
            ) && entity_id@ == room@ && x == expected && y == observed && provenance
                == Provenance::Derived,
        },
        r matches Some(FactEvent::StateCorrectedFromObservation { expected, observed, .. }) ==> (
        expected == LightActuatorState::On) == light_on_spec(state@, room@) && (observed
            == LightActuatorState::On) == on,
{
    if state.light_last_provenance(room) != Some(Provenance::Derived) {
        return None;
    }
    let expected = actuator_expected(state, room);
    let observed = actuator_observed(on);
    if expected == observed {
        return None;
    }
    Some(
        FactEvent::StateCorrectedFromObservation {
            entity_id: owned(room),
            expected,
            observed,
            provenance: Provenance::Derived,
        },
    )
}

/// The observed light fact of `p`.
pub open spec fn observed_fact_ok(f: FactEvent, p: ObservedLightAppend) -> bool {
    if p.on {
        f matches FactEvent::LightOn { room, provenance } && room@ == p.room@ && provenance
            == Provenance::Observed
    } else {
        f matches FactEvent::LightOff { room, provenance } && room@ == p.room@ && provenance
            == Provenance::Observed
    }
}

/// A line appended for the observation `p`: its time, causal chain and ids, with no parent and
/// no rule.
pub open spec fn observed_header(e: JournalEntry, p: ObservedLightAppend) -> bool {
    &&& e.timestamp == p.timestamp
    &&& e.causal_chain_id == p.causal_chain_id
    &&& e.parent_sequence is None
    &&& e.parent_event_id is None
    &&& e.rule_id is None
    &&& e.event_id is None
    &&& e.correlation_id == p.correlation_id
    &&& e.trace_id == p.trace_id
}

/// How many lines the observation `p` appends before its cascade: the correction, if any, and
/// the observed fact.
pub open spec fn observed_line_count(m: StateModel, p: ObservedLightAppend) -> int {
    if correction_spec(m, p.room@, p.on) is Some {
        2
    } else {
        1
    }
}

/// From index `n` on, `lines` hold what the observation `p` appends on the projection `m`: the
/// correction audit when `correction_spec` gives one, then the observed fact.
pub open spec fn observed_lines_at(
    m: StateModel,
    lines: Seq<JournalEntry>,
    n: int,
    p: ObservedLightAppend,
) -> bool {
    match correction_spec(m, p.room@, p.on) {
        None => lines.len() > n && observed_header(lines[n], p) && (lines[n].event matches Event::Fact(
            f,
        ) && observed_fact_ok(f, p)),
        Some((x, y)) => {
            &&& lines.len() > n + 1
            &&& observed_header(lines[n], p)
            &&& (lines[n].event matches Event::Fact(
                FactEvent::StateCorrectedFromObservation { entity_id, expected, observed, provenance },
            ) && entity_id@ == p.room@ && expected == x && observed == y && provenance
                == Provenance::Derived)
            &&& observed_header(lines[n + 1], p)
            &&& (lines[n + 1].event matches Event::Fact(f) && observed_fact_ok(f, p))
        },
    }
}

/// Appends an observed `LightOn`/`LightOff`; when it contradicts a derived projection, appends
/// the `StateCorrectedFromObservation` audit fact first. Both lines are then drained.
pub fn append_observed_light_fact<R: Rule>(
    journal: &mut Journal,
    state: &mut State,
    registry: &[R],
    config: &ConfigSnapshot,
    params: ObservedLightAppend,
    limits: RunLimits,
    rule_trace: &mut Vec<RuleEvaluationRecord>,
) -> (r: Result<(), RunError>)
    requires
        old(journal).wf(),
        old(state).wf(),
    ensures
        final(journal).wf(),
        final(state).wf(),
        journal_grew(*old(journal), *final(journal)),
        r is Ok ==> replay_spec(old(state)@, final(journal).lines@.skip(old(journal).lines@.len() as int))
            == Ok::<StateModel, ApplyErrorView>(final(state)@),
        fact_error_spec(old(state)@, observed_light_fact(params.room, params.on)) matches Some(ev)
            ==> (r matches Err(RunError::Apply(e)) && e@ == ev) && *final(journal) == *old(journal)
            && final(state)@ == old(state)@,
        fact_error_spec(old(state)@, observed_light_fact(params.room, params.on)) is Some <==> (
        r matches Err(RunError::Apply(_)) && final(journal).lines@.len() == old(
            journal,
        ).lines@.len()),
        r is Ok ==> observed_lines_at(
            old(state)@,
            final(journal).lines@,
            old(journal).lines@.len() as int,
            params,
        ),
        fact_error_spec(old(state)@, observed_light_fact(params.room, params.on)) is None
            && old(journal).next_sequence + observed_line_count(old(state)@, params) <= u64::MAX
            && (old(journal).last_timestamp_committed matches Some(lt) ==> lt <= params.timestamp)
            ==> observed_lines_at(
            old(state)@,
            final(journal).lines@,
            old(journal).lines@.len() as int,
            params,
        ),
        final(rule_trace)@.len() >= old(rule_trace)@.len(),
        final(rule_trace)@.take(old(rule_trace)@.len() as int) == old(rule_trace)@,
        r matches Err(e) ==> (final(journal).lines@.len() >= old(journal).lines@.len()
            + observed_line_count(old(state)@, params) ==> exists|outss: Seq<Seq<RuleOutput>>|
            #[trigger] drain_stopped(
                outss,
                RunModel {
                    lines: final(journal).lines@.take(
                        old(journal).lines@.len() + observed_line_count(old(state)@, params),
                    ),
                    state: old(state)@,
                    tree: set![old(journal).next_sequence],
                    generated: 0,
                },
                old(journal).lines@.len() as int,
                *config,
                limits,
                registry@,
                final(journal).lines@,
                e,
            )),
        r is Ok ==> exists|outss: Seq<Seq<RuleOutput>>|
            #[trigger] drain_run(
                outss,
                RunModel {
                    lines: final(journal).lines@.take(
                        old(journal).lines@.len() + observed_line_count(old(state)@, params),
                    ),
                    state: old(state)@,
                    tree: set![old(journal).next_sequence],
                    generated: 0,
                },
                old(journal).lines@.len() as int,
                *config,
                limits.max_events_generated_per_root,
                registry@,
                final(journal).lines@,
                final(state)@,
                final(rule_trace)@.skip(old(rule_trace)@.len() as int),
            ),
{
    let ghost j0 = *journal;
    let ghost n0 = journal.lines@.len();
    proof {
        lemma_grew_refl(j0);
    }
    let ObservedLightAppend { timestamp, causal_chain_id, room, on, correlation_id, trace_id } =
        params;
    let fact = if on {
        FactEvent::LightOn { room: room.clone(), provenance: Provenance::Observed }
    } else {
        FactEvent::LightOff { room: room.clone(), provenance: Provenance::Observed }
    };
    match validate_fact_for_append(state, &fact) {
        Ok(()) => {},
        Err(e) => {
            return Err(RunError::Apply(e));
        },
    }
    let mut queue: VecDeque<JournalEntry> = VecDeque::new();
    let corr = correction_for_observed_light(state, room.as_str(), on);
    proof {
        assert(journal.lines@.skip(journal.lines@.len() as int) =~= queue@);
        assert(journal.lines@.take(n0 as int) =~= j0.lines@);
        assert(j0.pending@ + journal.lines@.skip(n0 as int) =~= j0.pending@);
    }
    let regresses = match journal.last_timestamp_committed {
        Some(lt) => timestamp < lt,
        None => false,
    };
    match corr {
        Some(c) => {
            if journal.next_sequence == u64::MAX && !regresses {
                return Err(RunError::Journal(owned("journal sequence space exhausted")));
            }
            let ghost jb = *journal;
            let a = JournalAppend {
                timestamp,
                causal_chain_id,
                parent_sequence: None,
                parent_event_id: None,
                rule_id: None,
                event_id: None,
                correlation_id,
                trace_id,
                event: Event::Fact(c),
            };
            match journal.append(a) {
                Ok(JournalAppendOutcome::Committed(e)) => {
                    proof {
                        assert(journal.lines@.take(n0 as int) =~= j0.lines@);
                        assert(journal.lines@.skip(n0 as int) =~= seq![e]);
                        assert(j0.pending@ + seq![e] =~= journal.pending@);
                    }
                    queue.push_back(e);
                },
                Ok(JournalAppendOutcome::DuplicateCommandSkipped { .. }) => unreached(),
                Err(e) => {
                    return Err(RunError::Journal(e.message()));
                },
            }
        },
        None => {},
    }
    if journal.next_sequence == u64::MAX && !regresses {
        return Err(RunError::Journal(owned("journal sequence space exhausted")));
    }
    let ghost jc = *journal;
    let a = JournalAppend {
        timestamp,
        causal_chain_id,
        parent_sequence: None,
        parent_event_id: None,
        rule_id: None,
        event_id: None,
        correlation_id,
        trace_id,
        event: Event::Fact(fact),
    };
    match journal.append(a) {
        Ok(JournalAppendOutcome::Committed(e)) => {
            proof {
                assert(journal.lines@.take(n0 as int) =~= j0.lines@);
                assert(journal.lines@.skip(n0 as int) =~= jc.lines@.skip(n0 as int).push(e));
                assert(journal.pending@ =~= j0.pending@ + journal.lines@.skip(n0 as int));
            }
            queue.push_back(e);
        },
        Ok(JournalAppendOutcome::DuplicateCommandSkipped { .. }) => unreached(),
        Err(e) => {
            return Err(RunError::Journal(e.message()));
        },
    }
    let ghost j1 = *journal;
    assert(queue@ =~= journal.lines@.skip(n0 as int));
    assert(journal_grew(j0, j1));
    let r = drain_fifo(journal, state, registry, config, queue, limits, rule_trace);
    proof {
        lemma_grew_trans(j0, j1, *journal);
        assert(journal.lines@[n0 as int] == j1.lines@[n0 as int]);
        if corr is Some {
            assert(journal.lines@[(n0 + 1) as int] == j1.lines@[(n0 + 1) as int]);
        }
        assert(journal.lines@.take(j1.lines@.len() as int).take(n0 as int) =~= journal.lines@.take(
            n0 as int,
        ));
        assert(journal.lines@.skip(n0 as int).take(j1.lines@.len() - n0) =~= j1.lines@.skip(
            n0 as int,
        ));
        assert(journal.pending@ =~= j0.pending@ + journal.lines@.skip(n0 as int));
        assert(journal.lines@.take(j1.lines@.len() as int) =~= j1.lines@);
        assert(root_tree(j1.lines@.skip(n0 as int)) =~= set![j0.next_sequence]);
    }
    r
}

/// The observed fact a light observation appends.
pub open spec fn observed_light_fact(room: String, on: bool) -> FactEvent {
    if on {
        FactEvent::LightOn { room, provenance: Provenance::Observed }
    } else {
        FactEvent::LightOff { room, provenance: Provenance::Observed }
    }
}

/// Observation is the truth: when the observed fact is accepted, the projection shows the
/// observed state of the light, tagged as observed, whatever a rule had derived before; the
/// correction audit that precedes it changes nothing.
pub proof fn law_observation_wins(m: StateModel, room: String, on: bool)
    requires
        apply_spec(m, observed_light_fact(room, on)) is Ok,
    ensures
        ({
            let n = apply_spec(m, observed_light_fact(room, on))->Ok_0;
            &&& light_on_spec(n, room@) == on
            &&& map_get(n.light_last_provenance, room@) == Some(Provenance::Observed)
        }),
        correction_spec(m, room@, on) matches Some((expected, observed)) ==> apply_spec(
            m,
            FactEvent::StateCorrectedFromObservation {
                entity_id: room,
                expected,
                observed,
                provenance: Provenance::Derived,
            },
        ) == Ok::<StateModel, ApplyErrorView>(m),
{
}

/// The correction audit records the projection first and the observation second: when there is
/// one, its `expected` side is `On` exactly when the projection has the light on before the
/// observation, its `observed` side is `On` exactly when the observation says on, and the two
/// differ. There is one exactly when the light was last set by a derived fact and the
/// observation contradicts the projection.
pub proof fn law_correction_is_projection_then_observation(m: StateModel, room: Seq<char>, on: bool)
    ensures
        correction_spec(m, room, on) matches Some((expected, observed)) ==> {
            &&& (expected == LightActuatorState::On) == light_on_spec(m, room)
            &&& (observed == LightActuatorState::On) == on
            &&& expected != observed
        },
        correction_spec(m, room, on) is Some <==> (map_get(m.light_last_provenance, room) == Some(
            Provenance::Derived,
        ) && light_on_spec(m, room) != on),
{
}

} // verus!

