//! The single mutation path of the projection: validation and application of facts.
use vstd::prelude::*;
use crate::error::{ApplyError, ApplyErrorView};
use crate::event::{CommandIoPhase, FactEvent, Provenance};
use crate::ids::{uuid_hyphenated, uuid_text};
use crate::state::{
    light_on_spec, tracker_default, CommandIoTracker, State, StateModel, StateView,
};
use crate::text::concat2;

verus! {

// ------------------------------------------------------------------ specification

/// Tracking key of a command IO fact: `cmd:{uuid}`, else `room:{room}`, else none.
pub open spec fn io_key_spec(command_id: Option<u128>, room: Option<String>) -> Option<Seq<char>> {
    match command_id {
        Some(id) => Some("cmd:"@ + uuid_text(id)),
        None => match room {
            Some(r) => Some("room:"@ + r@),
            None => None,
        },
    }
}

/// Tracker of `k` (the default one for an unknown key).
pub open spec fn tracker_of(m: StateModel, k: Seq<char>) -> CommandIoTracker {
    if m.command_io_trackers.contains_key(k) {
        m.command_io_trackers[k]
    } else {
        tracker_default()
    }
}

/// Whether `phase` is `Dispatched`.
pub open spec fn is_dispatch(phase: CommandIoPhase) -> bool {
    phase is Dispatched
}

/// Error of a command IO fact in state `m`: a second `Dispatched` while one is open, a third
/// `Dispatched` after two timeouts, or a terminal phase with no open `Dispatched`.
pub open spec fn io_error_spec(
    m: StateModel,
    key: Option<Seq<char>>,
    phase: CommandIoPhase,
) -> Option<ApplyErrorView> {
    match key {
        None => None,
        Some(k) => {
            let t = tracker_of(m, k);
            if is_dispatch(phase) {
                if t.awaiting_terminal {
                    Some(ApplyErrorView::IoDuplicateDispatch(k))
                } else if t.timeouts_seen >= 2 {
                    Some(ApplyErrorView::IoRetryBudgetExhausted(k))
                } else {
                    None
                }
            } else if !t.awaiting_terminal {
                Some(ApplyErrorView::IoTerminalWithoutOpenDispatch(k))
            } else {
                None
            }
        },
    }
}

/// Why `f` cannot be appended in state `m`, if it cannot.
pub open spec fn fact_error_spec(m: StateModel, f: FactEvent) -> Option<ApplyErrorView> {
    match f {
        FactEvent::LightOn { room, .. } => if light_on_spec(m, room@) {
            Some(ApplyErrorView::LightAlreadyOn(room@))
        } else {
            None
        },
        FactEvent::LightOff { room, .. } => if !light_on_spec(m, room@) {
            Some(ApplyErrorView::LightAlreadyOff(room@))
        } else {
            None
        },
        FactEvent::CommandIo { command_id, room, phase, .. } => io_error_spec(
            m,
            io_key_spec(command_id, room),
            phase,
        ),
        _ => None,
    }
}

/// The trackers after a (valid) command IO fact: `Dispatched` opens, `Acked`/`Failed` forget the
/// key, `Timeout` closes and counts one more timeout (saturating).
pub open spec fn io_step_spec(
    trackers: Map<Seq<char>, CommandIoTracker>,
    m: StateModel,
    key: Option<Seq<char>>,
    phase: CommandIoPhase,
) -> Map<Seq<char>, CommandIoTracker> {
    match key {
        None => trackers,
        Some(k) => {
            let t = tracker_of(m, k);
            match phase {
                CommandIoPhase::Dispatched { .. } => trackers.insert(
                    k,
                    CommandIoTracker { awaiting_terminal: true, timeouts_seen: t.timeouts_seen },
                ),
                CommandIoPhase::Acked => trackers.remove(k),
                CommandIoPhase::Failed { .. } => trackers.remove(k),
                CommandIoPhase::Timeout => trackers.insert(
                    k,
                    CommandIoTracker {
                        awaiting_terminal: false,
                        timeouts_seen: if t.timeouts_seen == 255 {
                            255
                        } else {
                            (t.timeouts_seen + 1) as u8
                        },
                    },
                ),
            }
        },
    }
}

/// The projection after a fact that passed validation.
pub open spec fn step_spec(m: StateModel, f: FactEvent) -> StateModel {
    match f {
        FactEvent::LightOn { room, provenance } => StateModel {
            lights: m.lights.insert(room@, true),
            light_last_provenance: m.light_last_provenance.insert(room@, provenance),
            ..m
        },
        FactEvent::LightOff { room, provenance } => StateModel {
            lights: m.lights.insert(room@, false),
            light_last_provenance: m.light_last_provenance.insert(room@, provenance),
            ..m
        },
        FactEvent::UsageLogged { item, .. } => StateModel { last_log: Some(item@), ..m },
        FactEvent::CommandIo { command_id, room, phase, .. } => StateModel {
            command_io_trackers: io_step_spec(
                m.command_io_trackers,
                m,
                io_key_spec(command_id, room),
                phase,
            ),
            ..m
        },
        FactEvent::StateCorrectedFromObservation { .. } => m,
        FactEvent::TemperatureRecorded { sensor_id, millidegrees_c, .. } => StateModel {
            temperatures: m.temperatures.insert(sensor_id@, millidegrees_c),
            ..m
        },
        FactEvent::ContactStateChanged { sensor_id, open, .. } => StateModel {
            contacts: m.contacts.insert(sensor_id@, open),
            ..m
        },
        FactEvent::HumidityRecorded { sensor_id, permille_rh, .. } => StateModel {
            humidities: m.humidities.insert(sensor_id@, permille_rh),
            ..m
        },
    }
}

/// Result of applying `f` to `m`.
pub open spec fn apply_spec(m: StateModel, f: FactEvent) -> Result<StateModel, ApplyErrorView> {
    match fact_error_spec(m, f) {
        Some(e) => Err(e),
        None => Ok(step_spec(m, f)),
    }
}

// ------------------------------------------------------------------ implementation

/// Tracking key of a command IO fact.
fn command_io_key(command_id: &Option<u128>, room: &Option<String>) -> (r: Option<String>)
    ensures
        match r {
            Some(k) => io_key_spec(*command_id, *room) == Some(k@),
            None => io_key_spec(*command_id, *room) is None,
        },
{
    match command_id {
        Some(id) => {
            let t = uuid_hyphenated(*id);
            Some(concat2("cmd:", t.as_str()))
        },
        None => match room {
            Some(r) => Some(concat2("room:", r.as_str())),
            None => None,
        },
    }
}

fn tracker_get(state: &State, k: &str) -> (t: CommandIoTracker)
    requires
        state.wf(),
    ensures
        t == tracker_of(state@, k@),
{
    match state.command_io_trackers.get(k) {
        Some(t) => *t,
        None => CommandIoTracker::default(),
    }
}

fn validate_command_io(
    state: &State,
    command_id: &Option<u128>,
    room: &Option<String>,
    phase: &CommandIoPhase,
) -> (r: Result<(), ApplyError>)
    requires
        state.wf(),
    ensures
        match r {
            Ok(()) => io_error_spec(state@, io_key_spec(*command_id, *room), *phase) is None,
            Err(e) => io_error_spec(state@, io_key_spec(*command_id, *room), *phase) == Some(e@),
        },
{
    let k = match command_io_key(command_id, room) {
        Some(k) => k,
        None => {
            return Ok(());
        },
    };
    let t = tracker_get(state, k.as_str());
    match phase {
        CommandIoPhase::Dispatched { .. } => {
            if t.awaiting_terminal {
                return Err(ApplyError::IoDuplicateDispatch(k));
            }
            if t.timeouts_seen >= 2 {
                return Err(ApplyError::IoRetryBudgetExhausted(k));
            }
            Ok(())
        },
        _ => {
            if !t.awaiting_terminal {
                return Err(ApplyError::IoTerminalWithoutOpenDispatch(k));
            }
            Ok(())
        },
    }
}

fn apply_command_io_trackers(
    next: &mut State,
    command_id: &Option<u128>,
    room: &Option<String>,
    phase: &CommandIoPhase,
)
    requires
        old(next).wf(),
    ensures
        final(next).wf(),
        final(next)@ == (StateModel {
            command_io_trackers: io_step_spec(
                old(next)@.command_io_trackers,
                old(next)@,
                io_key_spec(*command_id, *room),
                *phase,
            ),
            ..old(next)@
        }),
{
    let k = match command_io_key(command_id, room) {
        Some(k) => k,
        None => {
            return ;
        },
    };
    let t = tracker_get(next, k.as_str());
    match phase {
        CommandIoPhase::Dispatched { .. } => {
            next.command_io_trackers.insert(
                k,
                CommandIoTracker { awaiting_terminal: true, timeouts_seen: t.timeouts_seen },
            );
        },
        CommandIoPhase::Acked => {
            next.command_io_trackers.remove(k.as_str());
        },
        CommandIoPhase::Failed { .. } => {
            next.command_io_trackers.remove(k.as_str());
        },
        CommandIoPhase::Timeout => {
            let n: u8 = if t.timeouts_seen == 255 {
                255
            } else {
                t.timeouts_seen + 1
            };
            next.command_io_trackers.insert(
                k,
                CommandIoTracker { awaiting_terminal: false, timeouts_seen: n },
            );
        },
    }
}

/// Validates a fact before it is appended to the journal.
pub fn validate_fact_for_append(state: &State, fact: &FactEvent) -> (r: Result<(), ApplyError>)
    requires
        state.wf(),
    ensures
        match r {
            Ok(()) => fact_error_spec(state@, *fact) is None,
            Err(e) => fact_error_spec(state@, *fact) == Some(e@),
        },
{
    match fact {
        FactEvent::LightOn { room, .. } => {
            if state.light_on(room.as_str()) {
                return Err(ApplyError::LightAlreadyOn(room.clone()));
            }
            Ok(())
        },
        FactEvent::LightOff { room, .. } => {
            if !state.light_on(room.as_str()) {
                return Err(ApplyError::LightAlreadyOff(room.clone()));
            }
            Ok(())
        },
        FactEvent::CommandIo { command_id, room, phase, .. } => validate_command_io(
            state,
            command_id,
            room,
            phase,
        ),
        _ => Ok(()),
    }
}

/// Applies a fact to the projection: the next state, or why the fact is refused.
pub fn apply_event(state: &State, fact: &FactEvent) -> (r: Result<State, ApplyError>)
    requires
        state.wf(),
    ensures
        match r {
            Ok(next) => next.wf() && apply_spec(state@, *fact) == Ok::<StateModel, ApplyErrorView>(
                next@,
            ),
            Err(e) => apply_spec(state@, *fact) == Err::<StateModel, ApplyErrorView>(e@),
        },
{
    let mut next = state.clone();
    match fact {
        FactEvent::LightOn { room, provenance } => {
            if next.light_on(room.as_str()) {
                return Err(ApplyError::LightAlreadyOn(room.clone()));
            }
            next.lights.insert(room.clone(), true);
            next.light_last_provenance.insert(room.clone(), *provenance);
        },
        FactEvent::LightOff { room, provenance } => {
            if !next.light_on(room.as_str()) {
                return Err(ApplyError::LightAlreadyOff(room.clone()));
            }
            next.lights.insert(room.clone(), false);
            next.light_last_provenance.insert(room.clone(), *provenance);
        },
        FactEvent::UsageLogged { item, .. } => {
            next.last_log = Some(item.clone());
        },
        FactEvent::CommandIo { command_id, room, phase, .. } => {
            match validate_command_io(&next, command_id, room, phase) {
                Ok(()) => {},
                Err(e) => {
                    return Err(e);
                },
            }
            apply_command_io_trackers(&mut next, command_id, room, phase);
        },
        FactEvent::StateCorrectedFromObservation { .. } => {},
        FactEvent::TemperatureRecorded { sensor_id, millidegrees_c, .. } => {
            next.temperatures.insert(sensor_id.clone(), *millidegrees_c);
        },
        FactEvent::ContactStateChanged { sensor_id, open, .. } => {
            next.contacts.insert(sensor_id.clone(), *open);
        },
        FactEvent::HumidityRecorded { sensor_id, permille_rh, .. } => {
            next.humidities.insert(sensor_id.clone(), *permille_rh);
        },
    }
    Ok(next)
}

// ------------------------------------------------------------------ laws

/// Validation before append predicts application exactly: a fact is accepted by
/// `validate_fact_for_append` iff `apply_event` accepts it, with the same error otherwise.
pub proof fn law_validation_predicts_apply(m: StateModel, f: FactEvent)
    ensures
        fact_error_spec(m, f) is None <==> apply_spec(m, f) is Ok,
        fact_error_spec(m, f) matches Some(e) ==> apply_spec(m, f) == Err::<
            StateModel,
            ApplyErrorView,
        >(e),
{
}

/// A light that was just switched on cannot be switched on again: the second `LightOn` for the
/// same room fails with `LightAlreadyOn`, whatever the provenances.
pub proof fn law_second_light_on_fails(m: StateModel, room: String, p1: Provenance, p2: Provenance)
    requires
        apply_spec(m, FactEvent::LightOn { room, provenance: p1 }) is Ok,
    ensures
        apply_spec(
            apply_spec(m, FactEvent::LightOn { room, provenance: p1 })->Ok_0,
            FactEvent::LightOn { room, provenance: p2 },
        ) == Err::<StateModel, ApplyErrorView>(ApplyErrorView::LightAlreadyOn(room@)),
{
}

/// `LightOn` then `LightOff` for the same room succeeds and leaves the light off, with the
/// provenance of the `LightOff`.
pub proof fn law_light_on_then_off(m: StateModel, room: String, p1: Provenance, p2: Provenance)
    requires
        !light_on_spec(m, room@),
    ensures
        ({
            let m1 = apply_spec(m, FactEvent::LightOn { room, provenance: p1 });
            &&& m1 is Ok
            &&& light_on_spec(m1->Ok_0, room@)
            &&& apply_spec(m1->Ok_0, FactEvent::LightOff { room, provenance: p2 }) is Ok
            &&& !light_on_spec(
                apply_spec(m1->Ok_0, FactEvent::LightOff { room, provenance: p2 })->Ok_0,
                room@,
            )
            &&& apply_spec(
                m1->Ok_0,
                FactEvent::LightOff { room, provenance: p2 },
            )->Ok_0.light_last_provenance[room@] == p2
        }),
{
}

/// Facts other than light, usage and sensor facts never change lights, provenance, the usage
/// log or sensor readings: a command IO fact only touches the IO trackers, and a correction fact
/// changes nothing at all.
pub proof fn law_io_and_correction_facts_leave_projection(m: StateModel, f: FactEvent)
    requires
        f is CommandIo || f is StateCorrectedFromObservation,
        apply_spec(m, f) is Ok,
    ensures
        ({
            let n = apply_spec(m, f)->Ok_0;
            &&& n.lights == m.lights
            &&& n.light_last_provenance == m.light_last_provenance
            &&& n.last_log == m.last_log
            &&& n.temperatures == m.temperatures
            &&& n.contacts == m.contacts
            &&& n.humidities == m.humidities
        }),
        f is StateCorrectedFromObservation ==> apply_spec(m, f) == Ok::<
            StateModel,
            ApplyErrorView,
        >(m),
{
}

/// After two timeouts on a key, no further `Dispatched` is accepted for that key.
pub proof fn law_retry_budget(
    m: StateModel,
    command_id: Option<u128>,
    room: Option<String>,
    deadline: Option<i64>,
    p: Provenance,
)
    requires
        io_key_spec(command_id, room) is Some,
        tracker_of(m, io_key_spec(command_id, room)->Some_0).timeouts_seen >= 2,
    ensures
        apply_spec(
            m,
            FactEvent::CommandIo {
                command_id,
                room,
                phase: CommandIoPhase::Dispatched { logical_deadline: deadline },
                provenance: p,
            },
        ) is Err,
{
}

/// A terminal phase (`Acked`, `Failed`, `Timeout`) is accepted only while a `Dispatched` is open
/// for its key.
pub proof fn law_terminal_needs_open_dispatch(
    m: StateModel,
    command_id: Option<u128>,
    room: Option<String>,
    phase: CommandIoPhase,
    p: Provenance,
)
    requires
        io_key_spec(command_id, room) is Some,
        !(phase is Dispatched),
        apply_spec(m, FactEvent::CommandIo { command_id, room, phase, provenance: p }) is Ok,
    ensures
        tracker_of(m, io_key_spec(command_id, room)->Some_0).awaiting_terminal,
{
}

/// `Dispatched` then `Acked` on a fresh key succeeds and forgets the key.
pub proof fn law_dispatch_then_ack(
    m: StateModel,
    command_id: Option<u128>,
    room: Option<String>,
    deadline: Option<i64>,
    p: Provenance,
)
    requires
        io_key_spec(command_id, room) is Some,
        !m.command_io_trackers.contains_key(io_key_spec(command_id, room)->Some_0),
    ensures
        ({
            let d = FactEvent::CommandIo {
                command_id,
                room,
                phase: CommandIoPhase::Dispatched { logical_deadline: deadline },
                provenance: p,
            };
            let a = FactEvent::CommandIo {
                command_id,
                room,
                phase: CommandIoPhase::Acked,
                provenance: p,
            };
            let m1 = apply_spec(m, d);
            &&& m1 is Ok
            &&& tracker_of(m1->Ok_0, io_key_spec(command_id, room)->Some_0).awaiting_terminal
            &&& apply_spec(m1->Ok_0, a) is Ok
            &&& !apply_spec(m1->Ok_0, a)->Ok_0.command_io_trackers.contains_key(
                io_key_spec(command_id, room)->Some_0,
            )
        }),
{
    let k = io_key_spec(command_id, room)->Some_0;
    let d = FactEvent::CommandIo {
        command_id,
        room,
        phase: CommandIoPhase::Dispatched { logical_deadline: deadline },
        provenance: p,
    };
    let m1 = apply_spec(m, d)->Ok_0;
    assert(m1.command_io_trackers.contains_key(k));
}

/// A sensor fact is always accepted, and the last reading wins.
pub proof fn law_sensor_last_reading_wins(m: StateModel, sensor: String, v: i32, open: bool, p: Provenance)
    ensures
        apply_spec(
            m,
            FactEvent::TemperatureRecorded { sensor_id: sensor, millidegrees_c: v, provenance: p },
        )->Ok_0.temperatures[sensor@] == v,
        apply_spec(
            m,
            FactEvent::HumidityRecorded { sensor_id: sensor, permille_rh: v, provenance: p },
        )->Ok_0.humidities[sensor@] == v,
        apply_spec(
            m,
            FactEvent::ContactStateChanged { sensor_id: sensor, open, provenance: p },
        )->Ok_0.contacts[sensor@] == open,
{
}

/// A failed command IO attempt forgets its key, as an acknowledged one does: after an accepted
/// `Failed`, the key has no tracker (the tracker map is the previous one without the key), no
/// timeout is counted for it, and the next dispatch on the key is accepted.
pub proof fn law_failed_forgets_tracker(
    m: StateModel,
    command_id: Option<u128>,
    room: Option<String>,
    reason: String,
    p: Provenance,
    k: Seq<char>,
    deadline: Option<i64>,
    p2: Provenance,
)
    requires
        io_key_spec(command_id, room) == Some(k),
        apply_spec(
            m,
            FactEvent::CommandIo {
                command_id,
                room,
                phase: CommandIoPhase::Failed { reason },
                provenance: p,
            },
        ) is Ok,
    ensures
        ({
            let n = apply_spec(
                m,
                FactEvent::CommandIo {
                    command_id,
                    room,
                    phase: CommandIoPhase::Failed { reason },
                    provenance: p,
                },
            )->Ok_0;
            &&& n.command_io_trackers == m.command_io_trackers.remove(k)
            &&& !n.command_io_trackers.contains_key(k)
            &&& tracker_of(n, k).timeouts_seen == 0
            &&& apply_spec(
                n,
                FactEvent::CommandIo {
                    command_id,
                    room,
                    phase: CommandIoPhase::Dispatched { logical_deadline: deadline },
                    provenance: p2,
                },
            ) is Ok
        }),
{
}

/// A timeout closes the open dispatch and counts one more timeout for its key (saturating), and
/// a dispatch opens the key keeping the timeouts already counted; other keys keep their trackers.
pub proof fn law_timeout_counts_dispatch_keeps(
    m: StateModel,
    command_id: Option<u128>,
    room: Option<String>,
    deadline: Option<i64>,
    p: Provenance,
    k: Seq<char>,
    other: Seq<char>,
)
    requires
        io_key_spec(command_id, room) == Some(k),
        other != k,
    ensures
        ({
            let f = FactEvent::CommandIo { command_id, room, phase: CommandIoPhase::Timeout, provenance: p };
            let t = tracker_of(m, k);
            apply_spec(m, f) is Ok ==> {
                let n = apply_spec(m, f)->Ok_0;
                &&& !tracker_of(n, k).awaiting_terminal
                &&& tracker_of(n, k).timeouts_seen == if t.timeouts_seen == 255 {
                    255
                } else {
                    t.timeouts_seen + 1
                }
                &&& tracker_of(n, other) == tracker_of(m, other)
            }
        }),
        ({
            let f = FactEvent::CommandIo {
                command_id,
                room,
                phase: CommandIoPhase::Dispatched { logical_deadline: deadline },
                provenance: p,
            };
            apply_spec(m, f) is Ok ==> {
                let n = apply_spec(m, f)->Ok_0;
                &&& tracker_of(n, k).awaiting_terminal
                &&& tracker_of(n, k).timeouts_seen == tracker_of(m, k).timeouts_seen
                &&& tracker_of(n, other) == tracker_of(m, other)
            }
        }),
{
}

} // verus!

