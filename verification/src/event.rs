//! The three event families (facts, commands, observations), the audit event, and the
//! persisted envelope. Identifiers that the wire format holds as UUIDs are carried as their
//! 128-bit value.
use vstd::prelude::*;

verus! {

/// Epistemic tag on facts: seen on the hardware, or derived by a rule.
#[derive(Clone, Copy, PartialEq, Eq, Structural, Debug)]
pub enum Provenance {
    Observed,
    Derived,
}

/// Physical state of a light (observation vs projection reconciliation).
#[derive(Clone, Copy, PartialEq, Eq, Structural, Debug)]
pub enum LightActuatorState {
    On,
    Off,
}

/// Command IO cycle: `Dispatched`, then one terminal phase.
#[derive(PartialEq, Eq, Debug)]
pub enum CommandIoPhase {
    /// Handed to the driver; `logical_deadline` is the logical time of the watchdog.
    Dispatched { logical_deadline: Option<i64> },
    /// Hardware success.
    Acked,
    Failed { reason: String },
    Timeout,
}

impl Clone for CommandIoPhase {
    fn clone(&self) -> (r: Self)
        ensures
            r == *self,
    {
        match self {
            CommandIoPhase::Dispatched { logical_deadline } => CommandIoPhase::Dispatched {
                logical_deadline: *logical_deadline,
            },
            CommandIoPhase::Acked => CommandIoPhase::Acked,
            CommandIoPhase::Failed { reason } => CommandIoPhase::Failed { reason: reason.clone() },
            CommandIoPhase::Timeout => CommandIoPhase::Timeout,
        }
    }
}

/// Facts: the only family that changes the projection.
#[derive(PartialEq, Eq, Debug)]
pub enum FactEvent {
    LightOn { room: String, provenance: Provenance },
    LightOff { room: String, provenance: Provenance },
    UsageLogged { item: String, provenance: Provenance },
    /// Command IO cycle, tracked by `command_id` or, when absent, by `room`.
    CommandIo {
        command_id: Option<u128>,
        room: Option<String>,
        phase: CommandIoPhase,
        provenance: Provenance,
    },
    /// Projection vs observation divergence (the observation is the truth).
    StateCorrectedFromObservation {
        entity_id: String,
        expected: LightActuatorState,
        observed: LightActuatorState,
        provenance: Provenance,
    },
    /// Temperature committed to the projection, in millidegrees Celsius.
    TemperatureRecorded { sensor_id: String, millidegrees_c: i32, provenance: Provenance },
    /// Contact sensor state (`true` = open).
    ContactStateChanged { sensor_id: String, open: bool, provenance: Provenance },
    /// Relative humidity committed to the projection, in permille.
    HumidityRecorded { sensor_id: String, permille_rh: i32, provenance: Provenance },
}

impl Clone for FactEvent {
    fn clone(&self) -> (r: Self)
        ensures
            r == *self,
    {
        match self {
            FactEvent::LightOn { room, provenance } => FactEvent::LightOn {
                room: room.clone(),
                provenance: *provenance,
            },
            FactEvent::LightOff { room, provenance } => FactEvent::LightOff {
                room: room.clone(),
                provenance: *provenance,
            },
            FactEvent::UsageLogged { item, provenance } => FactEvent::UsageLogged {
                item: item.clone(),
                provenance: *provenance,
            },
            FactEvent::CommandIo { command_id, room, phase, provenance } => {
                let room2 = match room {
                    Some(r) => Some(r.clone()),
                    None => None,
                };
                FactEvent::CommandIo {
                    command_id: *command_id,
                    room: room2,
                    phase: phase.clone(),
                    provenance: *provenance,
                }
            },
            FactEvent::StateCorrectedFromObservation { entity_id, expected, observed, provenance } =>
            FactEvent::StateCorrectedFromObservation {
                entity_id: entity_id.clone(),
                expected: *expected,
                observed: *observed,
                provenance: *provenance,
            },
            FactEvent::TemperatureRecorded { sensor_id, millidegrees_c, provenance } =>
            FactEvent::TemperatureRecorded {
                sensor_id: sensor_id.clone(),
                millidegrees_c: *millidegrees_c,
                provenance: *provenance,
            },
            FactEvent::ContactStateChanged { sensor_id, open, provenance } =>
            FactEvent::ContactStateChanged {
                sensor_id: sensor_id.clone(),
                open: *open,
                provenance: *provenance,
            },
            FactEvent::HumidityRecorded { sensor_id, permille_rh, provenance } =>
            FactEvent::HumidityRecorded {
                sensor_id: sensor_id.clone(),
                permille_rh: *permille_rh,
                provenance: *provenance,
            },
        }
    }
}

/// The provenance tag of a fact.
pub open spec fn fact_provenance(f: FactEvent) -> Provenance {
    match f {
        FactEvent::LightOn { provenance, .. } => provenance,
        FactEvent::LightOff { provenance, .. } => provenance,
        FactEvent::UsageLogged { provenance, .. } => provenance,
        FactEvent::CommandIo { provenance, .. } => provenance,
        FactEvent::StateCorrectedFromObservation { provenance, .. } => provenance,
        FactEvent::TemperatureRecorded { provenance, .. } => provenance,
        FactEvent::ContactStateChanged { provenance, .. } => provenance,
        FactEvent::HumidityRecorded { provenance, .. } => provenance,
    }
}

impl FactEvent {
    pub fn provenance(&self) -> (p: Provenance)
        ensures
            p == fact_provenance(*self),
    {
        match self {
            FactEvent::LightOn { provenance, .. } => *provenance,
            FactEvent::LightOff { provenance, .. } => *provenance,
            FactEvent::UsageLogged { provenance, .. } => *provenance,
            FactEvent::CommandIo { provenance, .. } => *provenance,
            FactEvent::StateCorrectedFromObservation { provenance, .. } => *provenance,
            FactEvent::TemperatureRecorded { provenance, .. } => *provenance,
            FactEvent::ContactStateChanged { provenance, .. } => *provenance,
            FactEvent::HumidityRecorded { provenance, .. } => *provenance,
        }
    }
}

/// Commands: intentions, never applied to the projection directly.
#[derive(PartialEq, Eq, Debug)]
pub enum CommandEvent {
    TurnOnLight { room: String, command_id: u128 },
    TurnOffLight { room: String, command_id: u128 },
    NotifyUser { command_id: u128 },
    LogUsage { item: String, command_id: u128 },
}

impl Clone for CommandEvent {
    fn clone(&self) -> (r: Self)
        ensures
            r == *self,
    {
        match self {
            CommandEvent::TurnOnLight { room, command_id } => CommandEvent::TurnOnLight {
                room: room.clone(),
                command_id: *command_id,
            },
            CommandEvent::TurnOffLight { room, command_id } => CommandEvent::TurnOffLight {
                room: room.clone(),
                command_id: *command_id,
            },
            CommandEvent::NotifyUser { command_id } => CommandEvent::NotifyUser {
                command_id: *command_id,
            },
            CommandEvent::LogUsage { item, command_id } => CommandEvent::LogUsage {
                item: item.clone(),
                command_id: *command_id,
            },
        }
    }
}

/// The identifier every command carries.
pub open spec fn command_id_of(c: CommandEvent) -> u128 {
    match c {
        CommandEvent::TurnOnLight { command_id, .. } => command_id,
        CommandEvent::TurnOffLight { command_id, .. } => command_id,
        CommandEvent::NotifyUser { command_id } => command_id,
        CommandEvent::LogUsage { command_id, .. } => command_id,
    }
}

impl CommandEvent {
    pub fn command_id(&self) -> (id: u128)
        ensures
            id == command_id_of(*self),
    {
        match self {
            CommandEvent::TurnOnLight { command_id, .. } => *command_id,
            CommandEvent::TurnOffLight { command_id, .. } => *command_id,
            CommandEvent::NotifyUser { command_id } => *command_id,
            CommandEvent::LogUsage { command_id, .. } => *command_id,
        }
    }
}

/// Observations: external signals.
#[derive(PartialEq, Eq, Debug)]
pub enum ObservationEvent {
    MotionDetected { room: String },
    TemperatureReading { sensor_id: String, millidegrees_c: i32 },
    ContactChanged { sensor_id: String, open: bool },
    HumidityReading { sensor_id: String, permille_rh: i32 },
}

impl Clone for ObservationEvent {
    fn clone(&self) -> (r: Self)
        ensures
            r == *self,
    {
        match self {
            ObservationEvent::MotionDetected { room } => ObservationEvent::MotionDetected {
                room: room.clone(),
            },
            ObservationEvent::TemperatureReading { sensor_id, millidegrees_c } =>
            ObservationEvent::TemperatureReading {
                sensor_id: sensor_id.clone(),
                millidegrees_c: *millidegrees_c,
            },
            ObservationEvent::ContactChanged { sensor_id, open } =>
            ObservationEvent::ContactChanged { sensor_id: sensor_id.clone(), open: *open },
            ObservationEvent::HumidityReading { sensor_id, permille_rh } =>
            ObservationEvent::HumidityReading {
                sensor_id: sensor_id.clone(),
                permille_rh: *permille_rh,
            },
        }
    }
}

/// Persisted runtime error (audit only; no effect on the projection).
#[derive(PartialEq, Eq, Debug)]
pub struct ErrorOccurredEvent {
    pub error_type: String,
    pub context: String,
}

impl Clone for ErrorOccurredEvent {
    fn clone(&self) -> (r: Self)
        ensures
            r == *self,
    {
        ErrorOccurredEvent { error_type: self.error_type.clone(), context: self.context.clone() }
    }
}

/// Top-level persisted event envelope.
#[derive(PartialEq, Eq, Debug)]
pub enum Event {
    Fact(FactEvent),
    Command(CommandEvent),
    Observation(ObservationEvent),
    /// Audit of a pipeline or reducer failure.
    ErrorOccurred(ErrorOccurredEvent),
}

impl Clone for Event {
    fn clone(&self) -> (r: Self)
        ensures
            r == *self,
    {
        match self {
            Event::Fact(f) => Event::Fact(f.clone()),
            Event::Command(c) => Event::Command(c.clone()),
            Event::Observation(o) => Event::Observation(o.clone()),
            Event::ErrorOccurred(e) => Event::ErrorOccurred(e.clone()),
        }
    }
}

/// Static kind of an event, for the rule registry (`consumes` / `produces`).
#[derive(Clone, Copy, PartialEq, Eq, Structural, Debug, Hash)]
pub enum EventKind {
    MotionDetected,
    TurnOnLight,
    TurnOffLight,
    NotifyUser,
    LightOn,
    LightOff,
    LogUsage,
    UsageLogged,
    CommandIo,
    StateCorrectedFromObservation,
    ErrorOccurred,
    TemperatureReading,
    ContactChanged,
    TemperatureRecorded,
    ContactStateChanged,
    HumidityReading,
    HumidityRecorded,
}

/// The kind of each event.
pub open spec fn event_kind(e: Event) -> EventKind {
    match e {
        Event::Fact(f) => match f {
            FactEvent::LightOn { .. } => EventKind::LightOn,
            FactEvent::LightOff { .. } => EventKind::LightOff,
            FactEvent::UsageLogged { .. } => EventKind::UsageLogged,
            FactEvent::CommandIo { .. } => EventKind::CommandIo,
            FactEvent::StateCorrectedFromObservation { .. } => EventKind::StateCorrectedFromObservation,
            FactEvent::TemperatureRecorded { .. } => EventKind::TemperatureRecorded,
            FactEvent::ContactStateChanged { .. } => EventKind::ContactStateChanged,
            FactEvent::HumidityRecorded { .. } => EventKind::HumidityRecorded,
        },
        Event::Command(c) => match c {
            CommandEvent::TurnOnLight { .. } => EventKind::TurnOnLight,
            CommandEvent::TurnOffLight { .. } => EventKind::TurnOffLight,
            CommandEvent::NotifyUser { .. } => EventKind::NotifyUser,
            CommandEvent::LogUsage { .. } => EventKind::LogUsage,
        },
        Event::Observation(o) => match o {
            ObservationEvent::MotionDetected { .. } => EventKind::MotionDetected,
            ObservationEvent::TemperatureReading { .. } => EventKind::TemperatureReading,
            ObservationEvent::ContactChanged { .. } => EventKind::ContactChanged,
            ObservationEvent::HumidityReading { .. } => EventKind::HumidityReading,
        },
        Event::ErrorOccurred(_) => EventKind::ErrorOccurred,
    }
}

impl Event {
    pub fn kind(&self) -> (k: EventKind)
        ensures
            k == event_kind(*self),
    {
        match self {
            Event::Fact(f) => match f {
                FactEvent::LightOn { .. } => EventKind::LightOn,
                FactEvent::LightOff { .. } => EventKind::LightOff,
                FactEvent::UsageLogged { .. } => EventKind::UsageLogged,
                FactEvent::CommandIo { .. } => EventKind::CommandIo,
                FactEvent::StateCorrectedFromObservation { .. } =>
                EventKind::StateCorrectedFromObservation,
                FactEvent::TemperatureRecorded { .. } => EventKind::TemperatureRecorded,
                FactEvent::ContactStateChanged { .. } => EventKind::ContactStateChanged,
                FactEvent::HumidityRecorded { .. } => EventKind::HumidityRecorded,
            },
            Event::Command(c) => match c {
                CommandEvent::TurnOnLight { .. } => EventKind::TurnOnLight,
                CommandEvent::TurnOffLight { .. } => EventKind::TurnOffLight,
                CommandEvent::NotifyUser { .. } => EventKind::NotifyUser,
                CommandEvent::LogUsage { .. } => EventKind::LogUsage,
            },
            Event::Observation(o) => match o {
                ObservationEvent::MotionDetected { .. } => EventKind::MotionDetected,
                ObservationEvent::TemperatureReading { .. } => EventKind::TemperatureReading,
                ObservationEvent::ContactChanged { .. } => EventKind::ContactChanged,
                ObservationEvent::HumidityReading { .. } => EventKind::HumidityReading,
            },
            Event::ErrorOccurred(_) => EventKind::ErrorOccurred,
        }
    }

    /// The fact inside, for the fact family.
    pub fn as_fact(&self) -> (r: Option<&FactEvent>)
        ensures
            match *self {
                Event::Fact(f) => r == Some(&f),
                _ => r is None,
            },
    {
        match self {
            Event::Fact(f) => Some(f),
            _ => None,
        }
    }
}

} // verus!
