//! The projection: lights, provenance of the last light fact, command IO trackers, last usage
//! log, and sensor readings. Every map iterates in key order.
use vstd::prelude::*;
use crate::event::Provenance;
use crate::strmap::{lemma_map_of, lemma_sorted_distinct, map_of, StrMap};
use crate::text::lex_lt;

verus! {

/// `CommandIo` tracking for one key (`cmd:{uuid}` or `room:{name}`).
#[derive(Clone, Copy, PartialEq, Eq, Structural, Debug)]
pub struct CommandIoTracker {
    pub awaiting_terminal: bool,
    pub timeouts_seen: u8,
}

impl Default for CommandIoTracker {
    fn default() -> (r: Self)
        ensures
            r == tracker_default(),
    {
        CommandIoTracker { awaiting_terminal: false, timeouts_seen: 0 }
    }
}

/// A key never seen: not awaiting, no timeouts.
pub open spec fn tracker_default() -> CommandIoTracker {
    CommandIoTracker { awaiting_terminal: false, timeouts_seen: 0 }
}

/// Domain projection. It changes only through the reducer.
#[derive(PartialEq, Eq, Debug)]
pub struct State {
    /// Room -> light is on.
    pub lights: StrMap<bool>,
    /// Provenance of the last light fact applied for each room.
    pub light_last_provenance: StrMap<Provenance>,
    pub command_io_trackers: StrMap<CommandIoTracker>,
    /// Last usage-log item.
    pub last_log: Option<String>,
    /// Sensor -> last temperature (millidegrees Celsius).
    pub temperatures: StrMap<i32>,
    /// Sensor -> contact open.
    pub contacts: StrMap<bool>,
    /// Sensor -> last relative humidity (permille).
    pub humidities: StrMap<i32>,
}

/// The projection as mathematical maps.
pub struct StateModel {
    pub lights: Map<Seq<char>, bool>,
    pub light_last_provenance: Map<Seq<char>, Provenance>,
    pub command_io_trackers: Map<Seq<char>, CommandIoTracker>,
    pub last_log: Option<Seq<char>>,
    pub temperatures: Map<Seq<char>, i32>,
    pub contacts: Map<Seq<char>, bool>,
    pub humidities: Map<Seq<char>, i32>,
}

/// The projection before any fact.
pub open spec fn empty_model() -> StateModel {
    StateModel {
        lights: Map::empty(),
        light_last_provenance: Map::empty(),
        command_io_trackers: Map::empty(),
        last_log: None,
        temperatures: Map::empty(),
        contacts: Map::empty(),
        humidities: Map::empty(),
    }
}

/// Whether the light of `room` is on (an unknown room is off).
pub open spec fn light_on_spec(m: StateModel, room: Seq<char>) -> bool {
    m.lights.contains_key(room) && m.lights[room]
}

/// The value of `k` in `m`, if any.
pub open spec fn map_get<V>(m: Map<Seq<char>, V>, k: Seq<char>) -> Option<V> {
    if m.contains_key(k) {
        Some(m[k])
    } else {
        None
    }
}

impl View for State {
    type V = StateModel;

    open spec fn view(&self) -> StateModel {
        StateModel {
            lights: self.lights@,
            light_last_provenance: self.light_last_provenance@,
            command_io_trackers: self.command_io_trackers@,
            last_log: match self.last_log {
                Some(s) => Some(s@),
                None => None,
            },
            temperatures: self.temperatures@,
            contacts: self.contacts@,
            humidities: self.humidities@,
        }
    }
}

/// Read-only surface passed to rule evaluation.
pub trait StateView {
    fn light_on(&self, room: &str) -> bool;

    fn last_log_item(&self) -> Option<&str>;

    /// Last recorded temperature in millidegrees Celsius.
    fn temperature(&self, sensor_id: &str) -> Option<i32>;

    /// Last known contact state (`true` = open).
    fn contact_open(&self, sensor_id: &str) -> Option<bool>;

    /// Last relative humidity in permille.
    fn humidity_permille(&self, sensor_id: &str) -> Option<i32>;
}

impl StateView for State {
    fn light_on(&self, room: &str) -> (b: bool)
        ensures
            self.wf() ==> b == light_on_spec(self@, room@),
    {
        match self.lights.get(room) {
            Some(v) => *v,
            None => false,
        }
    }

    fn last_log_item(&self) -> (r: Option<&str>)
        ensures
            match r {
                Some(s) => self@.last_log == Some(s@),
                None => self@.last_log is None,
            },
    {
        match &self.last_log {
            Some(s) => Some(s.as_str()),
            None => None,
        }
    }

    fn temperature(&self, sensor_id: &str) -> (r: Option<i32>)
        ensures
            self.wf() ==> r == map_get(self@.temperatures, sensor_id@),
    {
        match self.temperatures.get(sensor_id) {
            Some(v) => Some(*v),
            None => None,
        }
    }

    fn contact_open(&self, sensor_id: &str) -> (r: Option<bool>)
        ensures
            self.wf() ==> r == map_get(self@.contacts, sensor_id@),
    {
        match self.contacts.get(sensor_id) {
            Some(v) => Some(*v),
            None => None,
        }
    }

    fn humidity_permille(&self, sensor_id: &str) -> (r: Option<i32>)
        ensures
            self.wf() ==> r == map_get(self@.humidities, sensor_id@),
    {
        match self.humidities.get(sensor_id) {
            Some(v) => Some(*v),
            None => None,
        }
    }
}

impl Clone for State {
    fn clone(&self) -> (r: Self)
        ensures
            r@ == self@,
            r.lights.rows() == self.lights.rows(),
            r.light_last_provenance.rows() == self.light_last_provenance.rows(),
            r.command_io_trackers.rows() == self.command_io_trackers.rows(),
            r.temperatures.rows() == self.temperatures.rows(),
            r.contacts.rows() == self.contacts.rows(),
            r.humidities.rows() == self.humidities.rows(),
            self.wf() ==> r.wf(),
    {
        State {
            lights: self.lights.copy(),
            light_last_provenance: self.light_last_provenance.copy(),
            command_io_trackers: self.command_io_trackers.copy(),
            last_log: match &self.last_log {
                Some(s) => Some(s.clone()),
                None => None,
            },
            temperatures: self.temperatures.copy(),
            contacts: self.contacts.copy(),
            humidities: self.humidities.copy(),
        }
    }
}

impl State {
    /// Every map sorted by key.
    pub open spec fn wf(&self) -> bool {
        &&& self.lights.wf()
        &&& self.light_last_provenance.wf()
        &&& self.command_io_trackers.wf()
        &&& self.temperatures.wf()
        &&& self.contacts.wf()
        &&& self.humidities.wf()
    }

    /// The empty projection.
    pub fn new() -> (s: Self)
        ensures
            s.wf(),
            s@ == empty_model(),
    {
        State {
            lights: StrMap::new(),
            light_last_provenance: StrMap::new(),
            command_io_trackers: StrMap::new(),
            last_log: None,
            temperatures: StrMap::new(),
            contacts: StrMap::new(),
            humidities: StrMap::new(),
        }
    }

    /// Last known provenance of the light state of `room`.
    pub fn light_last_provenance(&self, room: &str) -> (r: Option<Provenance>)
        ensures
            self.wf() ==> r == map_get(self@.light_last_provenance, room@),
    {
        match self.light_last_provenance.get(room) {
            Some(p) => Some(*p),
            None => None,
        }
    }

    /// Rooms in key order with on/off and last provenance.
    pub fn light_room_rows(&self) -> (rows: Vec<(String, bool, Option<Provenance>)>)
        requires
            self.wf(),
        ensures
            rows.len() == self.lights.rows().len(),
            forall|i: int|
                0 <= i < rows.len() ==> {
                    &&& (#[trigger] rows@[i]).0@ == self.lights.rows()[i].0@
                    &&& rows@[i].1 == self.lights.rows()[i].1
                    &&& rows@[i].2 == map_get(
                        self@.light_last_provenance,
                        self.lights.rows()[i].0@,
                    )
                },
            forall|i: int, j: int|
                0 <= i < j < rows.len() ==> lex_lt(#[trigger] rows@[i].0@, #[trigger] rows@[j].0@),
            forall|i: int|
                0 <= i < rows.len() ==> #[trigger] self@.lights.contains_key(rows@[i].0@)
                    && self@.lights[rows@[i].0@] == rows@[i].1,
            forall|room: Seq<char>|
                #[trigger] self@.lights.contains_key(room) ==> exists|i: int|
                    0 <= i < rows.len() && rows@[i].0@ == room,
    {
        proof {
            lemma_sorted_distinct(self.lights.entries@);
            lemma_map_of(self.lights.entries@);
        }
        let mut rows: Vec<(String, bool, Option<Provenance>)> = Vec::new();
        let mut i: usize = 0;
        while i < self.lights.entries.len()
            invariant
                self.wf(),
                i <= self.lights.entries.len(),
                rows.len() == i,
                forall|j: int|
                    0 <= j < i ==> {
                        &&& (#[trigger] rows@[j]).0@ == self.lights.rows()[j].0@
                        &&& rows@[j].1 == self.lights.rows()[j].1
                        &&& rows@[j].2 == map_get(
                            self@.light_last_provenance,
                            self.lights.rows()[j].0@,
                        )
                    },
            decreases self.lights.entries.len() - i,
        {
            let room = self.lights.entries[i].0.clone();
            let on = self.lights.entries[i].1;
            let p = self.light_last_provenance(room.as_str());
            rows.push((room, on, p));
            i = i + 1;
        }
        proof {
            let es = self.lights.entries@;
            assert(self@.lights == map_of(es));
            assert forall|i: int| 0 <= i < rows.len() implies #[trigger] self@.lights.contains_key(
                rows@[i].0@,
            ) && self@.lights[rows@[i].0@] == rows@[i].1 by {
                assert(map_of(es).contains_key(es[i].0@));
            }
            assert forall|room: Seq<char>| #[trigger] self@.lights.contains_key(room) implies exists|
                i: int,
            | 0 <= i < rows.len() && rows@[i].0@ == room by {
                let i = choose|i: int| 0 <= i < es.len() && es[i].0@ == room;
                assert(rows@[i].0@ == room);
            }
        }
        rows
    }

    /// All temperature readings (sensor -> millidegrees Celsius) in key order.
    pub fn temperature_readings(&self) -> (r: &StrMap<i32>)
        ensures
            r == &self.temperatures,
    {
        &self.temperatures
    }

    /// All contact sensor states (sensor -> open) in key order.
    pub fn contact_states(&self) -> (r: &StrMap<bool>)
        ensures
            r == &self.contacts,
    {
        &self.contacts
    }
}

} // verus!
