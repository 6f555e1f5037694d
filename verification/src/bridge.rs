//! The Zigbee2MQTT bridge: its configuration (broker, topic prefix, device mappings) and the
//! topic side of translating device state messages into `sensors/...` publishes.
use vstd::prelude::*;
use crate::json::{field_in, field_of_text, json_field, json_field_of, json_parses, parse_json, JsonField, JsonFieldView};
use crate::mqtt::wall_millis;
use crate::text::{
    concat2, concat3, contains_char, debug_str, debug_text, is_whitespace, is_ws, owned, str_eq,
    strip_prefix, strip_prefix_spec, to_lowercase, trim, trim_char, trim_end_char,
    trim_end_matches, trim_matches, trim_ws, unicode_lower, utf8_len, lemma_utf8_len_bounds,
    i64_text, int_text,
};

verus! {

/// MQTT broker connection.
#[derive(PartialEq, Eq, Debug, Clone)]
pub struct BrokerConfig {
    pub host: String,
    pub port: u16,
    pub username: Option<String>,
    /// Plain password in the file.
    pub password: Option<String>,
    /// Environment variable holding the password, preferred when set and non-empty.
    pub password_env: Option<String>,
}

/// Zigbee2MQTT side of the bridge.
#[derive(PartialEq, Eq, Debug, Clone)]
pub struct Z2mConfig {
    pub topic_prefix: String,
}

/// How one device's state maps to sensor topics.
#[derive(PartialEq, Eq, Debug, Clone)]
pub struct DeviceRule {
    pub match_friendly_name: String,
    pub mapping: Vec<FieldMapping>,
}

/// One field of a device's state object.
#[derive(PartialEq, Eq, Debug, Clone)]
pub struct FieldMapping {
    /// Key in the Zigbee2MQTT state object (e.g. `temperature`, `occupancy`).
    pub json_key: String,
    /// `temperature` | `humidity` | `contact` | `motion`.
    pub family: String,
    /// Last segment of the published topic `sensors/<family>/<rusthome_id>`.
    pub rusthome_id: String,
}

/// Bridge configuration.
#[derive(PartialEq, Eq, Debug, Clone)]
pub struct Config {
    pub broker: BrokerConfig,
    pub z2m: Z2mConfig,
    pub devices: Vec<DeviceRule>,
}

/// Broker port when none is configured.
pub fn default_port() -> (p: u16)
    ensures
        p == 1883,
{
    1883
}

/// Zigbee2MQTT topic prefix when none is configured.
pub fn default_z2m_prefix() -> (s: String)
    ensures
        s@ == "zigbee2mqtt"@,
{
    owned("zigbee2mqtt")
}

/// A character not allowed in an id: `/`, `+`, `#` or white space.
pub open spec fn bad_id_char(c: char) -> bool {
    c == '/' || c == '+' || c == '#' || is_ws(c)
}

/// Why a sensor id is refused, if it is.
pub open spec fn rusthome_id_error(id: Seq<char>) -> Option<Seq<char>> {
    let t = trim_ws(id);
    if t.len() == 0 || utf8_len(t) > 128 {
        Some("rusthome_id must be 1..=128 non-whitespace chars"@)
    } else if exists|i: int| 0 <= i < t.len() && bad_id_char(t[i]) {
        Some("rusthome_id must not contain spaces or / + #"@)
    } else {
        None
    }
}

/// Validates a sensor id: 1 to 128 bytes once trimmed, without `/`, `+`, `#` or white space.
pub fn validate_rusthome_id(id: &str) -> (r: Result<(), String>)
    ensures
        match rusthome_id_error(id@) {
            None => r is Ok,
            Some(m) => (r matches Err(e) && e@ == m),
        },
{
    let t = trim(id);
    let v = crate::text::chars_of(t.as_str());
    proof {
        lemma_utf8_len_bounds(t@);
    }
    if v.len() == 0 || v.len() > 128 {
        return Err(owned("rusthome_id must be 1..=128 non-whitespace chars"));
    }
    if t.as_str().len() > 128 {
        return Err(owned("rusthome_id must be 1..=128 non-whitespace chars"));
    }
    let mut i: usize = 0;
    while i < v.len()
        invariant
            v@ == trim_ws(id@),
            i <= v@.len(),
            utf8_len(v@) <= 128,
            v@.len() > 0,
            forall|j: int| 0 <= j < i ==> !bad_id_char(v@[j]),
        decreases v.len() - i,
    {
        let c = v[i];
        if c == '/' || c == '+' || c == '#' || is_whitespace(c) {
            assert(bad_id_char(v@[i as int]));
            return Err(owned("rusthome_id must not contain spaces or / + #"));
        }
        i = i + 1;
    }
    Ok(())
}

/// Families a mapping may publish to.
pub open spec fn known_family(f: Seq<char>) -> bool {
    f == "temperature"@ || f == "humidity"@ || f == "contact"@ || f == "motion"@
}

/// Why one mapping of device `name` is refused, if it is.
pub open spec fn mapping_error(m: FieldMapping, name: Seq<char>) -> Option<Seq<char>> {
    match rusthome_id_error(m.rusthome_id@) {
        Some(e) => Some(e),
        None => if known_family(unicode_lower(m.family@)) {
            None
        } else {
            Some(
                "unknown family "@ + debug_text(m.family@) + " for device "@ + debug_text(name),
            )
        },
    }
}

/// `i` is the first mapping of `ms` with a problem.
pub open spec fn first_bad_mapping(ms: Seq<FieldMapping>, name: Seq<char>, i: int) -> bool {
    &&& 0 <= i < ms.len()
    &&& mapping_error(ms[i], name) is Some
    &&& forall|j: int| 0 <= j < i ==> mapping_error(#[trigger] ms[j], name) is None
}

/// Why a device rule is refused, if it is (first problem only).
pub open spec fn device_error_head(d: DeviceRule) -> Option<Seq<char>> {
    if trim_ws(d.match_friendly_name@).len() == 0 {
        Some("match_friendly_name must not be empty"@)
    } else if d.mapping@.len() == 0 {
        Some(
            "device "@ + debug_text(d.match_friendly_name@) + " must have at least one mapping"@,
        )
    } else {
        None
    }
}

/// Whether a device rule is acceptable.
pub open spec fn device_ok(d: DeviceRule) -> bool {
    device_error_head(d) is None && forall|j: int|
        0 <= j < d.mapping@.len() ==> mapping_error(#[trigger] d.mapping@[j], d.match_friendly_name@)
            is None
}

/// The message for device `d` (assuming it is not acceptable).
pub open spec fn device_error_is(d: DeviceRule, msg: Seq<char>) -> bool {
    match device_error_head(d) {
        Some(e) => msg == e,
        None => exists|i: int|
            first_bad_mapping(d.mapping@, d.match_friendly_name@, i) && mapping_error(
                d.mapping@[i],
                d.match_friendly_name@,
            ) == Some(msg),
    }
}

/// `i` is the first unacceptable device of `ds`.
pub open spec fn first_bad_device(ds: Seq<DeviceRule>, i: int) -> bool {
    &&& 0 <= i < ds.len()
    &&& !device_ok(ds[i])
    &&& forall|j: int| 0 <= j < i ==> device_ok(#[trigger] ds[j])
}

fn validate_device(d: &DeviceRule) -> (r: Result<(), String>)
    ensures
        r is Ok <==> device_ok(*d),
        r matches Err(e) ==> device_error_is(*d, e@),
{
    let t = trim(d.match_friendly_name.as_str());
    if t.as_str().is_empty() {
        return Err(owned("match_friendly_name must not be empty"));
    }
    if d.mapping.len() == 0 {
        let n = debug_str(d.match_friendly_name.as_str());
        return Err(concat3("device ", n.as_str(), " must have at least one mapping"));
    }
    let mut i: usize = 0;
    while i < d.mapping.len()
        invariant
            device_error_head(*d) is None,
            i <= d.mapping@.len(),
            forall|j: int| 0 <= j < i ==> mapping_error(#[trigger] d.mapping@[j], d.match_friendly_name@)
                is None,
        decreases d.mapping.len() - i,
    {
        let m = &d.mapping[i];
        match validate_rusthome_id(m.rusthome_id.as_str()) {
            Ok(()) => {},
            Err(e) => {
                assert(first_bad_mapping(d.mapping@, d.match_friendly_name@, i as int));
                return Err(e);
            },
        }
        let fam = to_lowercase(m.family.as_str());
        if !(str_eq(fam.as_str(), "temperature") || str_eq(fam.as_str(), "humidity") || str_eq(
            fam.as_str(),
            "contact",
        ) || str_eq(fam.as_str(), "motion")) {
            let f = debug_str(m.family.as_str());
            let n = debug_str(d.match_friendly_name.as_str());
            let a = concat3("unknown family ", f.as_str(), " for device ");
            assert(first_bad_mapping(d.mapping@, d.match_friendly_name@, i as int));
            return Err(concat2(a.as_str(), n.as_str()));
        }
        i = i + 1;
    }
    Ok(())
}

impl Config {
    /// At least one device; every device named, with at least one mapping, each with a valid id
    /// and a known family.
    pub fn validate(&self) -> (r: Result<(), String>)
        ensures
            self.devices@.len() == 0 ==> (r matches Err(e) && e@
                == "at least one [[devices]] entry is required"@),
            self.devices@.len() > 0 ==> (r is Ok <==> forall|j: int|
                0 <= j < self.devices@.len() ==> device_ok(#[trigger] self.devices@[j])),
            self.devices@.len() > 0 ==> (r matches Err(e) ==> exists|i: int|
                first_bad_device(self.devices@, i) && device_error_is(self.devices@[i], e@)),
    {
        if self.devices.len() == 0 {
            return Err(owned("at least one [[devices]] entry is required"));
        }
        let mut i: usize = 0;
        while i < self.devices.len()
            invariant
                i <= self.devices@.len(),
                forall|j: int| 0 <= j < i ==> device_ok(#[trigger] self.devices@[j]),
            decreases self.devices.len() - i,
        {
            match validate_device(&self.devices[i]) {
                Ok(()) => {},
                Err(e) => {
                    assert(first_bad_device(self.devices@, i as int));
                    return Err(e);
                },
            }
            i = i + 1;
        }
        Ok(())
    }
}

/// Whether the environment supplies the password: the variable is configured and its value is
/// present and non-empty.
pub open spec fn env_password_used(password_env: Option<String>, env_value: Option<&str>) -> bool {
    password_env is Some && (env_value matches Some(v) && v@.len() > 0)
}

impl Config {
    /// The broker password: the value of the `password_env` variable when that is set and
    /// non-empty (`env_value` is what the caller read from the environment), else the file's
    /// `password`.
    pub fn resolve_password_with(&self, env_value: Option<&str>) -> (r: Option<String>)
        ensures
            env_password_used(self.broker.password_env, env_value) ==> (r matches Some(p) && p@
                == env_value->0@),
            !env_password_used(self.broker.password_env, env_value) ==> match self.broker.password {
                Some(p) => (r matches Some(q) && q@ == p@),
                None => r is None,
            },
    {
        if self.broker.password_env.is_some() {
            match env_value {
                Some(v) => {
                    if !v.is_empty() {
                        return Some(owned(v));
                    }
                },
                None => {},
            }
        }
        match &self.broker.password {
            Some(p) => Some(owned(p.as_str())),
            None => None,
        }
    }
}

// ------------------------------------------------------------------ topics

/// A device state publish translated to a sensor topic.
#[derive(PartialEq, Eq, Debug, Clone)]
pub struct TranslatedPublish {
    pub topic: String,
    pub payload: Vec<u8>,
}

/// The friendly name a device state topic carries under `prefix`, if it is one.
pub open spec fn friendly_name_spec(topic_prefix: Seq<char>, topic: Seq<char>) -> Option<Seq<char>> {
    let prefix = trim_ws(trim_char(topic_prefix, '/'));
    let t = trim_end_char(topic, '/');
    if prefix.len() == 0 {
        None
    } else {
        match strip_prefix_spec(t, prefix.push('/')) {
            None => None,
            Some(rest) => if rest.len() == 0 || rest.contains('/') {
                None
            } else {
                Some(rest)
            },
        }
    }
}

/// Friendly name segment of a device state topic; `None` for `{prefix}/bridge/...`, `.../set`
/// and other multi-segment paths.
pub fn extract_z2m_friendly_name(topic_prefix: &str, topic: &str) -> (r: Option<String>)
    ensures
        match friendly_name_spec(topic_prefix@, topic@) {
            None => r is None,
            Some(n) => (r matches Some(s) && s@ == n),
        },
{
    let p1 = trim_matches(topic_prefix, '/');
    let prefix = trim(p1.as_str());
    let t = trim_end_matches(topic, '/');
    if prefix.as_str().is_empty() {
        return None;
    }
    let head = concat2(prefix.as_str(), "/");
    proof {
        reveal_strlit("/");
        assert(head@ =~= prefix@.push('/'));
    }
    let rest = match strip_prefix(t.as_str(), head.as_str()) {
        Some(r) => r,
        None => {
            return None;
        },
    };
    if rest.as_str().is_empty() || contains_char(rest.as_str(), '/') {
        return None;
    }
    Some(rest)
}

/// `{prefix}/bridge/info` with the prefix stripped of leading and trailing `/`.
pub fn z2m_bridge_info_topic(mqtt_topic_prefix: &str) -> (r: String)
    ensures
        r@ == trim_char(mqtt_topic_prefix@, '/') + "/bridge/info"@,
{
    let p = trim_matches(mqtt_topic_prefix, '/');
    concat2(p.as_str(), "/bridge/info")
}

/// Last known values of a valid `bridge/info` payload.
#[derive(PartialEq, Eq, Debug, Clone, Copy, Default)]
pub struct Z2mBridgeSnapshot {
    /// `permit_join`, when present in the payload.
    pub permit_join: Option<bool>,
    /// Wall-clock milliseconds of the last successful parse.
    pub updated_ms: Option<i64>,
}

/// Reads `permit_join` from a `bridge/info` payload into `snap`, stamping the wall clock;
/// returns whether it was read. Any other payload leaves `snap` unchanged.
pub fn apply_z2m_bridge_info_payload(snap: &mut Z2mBridgeSnapshot, payload: &[u8]) -> (r: bool)
    ensures
        r == (field_in(payload@, "permit_join"@) is Bool),
        r ==> final(snap).permit_join == Some(field_in(payload@, "permit_join"@)->Bool_0)
            && final(snap).updated_ms is Some,
        !r ==> *final(snap) == *old(snap),
{
    proof {
        reveal_strlit("permit_join");
    }
    match field_of_text(payload, "permit_join") {
        JsonField::Bool(b) => {
            snap.permit_join = Some(b);
            snap.updated_ms = Some(wall_millis());
            true
        },
        _ => false,
    }
}

// ------------------------------------------------------------------ field mapping

/// The body of a sensor publish. Numbers are kept as the JSON number text of the state message;
/// the bytes are written by the caller (`{"celsius":..}`, `{"humidity":..}`, `{"open":..}`,
/// `{"room":..}`).
#[derive(PartialEq, Eq, Debug, Clone)]
pub enum SensorPayload {
    Celsius(String),
    Humidity(String),
    Open(bool),
    Room(String),
}

/// Spec-level form of [`SensorPayload`].
pub enum SensorPayloadView {
    Celsius(Seq<char>),
    Humidity(Seq<char>),
    Open(bool),
    Room(Seq<char>),
}

impl View for SensorPayload {
    type V = SensorPayloadView;

    open spec fn view(&self) -> SensorPayloadView {
        match self {
            SensorPayload::Celsius(t) => SensorPayloadView::Celsius(t@),
            SensorPayload::Humidity(t) => SensorPayloadView::Humidity(t@),
            SensorPayload::Open(b) => SensorPayloadView::Open(*b),
            SensorPayload::Room(r) => SensorPayloadView::Room(r@),
        }
    }
}

/// One sensor publish derived from a device state message.
#[derive(PartialEq, Eq, Debug, Clone)]
pub struct SensorPublish {
    pub topic: String,
    pub payload: SensorPayload,
}

/// A sensor publish as a model: topic and body.
pub open spec fn publish_view(p: SensorPublish) -> (Seq<char>, SensorPayloadView) {
    (p.topic@, p.payload@)
}

/// The JSON text of a numeric field.
pub open spec fn number_text(f: JsonFieldView) -> Option<Seq<char>> {
    match f {
        JsonFieldView::Int(i) => Some(int_text(i as int)),
        JsonFieldView::Number(t) => Some(t),
        _ => None,
    }
}

/// What one mapping publishes for the value found under its key: a number for temperature and
/// humidity, a boolean for contact (negated when the key is `contact`: Zigbee2MQTT reports
/// closed), `true` for motion; nothing for an absent or null value, another type, `false`
/// motion or an unknown family.
pub open spec fn map_field_spec(f: JsonFieldView, m: FieldMapping) -> Option<
    (Seq<char>, SensorPayloadView),
> {
    let family = unicode_lower(m.family@);
    if f is Absent || f is Null {
        None
    } else if family == "temperature"@ {
        match number_text(f) {
            Some(t) => Some(("sensors/temperature/"@ + m.rusthome_id@, SensorPayloadView::Celsius(t))),
            None => None,
        }
    } else if family == "humidity"@ {
        match number_text(f) {
            Some(t) => Some(("sensors/humidity/"@ + m.rusthome_id@, SensorPayloadView::Humidity(t))),
            None => None,
        }
    } else if family == "contact"@ {
        match f {
            JsonFieldView::Bool(b) => Some(
                (
                    "sensors/contact/"@ + m.rusthome_id@,
                    SensorPayloadView::Open(if m.json_key@ == "contact"@ {
                        !b
                    } else {
                        b
                    }),
                ),
            ),
            _ => None,
        }
    } else if family == "motion"@ {
        match f {
            JsonFieldView::Bool(true) => Some(
                ("sensors/motion/"@ + m.rusthome_id@, SensorPayloadView::Room(m.rusthome_id@)),
            ),
            _ => None,
        }
    } else {
        None
    }
}

/// Maps the value found under one mapping's key.
pub fn map_one_field(field: &JsonField, m: &FieldMapping) -> (r: Option<SensorPublish>)
    ensures
        match map_field_spec(field@, *m) {
            None => r is None,
            Some(v) => (r matches Some(p) && publish_view(p) == v),
        },
{
    match field {
        JsonField::Absent | JsonField::Null => {
            return None;
        },
        _ => {},
    }
    let family = to_lowercase(m.family.as_str());
    let fam = family.as_str();
    proof {
        reveal_strlit("temperature");
        reveal_strlit("humidity");
        reveal_strlit("contact");
        reveal_strlit("motion");
    }
    let number: Option<String> = match field {
        JsonField::Int(i) => Some(i64_text(*i)),
        JsonField::Number(t) => Some(owned(t.as_str())),
        _ => None,
    };
    if str_eq(fam, "temperature") {
        match number {
            Some(t) => Some(
                SensorPublish {
                    topic: concat2("sensors/temperature/", m.rusthome_id.as_str()),
                    payload: SensorPayload::Celsius(t),
                },
            ),
            None => None,
        }
    } else if str_eq(fam, "humidity") {
        match number {
            Some(t) => Some(
                SensorPublish {
                    topic: concat2("sensors/humidity/", m.rusthome_id.as_str()),
                    payload: SensorPayload::Humidity(t),
                },
            ),
            None => None,
        }
    } else if str_eq(fam, "contact") {
        match field {
            JsonField::Bool(b) => {
                let open = if str_eq(m.json_key.as_str(), "contact") {
                    !*b
                } else {
                    *b
                };
                Some(
                    SensorPublish {
                        topic: concat2("sensors/contact/", m.rusthome_id.as_str()),
                        payload: SensorPayload::Open(open),
                    },
                )
            },
            _ => None,
        }
    } else if str_eq(fam, "motion") {
        match field {
            JsonField::Bool(true) => Some(
                SensorPublish {
                    topic: concat2("sensors/motion/", m.rusthome_id.as_str()),
                    payload: SensorPayload::Room(owned(m.rusthome_id.as_str())),
                },
            ),
            _ => None,
        }
    } else {
        None
    }
}

/// Index of the first device whose friendly name is `name`.
pub open spec fn first_device(devices: Seq<DeviceRule>, name: Seq<char>, i: int) -> bool {
    &&& 0 <= i < devices.len()
    &&& devices[i].match_friendly_name@ == name
    &&& forall|j: int| 0 <= j < i ==> (#[trigger] devices[j]).match_friendly_name@ != name
}

/// What the mappings `ms` publish for the JSON document `payload`, in mapping order.
pub open spec fn mapped(ms: Seq<FieldMapping>, payload: Seq<u8>) -> Seq<
    (Seq<char>, SensorPayloadView),
>
    decreases ms.len(),
{
    if ms.len() == 0 {
        Seq::empty()
    } else {
        let m = ms.last();
        let rest = mapped(ms.drop_last(), payload);
        match map_field_spec(json_field_of(payload, trim_ws(m.json_key@)), m) {
            Some(p) => rest.push(p),
            None => rest,
        }
    }
}

/// What a Zigbee2MQTT publish translates to: nothing unless the topic names a configured
/// device and the payload is JSON; then each mapping's publish, in order.
pub open spec fn translation_spec(
    topic_prefix: Seq<char>,
    topic: Seq<char>,
    payload: Seq<u8>,
    devices: Seq<DeviceRule>,
) -> Seq<(Seq<char>, SensorPayloadView)> {
    match friendly_name_spec(topic_prefix, topic) {
        None => Seq::empty(),
        Some(name) => if (exists|i: int| first_device(devices, name, i)) && json_parses(payload) {
            mapped(devices[choose|i: int| first_device(devices, name, i)].mapping@, payload)
        } else {
            Seq::empty()
        },
    }
}

/// The models of a list of publishes.
pub open spec fn publish_views(v: Seq<SensorPublish>) -> Seq<(Seq<char>, SensorPayloadView)> {
    v.map_values(|p: SensorPublish| publish_view(p))
}

fn find_device(devices: &[DeviceRule], name: &str) -> (r: Option<usize>)
    ensures
        r matches Some(i) ==> first_device(devices@, name@, i as int),
        r is None ==> forall|j: int|
            0 <= j < devices@.len() ==> (#[trigger] devices@[j]).match_friendly_name@ != name@,
{
    let mut k: usize = 0;
    while k < devices.len()
        invariant
            k <= devices@.len(),
            forall|j: int| 0 <= j < k ==> (#[trigger] devices@[j]).match_friendly_name@ != name@,
        decreases devices.len() - k,
    {
        if str_eq(devices[k].match_friendly_name.as_str(), name) {
            return Some(k);
        }
        k = k + 1;
    }
    None
}

/// Translates one Zigbee2MQTT device state publish into sensor publishes.
pub fn plan_z2m_publish(
    topic_prefix: &str,
    topic: &str,
    payload: &[u8],
    devices: &[DeviceRule],
) -> (r: Vec<SensorPublish>)
    ensures
        publish_views(r@) == translation_spec(topic_prefix@, topic@, payload@, devices@),
{
    let fname = match extract_z2m_friendly_name(topic_prefix, topic) {
        Some(n) => n,
        None => {
            assert(publish_views(Seq::<SensorPublish>::empty()) =~= Seq::empty());
            return Vec::new();
        },
    };
    let found = find_device(devices, fname.as_str());
    let d = match found {
        Some(i) => i,
        None => {
            assert(!exists|i: int| first_device(devices@, fname@, i));
            assert(publish_views(Seq::<SensorPublish>::empty()) =~= Seq::empty());
            return Vec::new();
        },
    };
    assert(first_device(devices@, fname@, d as int));
    proof {
        let c = choose|i: int| first_device(devices@, fname@, i);
        if c < d {
            assert(devices@[c].match_friendly_name@ != fname@);
        }
        if d < c {
            assert(devices@[d as int].match_friendly_name@ != fname@);
        }
        assert(c == d);
    }
    let doc = match parse_json(payload) {
        Some(doc) => doc,
        None => {
            assert(publish_views(Seq::<SensorPublish>::empty()) =~= Seq::empty());
            return Vec::new();
        },
    };
    let ms = &devices[d].mapping;
    let mut out: Vec<SensorPublish> = Vec::new();
    let mut i: usize = 0;
    assert(ms@.take(0) =~= Seq::<FieldMapping>::empty());
    assert(publish_views(out@) =~= Seq::empty());
    while i < ms.len()
        invariant
            i <= ms@.len(),
            doc@ == payload@,
            publish_views(out@) == mapped(ms@.take(i as int), payload@),
        decreases ms.len() - i,
    {
        let m = &ms[i];
        let key = trim(m.json_key.as_str());
        let f = json_field(&doc, key.as_str());
        let ghost before = out@;
        assert(ms@.take(i + 1).drop_last() =~= ms@.take(i as int));
        assert(ms@.take(i + 1).last() == *m);
        match map_one_field(&f, m) {
            Some(p) => {
                out.push(p);
                assert(publish_views(out@) =~= publish_views(before).push(publish_view(p)));
            },
            None => {},
        }
        i = i + 1;
    }
    assert(ms@.take(ms@.len() as int) =~= ms@);
    out
}

/// The family of a mapping is matched whatever its letter case: two mappings of the same key and
/// rusthome id whose families lowercase alike map every value alike.
pub proof fn law_family_letter_case_is_ignored(f: JsonFieldView, m1: FieldMapping, m2: FieldMapping)
    requires
        unicode_lower(m1.family@) == unicode_lower(m2.family@),
        m1.json_key@ == m2.json_key@,
        m1.rusthome_id@ == m2.rusthome_id@,
    ensures
        map_field_spec(f, m1) == map_field_spec(f, m2),
{
}

/// A mapping whose family lowercases to `temperature` publishes a numeric value as its text to
/// `sensors/temperature/{rusthome_id}`, whatever the family's letter case.
pub proof fn law_temperature_family_publishes(f: JsonFieldView, m: FieldMapping, t: Seq<char>)
    requires
        unicode_lower(m.family@) == "temperature"@,
        number_text(f) == Some(t),
    ensures
        map_field_spec(f, m) == Some(
            ("sensors/temperature/"@ + m.rusthome_id@, SensorPayloadView::Celsius(t)),
        ),
{
}

/// The other families, whatever their letter case: humidity publishes a numeric value's text to
/// `sensors/humidity/{id}`; contact publishes a boolean to `sensors/contact/{id}`, negated when
/// the key is `contact`; motion publishes only `true`, to `sensors/motion/{id}`; an absent or
/// null value publishes nothing.
pub proof fn law_family_publishes(f: JsonFieldView, m: FieldMapping)
    ensures
        f is Absent || f is Null ==> map_field_spec(f, m) is None,
        number_text(f) matches Some(t) ==> (unicode_lower(m.family@) == "humidity"@ ==> map_field_spec(
            f,
            m,
        ) == Some(("sensors/humidity/"@ + m.rusthome_id@, SensorPayloadView::Humidity(t)))),
        f matches JsonFieldView::Bool(b) ==> (unicode_lower(m.family@) == "contact"@ ==> map_field_spec(
            f,
            m,
        ) == Some(
            (
                "sensors/contact/"@ + m.rusthome_id@,
                SensorPayloadView::Open(if m.json_key@ == "contact"@ {
                    !b
                } else {
                    b
                }),
            ),
        )),
        unicode_lower(m.family@) == "motion"@ ==> (map_field_spec(f, m) is Some <==> f
            == JsonFieldView::Bool(true)),
{
    reveal_strlit("temperature");
    reveal_strlit("humidity");
    reveal_strlit("contact");
    reveal_strlit("motion");
    let fam = unicode_lower(m.family@);
    assert(fam == "humidity"@ ==> fam.len() == 8 && fam != "temperature"@);
    assert(fam == "contact"@ ==> fam.len() == 7 && fam != "temperature"@ && fam != "humidity"@);
    assert(fam == "motion"@ ==> fam.len() == 6 && fam != "temperature"@ && fam != "humidity"@
        && fam != "contact"@);
}

} // verus!

