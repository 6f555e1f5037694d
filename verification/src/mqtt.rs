//! MQTT publishes as events: `sensors/{motion,temperature,contact}/<entity>` become
//! observations, `commands/light/<room>/{on,off}` become commands, and a publish is dispatched
//! into the journal with a strictly increasing timestamp.
use vstd::prelude::*;
use vstd::utf8::{decode_utf8, encode_utf8, valid_utf8};
use crate::config::ConfigSnapshot;
use crate::error::{run_error_message, RunError};
use crate::event::{CommandEvent, Event, ObservationEvent};
use crate::ids::{new_v4, uuid_hyphenated, uuid_text};
use crate::journal::{replay_spec, Journal, JournalEntry};
use crate::bridge::{apply_z2m_bridge_info_payload, Z2mBridgeSnapshot};
use crate::json::{field_in, field_of_text, JsonField, JsonFieldView};
use crate::pipeline::{
    duration_millis, ingest_command_with_causal, ingest_observation_with_causal, ingested, journal_grew,
    lemma_grew_refl, root_append,
    Rule, RunLimits,
};
use crate::state::{State, StateModel};
use crate::error::ApplyErrorView;
use crate::text::{
    debug_str, debug_text, i64_text, int_text, concat3,
    ascii_lower_seq, concat2, contains_char, owned, str_eq, string_from_chars, strip_prefix,
    strip_prefix_spec, to_ascii_lowercase, trim, trim_ws, utf8_len, chars_of, texts,
};

verus! {

// ------------------------------------------------------------------ clock

#[verifier::external_type_specification]
#[verifier::external_body]
pub struct ExSystemTime(std::time::SystemTime);

/// `SystemTime::now`.
#[verifier::external_body]
fn system_time_now() -> std::time::SystemTime {
    std::time::SystemTime::now()
}

/// `SystemTime::duration_since(UNIX_EPOCH)`; `None` for a time before the epoch.
#[verifier::external_body]
fn duration_since_epoch(t: &std::time::SystemTime) -> Option<std::time::Duration> {
    match t.duration_since(std::time::UNIX_EPOCH) {
        Ok(d) => Some(d),
        Err(_) => None,
    }
}

/// A clock reading in milliseconds since the Unix epoch as an `i64`: 0 for a clock set before
/// the epoch (`None`), otherwise the milliseconds cast with `as i64`.
pub open spec fn millis_spec(reading: Option<u128>) -> i64 {
    match reading {
        None => 0,
        Some(ms) => ms as i64,
    }
}

/// The `i64` milliseconds of a clock reading (see `millis_spec`).
pub fn millis_of(reading: Option<u128>) -> (r: i64)
    ensures
        r == millis_spec(reading),
{
    match reading {
        Some(ms) => {
            #[verifier::truncate]
            (ms as i64)
        },
        None => 0,
    }
}

/// Wall-clock milliseconds since the Unix epoch; 0 for a clock set before the epoch. The value
/// comes from the system clock, so nothing is stated of it; its conversion is `millis_of`.
pub fn wall_millis() -> i64 {
    let now = system_time_now();
    let reading = match duration_since_epoch(&now) {
        Some(d) => Some(duration_millis(&d)),
        None => None,
    };
    millis_of(reading)
}

/// Strictly increasing timestamps: `max(last + 1, candidate)`, which becomes the new last.
pub fn next_ts(last_ts: &mut i64, candidate: i64) -> (n: i64)
    requires
        *old(last_ts) < i64::MAX,
    ensures
        n == (if *old(last_ts) + 1 >= candidate {
            *old(last_ts) + 1
        } else {
            candidate as int
        }),
        *final(last_ts) == n,
        n > *old(last_ts),
        n >= candidate,
{
    let a = *last_ts + 1;
    let n = if a >= candidate {
        a
    } else {
        candidate
    };
    *last_ts = n;
    n
}

// ------------------------------------------------------------------ topic segments

/// The `/`-separated segments of `s`, in order (`str::split('/')`): never empty; an empty
/// string has one empty segment.
pub open spec fn segments(s: Seq<char>) -> Seq<Seq<char>>
    decreases s.len(),
{
    if s.len() == 0 {
        seq![Seq::<char>::empty()]
    } else {
        let prev = segments(s.drop_last());
        if s.last() == '/' {
            prev.push(Seq::<char>::empty())
        } else {
            prev.update(prev.len() - 1, prev.last().push(s.last()))
        }
    }
}

pub proof fn lemma_segments_nonempty(s: Seq<char>)
    ensures
        segments(s).len() >= 1,
    decreases s.len(),
{
    if s.len() > 0 {
        lemma_segments_nonempty(s.drop_last());
    }
}

/// `str::split('/')`, collected.
pub fn split_slash(s: &str) -> (r: Vec<String>)
    ensures
        texts(r@) == segments(s@),
{
    let v = chars_of(s);
    let mut segs: Vec<String> = Vec::new();
    let mut cur: Vec<char> = Vec::new();
    let mut i: usize = 0;
    assert(v@.take(0) =~= Seq::<char>::empty());
    assert(texts(segs@).push(cur@) =~= segments(v@.take(0)));
    while i < v.len()
        invariant
            v@ == s@,
            i <= v@.len(),
            texts(segs@).push(cur@) == segments(v@.take(i as int)),
        decreases v.len() - i,
    {
        let c = v[i];
        let ghost before = texts(segs@).push(cur@);
        assert(v@.take(i + 1).drop_last() =~= v@.take(i as int));
        assert(v@.take(i + 1).last() == c);
        if c == '/' {
            let seg = string_from_chars(cur.as_slice());
            segs.push(seg);
            cur = Vec::new();
            assert(texts(segs@).push(cur@) =~= before.push(Seq::<char>::empty()));
        } else {
            cur.push(c);
            assert(texts(segs@).push(cur@) =~= before.update(
                before.len() - 1,
                before.last().push(c),
            ));
        }
        i = i + 1;
    }
    assert(v@.take(v@.len() as int) =~= v@);
    let last = string_from_chars(cur.as_slice());
    segs.push(last);
    assert(texts(segs@) =~= segments(s@));
    segs
}

/// A segment that can name an entity: not empty and not an MQTT wildcard.
pub open spec fn entity_segment(x: Seq<char>) -> bool {
    x.len() > 0 && x != seq!['#'] && x != seq!['+']
}

/// The last segment of `segs` that can name an entity.
pub open spec fn last_entity_segment(segs: Seq<Seq<char>>) -> Option<Seq<char>>
    decreases segs.len(),
{
    if segs.len() == 0 {
        None
    } else if entity_segment(segs.last()) {
        Some(segs.last())
    } else {
        last_entity_segment(segs.drop_last())
    }
}

/// The entity named by the topic alone: its last segment that is neither empty nor a wildcard.
pub open spec fn fallback_spec(topic: Seq<char>) -> Result<Seq<char>, Seq<char>> {
    match last_entity_segment(segments(topic)) {
        Some(x) => Ok(x),
        None => Err("could not extract entity from payload or topic"@),
    }
}

/// The characters of a string result.
pub open spec fn text_result(r: Result<String, String>) -> Result<Seq<char>, Seq<char>> {
    match r {
        Ok(s) => Ok(s@),
        Err(e) => Err(e@),
    }
}

fn fallback_from_topic(topic: &str) -> (r: Result<String, String>)
    ensures
        text_result(r) == fallback_spec(topic@),
{
    let segs = split_slash(topic);
    let ghost all = texts(segs@);
    let mut i: usize = segs.len();
    assert(all.take(i as int) =~= all);
    while i > 0
        invariant
            all == texts(segs@),
            all == segments(topic@),
            i <= segs@.len(),
            last_entity_segment(all.take(i as int)) == last_entity_segment(all),
        decreases i,
    {
        let x = segs[i - 1].as_str();
        proof {
            reveal_strlit("#");
            reveal_strlit("+");
            assert(all.take(i as int).last() == x@);
            assert(all.take(i as int).drop_last() =~= all.take(i - 1));
            assert("#"@ =~= seq!['#']);
            assert("+"@ =~= seq!['+']);
        }
        if !x.is_empty() && !str_eq(x, "#") && !str_eq(x, "+") {
            assert(entity_segment(x@));
            return Ok(owned(x));
        }
        assert(!entity_segment(all.take(i as int).last()));
        i = i - 1;
    }
    proof {
        reveal_strlit("could not extract entity from payload or topic");
    }
    Err(owned("could not extract entity from payload or topic"))
}

// ------------------------------------------------------------------ payload text

/// `std::str::from_utf8`: the text of the bytes, when they are valid UTF-8.
#[verifier::external_body]
pub(crate) fn utf8_text(bytes: &[u8]) -> (r: Option<String>)
    ensures
        r is Some <==> valid_utf8(bytes@),
        r matches Some(s) ==> s@ == decode_utf8(bytes@),
{
    match std::str::from_utf8(bytes) {
        Ok(s) => Some(s.to_string()),
        Err(_) => None,
    }
}

/// A payload's text, trimmed.
pub open spec fn payload_text(payload: Seq<u8>) -> Seq<char> {
    trim_ws(decode_utf8(payload))
}

/// What `key` holds in the (trimmed) payload read as JSON.
pub open spec fn payload_field(payload: Seq<u8>, key: Seq<char>) -> JsonFieldView {
    field_in(encode_utf8(payload_text(payload)), key)
}

/// The entity a publish names: a string under `json_key` of a JSON payload, else a short
/// plain-text payload (no `{`, under 256 bytes), else the topic's last entity segment.
pub open spec fn entity_spec(payload: Seq<u8>, topic: Seq<char>, json_key: Seq<char>) -> Result<
    Seq<char>,
    Seq<char>,
> {
    if !valid_utf8(payload) {
        Err("payload is not UTF-8"@)
    } else {
        let s = payload_text(payload);
        if s.len() == 0 {
            fallback_spec(topic)
        } else if payload_field(payload, json_key) is Text {
            Ok(payload_field(payload, json_key)->Text_0)
        } else if !s.contains('{') && utf8_len(s) < 256 {
            Ok(s)
        } else {
            fallback_spec(topic)
        }
    }
}

/// Extracts an entity name from a payload, falling back to the topic.
pub fn entity_from_payload_and_topic(payload: &[u8], topic: &str, json_key: &str) -> (r: Result<
    String,
    String,
>)
    ensures
        text_result(r) == entity_spec(payload@, topic@, json_key@),
{
    let text = match utf8_text(payload) {
        Some(t) => t,
        None => {
            proof {
                reveal_strlit("payload is not UTF-8");
            }
            return Err(owned("payload is not UTF-8"));
        },
    };
    let s = trim(text.as_str());
    if s.as_str().is_empty() {
        return fallback_from_topic(topic);
    }
    let bytes = s.as_str().as_bytes();
    match field_of_text(bytes, json_key) {
        JsonField::Text(r) => {
            return Ok(r);
        },
        _ => {},
    }
    if !contains_char(s.as_str(), '{') && bytes.len() < 256 {
        return Ok(s);
    }
    fallback_from_topic(topic)
}

/// An optional `"ts"` integer of a JSON payload.
pub open spec fn ts_spec(payload: Seq<u8>) -> Option<i64> {
    if valid_utf8(payload) && payload_field(payload, "ts"@) is Int {
        Some(payload_field(payload, "ts"@)->Int_0)
    } else {
        None
    }
}

/// The `"ts"` field of a JSON payload, when it is an integer.
pub fn optional_ts_from_payload(payload: &[u8]) -> (r: Option<i64>)
    ensures
        r == ts_spec(payload@),
{
    let text = match utf8_text(payload) {
        Some(t) => t,
        None => {
            return None;
        },
    };
    let s = trim(text.as_str());
    proof {
        reveal_strlit("ts");
    }
    match field_of_text(s.as_str().as_bytes(), "ts") {
        JsonField::Int(v) => Some(v),
        _ => None,
    }
}

/// Category and entity of a sensor topic: the first two segments once a leading `sensors/` is
/// removed, the entity not empty.
pub open spec fn topic_parts(topic: Seq<char>) -> Option<(Seq<char>, Seq<char>)> {
    let stripped = match strip_prefix_spec(topic, "sensors/"@) {
        Some(r) => r,
        None => topic,
    };
    let segs = segments(stripped);
    if segs.len() >= 2 && segs[1].len() > 0 {
        Some((segs[0], segs[1]))
    } else {
        None
    }
}

fn parse_topic_segments(topic: &str) -> (r: Option<(String, String)>)
    ensures
        match topic_parts(topic@) {
            None => r is None,
            Some((c, e)) => (r matches Some((rc, re)) && rc@ == c && re@ == e),
        },
{
    let stripped = match strip_prefix(topic, "sensors/") {
        Some(r) => r,
        None => owned(topic),
    };
    let segs = split_slash(stripped.as_str());
    proof {
        assert(segs@.len() == texts(segs@).len());
    }
    if segs.len() >= 2 && !segs[1].as_str().is_empty() {
        proof {
            assert(texts(segs@)[0] == segs@[0]@);
            assert(texts(segs@)[1] == segs@[1]@);
        }
        Some((owned(segs[0].as_str()), owned(segs[1].as_str())))
    } else {
        proof {
            if segs@.len() >= 2 {
                assert(texts(segs@)[1] == segs@[1]@);
            }
        }
        None
    }
}

/// Decimal value of ASCII digits.
pub open spec fn digits_value(s: Seq<char>) -> int
    decreases s.len(),
{
    if s.len() == 0 {
        0
    } else {
        digits_value(s.drop_last()) * 10 + ((s.last() as int) - ('0' as int))
    }
}

/// One or more ASCII digits.
pub open spec fn all_digits(s: Seq<char>) -> bool {
    s.len() > 0 && forall|i: int| 0 <= i < s.len() ==> '0' <= #[trigger] s[i] <= '9'
}

/// `str::parse::<i32>`: an optional `+` or `-` followed by one or more ASCII digits, whose
/// value fits in `i32`.
pub open spec fn i32_from_text(s: Seq<char>) -> Option<i32> {
    let signed = s.len() > 0 && (s[0] == '-' || s[0] == '+');
    let d = if signed {
        s.drop_first()
    } else {
        s
    };
    let v = if s.len() > 0 && s[0] == '-' {
        -digits_value(d)
    } else {
        digits_value(d)
    };
    if all_digits(d) && i32::MIN <= v <= i32::MAX {
        Some(v as i32)
    } else {
        None
    }
}

/// The value of digits grows with each digit appended.
proof fn lemma_digits_value_prefix(s: Seq<char>, k: int)
    requires
        0 <= k <= s.len(),
        forall|i: int| 0 <= i < s.len() ==> '0' <= #[trigger] s[i] <= '9',
    ensures
        0 <= digits_value(s.take(k)) <= digits_value(s),
    decreases s.len(),
{
    if k == s.len() {
        assert(s.take(k) =~= s);
        if s.len() > 0 {
            lemma_digits_value_prefix(s.drop_last(), k - 1);
            assert(s.drop_last().take(k - 1) =~= s.drop_last());
        }
    } else {
        lemma_digits_value_prefix(s.drop_last(), k);
        assert(s.drop_last().take(k) =~= s.take(k));
        lemma_digits_value_prefix(s.drop_last(), s.len() - 1);
        assert(s.drop_last().take(s.len() - 1) =~= s.drop_last());
    }
}

/// `str::parse::<i32>`: `Some` exactly for an optional sign and decimal digits in range.
pub fn parse_i32(s: &str) -> (r: Option<i32>)
    ensures
        r == i32_from_text(s@),
{
    let cs = chars_of(s);
    let n = cs.len();
    if n == 0 {
        return None;
    }
    let negative = cs[0] == '-';
    let start: usize = if cs[0] == '-' || cs[0] == '+' {
        1
    } else {
        0
    };
    let ghost d = if start == 1 {
        s@.drop_first()
    } else {
        s@
    };
    proof {
        assert(d =~= s@.subrange(start as int, n as int));
    }
    if start == n {
        return None;
    }
    let mut acc: i64 = 0;
    let mut i: usize = start;
    proof {
        assert(d.take(0) =~= Seq::<char>::empty());
    }
    while i < n
        invariant
            start <= i <= n,
            n == s@.len(),
            n > 0,
            start == (if s@[0] == '-' || s@[0] == '+' {
                1usize
            } else {
                0usize
            }),
            negative == (s@[0] == '-'),
            cs@ == s@,
            d == s@.subrange(start as int, n as int),
            acc == digits_value(d.take(i - start)),
            0 <= acc <= 2147483648,
            forall|j: int| 0 <= j < i - start ==> '0' <= #[trigger] d[j] <= '9',
        decreases n - i,
    {
        let c = cs[i];
        assert(c == d[i - start]);
        assert(start == 1 ==> s@.drop_first() =~= d);
        assert(start == 0 ==> s@ =~= d);
        if !('0' <= c && c <= '9') {
            proof {
                assert(!all_digits(d));
            }
            return None;
        }
        proof {
            assert(d.take(i - start + 1).drop_last() =~= d.take(i - start));
        }
        acc = acc * 10 + (c as u32 - '0' as u32) as i64;
        if acc > 2147483648 {
            proof {
                if all_digits(d) {
                    lemma_digits_value_prefix(d, i - start + 1);
                    assert(digits_value(d) > 2147483648);
                }
            }
            return None;
        }
        i = i + 1;
    }
    proof {
        assert(d.take(n - start) =~= d);
    }
    if negative {
        Some((0 - acc) as i32)
    } else if acc <= 2147483647 {
        Some(acc as i32)
    } else {
        None
    }
}

/// The temperature a payload carries, in millidegrees: `millidegrees_c`, then `celsius` (read
/// by the caller in floating point and given as `celsius_millidegrees`), then `value`, then the
/// whole text as an integer.
pub open spec fn temperature_spec(payload: Seq<u8>, celsius_millidegrees: Option<i32>) -> Result<
    i32,
    Seq<char>,
> {
    if !valid_utf8(payload) {
        Err("payload is not UTF-8"@)
    } else {
        let s = payload_text(payload);
        if payload_field(payload, "millidegrees_c"@) is Int {
            Ok((payload_field(payload, "millidegrees_c"@)->Int_0) as i32)
        } else if crate::json::json_parses(encode_utf8(s)) && celsius_millidegrees is Some {
            Ok(celsius_millidegrees->0)
        } else if payload_field(payload, "value"@) is Int {
            Ok((payload_field(payload, "value"@)->Int_0) as i32)
        } else {
            match i32_from_text(s) {
                Some(v) => Ok(v),
                None => Err("cannot parse temperature from payload: "@ + s),
            }
        }
    }
}

/// Reads a temperature payload. `celsius_millidegrees` is the payload's numeric `celsius`
/// field times 1000, truncated toward zero (computed by the caller, in floating point), or
/// `None` when there is none.
pub fn parse_temperature(payload: &[u8], celsius_millidegrees: Option<i32>) -> (r: Result<
    i32,
    String,
>)
    ensures
        match temperature_spec(payload@, celsius_millidegrees) {
            Ok(v) => r == Ok::<i32, String>(v),
            Err(m) => (r matches Err(e) && e@ == m),
        },
{
    let text = match utf8_text(payload) {
        Some(t) => t,
        None => {
            proof {
                reveal_strlit("payload is not UTF-8");
            }
            return Err(owned("payload is not UTF-8"));
        },
    };
    let s = trim(text.as_str());
    let bytes = s.as_str().as_bytes();
    proof {
        reveal_strlit("millidegrees_c");
        reveal_strlit("value");
    }
    match crate::json::parse_json(bytes) {
        Some(doc) => {
            match crate::json::json_field(&doc, "millidegrees_c") {
                JsonField::Int(mc) => {
                    return Ok(
                        #[verifier::truncate]
                        (mc as i32),
                    );
                },
                _ => {},
            }
            match celsius_millidegrees {
                Some(c) => {
                    return Ok(c);
                },
                None => {},
            }
            match crate::json::json_field(&doc, "value") {
                JsonField::Int(mc) => {
                    return Ok(
                        #[verifier::truncate]
                        (mc as i32),
                    );
                },
                _ => {},
            }
        },
        None => {},
    }
    match parse_i32(s.as_str()) {
        Some(v) => Ok(v),
        None => {
            proof {
                reveal_strlit("cannot parse temperature from payload: ");
            }
            Err(concat2("cannot parse temperature from payload: ", s.as_str()))
        },
    }
}

/// The contact state a payload carries (`true` = open): `open`, then `contact` negated
/// (Zigbee2MQTT: contact means closed), then the words open/true/1 and closed/close/false/0.
pub open spec fn contact_spec(payload: Seq<u8>) -> Result<bool, Seq<char>> {
    if !valid_utf8(payload) {
        Err("payload is not UTF-8"@)
    } else {
        let s = payload_text(payload);
        let l = ascii_lower_seq(s);
        if payload_field(payload, "open"@) is Bool {
            Ok(payload_field(payload, "open"@)->Bool_0)
        } else if payload_field(payload, "contact"@) is Bool {
            Ok(!(payload_field(payload, "contact"@)->Bool_0))
        } else if l == "open"@ || l == "true"@ || l == "1"@ {
            Ok(true)
        } else if l == "closed"@ || l == "close"@ || l == "false"@ || l == "0"@ {
            Ok(false)
        } else {
            Err("cannot parse contact state from payload: "@ + s)
        }
    }
}

/// Reads a contact payload.
pub fn parse_contact(payload: &[u8]) -> (r: Result<bool, String>)
    ensures
        match contact_spec(payload@) {
            Ok(v) => r == Ok::<bool, String>(v),
            Err(m) => (r matches Err(e) && e@ == m),
        },
{
    let text = match utf8_text(payload) {
        Some(t) => t,
        None => {
            proof {
                reveal_strlit("payload is not UTF-8");
            }
            return Err(owned("payload is not UTF-8"));
        },
    };
    let s = trim(text.as_str());
    let bytes = s.as_str().as_bytes();
    proof {
        reveal_strlit("open");
        reveal_strlit("contact");
    }
    match crate::json::parse_json(bytes) {
        Some(doc) => {
            match crate::json::json_field(&doc, "open") {
                JsonField::Bool(b) => {
                    return Ok(b);
                },
                _ => {},
            }
            match crate::json::json_field(&doc, "contact") {
                JsonField::Bool(b) => {
                    return Ok(!b);
                },
                _ => {},
            }
        },
        None => {},
    }
    let l = to_ascii_lowercase(s.as_str());
    let w = l.as_str();
    if str_eq(w, "open") || str_eq(w, "true") || str_eq(w, "1") {
        return Ok(true);
    }
    if str_eq(w, "closed") || str_eq(w, "close") || str_eq(w, "false") || str_eq(w, "0") {
        return Ok(false);
    }
    proof {
        reveal_strlit("cannot parse contact state from payload: ");
    }
    Err(concat2("cannot parse contact state from payload: ", s.as_str()))
}

// ------------------------------------------------------------------ classification

/// An observation, as a model.
pub enum ObservationSpec {
    Motion(Seq<char>),
    Temperature(Seq<char>, i32),
    Contact(Seq<char>, bool),
}

/// Whether an observation is the one the model describes.
pub open spec fn observation_is(o: ObservationEvent, m: ObservationSpec) -> bool {
    match m {
        ObservationSpec::Motion(room) => (o matches ObservationEvent::MotionDetected { room: r }
            && r@ == room),
        ObservationSpec::Temperature(id, mc) => (
        o matches ObservationEvent::TemperatureReading { sensor_id, millidegrees_c } && sensor_id@
            == id && millidegrees_c == mc),
        ObservationSpec::Contact(id, open) => (o matches ObservationEvent::ContactChanged {
            sensor_id,
            open: op,
        } && sensor_id@ == id && op == open),
    }
}

/// The entity a payload names, or `fallback` when it names none.
pub open spec fn entity_or(
    payload: Seq<u8>,
    topic: Seq<char>,
    json_key: Seq<char>,
    fallback: Seq<char>,
) -> Seq<char> {
    match entity_spec(payload, topic, json_key) {
        Ok(x) => x,
        Err(_) => fallback,
    }
}

/// The observation a sensor publish carries: `None` for other topics and categories.
pub open spec fn observation_spec(
    topic: Seq<char>,
    payload: Seq<u8>,
    celsius_millidegrees: Option<i32>,
) -> Result<Option<ObservationSpec>, Seq<char>> {
    match topic_parts(topic) {
        None => Ok(None),
        Some((category, entity)) => if category == "motion"@ {
            Ok(Some(ObservationSpec::Motion(entity_or(payload, topic, "room"@, entity))))
        } else if category == "temperature"@ {
            match temperature_spec(payload, celsius_millidegrees) {
                Ok(mc) => Ok(
                    Some(
                        ObservationSpec::Temperature(
                            entity_or(payload, topic, "sensor_id"@, entity),
                            mc,
                        ),
                    ),
                ),
                Err(e) => Err(e),
            }
        } else if category == "contact"@ {
            match contact_spec(payload) {
                Ok(open) => Ok(
                    Some(
                        ObservationSpec::Contact(
                            entity_or(payload, topic, "sensor_id"@, entity),
                            open,
                        ),
                    ),
                ),
                Err(e) => Err(e),
            }
        } else {
            Ok(None)
        },
    }
}

/// Whether `r` is what `observation_spec` describes.
pub open spec fn observation_result_is(
    r: Result<Option<ObservationEvent>, String>,
    s: Result<Option<ObservationSpec>, Seq<char>>,
) -> bool {
    match s {
        Ok(None) => r matches Ok(None),
        Ok(Some(m)) => (r matches Ok(Some(o)) && observation_is(o, m)),
        Err(msg) => (r matches Err(e) && e@ == msg),
    }
}

fn entity_or_topic(payload: &[u8], topic: &str, json_key: &str, fallback: &str) -> (r: String)
    ensures
        r@ == entity_or(payload@, topic@, json_key@, fallback@),
{
    match entity_from_payload_and_topic(payload, topic, json_key) {
        Ok(x) => x,
        Err(_) => owned(fallback),
    }
}

/// Classifies a sensor publish. `celsius_millidegrees` is as for [`parse_temperature`].
pub fn observation_from_mqtt(topic: &str, payload: &[u8], celsius_millidegrees: Option<i32>) -> (r:
    Result<Option<ObservationEvent>, String>)
    ensures
        observation_result_is(r, observation_spec(topic@, payload@, celsius_millidegrees)),
{
    let (category, entity) = match parse_topic_segments(topic) {
        Some(pair) => pair,
        None => {
            return Ok(None);
        },
    };
    proof {
        reveal_strlit("motion");
        reveal_strlit("temperature");
        reveal_strlit("contact");
        reveal_strlit("room");
        reveal_strlit("sensor_id");
    }
    let c = category.as_str();
    if str_eq(c, "motion") {
        let room = entity_or_topic(payload, topic, "room", entity.as_str());
        Ok(Some(ObservationEvent::MotionDetected { room }))
    } else if str_eq(c, "temperature") {
        let sensor_id = entity_or_topic(payload, topic, "sensor_id", entity.as_str());
        match parse_temperature(payload, celsius_millidegrees) {
            Ok(millidegrees_c) => Ok(
                Some(ObservationEvent::TemperatureReading { sensor_id, millidegrees_c }),
            ),
            Err(e) => Err(e),
        }
    } else if str_eq(c, "contact") {
        let sensor_id = entity_or_topic(payload, topic, "sensor_id", entity.as_str());
        match parse_contact(payload) {
            Ok(open) => Ok(Some(ObservationEvent::ContactChanged { sensor_id, open })),
            Err(e) => Err(e),
        }
    } else {
        Ok(None)
    }
}

/// What a command topic asks for.
pub enum CommandTopic {
    /// Not under `commands/`, or not a light command.
    NotCommand,
    On(Seq<char>),
    Off(Seq<char>),
    /// `commands/light...` in any other shape.
    Malformed,
}

/// `commands/light/<room>/on` and `.../off` with a non-empty room; any other `commands/light`
/// topic is malformed.
pub open spec fn command_topic(topic: Seq<char>) -> CommandTopic {
    match strip_prefix_spec(topic, "commands/"@) {
        None => CommandTopic::NotCommand,
        Some(rest) => {
            let segs = segments(rest);
            if segs[0] != "light"@ {
                CommandTopic::NotCommand
            } else if segs.len() == 3 && segs[1].len() > 0 && segs[2] == "on"@ {
                CommandTopic::On(segs[1])
            } else if segs.len() == 3 && segs[1].len() > 0 && segs[2] == "off"@ {
                CommandTopic::Off(segs[1])
            } else {
                CommandTopic::Malformed
            }
        },
    }
}

/// Whether `r` is what `command_topic(topic)` describes (command ids are random).
pub open spec fn command_result_is(r: Result<Option<CommandEvent>, String>, topic: Seq<char>) -> bool {
    match command_topic(topic) {
        CommandTopic::NotCommand => r matches Ok(None),
        CommandTopic::On(room) => (r matches Ok(Some(CommandEvent::TurnOnLight { room: x, .. }))
            && x@ == room),
        CommandTopic::Off(room) => (r matches Ok(Some(CommandEvent::TurnOffLight { room: x, .. }))
            && x@ == room),
        CommandTopic::Malformed => (r matches Err(e) && e@ == "malformed command topic: "@
            + topic),
    }
}

/// Classifies a command publish; a light command gets a new random id.
pub fn command_from_mqtt(topic: &str, _payload: &[u8]) -> (r: Result<Option<CommandEvent>, String>)
    ensures
        command_result_is(r, topic@),
{
    let rest = match strip_prefix(topic, "commands/") {
        Some(r) => r,
        None => {
            return Ok(None);
        },
    };
    let segs = split_slash(rest.as_str());
    proof {
        lemma_segments_nonempty(rest@);
        reveal_strlit("light");
        reveal_strlit("on");
        reveal_strlit("off");
        reveal_strlit("malformed command topic: ");
        assert(segs@.len() == texts(segs@).len());
        assert(texts(segs@)[0] == segs@[0]@);
    }
    if !str_eq(segs[0].as_str(), "light") {
        return Ok(None);
    }
    if segs.len() == 3 && !segs[1].as_str().is_empty() {
        proof {
            assert(texts(segs@)[1] == segs@[1]@);
            assert(texts(segs@)[2] == segs@[2]@);
        }
        if str_eq(segs[2].as_str(), "on") {
            return Ok(
                Some(
                    CommandEvent::TurnOnLight {
                        room: owned(segs[1].as_str()),
                        command_id: new_v4(),
                    },
                ),
            );
        }
        if str_eq(segs[2].as_str(), "off") {
            return Ok(
                Some(
                    CommandEvent::TurnOffLight {
                        room: owned(segs[1].as_str()),
                        command_id: new_v4(),
                    },
                ),
            );
        }
    }
    proof {
        if segs@.len() == 3 {
            assert(texts(segs@)[1] == segs@[1]@);
            assert(texts(segs@)[2] == segs@[2]@);
        }
    }
    Err(concat2("malformed command topic: ", topic))
}

// ------------------------------------------------------------------ dispatch

/// Failure to dispatch a publish.
#[derive(PartialEq, Eq, Debug)]
pub enum DispatchError {
    /// The publish could not be read as an event.
    Parse(String),
    /// The event was refused while ingesting it.
    Run(RunError),
}

/// Text of a dispatch failure.
pub open spec fn dispatch_error_message(e: DispatchError) -> Seq<char> {
    match e {
        DispatchError::Parse(m) => "parse error: "@ + m@,
        DispatchError::Run(r) => "ingest error: "@ + run_error_message(r),
    }
}

impl DispatchError {
    /// The error's text.
    pub fn message(&self) -> (r: String)
        ensures
            r@ == dispatch_error_message(*self),
    {
        match self {
            DispatchError::Parse(m) => concat2("parse error: ", m.as_str()),
            DispatchError::Run(e) => {
                let m = e.message();
                concat2("ingest error: ", m.as_str())
            },
        }
    }
}

/// The `Debug` text of a `bool`.
pub open spec fn bool_text(b: bool) -> Seq<char> {
    if b {
        "true"@
    } else {
        "false"@
    }
}

/// The derived `Debug` text of an observation: the variant's name, then each field by name
/// (strings quoted and escaped as `str`'s `Debug` does, integers in decimal).
pub open spec fn observation_text(o: ObservationEvent) -> Seq<char> {
    match o {
        ObservationEvent::MotionDetected { room } => "MotionDetected { room: "@ + debug_text(room@)
            + " }"@,
        ObservationEvent::TemperatureReading { sensor_id, millidegrees_c } =>
            "TemperatureReading { sensor_id: "@ + debug_text(sensor_id@) + ", millidegrees_c: "@
            + int_text(millidegrees_c as int) + " }"@,
        ObservationEvent::ContactChanged { sensor_id, open } => "ContactChanged { sensor_id: "@
            + debug_text(sensor_id@) + ", open: "@ + bool_text(open) + " }"@,
        ObservationEvent::HumidityReading { sensor_id, permille_rh } =>
            "HumidityReading { sensor_id: "@ + debug_text(sensor_id@) + ", permille_rh: "@
            + int_text(permille_rh as int) + " }"@,
    }
}

/// The derived `Debug` text of a command; a command id prints as a hyphenated UUID.
pub open spec fn command_text(c: CommandEvent) -> Seq<char> {
    match c {
        CommandEvent::TurnOnLight { room, command_id } => "TurnOnLight { room: "@ + debug_text(
            room@,
        ) + ", command_id: "@ + uuid_text(command_id) + " }"@,
        CommandEvent::TurnOffLight { room, command_id } => "TurnOffLight { room: "@ + debug_text(
            room@,
        ) + ", command_id: "@ + uuid_text(command_id) + " }"@,
        CommandEvent::NotifyUser { command_id } => "NotifyUser { command_id: "@ + uuid_text(
            command_id,
        ) + " }"@,
        CommandEvent::LogUsage { item, command_id } => "LogUsage { item: "@ + debug_text(item@)
            + ", command_id: "@ + uuid_text(command_id) + " }"@,
    }
}

/// `a`, then `b`, then `c`, then `d`, then `e`.
fn concat5(a: &str, b: &str, c: &str, d: &str, e: &str) -> (r: String)
    ensures
        r@ == a@ + b@ + c@ + d@ + e@,
{
    let x = concat3(a, b, c);
    concat3(x.as_str(), d, e)
}

/// The `Debug` text of an observation, as `format!("{o:?}")` gives it.
pub fn describe_observation(o: &ObservationEvent) -> (s: String)
    ensures
        s@ == observation_text(*o),
{
    match o {
        ObservationEvent::MotionDetected { room } => {
            let q = debug_str(room.as_str());
            concat3("MotionDetected { room: ", q.as_str(), " }")
        },
        ObservationEvent::TemperatureReading { sensor_id, millidegrees_c } => {
            let q = debug_str(sensor_id.as_str());
            let n = i64_text(*millidegrees_c as i64);
            concat5(
                "TemperatureReading { sensor_id: ",
                q.as_str(),
                ", millidegrees_c: ",
                n.as_str(),
                " }",
            )
        },
        ObservationEvent::ContactChanged { sensor_id, open } => {
            let q = debug_str(sensor_id.as_str());
            let b: &str = if *open {
                "true"
            } else {
                "false"
            };
            concat5("ContactChanged { sensor_id: ", q.as_str(), ", open: ", b, " }")
        },
        ObservationEvent::HumidityReading { sensor_id, permille_rh } => {
            let q = debug_str(sensor_id.as_str());
            let n = i64_text(*permille_rh as i64);
            concat5("HumidityReading { sensor_id: ", q.as_str(), ", permille_rh: ", n.as_str(), " }")
        },
    }
}

/// The `Debug` text of a command, as `format!("{c:?}")` gives it.
pub fn describe_command(c: &CommandEvent) -> (s: String)
    ensures
        s@ == command_text(*c),
{
    match c {
        CommandEvent::TurnOnLight { room, command_id } => {
            let q = debug_str(room.as_str());
            let u = uuid_hyphenated(*command_id);
            concat5("TurnOnLight { room: ", q.as_str(), ", command_id: ", u.as_str(), " }")
        },
        CommandEvent::TurnOffLight { room, command_id } => {
            let q = debug_str(room.as_str());
            let u = uuid_hyphenated(*command_id);
            concat5("TurnOffLight { room: ", q.as_str(), ", command_id: ", u.as_str(), " }")
        },
        CommandEvent::NotifyUser { command_id } => {
            let u = uuid_hyphenated(*command_id);
            concat3("NotifyUser { command_id: ", u.as_str(), " }")
        },
        CommandEvent::LogUsage { item, command_id } => {
            let q = debug_str(item.as_str());
            let u = uuid_hyphenated(*command_id);
            concat5("LogUsage { item: ", q.as_str(), ", command_id: ", u.as_str(), " }")
        },
    }
}

/// A dispatch result as the run result of the ingestion it made: success with an event, or the
/// run's error.
pub open spec fn dispatch_run_result(r: Result<Option<String>, DispatchError>) -> Result<(), RunError> {
    match r {
        Err(DispatchError::Run(e)) => Err(e),
        _ => Ok(()),
    }
}

/// An ingest-loop action as the run result of the ingestion it made.
pub open spec fn action_run_result(r: IngestAction) -> Result<(), RunError> {
    match r {
        IngestAction::Failed(DispatchError::Run(e)) => Err(e),
        _ => Ok(()),
    }
}

/// Nothing observable changed.
pub open spec fn untouched(
    j0: Journal,
    j1: Journal,
    s0: State,
    s1: State,
    t0: i64,
    t1: i64,
) -> bool {
    j1 == j0 && s1@ == s0@ && t1 == t0
}

/// The journal gained at least one line.
pub open spec fn grew_with(j0: Journal, j1: Journal) -> bool {
    j1.lines@.len() > j0.lines@.len()
}

/// The first line added to `j0`.
pub open spec fn new_line(j0: Journal, j1: Journal) -> JournalEntry {
    j1.lines@[j0.lines@.len() as int]
}

/// The line the journal added first, if any, is stamped `ts`.
pub open spec fn first_new_line_at(j0: Journal, j1: Journal, ts: i64) -> bool {
    grew_with(j0, j1) ==> new_line(j0, j1).timestamp == ts
}

/// Dispatches one publish: an observation is journaled at `max(last + 1, payload ts or the
/// wall clock)`, a light command at `max(last + 1, wall clock)`, each under a new causal chain,
/// and the rules run; other topics are skipped. Returns the event's `Debug` text.
pub fn dispatch_mqtt_publish<R: Rule>(
    topic: &str,
    payload: &[u8],
    celsius_millidegrees: Option<i32>,
    journal: &mut Journal,
    state: &mut State,
    registry: &[R],
    config: &ConfigSnapshot,
    limits: RunLimits,
    last_ts: &mut i64,
) -> (r: Result<Option<String>, DispatchError>)
    requires
        old(journal).wf(),
        old(state).wf(),
        *old(last_ts) < i64::MAX,
    ensures
        final(journal).wf(),
        final(state).wf(),
        journal_grew(*old(journal), *final(journal)),
        r is Ok ==> replay_spec(old(state)@, final(journal).lines@.skip(old(journal).lines@.len() as int))
            == Ok::<StateModel, ApplyErrorView>(final(state)@),
        r matches Err(DispatchError::Run(_)) ==> *final(last_ts) > *old(last_ts),
        match observation_spec(topic@, payload@, celsius_millidegrees) {
            Err(m) => (r matches Err(DispatchError::Parse(e)) && e@ == m) && untouched(
                *old(journal),
                *final(journal),
                *old(state),
                *final(state),
                *old(last_ts),
                *final(last_ts),
            ),
            Ok(Some(obs)) => {
                &&& *final(last_ts) > *old(last_ts)
                &&& ts_spec(payload@) matches Some(t) ==> *final(last_ts) == (if *old(last_ts) + 1
                    >= t {
                    *old(last_ts) + 1
                } else {
                    t as int
                })
                &&& first_new_line_at(*old(journal), *final(journal), *final(last_ts))
                &&& grew_with(*old(journal), *final(journal)) ==> (new_line(
                    *old(journal),
                    *final(journal),
                ).event matches Event::Observation(o) && observation_is(o, obs))
                &&& old(journal).next_sequence < u64::MAX && (old(journal).last_timestamp_committed matches Some(lt) ==> lt <= *final(last_ts))
                    ==> grew_with(*old(journal), *final(journal))
                &&& (r matches Ok(Some(_)) || r matches Err(DispatchError::Run(_)))
                &&& (r matches Ok(Some(d)) ==> grew_with(*old(journal), *final(journal)) && (new_line(
                    *old(journal),
                    *final(journal),
                ).event matches Event::Observation(o) && d@ == observation_text(o)))
                &&& exists|c: u128, o: ObservationEvent|
                    observation_is(o, obs) && #[trigger] ingested(
                        *old(journal),
                        *final(journal),
                        old(state)@,
                        final(state)@,
                        root_append(*final(last_ts), c, Event::Observation(o)),
                        registry@,
                        limits,
                        *config,
                        dispatch_run_result(r),
                    )
            },
            Ok(None) => match command_topic(topic@) {
                CommandTopic::NotCommand => r == Ok::<Option<String>, DispatchError>(None)
                    && untouched(
                    *old(journal),
                    *final(journal),
                    *old(state),
                    *final(state),
                    *old(last_ts),
                    *final(last_ts),
                ),
                CommandTopic::Malformed => (r matches Err(DispatchError::Parse(e)) && e@
                    == "malformed command topic: "@ + topic@) && untouched(
                    *old(journal),
                    *final(journal),
                    *old(state),
                    *final(state),
                    *old(last_ts),
                    *final(last_ts),
                ),
                _ => {
                    &&& *final(last_ts) > *old(last_ts)
                    &&& first_new_line_at(*old(journal), *final(journal), *final(last_ts))
                    &&& grew_with(*old(journal), *final(journal)) ==> (new_line(
                        *old(journal),
                        *final(journal),
                    ).event matches Event::Command(c) && command_result_is(Ok(Some(c)), topic@))
                    &&& (r matches Ok(Some(_)) || r matches Err(DispatchError::Run(_)))
                    &&& (r matches Ok(Some(d)) ==> exists|c: CommandEvent|
                        command_result_is(Ok(Some(c)), topic@) && d@ == #[trigger] command_text(c)
                            && (grew_with(*old(journal), *final(journal)) ==> new_line(
                            *old(journal),
                            *final(journal),
                        ).event == Event::Command(c)))
                    &&& exists|c: u128, cmd: CommandEvent|
                        command_result_is(Ok(Some(cmd)), topic@) && #[trigger] ingested(
                            *old(journal),
                            *final(journal),
                            old(state)@,
                            final(state)@,
                            root_append(*final(last_ts), c, Event::Command(cmd)),
                            registry@,
                            limits,
                            *config,
                            dispatch_run_result(r),
                        )
                },
            },
        },
{
    let ghost j0 = *journal;
    let ghost s0 = *state;
    match observation_from_mqtt(topic, payload, celsius_millidegrees) {
        Ok(Some(obs)) => {
            let candidate = match optional_ts_from_payload(payload) {
                Some(t) => t,
                None => wall_millis(),
            };
            let ts = next_ts(last_ts, candidate);
            let causal = new_v4();
            let desc = describe_observation(&obs);
            let ghost o = obs;
            let res = ingest_observation_with_causal(
                journal,
                state,
                registry,
                config,
                ts,
                obs,
                causal,
                limits,
            );
            let ghost rg = res;
            let r = match res {
                Ok(()) => Ok(Some(desc)),
                Err(e) => Err(DispatchError::Run(e)),
            };
            proof {
                match rg {
                    Ok(u) => {
                        assert(u == ());
                    },
                    Err(e) => {},
                }
                assert(dispatch_run_result(r) == rg);
                assert(ingested(
                    j0,
                    *journal,
                    s0@,
                    state@,
                    root_append(ts, causal, Event::Observation(o)),
                    registry@,
                    limits,
                    *config,
                    dispatch_run_result(r),
                ));
            }
            r
        },
        Err(e) => {
            proof {
                lemma_grew_refl(*journal);
            }
            Err(DispatchError::Parse(e))
        },
        Ok(None) => match command_from_mqtt(topic, payload) {
            Ok(Some(cmd)) => {
                let now = wall_millis();
                let ts = next_ts(last_ts, now);
                let causal = new_v4();
                let desc = describe_command(&cmd);
                let ghost c = cmd;
                let res = ingest_command_with_causal(
                    journal,
                    state,
                    registry,
                    config,
                    ts,
                    cmd,
                    causal,
                    limits,
                );
                let ghost rg = res;
                let r = match res {
                    Ok(()) => Ok(Some(desc)),
                    Err(e) => Err(DispatchError::Run(e)),
                };
                proof {
                    match rg {
                    Ok(u) => {
                        assert(u == ());
                    },
                    Err(e) => {},
                }
                assert(dispatch_run_result(r) == rg);
                    assert(ingested(
                        j0,
                        *journal,
                        s0@,
                        state@,
                        root_append(ts, causal, Event::Command(c)),
                        registry@,
                        limits,
                        *config,
                        dispatch_run_result(r),
                    ));
                }
                r
            },
            Err(e) => {
                proof {
                    lemma_grew_refl(*journal);
                }
                Err(DispatchError::Parse(e))
            },
            Ok(None) => {
                proof {
                    lemma_grew_refl(*journal);
                }
                Ok(None)
            },
        },
    }
}

// ------------------------------------------------------------------ ingest loop step

/// What the ingest loop does after one publish.
#[derive(PartialEq, Eq, Debug)]
pub enum IngestAction {
    /// The publish was the Zigbee2MQTT bridge information; `read` tells whether `permit_join`
    /// was found.
    BridgeInfo { read: bool },
    /// An event was journaled (its `Debug` text): listeners are to be told.
    Ingested(String),
    /// The topic is not one the ingest understands.
    Skipped,
    /// The publish was refused.
    Failed(DispatchError),
}

/// One step of the ingest loop: a publish on `bridge_info_topic` updates `bridge`; any other is
/// dispatched into the journal.
pub fn ingest_publish<R: Rule>(
    topic: &str,
    payload: &[u8],
    celsius_millidegrees: Option<i32>,
    bridge_info_topic: Option<&str>,
    bridge: &mut Z2mBridgeSnapshot,
    journal: &mut Journal,
    state: &mut State,
    registry: &[R],
    config: &ConfigSnapshot,
    limits: RunLimits,
    last_ts: &mut i64,
) -> (r: IngestAction)
    requires
        old(journal).wf(),
        old(state).wf(),
        *old(last_ts) < i64::MAX,
    ensures
        final(journal).wf(),
        final(state).wf(),
        journal_grew(*old(journal), *final(journal)),
        !(r is Failed) ==> replay_spec(old(state)@, final(journal).lines@.skip(old(journal).lines@.len() as int))
            == Ok::<StateModel, ApplyErrorView>(final(state)@),
        (bridge_info_topic matches Some(t) && t@ == topic@) ==> {
            &&& r == IngestAction::BridgeInfo {
                read: field_in(payload@, "permit_join"@) is Bool,
            }
            &&& r == (IngestAction::BridgeInfo { read: true }) ==> final(bridge).permit_join == Some(
                field_in(payload@, "permit_join"@)->Bool_0,
            )
            &&& r == (IngestAction::BridgeInfo { read: false }) ==> *final(bridge) == *old(bridge)
            &&& untouched(
                *old(journal),
                *final(journal),
                *old(state),
                *final(state),
                *old(last_ts),
                *final(last_ts),
            )
        },
        !(bridge_info_topic matches Some(t) && t@ == topic@) ==> {
            &&& *final(bridge) == *old(bridge)
            &&& !(r is BridgeInfo)
            &&& (observation_spec(topic@, payload@, celsius_millidegrees) matches Ok(None)
                && command_topic(topic@) is NotCommand) ==> r == IngestAction::Skipped && untouched(
                *old(journal),
                *final(journal),
                *old(state),
                *final(state),
                *old(last_ts),
                *final(last_ts),
            )
            &&& (observation_spec(topic@, payload@, celsius_millidegrees) is Err) ==> (
            r matches IngestAction::Failed(DispatchError::Parse(e)) && Err::<
                Option<ObservationSpec>,
                Seq<char>,
            >(e@) == observation_spec(topic@, payload@, celsius_millidegrees))
            &&& r is Ingested ==> *final(last_ts) > *old(last_ts)
            &&& (observation_spec(topic@, payload@, celsius_millidegrees) matches Ok(Some(obs)) ==> {
                &&& (r is Ingested || r matches IngestAction::Failed(DispatchError::Run(_)))
                &&& grew_with(*old(journal), *final(journal)) ==> (new_line(
                    *old(journal),
                    *final(journal),
                ).event matches Event::Observation(o) && observation_is(o, obs))
                &&& (r matches IngestAction::Ingested(d) ==> grew_with(*old(journal), *final(journal))
                    && (new_line(*old(journal), *final(journal)).event matches Event::Observation(o)
                    && d@ == observation_text(o)))
                &&& exists|c: u128, o: ObservationEvent|
                    observation_is(o, obs) && #[trigger] ingested(
                        *old(journal),
                        *final(journal),
                        old(state)@,
                        final(state)@,
                        root_append(*final(last_ts), c, Event::Observation(o)),
                        registry@,
                        limits,
                        *config,
                        action_run_result(r),
                    )
            })
            &&& (observation_spec(topic@, payload@, celsius_millidegrees) matches Ok(None)
                && command_topic(topic@) is Malformed) ==> (
            r matches IngestAction::Failed(DispatchError::Parse(e)) && e@
                == "malformed command topic: "@ + topic@)
            &&& (observation_spec(topic@, payload@, celsius_millidegrees) matches Ok(None) && (
            command_topic(topic@) is On || command_topic(topic@) is Off)) ==> {
                &&& (r is Ingested || r matches IngestAction::Failed(DispatchError::Run(_)))
                &&& grew_with(*old(journal), *final(journal)) ==> (new_line(
                    *old(journal),
                    *final(journal),
                ).event matches Event::Command(c) && command_result_is(Ok(Some(c)), topic@))
                &&& (r matches IngestAction::Ingested(d) ==> exists|c: CommandEvent|
                    command_result_is(Ok(Some(c)), topic@) && d@ == #[trigger] command_text(c))
                &&& exists|c: u128, cmd: CommandEvent|
                    command_result_is(Ok(Some(cmd)), topic@) && #[trigger] ingested(
                        *old(journal),
                        *final(journal),
                        old(state)@,
                        final(state)@,
                        root_append(*final(last_ts), c, Event::Command(cmd)),
                        registry@,
                        limits,
                        *config,
                        action_run_result(r),
                    )
            }
        },
{
    let is_bridge = match bridge_info_topic {
        Some(t) => str_eq(t, topic),
        None => false,
    };
    if is_bridge {
        let read = apply_z2m_bridge_info_payload(bridge, payload);
        proof {
            lemma_grew_refl(*journal);
        }
        return IngestAction::BridgeInfo { read };
    }
    let d = dispatch_mqtt_publish(
        topic,
        payload,
        celsius_millidegrees,
        journal,
        state,
        registry,
        config,
        limits,
        last_ts,
    );
    let ghost dg = d;
    let r = match d {
        Ok(Some(desc)) => IngestAction::Ingested(desc),
        Ok(None) => IngestAction::Skipped,
        Err(e) => IngestAction::Failed(e),
    };
    assert(action_run_result(r) == dispatch_run_result(dg));
    r
}

/// Plain-text contact words: a UTF-8 payload with no boolean `open` or `contact` field whose
/// trimmed, ASCII-lowercased text is `open`, `true` or `1` reads as open; one whose text is
/// `closed`, `close`, `false` or `0` reads as closed.
pub proof fn law_contact_words(payload: Seq<u8>)
    requires
        valid_utf8(payload),
        !(payload_field(payload, "open"@) is Bool),
        !(payload_field(payload, "contact"@) is Bool),
    ensures
        ({
            let l = ascii_lower_seq(payload_text(payload));
            &&& (l == "open"@ || l == "true"@ || l == "1"@) ==> contact_spec(payload) == Ok::<
                bool,
                Seq<char>,
            >(true)
            &&& (l == "closed"@ || l == "close"@ || l == "false"@ || l == "0"@) ==> contact_spec(
                payload,
            ) == Ok::<bool, Seq<char>>(false)
        }),
{
    reveal_strlit("open");
    reveal_strlit("true");
    reveal_strlit("1");
    reveal_strlit("closed");
    reveal_strlit("close");
    reveal_strlit("false");
    reveal_strlit("0");
    let l = ascii_lower_seq(payload_text(payload));
    if l == "closed"@ || l == "close"@ || l == "false"@ || l == "0"@ {
        assert(l != "open"@ && l != "true"@ && l != "1"@) by {
            if l == "0"@ {
                assert(l[0] != "1"@[0]);
            } else {
                assert(l.len() >= 5);
            }
        }
    }
}

/// JSON contact payloads: a boolean `open` field is the state itself; otherwise a boolean
/// `contact` field is its negation (Zigbee2MQTT reports contact as closed).
pub proof fn law_contact_fields(payload: Seq<u8>)
    requires
        valid_utf8(payload),
    ensures
        payload_field(payload, "open"@) matches JsonFieldView::Bool(b) ==> contact_spec(payload)
            == Ok::<bool, Seq<char>>(b),
        payload_field(payload, "contact"@) matches JsonFieldView::Bool(b) ==> (!(payload_field(
            payload,
            "open"@,
        ) is Bool) ==> contact_spec(payload) == Ok::<bool, Seq<char>>(!b)),
{
}

} // verus!

