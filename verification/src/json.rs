//! JSON payloads as the library reads them: a document parsed by `serde_json`, and the scalar
//! found under one key of its top-level object.
use vstd::prelude::*;

verus! {

#[verifier::external_type_specification]
#[verifier::external_body]
pub struct ExJsonValue(serde_json::Value);

/// A parsed JSON document, with the bytes it was parsed from.
pub struct JsonDoc {
    value: serde_json::Value,
    source: Vec<u8>,
}

impl View for JsonDoc {
    type V = Seq<u8>;

    /// The bytes the document was parsed from.
    closed spec fn view(&self) -> Seq<u8> {
        self.source@
    }
}

/// What one key of a document's top-level object holds.
#[derive(PartialEq, Eq, Debug, Clone)]
pub enum JsonField {
    /// The document is not an object, or has no such key.
    Absent,
    Null,
    Bool(bool),
    /// A number that fits in `i64`.
    Int(i64),
    /// Any other number (fractional, or too large for `i64`), as its JSON text.
    Number(String),
    Text(String),
    /// An array or an object.
    Compound,
}

/// Spec-level form of [`JsonField`].
pub enum JsonFieldView {
    Absent,
    Null,
    Bool(bool),
    Int(i64),
    Number(Seq<char>),
    Text(Seq<char>),
    Compound,
}

impl View for JsonField {
    type V = JsonFieldView;

    open spec fn view(&self) -> JsonFieldView {
        match self {
            JsonField::Absent => JsonFieldView::Absent,
            JsonField::Null => JsonFieldView::Null,
            JsonField::Bool(b) => JsonFieldView::Bool(*b),
            JsonField::Int(i) => JsonFieldView::Int(*i),
            JsonField::Number(s) => JsonFieldView::Number(s@),
            JsonField::Text(s) => JsonFieldView::Text(s@),
            JsonField::Compound => JsonFieldView::Compound,
        }
    }
}

/// Whether `serde_json::from_slice::<Value>` accepts these bytes.
pub uninterp spec fn json_parses(bytes: Seq<u8>) -> bool;

/// What `Value::get(key)` finds in the document parsed from `bytes`, classified as a
/// [`JsonFieldView`].
pub uninterp spec fn json_field_of(bytes: Seq<u8>, key: Seq<char>) -> JsonFieldView;

/// `serde_json::from_slice::<serde_json::Value>`: `Some` exactly when the bytes are one JSON
/// value; the document keeps the bytes as its view.
#[verifier::external_body]
pub(crate) fn parse_json(bytes: &[u8]) -> (r: Option<JsonDoc>)
    ensures
        r is Some <==> json_parses(bytes@),
        r matches Some(d) ==> d@ == bytes@,
{
    match serde_json::from_slice::<serde_json::Value>(bytes) {
        Ok(value) => Some(JsonDoc { value, source: bytes.to_vec() }),
        Err(_) => None,
    }
}

/// `Value::get(key)` on the document, with the value found told apart by variant (a number by
/// `Number::as_i64`, else its `Display` text).
#[verifier::external_body]
pub(crate) fn json_field(doc: &JsonDoc, key: &str) -> (r: JsonField)
    ensures
        r@ == json_field_of(doc@, key@),
{
    match doc.value.get(key) {
        None => JsonField::Absent,
        Some(serde_json::Value::Null) => JsonField::Null,
        Some(serde_json::Value::Bool(b)) => JsonField::Bool(*b),
        Some(serde_json::Value::Number(n)) => match n.as_i64() {
            Some(i) => JsonField::Int(i),
            None => JsonField::Number(n.to_string()),
        },
        Some(serde_json::Value::String(s)) => JsonField::Text(s.clone()),
        Some(_) => JsonField::Compound,
    }
}

/// What the document parsed from `bytes` holds under `key`; `Absent` when `bytes` is no JSON.
pub open spec fn field_in(bytes: Seq<u8>, key: Seq<char>) -> JsonFieldView {
    if json_parses(bytes) {
        json_field_of(bytes, key)
    } else {
        JsonFieldView::Absent
    }
}

/// The field `key` of the JSON text `bytes`; `Absent` when the text does not parse.
pub fn field_of_text(bytes: &[u8], key: &str) -> (r: JsonField)
    ensures
        r@ == field_in(bytes@, key@),
{
    match parse_json(bytes) {
        Some(doc) => json_field(&doc, key),
        None => JsonField::Absent,
    }
}

} // verus!
