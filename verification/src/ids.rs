//! UUID handling: the hyphenated text of an identifier, name-based (v5) and random (v4) ids,
//! and the deterministic command id of rules.
use vstd::prelude::*;
use vstd::arithmetic::power::pow;
use crate::text::{concat2, concat3, dec_text, owned, u64_text};

verus! {

/// Lower-case hexadecimal digit for `d < 16`.
pub open spec fn hex_char(d: int) -> char {
    if d < 10 {
        (48 + d) as char
    } else {
        (87 + d) as char
    }
}

/// The `i`-th hexadecimal digit of `v`, most significant first (`0 <= i < 32`).
pub open spec fn nibble(v: u128, i: int) -> int {
    ((v as int) / pow(16, (31 - i) as nat)) % 16
}

/// Which hexadecimal digit the text position `j` of a hyphenated UUID shows.
pub open spec fn hyphenated_digit_index(j: int) -> int {
    if j < 8 {
        j
    } else if j < 13 {
        j - 1
    } else if j < 18 {
        j - 2
    } else if j < 23 {
        j - 3
    } else {
        j - 4
    }
}

/// Hyphenated lower-case text of a UUID (`8-4-4-4-12` hexadecimal digits, big-endian).
pub open spec fn uuid_text(v: u128) -> Seq<char> {
    Seq::new(
        36,
        |j: int|
            if j == 8 || j == 13 || j == 18 || j == 23 {
                '-'
            } else {
                hex_char(nibble(v, hyphenated_digit_index(j)))
            },
    )
}

/// `uuid::Uuid::from_u128(v).hyphenated().to_string()`: the UUID whose big-endian value is `v`,
/// printed as 32 lower-case hexadecimal digits in groups 8-4-4-4-12.
#[verifier::external_body]
pub(crate) fn uuid_hyphenated(v: u128) -> (s: String)
    ensures
        s@ == uuid_text(v),
{
    uuid::Uuid::from_u128(v).hyphenated().to_string()
}

/// The value of `Uuid::new_v5(namespace, name bytes)` (SHA-1 of namespace and UTF-8 name).
pub uninterp spec fn uuid_v5(namespace: u128, name: Seq<char>) -> u128;

/// `uuid::Uuid::new_v5`: name-based UUID of the UTF-8 bytes of `name` in `namespace`.
#[verifier::external_body]
pub(crate) fn new_v5(namespace: u128, name: &str) -> (id: u128)
    ensures
        id == uuid_v5(namespace, name@),
{
    uuid::Uuid::new_v5(&uuid::Uuid::from_u128(namespace), name.as_bytes()).as_u128()
}

/// `uuid::Uuid::new_v4`: a random UUID.
#[verifier::external_body]
pub(crate) fn new_v4() -> (id: u128) {
    uuid::Uuid::new_v4().as_u128()
}

/// Namespace of command ids (changing it changes every persisted command id).
pub const COMMAND_ID_NAMESPACE: u128 = 0x6d3b_e10c_4f5a_6e7b_8c9d_0e1f_2a3b_4c5du128;

/// The unit separator placed between the parts of a command id name.
pub open spec fn unit_sep() -> Seq<char> {
    seq!['\u{1f}']
}

/// The name hashed into a command id: rule, kind, parent sequence (or `none`), causal chain and
/// payload, separated by U+001F.
pub open spec fn command_id_name(
    rule_id: Seq<char>,
    command_kind: Seq<char>,
    parent_sequence: Option<u64>,
    causal_chain_id: u128,
    payload: Seq<char>,
) -> Seq<char> {
    let ps = match parent_sequence {
        Some(s) => dec_text(s as nat),
        None => seq!['n', 'o', 'n', 'e'],
    };
    rule_id + unit_sep() + command_kind + unit_sep() + ps + unit_sep() + uuid_text(causal_chain_id)
        + unit_sep() + payload
}

/// Stable command id derived from rule, trigger and causal context: equal inputs give equal ids.
pub fn deterministic_command_id(
    rule_id: &str,
    command_kind: &str,
    parent_sequence: Option<u64>,
    causal_chain_id: u128,
    payload: &str,
) -> (id: u128)
    ensures
        id == uuid_v5(
            COMMAND_ID_NAMESPACE,
            command_id_name(rule_id@, command_kind@, parent_sequence, causal_chain_id, payload@),
        ),
{
    let ps = match parent_sequence {
        Some(s) => u64_text(s),
        None => owned("none"),
    };
    proof {
        reveal_strlit("none");
        reveal_strlit("\u{1f}");
    }
    let sep = "\u{1f}";
    let causal = uuid_hyphenated(causal_chain_id);
    let a = concat3(rule_id, sep, command_kind);
    let b = concat3(a.as_str(), sep, ps.as_str());
    let c = concat3(b.as_str(), sep, causal.as_str());
    let name = concat3(c.as_str(), sep, payload);
    assert(sep@ =~= unit_sep());
    assert(ps@ == match parent_sequence {
        Some(s) => dec_text(s as nat),
        None => seq!['n', 'o', 'n', 'e'],
    });
    assert(name@ =~= command_id_name(
        rule_id@,
        command_kind@,
        parent_sequence,
        causal_chain_id,
        payload@,
    ));
    new_v5(COMMAND_ID_NAMESPACE, name.as_str())
}

} // verus!
