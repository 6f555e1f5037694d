//! State snapshots: the projection at a journal sequence, with an FNV-1a fingerprint of the
//! state's JSON encoding (the encoding itself is written by the caller).
use vstd::prelude::*;
use crate::error::JournalError;
use crate::state::State;
use crate::text::owned;

verus! {

/// FNV-1a 64-bit offset basis.
pub const FNV_OFFSET: u64 = 14695981039346656037;

/// FNV-1a 64-bit prime.
pub const FNV_PRIME: u64 = 1099511628211;

/// One FNV-1a step: xor the byte in, then multiply by the prime modulo 2^64.
pub open spec fn fnv_step(h: u64, b: u8) -> u64 {
    (((h ^ (b as u64)) as nat * FNV_PRIME as nat) % 0x1_0000_0000_0000_0000nat) as u64
}

/// FNV-1a 64 of a byte string.
pub open spec fn fnv1a64_spec(data: Seq<u8>) -> u64
    decreases data.len(),
{
    if data.len() == 0 {
        FNV_OFFSET
    } else {
        fnv_step(fnv1a64_spec(data.drop_last()), data.last())
    }
}

/// FNV-1a 64 of `data`.
pub fn fnv1a64(data: &[u8]) -> (h: u64)
    ensures
        h == fnv1a64_spec(data@),
{
    let mut h: u64 = FNV_OFFSET;
    let mut i: usize = 0;
    assert(data@.take(0) =~= Seq::<u8>::empty());
    while i < data.len()
        invariant
            i <= data@.len(),
            h == fnv1a64_spec(data@.take(i as int)),
        decreases data.len() - i,
    {
        let b = data[i];
        assert(data@.take(i + 1).drop_last() =~= data@.take(i as int));
        assert(data@.take(i + 1).last() == b);
        h = h ^ (b as u64);
        h = h.wrapping_mul(FNV_PRIME);
        i = i + 1;
    }
    assert(data@.take(data@.len() as int) =~= data@);
    h
}

/// A projection at a journal sequence.
pub struct Snapshot {
    pub schema_version: u32,
    pub last_sequence: u64,
    pub state: State,
    /// FNV-1a 64 of the state's JSON encoding.
    pub state_hash: u64,
    pub rules_digest: String,
}

impl Snapshot {
    /// A snapshot of `state`, fingerprinted from `state_json`, its JSON encoding.
    pub fn from_state(
        schema_version: u32,
        last_sequence: u64,
        state: &State,
        state_json: &[u8],
        rules_digest: &str,
    ) -> (s: Self)
        ensures
            s.schema_version == schema_version,
            s.last_sequence == last_sequence,
            s.state@ == state@,
            s.state_hash == fnv1a64_spec(state_json@),
            s.rules_digest@ == rules_digest@,
    {
        Snapshot {
            schema_version,
            last_sequence,
            state: state.clone(),
            state_hash: fnv1a64(state_json),
            rules_digest: owned(rules_digest),
        }
    }

    /// Whether the stored fingerprint is that of `state_json`, the encoding of `self.state`.
    pub fn verify_hash(&self, state_json: &[u8]) -> (r: bool)
        ensures
            r == (self.state_hash == fnv1a64_spec(state_json@)),
    {
        self.state_hash == fnv1a64(state_json)
    }

    /// Accepts a snapshot read back from disk when its fingerprint matches `state_json`, the
    /// encoding of its state; otherwise the snapshot is corrupt.
    pub fn check_loaded(self, state_json: &[u8]) -> (r: Result<Snapshot, JournalError>)
        ensures
            self.state_hash == fnv1a64_spec(state_json@) ==> r == Ok::<Snapshot, JournalError>(
                self,
            ),
            self.state_hash != fnv1a64_spec(state_json@) ==> (r matches Err(
                JournalError::Corrupt { line, message },
            ) && line == 0 && message@ == "snapshot state_hash mismatch"@),
    {
        if !self.verify_hash(state_json) {
            proof {
                reveal_strlit("snapshot state_hash mismatch");
            }
            return Err(
                JournalError::Corrupt { line: 0, message: owned("snapshot state_hash mismatch") },
            );
        }
        Ok(self)
    }
}

} // verus!
