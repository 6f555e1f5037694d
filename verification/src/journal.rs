//! The journal: canonical line shape, schema range, append with sequencing, timestamp gate and
//! command de-duplication, opening from loaded lines, ordering, and replay.
use vstd::prelude::*;
use std::collections::BTreeSet;
use crate::error::{ApplyErrorView, JournalError, JournalSchemaError, RunError};
use crate::event::{command_id_of, CommandEvent, Event, FactEvent};
use crate::reducer::{apply_event, apply_spec};
use crate::state::{empty_model, State, StateModel};
use crate::text::{chars_of, concat2, concat3, texts, trim, trim_ws};

verus! {

broadcast use vstd::std_specs::btree::group_btree_axioms;

/// Whether `id` is in the set of command ids.
fn id_known(ids: &BTreeSet<u128>, id: u128) -> (r: bool)
    ensures
        r == ids@.contains(id),
{
    broadcast use vstd::laws_cmp::group_laws_cmp;

    ids.contains(&id)
}

/// Adds `id` to the set of command ids.
fn note_id(ids: &mut BTreeSet<u128>, id: u128)
    ensures
        final(ids)@ == old(ids)@.insert(id),
{
    broadcast use vstd::laws_cmp::group_laws_cmp;

    ids.insert(id);
}

/// Schema written by this build on append.
pub const SCHEMA_VERSION: u32 = 4;

/// Lowest `schema_version` accepted on load (inclusive).
pub const MIN_SUPPORTED_JOURNAL_SCHEMA: u32 = 2;

/// Whether a persisted line's `schema_version` is supported (inclusive range).
pub fn journal_schema_supported(version: u32) -> (r: bool)
    ensures
        r == (MIN_SUPPORTED_JOURNAL_SCHEMA <= version <= SCHEMA_VERSION),
{
    MIN_SUPPORTED_JOURNAL_SCHEMA <= version && version <= SCHEMA_VERSION
}

/// One journal line: metadata and the flattened event.
#[derive(PartialEq, Eq, Debug)]
pub struct JournalEntry {
    pub schema_version: u32,
    pub timestamp: i64,
    pub sequence: u64,
    pub event_id: Option<u128>,
    pub causal_chain_id: u128,
    pub parent_sequence: Option<u64>,
    pub parent_event_id: Option<u128>,
    pub rule_id: Option<String>,
    pub correlation_id: Option<u128>,
    pub trace_id: Option<u128>,
    pub event: Event,
}

impl Clone for JournalEntry {
    fn clone(&self) -> (r: Self)
        ensures
            r == *self,
    {
        JournalEntry {
            schema_version: self.schema_version,
            timestamp: self.timestamp,
            sequence: self.sequence,
            event_id: self.event_id,
            causal_chain_id: self.causal_chain_id,
            parent_sequence: self.parent_sequence,
            parent_event_id: self.parent_event_id,
            rule_id: match &self.rule_id {
                Some(r) => Some(r.clone()),
                None => None,
            },
            correlation_id: self.correlation_id,
            trace_id: self.trace_id,
            event: self.event.clone(),
        }
    }
}

/// Whether `a` comes no later than `b` in journal order `(timestamp, sequence)`.
pub open spec fn key_le(a: JournalEntry, b: JournalEntry) -> bool {
    a.timestamp < b.timestamp || (a.timestamp == b.timestamp && a.sequence <= b.sequence)
}

impl JournalEntry {
    /// Journal order key.
    pub fn sort_key(&self) -> (k: (i64, u64))
        ensures
            k == (self.timestamp, self.sequence),
    {
        (self.timestamp, self.sequence)
    }

    /// Rejects lines from unsupported journal eras.
    pub fn validate_supported_schema(&self) -> (r: Result<(), JournalSchemaError>)
        ensures
            r is Ok <==> MIN_SUPPORTED_JOURNAL_SCHEMA <= self.schema_version <= SCHEMA_VERSION,
            r matches Err(e) ==> e == (JournalSchemaError::UnsupportedVersion {
                found: self.schema_version,
                min: MIN_SUPPORTED_JOURNAL_SCHEMA,
                max: SCHEMA_VERSION,
            }),
    {
        if journal_schema_supported(self.schema_version) {
            Ok(())
        } else {
            Err(
                JournalSchemaError::UnsupportedVersion {
                    found: self.schema_version,
                    min: MIN_SUPPORTED_JOURNAL_SCHEMA,
                    max: SCHEMA_VERSION,
                },
            )
        }
    }
}

/// Parameters of an append (the journal chooses `sequence` and `schema_version`).
#[derive(PartialEq, Eq, Debug)]
pub struct JournalAppend {
    pub timestamp: i64,
    pub causal_chain_id: u128,
    pub parent_sequence: Option<u64>,
    pub parent_event_id: Option<u128>,
    pub rule_id: Option<String>,
    pub event_id: Option<u128>,
    pub correlation_id: Option<u128>,
    pub trace_id: Option<u128>,
    pub event: Event,
}

impl Clone for JournalAppend {
    fn clone(&self) -> (r: Self)
        ensures
            r == *self,
    {
        JournalAppend {
            timestamp: self.timestamp,
            causal_chain_id: self.causal_chain_id,
            parent_sequence: self.parent_sequence,
            parent_event_id: self.parent_event_id,
            rule_id: match &self.rule_id {
                Some(r) => Some(r.clone()),
                None => None,
            },
            event_id: self.event_id,
            correlation_id: self.correlation_id,
            trace_id: self.trace_id,
            event: self.event.clone(),
        }
    }
}

/// The line an append commits at `sequence`.
pub open spec fn entry_of(a: JournalAppend, sequence: u64) -> JournalEntry {
    JournalEntry {
        schema_version: SCHEMA_VERSION,
        timestamp: a.timestamp,
        sequence,
        event_id: a.event_id,
        causal_chain_id: a.causal_chain_id,
        parent_sequence: a.parent_sequence,
        parent_event_id: a.parent_event_id,
        rule_id: a.rule_id,
        correlation_id: a.correlation_id,
        trace_id: a.trace_id,
        event: a.event,
    }
}

/// Result of an append: a committed line, or nothing because the command was already journaled.
#[derive(PartialEq, Eq, Debug)]
pub enum JournalAppendOutcome {
    Committed(JournalEntry),
    DuplicateCommandSkipped { command_id: u128 },
}

impl JournalAppendOutcome {
    /// The committed line (the outcome must be `Committed`).
    pub fn expect_committed(self) -> (e: JournalEntry)
        requires
            self is Committed,
        ensures
            self == JournalAppendOutcome::Committed(e),
    {
        match self {
            JournalAppendOutcome::Committed(e) => e,
            JournalAppendOutcome::DuplicateCommandSkipped { .. } => unreached(),
        }
    }
}

// ------------------------------------------------------------------ journal model

/// Sequence numbers are `0, 1, 2, …`.
pub open spec fn contiguous(s: Seq<JournalEntry>) -> bool {
    forall|i: int| 0 <= i < s.len() ==> (#[trigger] s[i]).sequence == i
}

/// Largest timestamp of the lines, if any.
pub open spec fn max_timestamp(s: Seq<JournalEntry>) -> Option<i64>
    decreases s.len(),
{
    if s.len() == 0 {
        None
    } else {
        match max_timestamp(s.drop_last()) {
            None => Some(s.last().timestamp),
            Some(t) => Some(if t >= s.last().timestamp {
                t
            } else {
                s.last().timestamp
            }),
        }
    }
}

/// The ids of the commands the lines hold.
pub open spec fn command_ids(s: Seq<JournalEntry>) -> Set<u128>
    decreases s.len(),
{
    if s.len() == 0 {
        Set::empty()
    } else {
        let r = command_ids(s.drop_last());
        match s.last().event {
            Event::Command(c) => r.insert(command_id_of(c)),
            _ => r,
        }
    }
}

/// Journal index, with the lines committed so far (as a model) and the committed lines that the
/// caller has not yet written out.
pub struct Journal {
    /// `None` while the journal is empty (the first append accepts any timestamp).
    pub last_timestamp_committed: Option<i64>,
    pub next_sequence: u64,
    /// Whether the writer syncs the file after each line.
    pub fsync_after_append: bool,
    /// Ids of the commands already journaled.
    pub seen_command_ids: BTreeSet<u128>,
    /// Committed lines not yet handed to the writer, oldest first.
    pub pending: Vec<JournalEntry>,
    /// Every committed line, in sequence order.
    pub lines: Ghost<Seq<JournalEntry>>,
}

impl Journal {
    /// The index agrees with the lines.
    pub open spec fn wf(&self) -> bool {
        &&& self.lines@.len() == self.next_sequence
        &&& contiguous(self.lines@)
        &&& self.last_timestamp_committed == max_timestamp(self.lines@)
        &&& self.seen_command_ids@ == command_ids(self.lines@)
        &&& self.pending@.len() <= self.lines@.len()
        &&& self.pending@ == self.lines@.skip(self.lines@.len() - self.pending@.len())
    }

    /// An empty journal.
    pub fn new() -> (j: Self)
        ensures
            j.wf(),
            j.lines@ == Seq::<JournalEntry>::empty(),
            j.pending@.len() == 0,
            !j.fsync_after_append,
    {
        let j = Journal {
            last_timestamp_committed: None,
            next_sequence: 0,
            fsync_after_append: false,
            seen_command_ids: BTreeSet::new(),
            pending: Vec::new(),
            lines: Ghost(Seq::empty()),
        };
        assert(j.seen_command_ids@ =~= Set::<u128>::empty());
        assert(j.lines@.skip(0) =~= j.pending@);
        j
    }

    /// Whether the command id `id` is already journaled.
    pub fn seen(&self, id: u128) -> (r: bool)
        ensures
            r == self.seen_command_ids@.contains(id),
    {
        id_known(&self.seen_command_ids, id)
    }

    /// Whether `a` is a command whose id is already journaled.
    pub open spec fn is_duplicate(&self, a: JournalAppend) -> bool {
        match a.event {
            Event::Command(c) => self.seen_command_ids@.contains(command_id_of(c)),
            _ => false,
        }
    }

    /// Whether `a`'s timestamp is below the last committed one.
    pub open spec fn regresses(&self, a: JournalAppend) -> bool {
        match self.last_timestamp_committed {
            Some(lt) => a.timestamp < lt,
            None => false,
        }
    }

    /// Appends a line with the next sequence number. A command whose id is already journaled is
    /// skipped; a timestamp below the last committed one is refused. A line is committed only
    /// while the sequence space lasts.
    pub fn append(&mut self, a: JournalAppend) -> (r: Result<JournalAppendOutcome, JournalError>)
        requires
            old(self).wf(),
            old(self).next_sequence < u64::MAX || old(self).is_duplicate(a) || old(self).regresses(a),
        ensures
            final(self).wf(),
            final(self).fsync_after_append == old(self).fsync_after_append,
            old(self).is_duplicate(a) ==> r == Ok::<JournalAppendOutcome, JournalError>(
                JournalAppendOutcome::DuplicateCommandSkipped {
                    command_id: command_id_of(a.event->Command_0),
                },
            ) && *final(self) == *old(self),
            !old(self).is_duplicate(a) && old(self).regresses(a) ==> r == Err::<
                JournalAppendOutcome,
                JournalError,
            >(
                JournalError::TimestampRegressed {
                    ts: a.timestamp,
                    last: old(self).last_timestamp_committed->Some_0,
                },
            ) && *final(self) == *old(self),
            !old(self).is_duplicate(a) && !old(self).regresses(a) ==> {
                &&& r == Ok::<JournalAppendOutcome, JournalError>(
                    JournalAppendOutcome::Committed(entry_of(a, old(self).next_sequence)),
                )
                &&& final(self).lines@ == old(self).lines@.push(entry_of(a, old(self).next_sequence))
                &&& final(self).pending@ == old(self).pending@.push(
                    entry_of(a, old(self).next_sequence),
                )
            },
    {
        match &a.event {
            Event::Command(cmd) => {
                let id = cmd.command_id();
                if self.seen(id) {
                    return Ok(JournalAppendOutcome::DuplicateCommandSkipped { command_id: id });
                }
            },
            _ => {},
        }
        match self.last_timestamp_committed {
            Some(lt) => {
                if a.timestamp < lt {
                    return Err(JournalError::TimestampRegressed { ts: a.timestamp, last: lt });
                }
            },
            None => {},
        }
        let ghost old_lines = self.lines@;
        let ghost old_pending = self.pending@;
        let sequence = self.next_sequence;
        self.next_sequence = self.next_sequence + 1;
        self.last_timestamp_committed = match self.last_timestamp_committed {
            Some(t) => Some(
                if t >= a.timestamp {
                    t
                } else {
                    a.timestamp
                },
            ),
            None => Some(a.timestamp),
        };
        let command_id: Option<u128> = match &a.event {
            Event::Command(cmd) => Some(cmd.command_id()),
            _ => None,
        };
        let entry = JournalEntry {
            schema_version: SCHEMA_VERSION,
            timestamp: a.timestamp,
            sequence,
            event_id: a.event_id,
            causal_chain_id: a.causal_chain_id,
            parent_sequence: a.parent_sequence,
            parent_event_id: a.parent_event_id,
            rule_id: a.rule_id,
            correlation_id: a.correlation_id,
            trace_id: a.trace_id,
            event: a.event,
        };
        match command_id {
            Some(id) => {
                note_id(&mut self.seen_command_ids, id);
            },
            None => {},
        }
        let ghost new_lines = old_lines.push(entry);
        self.lines = Ghost(new_lines);
        self.pending.push(entry.clone());
        proof {
            assert(new_lines.drop_last() =~= old_lines);
            assert(contiguous(new_lines)) by {
                assert forall|i: int| 0 <= i < new_lines.len() implies (
                #[trigger] new_lines[i]).sequence == i by {
                    if i < old_lines.len() {
                        assert(new_lines[i] == old_lines[i]);
                    }
                }
            }
            assert(self.seen_command_ids@ =~= command_ids(new_lines));
            assert(self.pending@ =~= new_lines.skip(new_lines.len() - self.pending@.len()));
        }
        Ok(JournalAppendOutcome::Committed(entry))
    }

    /// Hands the committed lines not yet written out to the caller, oldest first.
    pub fn take_pending(&mut self) -> (p: Vec<JournalEntry>)
        requires
            old(self).wf(),
        ensures
            final(self).wf(),
            p@ == old(self).pending@,
            final(self).pending@.len() == 0,
            final(self).lines@ == old(self).lines@,
            final(self).next_sequence == old(self).next_sequence,
            final(self).last_timestamp_committed == old(self).last_timestamp_committed,
            final(self).seen_command_ids@ == old(self).seen_command_ids@,
            final(self).fsync_after_append == old(self).fsync_after_append,
    {
        let mut p: Vec<JournalEntry> = Vec::new();
        std::mem::swap(&mut p, &mut self.pending);
        assert(self.lines@.skip(self.lines@.len() as int) =~= self.pending@);
        p
    }

    /// Enables syncing the file after each line.
    pub fn set_fsync_after_append(&mut self, enabled: bool)
        ensures
            final(self).fsync_after_append == enabled,
            final(self).last_timestamp_committed == old(self).last_timestamp_committed,
            final(self).next_sequence == old(self).next_sequence,
            final(self).seen_command_ids == old(self).seen_command_ids,
            final(self).pending == old(self).pending,
            final(self).lines == old(self).lines,
    {
        self.fsync_after_append = enabled;
    }
}

// ------------------------------------------------------------------ opening and ordering

/// The first line whose sequence number is out of place, as an error.
pub open spec fn gap_error(s: Seq<JournalEntry>, i: int) -> JournalError {
    JournalError::SequenceMismatch { line: (i + 1) as usize, expected: i as u64, found: s[i].sequence }
}

/// `i` is the first position whose sequence number is not `i`.
pub open spec fn first_gap(s: Seq<JournalEntry>, i: int) -> bool {
    &&& 0 <= i < s.len()
    &&& s[i].sequence != i
    &&& forall|j: int| 0 <= j < i ==> (#[trigger] s[j]).sequence == j
}

/// Checks that sequence numbers are `0, 1, 2, …` in order.
pub fn verify_contiguous_sequence(entries: &[JournalEntry]) -> (r: Result<(), JournalError>)
    ensures
        r is Ok <==> contiguous(entries@),
        r matches Err(e) ==> exists|i: int| first_gap(entries@, i) && e == gap_error(entries@, i),
{
    let mut i: usize = 0;
    while i < entries.len()
        invariant
            i <= entries@.len(),
            forall|j: int| 0 <= j < i ==> (#[trigger] entries@[j]).sequence == j,
        decreases entries.len() - i,
    {
        let expected = i as u64;
        if entries[i].sequence != expected {
            let e = JournalError::SequenceMismatch {
                line: i + 1,
                expected,
                found: entries[i].sequence,
            };
            assert(first_gap(entries@, i as int));
            return Err(e);
        }
        i = i + 1;
    }
    Ok(())
}

impl Journal {
    /// Opens a journal from its loaded, ordered lines (none when the file does not exist):
    /// the sequence must be contiguous; the index is rebuilt from the lines.
    pub fn open(entries: Vec<JournalEntry>) -> (r: Result<Journal, JournalError>)
        ensures
            r is Ok <==> contiguous(entries@),
            r matches Err(e) ==> exists|i: int| first_gap(entries@, i) && e == gap_error(entries@, i),
            r matches Ok(j) ==> {
                &&& j.wf()
                &&& j.lines@ == entries@
                &&& j.next_sequence == entries@.len()
                &&& j.last_timestamp_committed == max_timestamp(entries@)
                &&& j.seen_command_ids@ == command_ids(entries@)
                &&& j.pending@.len() == 0
                &&& !j.fsync_after_append
            },
    {
        match verify_contiguous_sequence(entries.as_slice()) {
            Ok(()) => {},
            Err(e) => {
                return Err(e);
            },
        }
        let mut last_ts: Option<i64> = None;
        let mut seen: BTreeSet<u128> = BTreeSet::new();
        let mut i: usize = 0;
        assert(entries@.take(0) =~= Seq::<JournalEntry>::empty());
        while i < entries.len()
            invariant
                i <= entries@.len(),
                last_ts == max_timestamp(entries@.take(i as int)),
                seen@ == command_ids(entries@.take(i as int)),
            decreases entries.len() - i,
        {
            let ghost pre = entries@.take(i as int);
            assert(entries@.take(i + 1).drop_last() =~= pre);
            let ts = entries[i].timestamp;
            last_ts = match last_ts {
                Some(t) => Some(
                    if t >= ts {
                        t
                    } else {
                        ts
                    },
                ),
                None => Some(ts),
            };
            match &entries[i].event {
                Event::Command(cmd) => {
                    let id = cmd.command_id();
                    note_id(&mut seen, id);
                },
                _ => {},
            }
            i = i + 1;
        }
        assert(entries@.take(entries@.len() as int) =~= entries@);
        let n = entries.len() as u64;
        let j = Journal {
            last_timestamp_committed: last_ts,
            next_sequence: n,
            fsync_after_append: false,
            seen_command_ids: seen,
            pending: Vec::new(),
            lines: Ghost(entries@),
        };
        assert(j.lines@.skip(j.lines@.len() as int) =~= j.pending@);
        Ok(j)
    }
}

/// One non-empty line of the journal file as read: a parsed entry, or a parse failure.
#[derive(PartialEq, Eq, Debug)]
pub enum ParsedLine {
    Entry { line: usize, entry: JournalEntry },
    Corrupt { line: usize, message: String },
}

/// Why a read line is refused, if it is.
pub open spec fn line_error(p: ParsedLine) -> Option<JournalError> {
    match p {
        ParsedLine::Corrupt { line, message } => Some(JournalError::Corrupt { line, message }),
        ParsedLine::Entry { line, entry } => if MIN_SUPPORTED_JOURNAL_SCHEMA <= entry.schema_version
            <= SCHEMA_VERSION {
            None
        } else {
            Some(
                JournalError::UnsupportedSchemaVersion {
                    line,
                    found: entry.schema_version,
                    min: MIN_SUPPORTED_JOURNAL_SCHEMA,
                    max: SCHEMA_VERSION,
                },
            )
        },
    }
}

/// `i` is the first refused line.
pub open spec fn first_bad_line(s: Seq<ParsedLine>, i: int) -> bool {
    &&& 0 <= i < s.len()
    &&& line_error(s[i]) is Some
    &&& forall|j: int| 0 <= j < i ==> line_error(#[trigger] s[j]) is None
}

/// The entry of a parsed line.
pub open spec fn line_entry(p: ParsedLine) -> JournalEntry {
    p->entry
}

/// `e` inserted into `s` after every element that does not come after it.
pub open spec fn insert_sorted(s: Seq<JournalEntry>, e: JournalEntry) -> Seq<JournalEntry>
    decreases s.len(),
{
    if s.len() == 0 {
        seq![e]
    } else if key_le(s.last(), e) {
        s.push(e)
    } else {
        insert_sorted(s.drop_last(), e).push(s.last())
    }
}

/// Stable ordering of lines by `(timestamp, sequence)`.
pub open spec fn sort_spec(s: Seq<JournalEntry>) -> Seq<JournalEntry>
    decreases s.len(),
{
    if s.len() == 0 {
        s
    } else {
        insert_sorted(sort_spec(s.drop_last()), s.last())
    }
}

/// Lines in journal order.
pub open spec fn sorted_by_key(s: Seq<JournalEntry>) -> bool {
    forall|i: int, j: int| 0 <= i < j < s.len() ==> key_le(#[trigger] s[i], #[trigger] s[j])
}

/// Stable sort of lines by `(timestamp, sequence)`.
pub fn sort_entries(v: Vec<JournalEntry>) -> (r: Vec<JournalEntry>)
    ensures
        r@ == sort_spec(v@),
{
    let mut res: Vec<JournalEntry> = Vec::new();
    let mut i: usize = 0;
    assert(v@.take(0) =~= Seq::<JournalEntry>::empty());
    while i < v.len()
        invariant
            i <= v@.len(),
            res@ == sort_spec(v@.take(i as int)),
        decreases v.len() - i,
    {
        let e = v[i].clone();
        let ghost s = res@;
        let mut j: usize = res.len();
        assert(s.take(s.len() as int) =~= s);
        assert(s.skip(s.len() as int) =~= Seq::<JournalEntry>::empty());
        while j > 0 && !(res[j - 1].timestamp < e.timestamp || (res[j - 1].timestamp == e.timestamp
            && res[j - 1].sequence <= e.sequence))
            invariant
                j <= res@.len(),
                res@ == s,
                insert_sorted(s, e) == insert_sorted(s.take(j as int), e) + s.skip(j as int),
            decreases j,
        {
            let ghost t = s.take(j as int);
            assert(t.drop_last() =~= s.take(j - 1));
            assert(t.last() == s[j - 1]);
            assert(insert_sorted(t, e) == insert_sorted(s.take(j - 1), e).push(s[j - 1]));
            assert(insert_sorted(s.take(j - 1), e).push(s[j - 1]) + s.skip(j as int)
                =~= insert_sorted(s.take(j - 1), e) + s.skip(j - 1));
            j = j - 1;
        }
        proof {
            let t = s.take(j as int);
            if j > 0 {
                assert(t.last() == s[j - 1]);
            }
            assert(insert_sorted(t, e) =~= t.push(e));
        }
        res.insert(j, e);
        assert(res@ =~= s.take(j as int).push(e) + s.skip(j as int));
        assert(v@.take(i + 1).drop_last() =~= v@.take(i as int));
        i = i + 1;
    }
    assert(v@.take(v@.len() as int) =~= v@);
    res
}

/// Validates the read lines (in file order: the first bad line decides the error) and returns
/// the entries ordered by `(timestamp, sequence)`.
pub fn load_and_sort(lines: &Vec<ParsedLine>) -> (r: Result<Vec<JournalEntry>, JournalError>)
    ensures
        r matches Ok(v) ==> (forall|i: int| 0 <= i < lines@.len() ==> line_error(#[trigger] lines@[i])
            is None) && v@ == sort_spec(lines@.map_values(|p: ParsedLine| line_entry(p))),
        r matches Err(e) ==> exists|i: int| first_bad_line(lines@, i) && line_error(lines@[i]) == Some(e),
{
    let ghost all = lines@;
    let mut entries: Vec<JournalEntry> = Vec::new();
    let mut i: usize = 0;
    while i < lines.len()
        invariant
            i <= all.len(),
            all == lines@,
            entries@ == all.take(i as int).map_values(|p: ParsedLine| line_entry(p)),
            forall|j: int| 0 <= j < i ==> line_error(#[trigger] all[j]) is None,
        decreases lines.len() - i,
    {
        match &lines[i] {
            ParsedLine::Corrupt { line, message } => {
                let e = JournalError::Corrupt { line: *line, message: message.clone() };
                assert(line_error(all[i as int]) == Some(e));
                assert(first_bad_line(all, i as int));
                return Err(e);
            },
            ParsedLine::Entry { line, entry } => {
                if !journal_schema_supported(entry.schema_version) {
                    let e = JournalError::UnsupportedSchemaVersion {
                        line: *line,
                        found: entry.schema_version,
                        min: MIN_SUPPORTED_JOURNAL_SCHEMA,
                        max: SCHEMA_VERSION,
                    };
                    assert(line_error(all[i as int]) == Some(e));
                    assert(first_bad_line(all, i as int));
                    return Err(e);
                }
                entries.push(entry.clone());
            },
        }
        assert(all.take(i + 1) =~= all.take(i as int).push(all[i as int]));
        assert(all.take(i + 1).map_values(|p: ParsedLine| line_entry(p)) =~= all.take(
            i as int,
        ).map_values(|p: ParsedLine| line_entry(p)).push(line_entry(all[i as int])));
        i = i + 1;
    }
    assert(all.take(all.len() as int) =~= all);
    Ok(sort_entries(entries))
}

// ------------------------------------------------------------------ replay

/// The projection after the facts of `s`, in order, starting from `m` (commands, observations
/// and audit lines are ignored).
pub open spec fn replay_spec(m: StateModel, s: Seq<JournalEntry>) -> Result<StateModel, ApplyErrorView>
    decreases s.len(),
{
    if s.len() == 0 {
        Ok(m)
    } else {
        match replay_spec(m, s.drop_last()) {
            Err(e) => Err(e),
            Ok(m2) => match s.last().event {
                Event::Fact(f) => apply_spec(m2, f),
                _ => Ok(m2),
            },
        }
    }
}

/// Replay: the projection from an empty state after every fact of the journal, in order.
/// The sequence numbers must be contiguous.
pub fn replay_state(entries: &Vec<JournalEntry>) -> (r: Result<State, RunError>)
    ensures
        !contiguous(entries@) <==> r matches Err(RunError::Journal(_)),
        r matches Err(RunError::Journal(m)) ==> exists|i: int|
            first_gap(entries@, i) && m@ == crate::error::journal_error_message(gap_error(entries@, i)),
        contiguous(entries@) ==> match r {
            Ok(s) => s.wf() && replay_spec(empty_model(), entries@) == Ok::<
                StateModel,
                ApplyErrorView,
            >(s@),
            Err(RunError::Apply(e)) => replay_spec(empty_model(), entries@) == Err::<
                StateModel,
                ApplyErrorView,
            >(e@),
            Err(_) => false,
        },
{
    match verify_contiguous_sequence(entries.as_slice()) {
        Ok(()) => {},
        Err(e) => {
            return Err(RunError::Journal(e.message()));
        },
    }
    let mut state = State::new();
    let mut i: usize = 0;
    while i < entries.len()
        invariant
            i <= entries@.len(),
            contiguous(entries@),
            state.wf(),
            replay_spec(empty_model(), entries@.take(i as int)) == Ok::<StateModel, ApplyErrorView>(
                state@,
            ),
        decreases entries.len() - i,
    {
        assert(entries@.take(i + 1).drop_last() =~= entries@.take(i as int));
        match &entries[i].event {
            Event::Fact(f) => {
                match apply_event(&state, f) {
                    Ok(next) => {
                        state = next;
                    },
                    Err(e) => {
                        proof {
                            lemma_replay_error_persists(empty_model(), entries@, i + 1);
                        }
                        return Err(RunError::Apply(e));
                    },
                }
            },
            _ => {},
        }
        i = i + 1;
    }
    assert(entries@.take(entries@.len() as int) =~= entries@);
    Ok(state)
}

/// Once a prefix of the journal fails to replay, the whole journal fails with the same error.
pub proof fn lemma_replay_error_persists(m: StateModel, s: Seq<JournalEntry>, k: int)
    requires
        0 <= k <= s.len(),
        replay_spec(m, s.take(k)) is Err,
    ensures
        replay_spec(m, s) == replay_spec(m, s.take(k)),
    decreases s.len() - k,
{
    if k < s.len() {
        assert(s.take(k + 1).drop_last() =~= s.take(k));
        lemma_replay_error_persists(m, s, k + 1);
    } else {
        assert(s.take(k) =~= s);
    }
}

// ------------------------------------------------------------------ laws

proof fn lemma_insert_sorted_elements(s: Seq<JournalEntry>, e: JournalEntry)
    ensures
        insert_sorted(s, e).len() == s.len() + 1,
        insert_sorted(s, e).to_multiset() == s.to_multiset().insert(e),
        forall|x: JournalEntry| #[trigger] insert_sorted(s, e).contains(x) ==> x == e || s.contains(x),
    decreases s.len(),
{
    broadcast use vstd::seq_lib::group_to_multiset_ensures;
    if s.len() == 0 {
        assert(seq![e] =~= Seq::<JournalEntry>::empty().push(e));
    } else if key_le(s.last(), e) {
    } else {
        let t = s.drop_last();
        lemma_insert_sorted_elements(t, e);
        assert(s =~= t.push(s.last()));
        assert forall|x: JournalEntry| #[trigger] insert_sorted(s, e).contains(x) implies x == e
            || s.contains(x) by {
            let r = insert_sorted(t, e);
            let k = choose|k: int| 0 <= k < r.push(s.last()).len() && r.push(s.last())[k] == x;
            if k < r.len() {
                assert(r.contains(x));
                if x != e {
                    let q = choose|q: int| 0 <= q < t.len() && t[q] == x;
                    assert(s[q] == x);
                }
            } else {
                assert(s[s.len() - 1] == x);
            }
        }
    }
}

proof fn lemma_insert_sorted_sorted(s: Seq<JournalEntry>, e: JournalEntry)
    requires
        sorted_by_key(s),
    ensures
        sorted_by_key(insert_sorted(s, e)),
    decreases s.len(),
{
    if s.len() == 0 {
    } else if key_le(s.last(), e) {
        let r = s.push(e);
        assert forall|i: int, j: int| 0 <= i < j < r.len() implies key_le(
            #[trigger] r[i],
            #[trigger] r[j],
        ) by {
            if j == s.len() {
                if i < s.len() - 1 {
                    assert(key_le(s[i], s[s.len() - 1]));
                }
            } else {
                assert(key_le(s[i], s[j]));
            }
        }
    } else {
        let t = s.drop_last();
        assert(sorted_by_key(t)) by {
            assert forall|i: int, j: int| 0 <= i < j < t.len() implies key_le(
                #[trigger] t[i],
                #[trigger] t[j],
            ) by {
                assert(key_le(s[i], s[j]));
            }
        }
        lemma_insert_sorted_sorted(t, e);
        lemma_insert_sorted_elements(t, e);
        let q = insert_sorted(t, e);
        let last = s.last();
        let r = q.push(last);
        assert forall|i: int, j: int| 0 <= i < j < r.len() implies key_le(
            #[trigger] r[i],
            #[trigger] r[j],
        ) by {
            if j == q.len() {
                let x = q[i];
                assert(q.contains(x));
                if x != e {
                    let k = choose|k: int| 0 <= k < t.len() && t[k] == x;
                    assert(key_le(s[k], s[s.len() - 1]));
                }
            } else {
                assert(key_le(q[i], q[j]));
            }
        }
    }
}

/// Loading orders lines by `(timestamp, sequence)`.
pub proof fn law_sorted_output(s: Seq<JournalEntry>)
    ensures
        sorted_by_key(sort_spec(s)),
    decreases s.len(),
{
    if s.len() > 0 {
        law_sorted_output(s.drop_last());
        lemma_insert_sorted_sorted(sort_spec(s.drop_last()), s.last());
    }
}

/// Loading neither drops nor duplicates lines: the ordered lines are a permutation of the
/// lines read.
pub proof fn law_sort_is_permutation(s: Seq<JournalEntry>)
    ensures
        sort_spec(s).to_multiset() == s.to_multiset(),
    decreases s.len(),
{
    broadcast use vstd::seq_lib::group_to_multiset_ensures;
    if s.len() > 0 {
        let t = s.drop_last();
        law_sort_is_permutation(t);
        lemma_insert_sorted_elements(sort_spec(t), s.last());
        assert(s =~= t.push(s.last()));
    }
}

proof fn lemma_max_timestamp_bound(s: Seq<JournalEntry>)
    ensures
        max_timestamp(s) is None <==> s.len() == 0,
        max_timestamp(s) matches Some(t) ==> forall|i: int| 0 <= i < s.len() ==> (#[trigger] s[i]).timestamp <= t,
    decreases s.len(),
{
    if s.len() > 0 {
        lemma_max_timestamp_bound(s.drop_last());
        let t = s.drop_last();
        assert forall|i: int| 0 <= i < s.len() implies (#[trigger] s[i]).timestamp
            <= max_timestamp(s)->Some_0 by {
            if i < s.len() - 1 {
                assert(s[i] == t[i]);
            }
        }
    }
}

/// An index that agrees with its lines is what opening those lines rebuilds: reopening a
/// journal gives back the same next sequence number, last timestamp and known command ids.
pub proof fn law_reopen_recovers_index(j: Journal)
    requires
        j.wf(),
    ensures
        contiguous(j.lines@),
        j.next_sequence == j.lines@.len(),
        j.last_timestamp_committed == max_timestamp(j.lines@),
        j.seen_command_ids@ == command_ids(j.lines@),
{
}

/// Committed lines stay in journal order: if the lines are ordered by `(timestamp, sequence)`,
/// so are they after a committed append (its timestamp is not below any earlier one).
pub proof fn law_append_keeps_journal_order(j: Journal, a: JournalAppend)
    requires
        j.wf(),
        sorted_by_key(j.lines@),
        !j.regresses(a),
    ensures
        sorted_by_key(j.lines@.push(entry_of(a, j.next_sequence))),
{
    lemma_max_timestamp_bound(j.lines@);
    let s = j.lines@;
    let r = s.push(entry_of(a, j.next_sequence));
    assert forall|i: int, k: int| 0 <= i < k < r.len() implies key_le(#[trigger] r[i], #[trigger] r[k]) by {
        if k == s.len() {
            assert(s[i].sequence == i);
        } else {
            assert(key_le(s[i], s[k]));
        }
    }
}

/// After a command is committed, every later append of a command with the same id is a
/// duplicate (and is skipped without a new line).
pub proof fn law_committed_command_is_duplicate_after(
    j: Journal,
    a: JournalAppend,
    j2: Journal,
    b: JournalAppend,
)
    requires
        j.wf(),
        j2.wf(),
        a.event is Command,
        j2.lines@ == j.lines@.push(entry_of(a, j.next_sequence)),
        b.event is Command,
        command_id_of(b.event->Command_0) == command_id_of(a.event->Command_0),
    ensures
        j2.is_duplicate(b),
{
    let s2 = j2.lines@;
    assert(s2.drop_last() =~= j.lines@);
}

/// Replay ignores every line that is not a fact.
pub proof fn law_replay_ignores_non_facts(m: StateModel, s: Seq<JournalEntry>, e: JournalEntry)
    requires
        !(e.event is Fact),
    ensures
        replay_spec(m, s.push(e)) == replay_spec(m, s),
{
    assert(s.push(e).drop_last() =~= s);
}

// ------------------------------------------------------------------ repair

/// A line of the journal file that is empty once trimmed.
pub open spec fn blank_line(l: Seq<char>) -> bool {
    trim_ws(l).len() == 0
}

/// A line that parsed into an entry of a supported schema.
pub open spec fn line_ok(p: Option<JournalEntry>) -> bool {
    p matches Some(e) && MIN_SUPPORTED_JOURNAL_SCHEMA <= e.schema_version <= SCHEMA_VERSION
}

/// Number of non-blank lines.
pub open spec fn nonblank_count(ls: Seq<Seq<char>>) -> nat
    decreases ls.len(),
{
    if ls.len() == 0 {
        0
    } else {
        nonblank_count(ls.drop_first()) + if blank_line(ls[0]) {
            0nat
        } else {
            1nat
        }
    }
}

/// Repair of a journal file: keep the valid lines before the first invalid one (blank lines
/// skipped), each followed by a newline; drop every other non-blank line. The result is the new
/// file text, the number kept and the number dropped.
pub open spec fn repair_spec(ls: Seq<Seq<char>>, ps: Seq<Option<JournalEntry>>) -> (
    Seq<char>,
    nat,
    nat,
)
    decreases ls.len(),
{
    if ls.len() == 0 {
        (Seq::empty(), 0, 0)
    } else if blank_line(ls[0]) {
        repair_spec(ls.drop_first(), ps.drop_first())
    } else if line_ok(ps[0]) {
        let r = repair_spec(ls.drop_first(), ps.drop_first());
        (ls[0] + seq!['\n'] + r.0, r.1 + 1, r.2)
    } else {
        (Seq::empty(), 0, nonblank_count(ls))
    }
}

/// Outcome of repairing a journal file.
pub struct RepairOutcome {
    /// The new file text.
    pub content: String,
    pub kept: usize,
    pub dropped: usize,
}

/// Repairs a journal file given its lines and what each parsed into (`None` when a line is no
/// journal entry): truncates after the last valid line that precedes any invalid one.
pub fn repair_lines(lines: &Vec<String>, parsed: &Vec<Option<JournalEntry>>) -> (r: RepairOutcome)
    requires
        lines@.len() == parsed@.len(),
    ensures
        (r.content@, r.kept as nat, r.dropped as nat) == repair_spec(texts(lines@), parsed@),
{
    let ghost ls = texts(lines@);
    let ghost ps = parsed@;
    let mut content = String::new();
    let mut kept: usize = 0;
    let mut i: usize = 0;
    assert(ls.skip(0) =~= ls);
    assert(ps.skip(0) =~= ps);
    while i < lines.len()
        invariant
            ls == texts(lines@),
            ps == parsed@,
            lines@.len() == parsed@.len(),
            i <= lines@.len(),
            kept <= i,
            ({
                let rest = repair_spec(ls.skip(i as int), ps.skip(i as int));
                repair_spec(ls, ps) == (content@ + rest.0, (kept + rest.1) as nat, rest.2)
            }),
        decreases lines.len() - i,
    {
        assert(ls.skip(i as int).drop_first() =~= ls.skip(i + 1));
        assert(ps.skip(i as int).drop_first() =~= ps.skip(i + 1));
        assert(ls.skip(i as int)[0] == lines@[i as int]@);
        let t = trim(lines[i].as_str());
        if !t.as_str().is_empty() {
            let ok = match &parsed[i] {
                Some(e) => journal_schema_supported(e.schema_version),
                None => false,
            };
            if !ok {
                let dropped = count_nonblank_from(lines, i);
                return RepairOutcome { content, kept, dropped };
            }
            let ghost before = content@;
            content.append(lines[i].as_str());
            content.append("\n");
            proof {
                reveal_strlit("\n");
                assert(content@ =~= before + (lines@[i as int]@ + seq!['\n']));
                let rest = repair_spec(ls.skip(i + 1), ps.skip(i + 1));
                assert(before + (lines@[i as int]@ + seq!['\n'] + rest.0) =~= content@ + rest.0);
            }
            kept = kept + 1;
        }
        i = i + 1;
    }
    assert(ls.skip(i as int) =~= Seq::<Seq<char>>::empty());
    assert(content@ + Seq::<char>::empty() =~= content@);
    RepairOutcome { content, kept, dropped: 0 }
}

/// Number of non-blank lines from `start` on.
fn count_nonblank_from(lines: &Vec<String>, start: usize) -> (n: usize)
    requires
        start <= lines@.len(),
    ensures
        n as nat == nonblank_count(texts(lines@).skip(start as int)),
{
    let ghost ls = texts(lines@);
    let mut j: usize = lines.len();
    let mut n: usize = 0;
    assert(lines@.len() == lines.len());
    assert(ls.skip(j as int) =~= Seq::<Seq<char>>::empty());
    while j > start
        invariant
            ls == texts(lines@),
            start <= j <= lines@.len(),
            lines@.len() <= usize::MAX,
            n <= lines@.len() - j,
            n as nat == nonblank_count(ls.skip(j as int)),
        decreases j,
    {
        assert(ls.skip(j - 1).drop_first() =~= ls.skip(j as int));
        assert(ls.skip(j - 1)[0] == lines@[j - 1]@);
        let t = trim(lines[j - 1].as_str());
        if !t.as_str().is_empty() {
            n = n + 1;
        }
        j = j - 1;
    }
    n
}

/// The lines of one causal chain, in journal order.
pub open spec fn chain_lines(s: Seq<JournalEntry>, causal_chain_id: u128) -> Seq<JournalEntry>
    decreases s.len(),
{
    if s.len() == 0 {
        s
    } else if s.last().causal_chain_id == causal_chain_id {
        chain_lines(s.drop_last(), causal_chain_id).push(s.last())
    } else {
        chain_lines(s.drop_last(), causal_chain_id)
    }
}

/// The lines that belong to the causal chain `causal_chain_id`, in order.
pub fn entries_in_chain(entries: &Vec<JournalEntry>, causal_chain_id: u128) -> (r: Vec<JournalEntry>)
    ensures
        r@ == chain_lines(entries@, causal_chain_id),
{
    let mut out: Vec<JournalEntry> = Vec::new();
    let mut i: usize = 0;
    assert(entries@.take(0) =~= Seq::<JournalEntry>::empty());
    while i < entries.len()
        invariant
            i <= entries@.len(),
            out@ == chain_lines(entries@.take(i as int), causal_chain_id),
        decreases entries.len() - i,
    {
        assert(entries@.take(i + 1).drop_last() =~= entries@.take(i as int));
        if entries[i].causal_chain_id == causal_chain_id {
            out.push(entries[i].clone());
        }
        i = i + 1;
    }
    assert(entries@.take(entries@.len() as int) =~= entries@);
    out
}

/// Sequence recorded in a snapshot of sorted lines: the last line's, or 0 for none.
pub fn snapshot_sequence(entries: &Vec<JournalEntry>) -> (r: u64)
    ensures
        entries@.len() == 0 ==> r == 0,
        entries@.len() > 0 ==> r == entries@.last().sequence,
{
    if entries.len() == 0 {
        0
    } else {
        entries[entries.len() - 1].sequence
    }
}

// ------------------------------------------------------------------ data directory

/// A file name placed in a directory the way `Path::join` does on Unix for a relative name:
/// one `/` between them, none added after an empty directory or one ending in `/`.
pub open spec fn join_spec(dir: Seq<char>, name: Seq<char>) -> Seq<char> {
    if dir.len() == 0 || dir.last() == '/' {
        dir + name
    } else {
        dir + seq!['/'] + name
    }
}

fn data_file(dir: &str, name: &str) -> (r: String)
    ensures
        r@ == join_spec(dir@, name@),
{
    let v = chars_of(dir);
    if v.len() == 0 || v[v.len() - 1] == '/' {
        concat2(dir, name)
    } else {
        proof {
            reveal_strlit("/");
        }
        concat3(dir, "/", name)
    }
}

/// The journal file of a data directory: `{data_dir}/events.jsonl`.
pub fn journal_path(data_dir: &str) -> (r: String)
    ensures
        r@ == join_spec(data_dir@, "events.jsonl"@),
{
    data_file(data_dir, "events.jsonl")
}

/// The snapshot file of a data directory: `{data_dir}/snapshot.json`.
pub fn snapshot_path(data_dir: &str) -> (r: String)
    ensures
        r@ == join_spec(data_dir@, "snapshot.json"@),
{
    data_file(data_dir, "snapshot.json")
}

} // verus!
