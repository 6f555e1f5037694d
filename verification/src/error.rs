//! Error types: reducer preconditions, journal schema and journal integrity, and pipeline runs.
use vstd::prelude::*;
use crate::text::{
    concat2, concat3, debug_str, debug_text, dec_text, i64_text, int_text, u128_text, u64_text,
};

verus! {

/// Business precondition violation; the state is not changed.
#[derive(PartialEq, Eq, Debug)]
pub enum ApplyError {
    LightAlreadyOn(String),
    LightAlreadyOff(String),
    UnknownRoom(String),
    IoDuplicateDispatch(String),
    IoTerminalWithoutOpenDispatch(String),
    IoRetryBudgetExhausted(String),
}

impl Clone for ApplyError {
    fn clone(&self) -> (r: Self)
        ensures
            r == *self,
    {
        match self {
            ApplyError::LightAlreadyOn(s) => ApplyError::LightAlreadyOn(s.clone()),
            ApplyError::LightAlreadyOff(s) => ApplyError::LightAlreadyOff(s.clone()),
            ApplyError::UnknownRoom(s) => ApplyError::UnknownRoom(s.clone()),
            ApplyError::IoDuplicateDispatch(s) => ApplyError::IoDuplicateDispatch(s.clone()),
            ApplyError::IoTerminalWithoutOpenDispatch(s) => ApplyError::IoTerminalWithoutOpenDispatch(
                s.clone(),
            ),
            ApplyError::IoRetryBudgetExhausted(s) => ApplyError::IoRetryBudgetExhausted(s.clone()),
        }
    }
}

/// An apply error with its text as a character sequence.
pub enum ApplyErrorView {
    LightAlreadyOn(Seq<char>),
    LightAlreadyOff(Seq<char>),
    UnknownRoom(Seq<char>),
    IoDuplicateDispatch(Seq<char>),
    IoTerminalWithoutOpenDispatch(Seq<char>),
    IoRetryBudgetExhausted(Seq<char>),
}

impl View for ApplyError {
    type V = ApplyErrorView;

    open spec fn view(&self) -> ApplyErrorView {
        match *self {
            ApplyError::LightAlreadyOn(s) => ApplyErrorView::LightAlreadyOn(s@),
            ApplyError::LightAlreadyOff(s) => ApplyErrorView::LightAlreadyOff(s@),
            ApplyError::UnknownRoom(s) => ApplyErrorView::UnknownRoom(s@),
            ApplyError::IoDuplicateDispatch(s) => ApplyErrorView::IoDuplicateDispatch(s@),
            ApplyError::IoTerminalWithoutOpenDispatch(s) =>
                ApplyErrorView::IoTerminalWithoutOpenDispatch(s@),
            ApplyError::IoRetryBudgetExhausted(s) => ApplyErrorView::IoRetryBudgetExhausted(s@),
        }
    }
}

/// Stable identifier of each apply error (the `error_type` of its audit line).
pub open spec fn apply_error_type_id(e: ApplyError) -> Seq<char> {
    match e {
        ApplyError::LightAlreadyOn(_) => "apply.light_already_on"@,
        ApplyError::LightAlreadyOff(_) => "apply.light_already_off"@,
        ApplyError::UnknownRoom(_) => "apply.unknown_room"@,
        ApplyError::IoDuplicateDispatch(_) => "apply.io_duplicate_dispatch"@,
        ApplyError::IoTerminalWithoutOpenDispatch(_) => "apply.io_terminal_without_dispatch"@,
        ApplyError::IoRetryBudgetExhausted(_) => "apply.io_retry_budget_exhausted"@,
    }
}

/// Human-readable text of each apply error.
pub open spec fn apply_error_message(e: ApplyError) -> Seq<char> {
    match e {
        ApplyError::LightAlreadyOn(r) => "light already on for room "@ + r@,
        ApplyError::LightAlreadyOff(r) => "light already off for room "@ + r@,
        ApplyError::UnknownRoom(r) => "unknown room "@ + r@,
        ApplyError::IoDuplicateDispatch(k) => "command IO: duplicate Dispatched for key "@ + k@,
        ApplyError::IoTerminalWithoutOpenDispatch(k) =>
            "command IO: terminal phase without open Dispatched for key "@ + k@,
        ApplyError::IoRetryBudgetExhausted(k) => "command IO: retry budget exhausted for key "@
            + k@,
    }
}

impl ApplyError {
    /// Stable id for `ErrorOccurred.error_type`.
    pub fn stable_type_id(&self) -> (r: &'static str)
        ensures
            r@ == apply_error_type_id(*self),
    {
        match self {
            ApplyError::LightAlreadyOn(_) => "apply.light_already_on",
            ApplyError::LightAlreadyOff(_) => "apply.light_already_off",
            ApplyError::UnknownRoom(_) => "apply.unknown_room",
            ApplyError::IoDuplicateDispatch(_) => "apply.io_duplicate_dispatch",
            ApplyError::IoTerminalWithoutOpenDispatch(_) => "apply.io_terminal_without_dispatch",
            ApplyError::IoRetryBudgetExhausted(_) => "apply.io_retry_budget_exhausted",
        }
    }

    /// The error's text.
    pub fn message(&self) -> (r: String)
        ensures
            r@ == apply_error_message(*self),
    {
        match self {
            ApplyError::LightAlreadyOn(r) => concat2("light already on for room ", r.as_str()),
            ApplyError::LightAlreadyOff(r) => concat2("light already off for room ", r.as_str()),
            ApplyError::UnknownRoom(r) => concat2("unknown room ", r.as_str()),
            ApplyError::IoDuplicateDispatch(k) => concat2(
                "command IO: duplicate Dispatched for key ",
                k.as_str(),
            ),
            ApplyError::IoTerminalWithoutOpenDispatch(k) => concat2(
                "command IO: terminal phase without open Dispatched for key ",
                k.as_str(),
            ),
            ApplyError::IoRetryBudgetExhausted(k) => concat2(
                "command IO: retry budget exhausted for key ",
                k.as_str(),
            ),
        }
    }
}

/// A persisted line's `schema_version` outside the range this build accepts.
#[derive(Clone, Copy, PartialEq, Eq, Structural, Debug)]
pub enum JournalSchemaError {
    UnsupportedVersion { found: u32, min: u32, max: u32 },
}

/// Journal integrity errors.
#[derive(PartialEq, Eq, Debug)]
pub enum JournalError {
    /// An append whose timestamp is below the last committed one.
    TimestampRegressed { ts: i64, last: i64 },
    /// A line that does not parse.
    Corrupt { line: usize, message: String },
    /// A line of an unsupported schema version.
    UnsupportedSchemaVersion { line: usize, found: u32, min: u32, max: u32 },
    /// Sequence numbers not `0, 1, 2, …` in order.
    SequenceMismatch { line: usize, expected: u64, found: u64 },
    /// Reading or writing the journal file failed; its text shows the path quoted.
    Io { path: String, message: String },
    /// Encoding or decoding a line failed.
    Serde(String),
}

/// Human-readable text of each journal error.
pub open spec fn journal_error_message(e: JournalError) -> Seq<char> {
    match e {
        JournalError::TimestampRegressed { ts, last } => "timestamp "@ + int_text(ts as int)
            + " regresses last committed "@ + int_text(last as int),
        JournalError::Corrupt { line, message } => "journal corrupt at line "@ + dec_text(
            line as nat,
        ) + ": "@ + message@,
        JournalError::UnsupportedSchemaVersion { line, found, min, max } =>
            "unsupported journal schema_version "@ + dec_text(found as nat) + " at line "@
            + dec_text(line as nat) + " (supported "@ + dec_text(min as nat) + "..="@ + dec_text(
            max as nat,
        ) + ")"@,
        JournalError::SequenceMismatch { line, expected, found } =>
            "duplicate or gap in sequence: expected "@ + dec_text(expected as nat) + ", found "@
            + dec_text(found as nat) + " at line "@ + dec_text(line as nat),
        JournalError::Io { path, message } => "IO error on "@ + debug_text(path@) + ": "@ + message@,
        JournalError::Serde(m) => "serde: "@ + m@,
    }
}

impl JournalError {
    /// The error's text.
    pub fn message(&self) -> (r: String)
        ensures
            r@ == journal_error_message(*self),
    {
        match self {
            JournalError::TimestampRegressed { ts, last } => {
                let a = i64_text(*ts);
                let b = i64_text(*last);
                let s = concat3("timestamp ", a.as_str(), " regresses last committed ");
                concat2(s.as_str(), b.as_str())
            },
            JournalError::Corrupt { line, message } => {
                let l = u128_text(*line as u128);
                let s = concat3("journal corrupt at line ", l.as_str(), ": ");
                concat2(s.as_str(), message.as_str())
            },
            JournalError::UnsupportedSchemaVersion { line, found, min, max } => {
                let f = u128_text(*found as u128);
                let l = u128_text(*line as u128);
                let lo = u128_text(*min as u128);
                let hi = u128_text(*max as u128);
                let s1 = concat3("unsupported journal schema_version ", f.as_str(), " at line ");
                let s2 = concat3(s1.as_str(), l.as_str(), " (supported ");
                let s3 = concat3(s2.as_str(), lo.as_str(), "..=");
                concat3(s3.as_str(), hi.as_str(), ")")
            },
            JournalError::SequenceMismatch { line, expected, found } => {
                let e = u64_text(*expected);
                let f = u64_text(*found);
                let l = u128_text(*line as u128);
                let s1 = concat3("duplicate or gap in sequence: expected ", e.as_str(), ", found ");
                let s2 = concat3(s1.as_str(), f.as_str(), " at line ");
                concat2(s2.as_str(), l.as_str())
            },
            JournalError::Io { path, message } => {
                let quoted = debug_str(path.as_str());
                let s = concat3("IO error on ", quoted.as_str(), ": ");
                concat2(s.as_str(), message.as_str())
            },
            JournalError::Serde(m) => concat2("serde: ", m.as_str()),
        }
    }
}

/// Failure of a pipeline run.
#[derive(PartialEq, Eq, Debug)]
pub enum RunError {
    /// A fact was refused by the reducer.
    Apply(ApplyError),
    /// The journal refused an append.
    Journal(String),
    /// The run took longer than its wall-clock budget.
    RunTimeBudget { elapsed_ms: u128, max_ms: u64 },
    /// More events were dequeued than the run allows.
    MaxEventsPerRun { processed: u64, max: u64 },
    /// The queue grew beyond its capacity.
    QueueCapacity { pending: usize, max: usize },
    /// A root event caused more appends than allowed.
    MaxEventsGeneratedPerRoot { generated: u64, max: u64 },
    /// A rule emitted a derived light fact while the projection is anchored on IO.
    IoAnchoredDerivedActuator(String),
}

/// Stable identifier of each run error (the `error_type` of its audit line).
pub open spec fn run_error_type_id(e: RunError) -> Seq<char> {
    match e {
        RunError::Apply(a) => apply_error_type_id(a),
        RunError::Journal(_) => "run.journal"@,
        RunError::RunTimeBudget { .. } => "run.time_budget"@,
        RunError::MaxEventsPerRun { .. } => "run.max_events_per_run"@,
        RunError::QueueCapacity { .. } => "run.queue_capacity"@,
        RunError::MaxEventsGeneratedPerRoot { .. } => "run.max_events_generated_per_root"@,
        RunError::IoAnchoredDerivedActuator(_) => "run.io_anchored_derived_actuator"@,
    }
}

/// Human-readable text of each run error.
pub open spec fn run_error_message(e: RunError) -> Seq<char> {
    match e {
        RunError::Apply(a) => "apply: "@ + apply_error_message(a),
        RunError::Journal(m) => "journal: "@ + m@,
        RunError::RunTimeBudget { elapsed_ms, max_ms } => "run wall-clock budget exceeded: "@
            + dec_text(elapsed_ms as nat) + " ms > "@ + dec_text(max_ms as nat) + " ms"@,
        RunError::MaxEventsPerRun { processed, max } => "max events per run exceeded: "@
            + dec_text(processed as nat) + " > "@ + dec_text(max as nat),
        RunError::QueueCapacity { pending, max } => "queue capacity exceeded: "@ + dec_text(
            pending as nat,
        ) + " > "@ + dec_text(max as nat),
        RunError::MaxEventsGeneratedPerRoot { generated, max } =>
            "max events generated per root exceeded: "@ + dec_text(generated as nat) + " > "@
            + dec_text(max as nat),
        RunError::IoAnchoredDerivedActuator(m) => "io_anchored: "@ + m@,
    }
}

/// `left` + " > " + `right` in decimal.
fn pair_text(prefix: &str, left: u128, right: u128) -> (r: String)
    ensures
        r@ == prefix@ + dec_text(left as nat) + " > "@ + dec_text(right as nat),
{
    let a = u128_text(left);
    let b = u128_text(right);
    let s = concat3(prefix, a.as_str(), " > ");
    concat2(s.as_str(), b.as_str())
}

impl RunError {
    /// Stable id for `ErrorOccurred.error_type`.
    pub fn stable_type_id(&self) -> (r: String)
        ensures
            r@ == run_error_type_id(*self),
    {
        match self {
            RunError::Apply(a) => {
                let s = a.stable_type_id();
                String::from_str(s)
            },
            RunError::Journal(_) => String::from_str("run.journal"),
            RunError::RunTimeBudget { .. } => String::from_str("run.time_budget"),
            RunError::MaxEventsPerRun { .. } => String::from_str("run.max_events_per_run"),
            RunError::QueueCapacity { .. } => String::from_str("run.queue_capacity"),
            RunError::MaxEventsGeneratedPerRoot { .. } => String::from_str(
                "run.max_events_generated_per_root",
            ),
            RunError::IoAnchoredDerivedActuator(_) => String::from_str(
                "run.io_anchored_derived_actuator",
            ),
        }
    }

    /// The error's text.
    pub fn message(&self) -> (r: String)
        ensures
            r@ == run_error_message(*self),
    {
        match self {
            RunError::Apply(a) => {
                let m = a.message();
                concat2("apply: ", m.as_str())
            },
            RunError::Journal(m) => concat2("journal: ", m.as_str()),
            RunError::RunTimeBudget { elapsed_ms, max_ms } => {
                let a = u128_text(*elapsed_ms);
                let b = u64_text(*max_ms);
                let s1 = concat3("run wall-clock budget exceeded: ", a.as_str(), " ms > ");
                concat3(s1.as_str(), b.as_str(), " ms")
            },
            RunError::MaxEventsPerRun { processed, max } => pair_text(
                "max events per run exceeded: ",
                *processed as u128,
                *max as u128,
            ),
            RunError::QueueCapacity { pending, max } => pair_text(
                "queue capacity exceeded: ",
                *pending as u128,
                *max as u128,
            ),
            RunError::MaxEventsGeneratedPerRoot { generated, max } => pair_text(
                "max events generated per root exceeded: ",
                *generated as u128,
                *max as u128,
            ),
            RunError::IoAnchoredDerivedActuator(m) => concat2("io_anchored: ", m.as_str()),
        }
    }
}

} // verus!
