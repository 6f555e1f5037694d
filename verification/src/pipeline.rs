//! The FIFO pipeline: dequeue a journal line, apply it if it is a fact, evaluate the rules,
//! append what they emit (validated against a shadow state), enqueue the new lines; with run
//! limits and an audit line before every error.
use vstd::prelude::*;
use std::collections::{HashSet, VecDeque};
use std::time::{Duration, Instant};
use crate::config::{ConfigSnapshot, PhysicalProjectionMode};
use crate::error::{run_error_message, run_error_type_id, ApplyErrorView, RunError};
use crate::event::{
    command_id_of, event_kind, CommandEvent, ErrorOccurredEvent, Event, EventKind, FactEvent,
    ObservationEvent, Provenance,
};
use crate::ids::new_v4;
use crate::journal::{
    command_ids, entry_of, max_timestamp, replay_spec, Journal, JournalAppend, JournalAppendOutcome, JournalEntry,
};
use crate::reducer::{apply_event, apply_spec, fact_error_spec, validate_fact_for_append};
use crate::state::{State, StateModel};
use crate::text::{lemma_lex_irreflexive, lemma_lex_total, lemma_lex_transitive, lex_lt, lex_order_str, owned, Order3};

verus! {

broadcast use vstd::std_specs::hash::group_hash_axioms;

/// Bounds of one pipeline run.
#[derive(Clone, Copy, PartialEq, Eq, Structural, Debug)]
pub struct RunLimits {
    pub max_events_per_run: u64,
    pub max_events_generated_per_root: u64,
    pub max_wall_ms_per_run: u64,
    pub max_pending_events: usize,
}

impl Default for RunLimits {
    fn default() -> (r: Self)
        ensures
            r.max_events_per_run == 10_000,
            r.max_events_generated_per_root == 500,
            r.max_wall_ms_per_run == 30_000,
            r.max_pending_events == 50_000,
    {
        RunLimits {
            max_events_per_run: 10_000,
            max_events_generated_per_root: 500,
            max_wall_ms_per_run: 30_000,
            max_pending_events: 50_000,
        }
    }
}

/// One rule evaluation of one trigger (matched or not, and why not).
#[derive(PartialEq, Eq, Debug)]
pub struct RuleEvaluationRecord {
    pub trigger_sequence: u64,
    pub trigger_kind: EventKind,
    pub rule_id: String,
    pub matched: bool,
    pub reason: Option<String>,
}

/// Pure inputs of a rule evaluation.
pub struct RuleContext<'a> {
    pub state: &'a State,
    pub config: &'a ConfigSnapshot,
    /// Logical timestamp of the triggering line.
    pub trigger_timestamp: i64,
    /// Root causation id of the cascade.
    pub causal_chain_id: u128,
    pub parent_sequence: Option<u64>,
    pub parent_event_id: Option<u128>,
}

/// What a rule is handed besides the event, as values: the projection and configuration it reads,
/// and the trigger's time, causal chain, sequence and event id.
pub struct RuleContextView {
    pub state: StateModel,
    pub config: ConfigSnapshot,
    pub trigger_timestamp: i64,
    pub causal_chain_id: u128,
    pub parent_sequence: Option<u64>,
    pub parent_event_id: Option<u128>,
}

impl<'a> RuleContext<'a> {
    /// The context as values.
    pub open spec fn view_of(&self) -> RuleContextView {
        RuleContextView {
            state: self.state@,
            config: *self.config,
            trigger_timestamp: self.trigger_timestamp,
            causal_chain_id: self.causal_chain_id,
            parent_sequence: self.parent_sequence,
            parent_event_id: self.parent_event_id,
        }
    }
}

/// A rule evaluates one incoming event and may emit follow-up events. Rules are supplied by the
/// library's users. A rule that states its behaviour sets `obeys_rule_spec` and describes its id,
/// priority, consumed kinds and evaluation by the spec functions below; its methods then return
/// what those say. A rule that keeps the defaults states nothing, and nothing is assumed of it.
pub trait Rule {
    /// Whether the methods of this rule return what its spec functions say.
    open spec fn obeys_rule_spec(&self) -> bool {
        false
    }

    /// The rule's id.
    open spec fn rule_id_spec(&self) -> Seq<char> {
        Seq::empty()
    }

    /// The rule's priority.
    open spec fn priority_spec(&self) -> i32 {
        0
    }

    /// The event kinds the rule consumes.
    open spec fn consumes_spec(&self) -> Seq<EventKind> {
        Seq::empty()
    }

    /// What the rule emits for `event` in the context `ctx`.
    open spec fn eval_spec(&self, event: Event, ctx: RuleContextView) -> Seq<Event> {
        Seq::empty()
    }

    fn rule_id(&self) -> (r: &str)
        ensures
            self.obeys_rule_spec() ==> r@ == self.rule_id_spec(),
    ;

    fn priority(&self) -> (r: i32)
        ensures
            self.obeys_rule_spec() ==> r == self.priority_spec(),
    ;

    fn consumes(&self) -> (r: &[EventKind])
        ensures
            self.obeys_rule_spec() ==> r@ == self.consumes_spec(),
    ;

    fn produces(&self) -> &[EventKind];

    /// Documentation tags (not used when evaluating).
    fn namespaces(&self) -> Vec<&str>;

    fn eval(&self, event: &Event, ctx: &RuleContext) -> (r: Vec<Event>)
        ensures
            self.obeys_rule_spec() ==> r@ == self.eval_spec(*event, ctx.view_of()),
    ;
}

// ------------------------------------------------------------------ clock

#[verifier::external_type_specification]
#[verifier::external_body]
pub struct ExInstant(Instant);

/// `Instant::now`.
#[verifier::external_body]
fn instant_now() -> Instant {
    Instant::now()
}

/// `Instant::elapsed`.
#[verifier::external_body]
fn instant_elapsed(start: &Instant) -> Duration {
    start.elapsed()
}

/// `Duration::as_millis`.
#[verifier::external_body]
pub(crate) fn duration_millis(d: &Duration) -> u128 {
    d.as_millis()
}

// ------------------------------------------------------------------ emissions

/// One event emitted by a rule, with what orders it.
pub struct Emission {
    pub rule_id: String,
    pub priority: i32,
    pub action_ordinal: usize,
    pub event: Event,
}

/// Emission order: higher priority first, then rule id, then position in the rule's output.
pub open spec fn emission_le(a: Emission, b: Emission) -> bool {
    ||| a.priority > b.priority
    ||| (a.priority == b.priority && lex_lt(a.rule_id@, b.rule_id@))
    ||| (a.priority == b.priority && a.rule_id@ == b.rule_id@ && a.action_ordinal
        <= b.action_ordinal)
}

/// `e` inserted into `s` after every element that does not come after it.
pub open spec fn insert_emission(s: Seq<Emission>, e: Emission) -> Seq<Emission>
    decreases s.len(),
{
    if s.len() == 0 {
        seq![e]
    } else if emission_le(s.last(), e) {
        s.push(e)
    } else {
        insert_emission(s.drop_last(), e).push(s.last())
    }
}

/// Stable ordering of emissions.
pub open spec fn sort_emissions_spec(s: Seq<Emission>) -> Seq<Emission>
    decreases s.len(),
{
    if s.len() == 0 {
        s
    } else {
        insert_emission(sort_emissions_spec(s.drop_last()), s.last())
    }
}

/// Emissions in emission order.
pub open spec fn emissions_sorted(s: Seq<Emission>) -> bool {
    forall|i: int, j: int| 0 <= i < j < s.len() ==> emission_le(#[trigger] s[i], #[trigger] s[j])
}

fn emission_le_exec(a: &Emission, b: &Emission) -> (r: bool)
    ensures
        r == emission_le(*a, *b),
{
    if a.priority > b.priority {
        return true;
    }
    if a.priority < b.priority {
        return false;
    }
    match lex_order_str(a.rule_id.as_str(), b.rule_id.as_str()) {
        Order3::Less => true,
        Order3::Greater => false,
        Order3::Equal => {
            proof {
                lemma_lex_irreflexive(a.rule_id@);
            }
            a.action_ordinal <= b.action_ordinal
        },
    }
}

/// Stable sort of emissions by emission order.
fn sort_emissions(v: Vec<Emission>) -> (r: Vec<Emission>)
    ensures
        r@ == sort_emissions_spec(v@),
{
    let mut res: Vec<Emission> = Vec::new();
    let n = v.len();
    let mut rest = v;
    let ghost all = rest@;
    assert(all.len() == n);
    let mut i: usize = 0;
    assert(all.take(0) =~= Seq::<Emission>::empty());
    assert(all.skip(0) =~= all);
    while rest.len() > 0
        invariant
            i + rest@.len() == all.len(),
            all.len() <= usize::MAX,
            rest@ == all.skip(i as int),
            res@ == sort_emissions_spec(all.take(i as int)),
        decreases rest.len(),
    {
        let e = rest.remove(0);
        assert(e == all[i as int]);
        let ghost s = res@;
        let mut j: usize = res.len();
        assert(s.take(s.len() as int) =~= s);
        assert(s.skip(s.len() as int) =~= Seq::<Emission>::empty());
        while j > 0 && !emission_le_exec(&res[j - 1], &e)
            invariant
                j <= res@.len(),
                res@ == s,
                insert_emission(s, e) == insert_emission(s.take(j as int), e) + s.skip(j as int),
            decreases j,
        {
            let ghost t = s.take(j as int);
            assert(t.drop_last() =~= s.take(j - 1));
            assert(t.last() == s[j - 1]);
            assert(insert_emission(s.take(j - 1), e).push(s[j - 1]) + s.skip(j as int)
                =~= insert_emission(s.take(j - 1), e) + s.skip(j - 1));
            j = j - 1;
        }
        proof {
            let t = s.take(j as int);
            if j > 0 {
                assert(t.last() == s[j - 1]);
            }
            assert(insert_emission(t, e) =~= t.push(e));
        }
        res.insert(j, e);
        assert(res@ =~= s.take(j as int).push(e) + s.skip(j as int));
        assert(all.take(i + 1).drop_last() =~= all.take(i as int));
        assert(rest@ =~= all.skip(i + 1));
        i = i + 1;
    }
    assert(all.take(all.len() as int) =~= all);
    res
}

proof fn lemma_emission_total(a: Emission, b: Emission)
    ensures
        emission_le(a, b) || emission_le(b, a),
{
    lemma_lex_total(a.rule_id@, b.rule_id@);
}

proof fn lemma_emission_transitive(a: Emission, b: Emission, c: Emission)
    requires
        emission_le(a, b),
        emission_le(b, c),
    ensures
        emission_le(a, c),
{
    if a.priority == b.priority && b.priority == c.priority {
        if lex_lt(a.rule_id@, b.rule_id@) && lex_lt(b.rule_id@, c.rule_id@) {
            lemma_lex_transitive(a.rule_id@, b.rule_id@, c.rule_id@);
        }
    }
}

proof fn lemma_insert_emission_elements(s: Seq<Emission>, e: Emission)
    ensures
        forall|x: Emission| #[trigger] insert_emission(s, e).contains(x) ==> x == e || s.contains(x),
        insert_emission(s, e).len() == s.len() + 1,
    decreases s.len(),
{
    if s.len() > 0 && !emission_le(s.last(), e) {
        let t = s.drop_last();
        lemma_insert_emission_elements(t, e);
        assert forall|x: Emission| #[trigger] insert_emission(s, e).contains(x) implies x == e
            || s.contains(x) by {
            let r = insert_emission(t, e);
            let k = choose|k: int| 0 <= k < r.push(s.last()).len() && r.push(s.last())[k] == x;
            if k < r.len() {
                assert(r.contains(x));
                if x != e {
                    let q = choose|q: int| 0 <= q < t.len() && t[q] == x;
                    assert(s[q] == x);
                }
            } else {
                assert(s[s.len() - 1] == x);
            }
        }
    } else if s.len() > 0 {
        assert forall|x: Emission| #[trigger] insert_emission(s, e).contains(x) implies x == e
            || s.contains(x) by {
            let k = choose|k: int| 0 <= k < s.push(e).len() && s.push(e)[k] == x;
            if k < s.len() {
                assert(s[k] == x);
            }
        }
    } else {
        assert forall|x: Emission| #[trigger] insert_emission(s, e).contains(x) implies x == e
            || s.contains(x) by {
            assert(seq![e][0] == e);
        }
    }
}

proof fn lemma_insert_emission_sorted(s: Seq<Emission>, e: Emission)
    requires
        emissions_sorted(s),
    ensures
        emissions_sorted(insert_emission(s, e)),
    decreases s.len(),
{
    if s.len() == 0 {
    } else if emission_le(s.last(), e) {
        let r = s.push(e);
        assert forall|i: int, j: int| 0 <= i < j < r.len() implies emission_le(
            #[trigger] r[i],
            #[trigger] r[j],
        ) by {
            if j == s.len() {
                if i < s.len() - 1 {
                    assert(emission_le(s[i], s[s.len() - 1]));
                    lemma_emission_transitive(s[i], s[s.len() - 1], e);
                }
            } else {
                assert(emission_le(s[i], s[j]));
            }
        }
    } else {
        let t = s.drop_last();
        assert(emissions_sorted(t)) by {
            assert forall|i: int, j: int| 0 <= i < j < t.len() implies emission_le(
                #[trigger] t[i],
                #[trigger] t[j],
            ) by {
                assert(emission_le(s[i], s[j]));
            }
        }
        lemma_insert_emission_sorted(t, e);
        lemma_insert_emission_elements(t, e);
        lemma_emission_total(s.last(), e);
        let q = insert_emission(t, e);
        let last = s.last();
        let r = q.push(last);
        assert forall|i: int, j: int| 0 <= i < j < r.len() implies emission_le(
            #[trigger] r[i],
            #[trigger] r[j],
        ) by {
            if j == q.len() {
                let x = q[i];
                assert(q.contains(x));
                if x != e {
                    let k = choose|k: int| 0 <= k < t.len() && t[k] == x;
                    assert(emission_le(s[k], s[s.len() - 1]));
                }
            } else {
                assert(emission_le(q[i], q[j]));
            }
        }
    }
}

/// Emissions come out in emission order.
pub proof fn law_emissions_sorted(s: Seq<Emission>)
    ensures
        emissions_sorted(sort_emissions_spec(s)),
    decreases s.len(),
{
    if s.len() > 0 {
        law_emissions_sorted(s.drop_last());
        lemma_insert_emission_sorted(sort_emissions_spec(s.drop_last()), s.last());
    }
}

// ------------------------------------------------------------------ rule evaluation

/// Whether `k` is one of `kinds`.
fn kind_in(kinds: &[EventKind], k: EventKind) -> (r: bool)
    ensures
        r == kinds@.contains(k),
{
    let mut i: usize = 0;
    while i < kinds.len()
        invariant
            i <= kinds@.len(),
            forall|j: int| 0 <= j < i ==> kinds@[j] != k,
        decreases kinds.len() - i,
    {
        if kinds[i] == k {
            assert(kinds@[i as int] == k);
            return true;
        }
        i = i + 1;
    }
    false
}

/// What one rule gave on one line: its id and priority, whether it consumes the line's kind,
/// and what it emitted (nothing when it does not consume it).
pub struct RuleOutput {
    pub rule_id: String,
    pub priority: i32,
    pub subscribed: bool,
    pub events: Vec<Event>,
}

/// The emissions of one rule's output, in its order.
pub open spec fn rule_emissions(o: RuleOutput) -> Seq<Emission> {
    if o.subscribed {
        Seq::new(
            o.events@.len(),
            |j: int|
                Emission {
                    rule_id: o.rule_id,
                    priority: o.priority,
                    action_ordinal: j as usize,
                    event: o.events@[j],
                },
        )
    } else {
        Seq::empty()
    }
}

/// The emissions of the rules' outputs, rule by rule, before ordering.
pub open spec fn raw_emissions(outs: Seq<RuleOutput>) -> Seq<Emission>
    decreases outs.len(),
{
    if outs.len() == 0 {
        Seq::empty()
    } else {
        raw_emissions(outs.drop_last()) + rule_emissions(outs.last())
    }
}

/// The trace row of one rule's output on `entry`: matched when it consumed the line and emitted
/// something; otherwise the reason, `not_subscribed` or `evaluated_empty`.
pub open spec fn trace_row_is(t: RuleEvaluationRecord, o: RuleOutput, entry: JournalEntry) -> bool {
    &&& t.trigger_sequence == entry.sequence
    &&& t.trigger_kind == event_kind(entry.event)
    &&& t.rule_id == o.rule_id
    &&& t.matched == (o.subscribed && o.events@.len() > 0)
    &&& match t.reason {
        None => t.matched,
        Some(r) => !t.matched && (if o.subscribed {
            r@ == "evaluated_empty"@
        } else {
            r@ == "not_subscribed"@
        }),
    }
}

/// The context a rule is evaluated in on `entry`: the projection and configuration, and the
/// trigger's time, causal chain, sequence (as the parent) and event id.
pub open spec fn rule_ctx(entry: JournalEntry, state: StateModel, config: ConfigSnapshot) -> RuleContextView {
    RuleContextView {
        state,
        config,
        trigger_timestamp: entry.timestamp,
        causal_chain_id: entry.causal_chain_id,
        parent_sequence: Some(entry.sequence),
        parent_event_id: entry.event_id,
    }
}

/// The output of one rule on `entry` as the rule states it: its id and priority; whether it
/// consumes the line's kind; and, when it does, what it emits in the context of `entry`.
pub open spec fn output_of_rule<R: Rule>(
    o: RuleOutput,
    rule: R,
    entry: JournalEntry,
    state: StateModel,
    config: ConfigSnapshot,
) -> bool {
    &&& o.rule_id@ == rule.rule_id_spec()
    &&& o.priority == rule.priority_spec()
    &&& o.subscribed == rule.consumes_spec().contains(event_kind(entry.event))
    &&& o.subscribed ==> o.events@ == rule.eval_spec(entry.event, rule_ctx(entry, state, config))
}

/// Rule outputs as the registry gives them on `entry`, with the projection `state`: one per rule
/// in registry order, nothing emitted by a rule that does not consume the line, and for each rule
/// that states its behaviour, the output it states.
pub open spec fn outputs_ok<R: Rule>(
    outs: Seq<RuleOutput>,
    registry: Seq<R>,
    entry: JournalEntry,
    state: StateModel,
    config: ConfigSnapshot,
) -> bool {
    &&& outs.len() == registry.len()
    &&& forall|i: int|
        0 <= i < outs.len() ==> (!(#[trigger] outs[i]).subscribed ==> outs[i].events@.len() == 0)
    &&& forall|i: int|
        0 <= i < outs.len() && (#[trigger] registry[i]).obeys_rule_spec() ==> output_of_rule(
            outs[i],
            registry[i],
            entry,
            state,
            config,
        )
}

/// Evaluation is deterministic: on the same line, projection and configuration, a registry whose
/// rules all state their behaviour gives the same outputs every time (the same ids, priorities,
/// subscriptions and emitted events).
pub proof fn law_rule_outputs_determined<R: Rule>(
    o1: Seq<RuleOutput>,
    o2: Seq<RuleOutput>,
    registry: Seq<R>,
    entry: JournalEntry,
    state: StateModel,
    config: ConfigSnapshot,
)
    requires
        outputs_ok(o1, registry, entry, state, config),
        outputs_ok(o2, registry, entry, state, config),
        forall|i: int| 0 <= i < registry.len() ==> (#[trigger] registry[i]).obeys_rule_spec(),
    ensures
        o1.len() == o2.len(),
        forall|i: int|
            0 <= i < o1.len() ==> {
                &&& (#[trigger] o1[i]).rule_id@ == o2[i].rule_id@
                &&& o1[i].priority == o2[i].priority
                &&& o1[i].subscribed == o2[i].subscribed
                &&& o1[i].events@ == o2[i].events@
            },
{
    assert forall|i: int| 0 <= i < o1.len() implies {
        &&& (#[trigger] o1[i]).rule_id@ == o2[i].rule_id@
        &&& o1[i].priority == o2[i].priority
        &&& o1[i].subscribed == o2[i].subscribed
        &&& o1[i].events@ == o2[i].events@
    } by {
        assert(registry[i].obeys_rule_spec());
        assert(output_of_rule(o1[i], registry[i], entry, state, config));
        assert(output_of_rule(o2[i], registry[i], entry, state, config));
        if !o1[i].subscribed {
            assert(o1[i].events@ =~= o2[i].events@);
        }
    }
}

/// Emission order: in the ordered emissions, one of higher priority comes before one of lower
/// priority; among equal priorities, rule ids come in increasing order, and one rule's actions
/// in the order it gave them.
pub proof fn law_emission_order(s: Seq<Emission>)
    ensures
        forall|i: int, j: int|
            0 <= i < j < sort_emissions_spec(s).len() ==> {
                let a = #[trigger] sort_emissions_spec(s)[i];
                let b = #[trigger] sort_emissions_spec(s)[j];
                &&& a.priority >= b.priority
                &&& a.priority == b.priority ==> (lex_lt(a.rule_id@, b.rule_id@) || a.rule_id@
                    == b.rule_id@)
                &&& a.priority == b.priority && a.rule_id@ == b.rule_id@ ==> a.action_ordinal
                    <= b.action_ordinal
            },
{
    law_emissions_sorted(s);
    let t = sort_emissions_spec(s);
    assert forall|i: int, j: int| 0 <= i < j < t.len() implies {
        let a = #[trigger] t[i];
        let b = #[trigger] t[j];
        &&& a.priority >= b.priority
        &&& a.priority == b.priority ==> (lex_lt(a.rule_id@, b.rule_id@) || a.rule_id@ == b.rule_id@)
        &&& a.priority == b.priority && a.rule_id@ == b.rule_id@ ==> a.action_ordinal
            <= b.action_ordinal
    } by {
        assert(emission_le(t[i], t[j]));
        if t[i].priority == t[j].priority && t[i].rule_id@ == t[j].rule_id@ {
            lemma_lex_irreflexive(t[i].rule_id@);
        }
    }
}

/// The ordered emissions and the trace rows of the rules' outputs on `entry`.
pub open spec fn plan_is(
    r: (Vec<Emission>, Vec<RuleEvaluationRecord>),
    outs: Seq<RuleOutput>,
    entry: JournalEntry,
) -> bool {
    &&& r.0@ == sort_emissions_spec(raw_emissions(outs))
    &&& r.1@.len() == outs.len()
    &&& forall|i: int| 0 <= i < outs.len() ==> trace_row_is(#[trigger] r.1@[i], outs[i], entry)
}

/// Emissions in emission order and one trace row per rule output, in order.
pub fn emissions_and_traces(outs: &Vec<RuleOutput>, entry: &JournalEntry) -> (r: (
    Vec<Emission>,
    Vec<RuleEvaluationRecord>,
))
    ensures
        plan_is(r, outs@, *entry),
{
    let kind = entry.event.kind();
    let mut out: Vec<Emission> = Vec::new();
    let mut traces: Vec<RuleEvaluationRecord> = Vec::new();
    let mut i: usize = 0;
    proof {
        reveal_strlit("not_subscribed");
        reveal_strlit("evaluated_empty");
        assert(outs@.take(0) =~= Seq::<RuleOutput>::empty());
    }
    while i < outs.len()
        invariant
            i <= outs@.len(),
            kind == event_kind(entry.event),
            traces@.len() == i,
            forall|j: int| 0 <= j < i ==> trace_row_is(#[trigger] traces@[j], outs@[j], *entry),
            out@ == raw_emissions(outs@.take(i as int)),
        decreases outs.len() - i,
    {
        let o = &outs[i];
        let matched = o.subscribed && o.events.len() > 0;
        let reason = if matched {
            None
        } else if o.subscribed {
            Some(owned("evaluated_empty"))
        } else {
            Some(owned("not_subscribed"))
        };
        traces.push(
            RuleEvaluationRecord {
                trigger_sequence: entry.sequence,
                trigger_kind: kind,
                rule_id: o.rule_id.clone(),
                matched,
                reason,
            },
        );
        let ghost before = out@;
        assert(outs@.take(i + 1).drop_last() =~= outs@.take(i as int));
        if o.subscribed {
            let mut ord: usize = 0;
            while ord < o.events.len()
                invariant
                    ord <= o.events@.len(),
                    o.subscribed,
                    out@ == before + rule_emissions(*o).take(ord as int),
                decreases o.events.len() - ord,
            {
                let ghost b2 = out@;
                out.push(
                    Emission {
                        rule_id: o.rule_id.clone(),
                        priority: o.priority,
                        action_ordinal: ord,
                        event: o.events[ord].clone(),
                    },
                );
                assert(rule_emissions(*o).take(ord + 1) =~= rule_emissions(*o).take(ord as int).push(
                    rule_emissions(*o)[ord as int],
                ));
                assert(out@ =~= before + rule_emissions(*o).take(ord + 1));
                ord = ord + 1;
            }
            assert(rule_emissions(*o).take(o.events@.len() as int) =~= rule_emissions(*o));
        } else {
            assert(out@ =~= before + rule_emissions(*o));
        }
        i = i + 1;
    }
    assert(outs@.take(outs@.len() as int) =~= outs@);
    (sort_emissions(out), traces)
}

/// Evaluates every rule of the registry on `entry`, in registry order: a rule that consumes the
/// line's kind is evaluated in the context of `state` and the line, the others are not.
fn evaluate_rules<R: Rule>(
    registry: &[R],
    entry: &JournalEntry,
    config: &ConfigSnapshot,
    state: &State,
) -> (outs: Vec<RuleOutput>)
    ensures
        outputs_ok(outs@, registry@, *entry, state@, *config),
{
    let ctx = RuleContext {
        state,
        config,
        trigger_timestamp: entry.timestamp,
        causal_chain_id: entry.causal_chain_id,
        parent_sequence: Some(entry.sequence),
        parent_event_id: entry.event_id,
    };
    assert(ctx.view_of() == rule_ctx(*entry, state@, *config));
    let kind = entry.event.kind();
    let mut outs: Vec<RuleOutput> = Vec::new();
    let mut i: usize = 0;
    while i < registry.len()
        invariant
            i <= registry@.len(),
            ctx.view_of() == rule_ctx(*entry, state@, *config),
            kind == event_kind(entry.event),
            outputs_ok(outs@, registry@.take(i as int), *entry, state@, *config),
        decreases registry.len() - i,
    {
        let r = &registry[i];
        let subscribed = kind_in(r.consumes(), kind);
        let events = if subscribed {
            r.eval(&entry.event, &ctx)
        } else {
            Vec::new()
        };
        let id = owned(r.rule_id());
        let priority = r.priority();
        let ghost prev = outs@;
        outs.push(RuleOutput { rule_id: id, priority, subscribed, events });
        proof {
            let reg = registry@.take(i + 1);
            assert(reg.take(i as int) =~= registry@.take(i as int));
            assert forall|j: int|
                0 <= j < outs@.len() && (#[trigger] reg[j]).obeys_rule_spec() implies output_of_rule(
                outs@[j],
                reg[j],
                *entry,
                state@,
                *config,
            ) by {
                if j < i {
                    assert(outs@[j] == prev[j]);
                    assert(reg[j] == registry@.take(i as int)[j]);
                }
            }
        }
        i = i + 1;
    }
    assert(registry@.take(registry@.len() as int) =~= registry@);
    outs
}

/// Evaluates every rule of the registry on `entry`: one trace row per rule, in registry order,
/// and the emissions of the rules that consume the line, in emission order.
pub fn collect_emissions_and_traces<R: Rule>(
    registry: &[R],
    entry: &JournalEntry,
    config: &ConfigSnapshot,
    state: &State,
) -> (r: (Vec<Emission>, Vec<RuleEvaluationRecord>))
    ensures
        exists|outs: Seq<RuleOutput>|
            outputs_ok(outs, registry@, *entry, state@, *config) && #[trigger] plan_is(r, outs, *entry),
        emissions_sorted(r.0@),
{
    let outs = evaluate_rules(registry, entry, config, state);
    let r = emissions_and_traces(&outs, entry);
    proof {
        law_emissions_sorted(raw_emissions(outs@));
    }
    r
}

/// A derived light fact while the projection is anchored on IO.
pub open spec fn io_anchored_violation(e: Event, config: ConfigSnapshot) -> bool {
    &&& config.physical_projection_mode == PhysicalProjectionMode::IoAnchored
    &&& match e {
        Event::Fact(FactEvent::LightOn { provenance, .. }) => provenance == Provenance::Derived,
        Event::Fact(FactEvent::LightOff { provenance, .. }) => provenance == Provenance::Derived,
        _ => false,
    }
}

/// In `IoAnchored` mode, a rule may not append a derived light fact (it needs an IO path).
pub fn check_io_anchored_emission(event: &Event, config: &ConfigSnapshot) -> (r: Result<(), RunError>)
    ensures
        r is Err <==> io_anchored_violation(*event, *config),
        r matches Err(e) ==> e is IoAnchoredDerivedActuator,
{
    if config.physical_projection_mode != PhysicalProjectionMode::IoAnchored {
        return Ok(());
    }
    let derived_light = match event {
        Event::Fact(FactEvent::LightOn { provenance, .. }) => *provenance == Provenance::Derived,
        Event::Fact(FactEvent::LightOff { provenance, .. }) => *provenance == Provenance::Derived,
        _ => false,
    };
    if derived_light {
        Err(
            RunError::IoAnchoredDerivedActuator(
                owned("LightOn/LightOff Derived in IoAnchored \u{2014} use Observed + command IO path"),
            ),
        )
    } else {
        Ok(())
    }
}

// ------------------------------------------------------------------ audit

/// `e` is the audit line of `err` raised while processing `trigger`, appended at sequence `seq`
/// after lines whose last committed timestamp is `last`: it carries the error's stable id and
/// text, the trigger's causal context, and a timestamp that does not regress.
pub open spec fn is_error_line(
    e: JournalEntry,
    seq: u64,
    last: Option<i64>,
    trigger: JournalEntry,
    err: RunError,
) -> bool {
    &&& e.sequence == seq
    &&& e.schema_version == crate::journal::SCHEMA_VERSION
    &&& e.timestamp == match last {
        Some(lt) => if lt >= trigger.timestamp {
            lt
        } else {
            trigger.timestamp
        },
        None => trigger.timestamp,
    }
    &&& e.causal_chain_id == trigger.causal_chain_id
    &&& e.parent_sequence == Some(trigger.sequence)
    &&& e.parent_event_id == trigger.event_id
    &&& e.rule_id is None
    &&& e.event_id is None
    &&& e.correlation_id == trigger.correlation_id
    &&& e.trace_id == trigger.trace_id
    &&& e.event matches Event::ErrorOccurred(o) && o.error_type@ == run_error_type_id(err)
        && o.context@ == run_error_message(err)
}

/// Appends the `ErrorOccurred` audit line of `err` (best effort: nothing when the sequence
/// space is exhausted).
fn append_pipeline_error_best_effort(journal: &mut Journal, trigger: &JournalEntry, err: &RunError)
    requires
        old(journal).wf(),
    ensures
        final(journal).wf(),
        final(journal).fsync_after_append == old(journal).fsync_after_append,
        old(journal).next_sequence < u64::MAX ==> exists|e: JournalEntry|
            is_error_line(
                e,
                old(journal).next_sequence,
                old(journal).last_timestamp_committed,
                *trigger,
                *err,
            ) && final(journal).lines@ == old(journal).lines@.push(e) && final(journal).pending@
                == old(journal).pending@.push(e),
        old(journal).next_sequence == u64::MAX ==> *final(journal) == *old(journal),
{
    if journal.next_sequence == u64::MAX {
        return ;
    }
    let ts = match journal.last_timestamp_committed {
        Some(lt) => if lt >= trigger.timestamp {
            lt
        } else {
            trigger.timestamp
        },
        None => trigger.timestamp,
    };
    let event = Event::ErrorOccurred(
        ErrorOccurredEvent { error_type: err.stable_type_id(), context: err.message() },
    );
    let a = JournalAppend {
        timestamp: ts,
        causal_chain_id: trigger.causal_chain_id,
        parent_sequence: Some(trigger.sequence),
        parent_event_id: trigger.event_id,
        rule_id: None,
        event_id: None,
        correlation_id: trigger.correlation_id,
        trace_id: trigger.trace_id,
        event,
    };
    let ghost ga = a;
    let ghost n = journal.next_sequence;
    let _ = journal.append(a);
    assert(is_error_line(
        entry_of(ga, n),
        n,
        old(journal).last_timestamp_committed,
        *trigger,
        *err,
    ));
}

/// The journal only grew: the old lines are a prefix, the new lines are pending after the old
/// pending ones, and the sync setting is kept.
pub open spec fn journal_grew(a: Journal, b: Journal) -> bool {
    &&& b.lines@.len() >= a.lines@.len()
    &&& b.lines@.take(a.lines@.len() as int) == a.lines@
    &&& b.pending@ == a.pending@ + b.lines@.skip(a.lines@.len() as int)
    &&& b.fsync_after_append == a.fsync_after_append
}

/// The last line is the `ErrorOccurred` audit of `err`.
pub open spec fn ends_with_audit(lines: Seq<JournalEntry>, err: RunError) -> bool {
    &&& lines.len() > 0
    &&& lines.last().event matches Event::ErrorOccurred(o) && o.error_type@ == run_error_type_id(err)
        && o.context@ == run_error_message(err)
}

pub proof fn lemma_grew_refl(a: Journal)
    requires
        a.wf(),
    ensures
        journal_grew(a, a),
{
    assert(a.lines@.take(a.lines@.len() as int) =~= a.lines@);
    assert(a.pending@ + a.lines@.skip(a.lines@.len() as int) =~= a.pending@);
}

pub proof fn lemma_grew_trans(a: Journal, b: Journal, c: Journal)
    requires
        journal_grew(a, b),
        journal_grew(b, c),
    ensures
        journal_grew(a, c),
{
    let n = a.lines@.len() as int;
    let m = b.lines@.len() as int;
    assert(c.lines@.take(m).take(n) =~= c.lines@.take(n));
    assert(c.lines@.skip(n) =~= b.lines@.skip(n) + c.lines@.skip(m)) by {
        assert(c.lines@.take(m).skip(n) =~= b.lines@.skip(n));
        assert(c.lines@.skip(n) =~= c.lines@.take(m).skip(n) + c.lines@.skip(m));
    }
    assert(c.pending@ =~= a.pending@ + c.lines@.skip(n));
}

pub proof fn lemma_grew_push(a: Journal, b: Journal, e: JournalEntry)
    requires
        b.lines@ == a.lines@.push(e),
        b.pending@ == a.pending@.push(e),
        b.fsync_after_append == a.fsync_after_append,
    ensures
        journal_grew(a, b),
{
    assert(b.lines@.take(a.lines@.len() as int) =~= a.lines@);
    assert(b.lines@.skip(a.lines@.len() as int) =~= seq![e]);
    assert(a.pending@ + seq![e] =~= a.pending@.push(e));
}

/// `after` is `before` followed by the audit line of `err` raised while processing `trigger`,
/// or is `before` itself when the sequence space is exhausted.
pub open spec fn audited(
    before: Seq<JournalEntry>,
    after: Seq<JournalEntry>,
    trigger: JournalEntry,
    err: RunError,
) -> bool {
    ||| {
        &&& before.len() < u64::MAX
        &&& after.len() == before.len() + 1
        &&& after.drop_last() == before
        &&& is_error_line(after.last(), before.len() as u64, max_timestamp(before), trigger, err)
    }
    ||| before.len() >= u64::MAX && after == before
}

/// An audit keeps every prefix of the lines it follows.
proof fn lemma_take_after_audit(
    before: Seq<JournalEntry>,
    after: Seq<JournalEntry>,
    trigger: JournalEntry,
    err: RunError,
    n: int,
)
    requires
        audited(before, after, trigger, err),
        0 <= n <= before.len(),
    ensures
        after.len() >= before.len(),
        after.take(n) == before.take(n),
{
    if after.len() == before.len() + 1 {
        assert(after.take(n) =~= after.drop_last().take(n));
    }
}

/// No line from index `from` on is a derived light fact that `config` forbids.
pub open spec fn respects_io_anchor(lines: Seq<JournalEntry>, from: int, config: ConfigSnapshot) -> bool {
    forall|i: int| from <= i < lines.len() ==> !io_anchored_violation(#[trigger] lines[i].event, config)
}

/// Appends the audit line of `err` and hands `err` back.
fn fail(
    journal: &mut Journal,
    trigger: &JournalEntry,
    err: RunError,
    Ghost(origin): Ghost<Journal>,
    Ghost(config): Ghost<ConfigSnapshot>,
) -> (r: RunError)
    requires
        old(journal).wf(),
        journal_grew(origin, *old(journal)),
        respects_io_anchor(old(journal).lines@, origin.lines@.len() as int, config),
    ensures
        r == err,
        final(journal).wf(),
        journal_grew(origin, *final(journal)),
        ends_with_audit(final(journal).lines@, err) || final(journal).next_sequence == u64::MAX,
        respects_io_anchor(final(journal).lines@, origin.lines@.len() as int, config),
        audited(old(journal).lines@, final(journal).lines@, *trigger, err),
{
    let ghost j0 = *journal;
    append_pipeline_error_best_effort(journal, trigger, &err);
    proof {
        if j0.next_sequence < u64::MAX {
            let e = choose|e: JournalEntry|
                is_error_line(e, j0.next_sequence, j0.last_timestamp_committed, *trigger, err)
                    && journal.lines@ == j0.lines@.push(e) && journal.pending@ == j0.pending@.push(e);
            lemma_grew_push(j0, *journal, e);
            assert(journal.lines@.last() == e);
            assert(journal.lines@.drop_last() =~= j0.lines@);
        } else {
            lemma_grew_refl(j0);
        }
        lemma_grew_trans(origin, j0, *journal);
        assert forall|i: int|
            origin.lines@.len() <= i < journal.lines@.len() implies !io_anchored_violation(
            #[trigger] journal.lines@[i].event,
            config,
        ) by {
            if i < j0.lines@.len() {
                assert(journal.lines@[i] == j0.lines@[i]);
            }
        }
    }
    err
}

// ------------------------------------------------------------------ appending emissions

/// The append a rule emission of `trigger` makes: the trigger's time, causal chain, correlation
/// and trace, the trigger as parent, and the emitting rule.
pub open spec fn derived_append(trigger: JournalEntry, em: Emission) -> JournalAppend {
    JournalAppend {
        timestamp: trigger.timestamp,
        causal_chain_id: trigger.causal_chain_id,
        parent_sequence: Some(trigger.sequence),
        parent_event_id: trigger.event_id,
        rule_id: Some(em.rule_id),
        event_id: None,
        correlation_id: trigger.correlation_id,
        trace_id: trigger.trace_id,
        event: em.event,
    }
}

/// Where appending emissions stands: the journal lines, the shadow projection that emitted facts
/// are checked against, the causal tree of the run's root, and how many lines counted against it.
pub struct EmitModel {
    pub lines: Seq<JournalEntry>,
    pub shadow: StateModel,
    pub tree: Set<u64>,
    pub generated: nat,
}

/// Why appending an emission stops the run.
pub enum EmitError {
    IoAnchored,
    Apply(ApplyErrorView),
    Journal,
    RootLimit,
}

/// Where appending stands, and why it stopped if it did.
pub struct EmitOutcome {
    pub model: EmitModel,
    pub err: Option<EmitError>,
}

/// The fact error of an emitted event against the shadow, if it is a fact.
pub open spec fn emission_fact_error(shadow: StateModel, e: Event) -> Option<ApplyErrorView> {
    match e {
        Event::Fact(f) => fact_error_spec(shadow, f),
        _ => None,
    }
}

/// The shadow after an accepted emitted event.
pub open spec fn shadow_after(shadow: StateModel, e: Event) -> StateModel {
    match e {
        Event::Fact(f) => apply_spec(shadow, f)->Ok_0,
        _ => shadow,
    }
}

/// One emission of `trigger`: refused when IoAnchored forbids it or when its fact is invalid in
/// the shadow; otherwise the shadow takes it and its line is appended, unless it is a command
/// already journaled. A line appended under a line of the causal tree joins the tree and counts
/// toward `max_per_root`; one too many stops the run once appended. A full sequence space or a
/// timestamp below the last committed one is a journal error.
pub open spec fn emit_step(
    m: EmitModel,
    trigger: JournalEntry,
    em: Emission,
    config: ConfigSnapshot,
    max_per_root: u64,
) -> EmitOutcome {
    if io_anchored_violation(em.event, config) {
        EmitOutcome { model: m, err: Some(EmitError::IoAnchored) }
    } else if emission_fact_error(m.shadow, em.event) is Some {
        EmitOutcome {
            model: m,
            err: Some(EmitError::Apply(emission_fact_error(m.shadow, em.event)->0)),
        }
    } else {
        let m1 = EmitModel { shadow: shadow_after(m.shadow, em.event), ..m };
        if (em.event matches Event::Command(c) && command_ids(m.lines).contains(command_id_of(c))) {
            EmitOutcome { model: m1, err: None }
        } else if (max_timestamp(m.lines) matches Some(lt) && trigger.timestamp < lt) {
            EmitOutcome { model: m1, err: Some(EmitError::Journal) }
        } else if m.lines.len() >= u64::MAX {
            EmitOutcome { model: m1, err: Some(EmitError::Journal) }
        } else {
            let e = entry_of(derived_append(trigger, em), m.lines.len() as u64);
            let lines = m.lines.push(e);
            if m.tree.contains(trigger.sequence) {
                if m.generated >= max_per_root {
                    EmitOutcome {
                        model: EmitModel { lines, tree: m.tree.insert(e.sequence), ..m1 },
                        err: Some(EmitError::RootLimit),
                    }
                } else {
                    EmitOutcome {
                        model: EmitModel {
                            lines,
                            tree: m.tree.insert(e.sequence),
                            generated: m.generated + 1,
                            ..m1
                        },
                        err: None,
                    }
                }
            } else {
                EmitOutcome { model: EmitModel { lines, ..m1 }, err: None }
            }
        }
    }
}

/// The emissions of `trigger`, in order, until one stops the run.
pub open spec fn emit_all(
    m: EmitModel,
    trigger: JournalEntry,
    ems: Seq<Emission>,
    config: ConfigSnapshot,
    max_per_root: u64,
) -> EmitOutcome
    decreases ems.len(),
{
    if ems.len() == 0 {
        EmitOutcome { model: m, err: None }
    } else {
        let r = emit_all(m, trigger, ems.drop_last(), config, max_per_root);
        if r.err is Some {
            r
        } else {
            emit_step(r.model, trigger, ems.last(), config, max_per_root)
        }
    }
}

/// The run error a stop reason is raised as.
pub open spec fn emit_error_is(e: RunError, k: EmitError, m: EmitModel, max_per_root: u64) -> bool {
    match k {
        EmitError::IoAnchored => e is IoAnchoredDerivedActuator,
        EmitError::Apply(v) => (e matches RunError::Apply(a) && a@ == v),
        EmitError::Journal => e is Journal,
        EmitError::RootLimit => e == RunError::MaxEventsGeneratedPerRoot {
            generated: (m.generated + 1) as u64,
            max: max_per_root,
        },
    }
}

/// The emitting model of a journal, a shadow, a tree and a count.
pub open spec fn emit_model(j: Journal, shadow: State, tree: HashSet<u64>, generated: u64) -> EmitModel {
    EmitModel { lines: j.lines@, shadow: shadow@, tree: tree@, generated: generated as nat }
}

/// Once an emission stops the run, later ones change nothing.
proof fn lemma_emit_stop_persists(
    m: EmitModel,
    trigger: JournalEntry,
    ems: Seq<Emission>,
    config: ConfigSnapshot,
    max_per_root: u64,
    k: int,
)
    requires
        0 <= k <= ems.len(),
        emit_all(m, trigger, ems.take(k), config, max_per_root).err is Some,
    ensures
        emit_all(m, trigger, ems, config, max_per_root) == emit_all(
            m,
            trigger,
            ems.take(k),
            config,
            max_per_root,
        ),
    decreases ems.len(),
{
    if k < ems.len() {
        assert(ems.drop_last().take(k) =~= ems.take(k));
        lemma_emit_stop_persists(m, trigger, ems.drop_last(), config, max_per_root, k);
    } else {
        assert(ems.take(k) =~= ems);
    }
}

/// Appends the emissions of `trigger` in order, as `emit_all` describes, queueing each appended
/// line; when one stops the run, its audit line is appended and its error returned.
pub fn append_emissions(
    journal: &mut Journal,
    shadow: &mut State,
    queue: &mut VecDeque<JournalEntry>,
    causal_tree: &mut HashSet<u64>,
    generated: &mut u64,
    trigger: &JournalEntry,
    emissions: &Vec<Emission>,
    config: &ConfigSnapshot,
    max_per_root: u64,
    Ghost(origin): Ghost<Journal>,
) -> (r: Result<(), RunError>)
    requires
        old(journal).wf(),
        old(shadow).wf(),
        journal_grew(origin, *old(journal)),
        respects_io_anchor(old(journal).lines@, origin.lines@.len() as int, *config),
        *old(generated) <= max_per_root,
        *old(generated) + origin.lines@.len() <= old(journal).lines@.len(),
    ensures
        ({
            let out = emit_all(
                emit_model(*old(journal), *old(shadow), *old(causal_tree), *old(generated)),
                *trigger,
                emissions@,
                *config,
                max_per_root,
            );
            &&& final(journal).wf()
            &&& final(shadow).wf()
            &&& journal_grew(origin, *final(journal))
            &&& respects_io_anchor(final(journal).lines@, origin.lines@.len() as int, *config)
            &&& final(journal).lines@.len() >= old(journal).lines@.len()
            &&& final(journal).lines@.take(old(journal).lines@.len() as int) == old(journal).lines@
            &&& r is Ok <==> out.err is None
            &&& r matches Err(RunError::MaxEventsGeneratedPerRoot { generated, max }) ==> max
                == max_per_root && generated == max + 1
            &&& r matches Err(RunError::IoAnchoredDerivedActuator(_)) ==> config.physical_projection_mode
                == PhysicalProjectionMode::IoAnchored
            &&& !(r matches Err(RunError::MaxEventsPerRun { .. }))
            &&& !(r matches Err(RunError::QueueCapacity { .. }))
            &&& !(r matches Err(RunError::RunTimeBudget { .. }))
            &&& r is Ok ==> {
                &&& emit_model(*final(journal), *final(shadow), *final(causal_tree), *final(generated))
                    == out.model
                &&& *final(generated) <= max_per_root
                &&& *final(generated) + origin.lines@.len() <= final(journal).lines@.len()
                &&& final(queue)@ == old(queue)@ + final(journal).lines@.skip(
                    old(journal).lines@.len() as int,
                )
            }
            &&& r matches Err(e) ==> (out.err matches Some(k) && emit_error_is(e, k, out.model, max_per_root))
                && audited(out.model.lines, final(journal).lines@, *trigger, e)
        }),
{
    let ghost m0 = emit_model(*journal, *shadow, *causal_tree, *generated);
    let ghost n0 = journal.lines@.len();
    let ghost q0 = queue@;
    let mut idx: usize = 0;
    proof {
        lemma_grew_refl(*journal);
        assert(journal.lines@.take(n0 as int) =~= journal.lines@);
        assert(emissions@.take(0) =~= Seq::<Emission>::empty());
        assert(journal.lines@.skip(n0 as int) =~= Seq::<JournalEntry>::empty());
        assert(q0 + journal.lines@.skip(n0 as int) =~= q0);
    }
    while idx < emissions.len()
        invariant
            journal.wf(),
            shadow.wf(),
            journal_grew(origin, *journal),
            respects_io_anchor(journal.lines@, origin.lines@.len() as int, *config),
            journal.lines@.len() >= n0,
            m0 == emit_model(*old(journal), *old(shadow), *old(causal_tree), *old(generated)),
            journal.lines@.take(n0 as int) == old(journal).lines@,
            n0 == old(journal).lines@.len(),
            q0 == old(queue)@,
            idx <= emissions@.len(),
            *generated <= max_per_root,
            *generated + origin.lines@.len() <= journal.lines@.len(),
            emit_all(m0, *trigger, emissions@.take(idx as int), *config, max_per_root) == (
            EmitOutcome { model: emit_model(*journal, *shadow, *causal_tree, *generated), err: None }),
            queue@ == q0 + journal.lines@.skip(n0 as int),
        decreases emissions.len() - idx,
    {
        let ghost m = emit_model(*journal, *shadow, *causal_tree, *generated);
        let ghost em = emissions@[idx as int];
        proof {
            assert(emissions@.take(idx + 1).drop_last() =~= emissions@.take(idx as int));
            assert(emissions@.take(idx + 1).last() == em);
        }
        let em_event = emissions[idx].event.clone();
        match check_io_anchored_emission(&em_event, config) {
            Ok(()) => {},
            Err(e) => {
                let err = fail(journal, trigger, e, Ghost(origin), Ghost(*config));
                proof {
                    let out = emit_all(m0, *trigger, emissions@, *config, max_per_root);
                    lemma_emit_stop_persists(m0, *trigger, emissions@, *config, max_per_root, idx + 1);
                    assert(out.err is Some);
                    assert(emit_error_is(err, out.err->0, out.model, max_per_root));
                    assert(audited(out.model.lines, journal.lines@, *trigger, err));
                    lemma_take_after_audit(out.model.lines, journal.lines@, *trigger, err, n0 as int);
                }
                return Err(err);
            },
        }
        match &em_event {
            Event::Fact(fact) => {
                match validate_fact_for_append(shadow, fact) {
                    Ok(()) => {},
                    Err(ae) => {
                        let err = fail(journal, trigger, RunError::Apply(ae), Ghost(origin), Ghost(*config));
                        proof {
                            let out = emit_all(m0, *trigger, emissions@, *config, max_per_root);
                            lemma_emit_stop_persists(m0, *trigger, emissions@, *config, max_per_root, idx + 1);
                            assert(out.err is Some);
                            assert(emit_error_is(err, out.err->0, out.model, max_per_root));
                            assert(audited(out.model.lines, journal.lines@, *trigger, err));
                            lemma_take_after_audit(out.model.lines, journal.lines@, *trigger, err, n0 as int);
                        }
                        return Err(err);
                    },
                }
                match apply_event(shadow, fact) {
                    Ok(next) => {
                        *shadow = next;
                    },
                    Err(ae) => {
                        let err = fail(journal, trigger, RunError::Apply(ae), Ghost(origin), Ghost(*config));
                        proof {
                            let out = emit_all(m0, *trigger, emissions@, *config, max_per_root);
                            lemma_emit_stop_persists(m0, *trigger, emissions@, *config, max_per_root, idx + 1);
                            assert(out.err is Some);
                            assert(emit_error_is(err, out.err->0, out.model, max_per_root));
                            assert(audited(out.model.lines, journal.lines@, *trigger, err));
                            lemma_take_after_audit(out.model.lines, journal.lines@, *trigger, err, n0 as int);
                        }
                        return Err(err);
                    },
                }
            },
            _ => {},
        }
        let duplicate = match &em_event {
            Event::Command(cmd) => journal.seen(cmd.command_id()),
            _ => false,
        };
        let regresses = match journal.last_timestamp_committed {
            Some(lt) => trigger.timestamp < lt,
            None => false,
        };
        if journal.next_sequence == u64::MAX && !duplicate && !regresses {
            let err = fail(
                journal,
                trigger,
                RunError::Journal(owned("journal sequence space exhausted")),
                Ghost(origin),
                Ghost(*config),
            );
            proof {
                let out = emit_all(m0, *trigger, emissions@, *config, max_per_root);
                lemma_emit_stop_persists(m0, *trigger, emissions@, *config, max_per_root, idx + 1);
                assert(out.err is Some);
                assert(emit_error_is(err, out.err->0, out.model, max_per_root));
                assert(audited(out.model.lines, journal.lines@, *trigger, err));
                lemma_take_after_audit(out.model.lines, journal.lines@, *trigger, err, n0 as int);
            }
            return Err(err);
        }
        let ghost jb = *journal;
        let a = JournalAppend {
            timestamp: trigger.timestamp,
            causal_chain_id: trigger.causal_chain_id,
            parent_sequence: Some(trigger.sequence),
            parent_event_id: trigger.event_id,
            rule_id: Some(emissions[idx].rule_id.clone()),
            event_id: None,
            correlation_id: trigger.correlation_id,
            trace_id: trigger.trace_id,
            event: em_event,
        };
        assert(a == derived_append(*trigger, em));
        let outcome = journal.append(a);
        match outcome {
            Err(je) => {
                let err = fail(journal, trigger, RunError::Journal(je.message()), Ghost(origin), Ghost(*config));
                proof {
                    let out = emit_all(m0, *trigger, emissions@, *config, max_per_root);
                    lemma_emit_stop_persists(m0, *trigger, emissions@, *config, max_per_root, idx + 1);
                    assert(out.err is Some);
                    assert(emit_error_is(err, out.err->0, out.model, max_per_root));
                    assert(audited(out.model.lines, journal.lines@, *trigger, err));
                    lemma_take_after_audit(out.model.lines, journal.lines@, *trigger, err, n0 as int);
                }
                return Err(err);
            },
            Ok(JournalAppendOutcome::DuplicateCommandSkipped { .. }) => {
                proof {
                    assert(queue@ == q0 + journal.lines@.skip(n0 as int));
                }
            },
            Ok(JournalAppendOutcome::Committed(new_entry)) => {
                proof {
                    lemma_grew_push(jb, *journal, new_entry);
                    lemma_grew_trans(origin, jb, *journal);
                    assert forall|i: int|
                        origin.lines@.len() <= i < journal.lines@.len() implies !io_anchored_violation(
                        #[trigger] journal.lines@[i].event,
                        *config,
                    ) by {
                        if i < jb.lines@.len() {
                            assert(journal.lines@[i] == jb.lines@[i]);
                        }
                    }
                    assert(journal.lines@.skip(n0 as int) =~= jb.lines@.skip(n0 as int).push(new_entry));
                    assert(journal.lines@.take(n0 as int) =~= jb.lines@.take(n0 as int));
                }
                if causal_tree.contains(&trigger.sequence) {
                    causal_tree.insert(new_entry.sequence);
                    if *generated >= max_per_root {
                        let err = fail(
                            journal,
                            trigger,
                            RunError::MaxEventsGeneratedPerRoot {
                                generated: *generated + 1,
                                max: max_per_root,
                            },
                            Ghost(origin),
                            Ghost(*config),
                        );
                        proof {
                            let out = emit_all(m0, *trigger, emissions@, *config, max_per_root);
                            lemma_emit_stop_persists(m0, *trigger, emissions@, *config, max_per_root, idx + 1);
                            assert(out.err is Some);
                            assert(emit_error_is(err, out.err->0, out.model, max_per_root));
                            assert(audited(out.model.lines, journal.lines@, *trigger, err));
                            lemma_take_after_audit(out.model.lines, journal.lines@, *trigger, err, n0 as int);
                        }
                        return Err(err);
                    }
                    *generated = *generated + 1;
                }
                queue.push_back(new_entry);
            },
        }
        idx = idx + 1;
    }
    proof {
        assert(emissions@.take(emissions@.len() as int) =~= emissions@);
    }
    Ok(())
}

/// `lines` ends with the audit of `err` raised while processing one of its lines from `from` on
/// (or, with the sequence space exhausted, without one).
#[verifier::opaque]
pub open spec fn audit_after(lines: Seq<JournalEntry>, from: int, err: RunError) -> bool {
    exists|q: int, m: int|
        from <= q < m <= lines.len() && #[trigger] audited(lines.take(m), lines, lines[q], err)
}

proof fn lemma_audit_after(
    before: Seq<JournalEntry>,
    after: Seq<JournalEntry>,
    trigger: JournalEntry,
    err: RunError,
    from: int,
    q: int,
)
    requires
        audited(before, after, trigger, err),
        0 <= from <= q < before.len(),
        before[q] == trigger,
    ensures
        audit_after(after, from, err),
{
    reveal(audit_after);
    lemma_take_after_audit(before, after, trigger, err, before.len() as int);
    assert(after.take(before.len() as int) =~= before);
    assert(after[q] == trigger);
    assert(audited(after.take(before.len() as int), after, after[q], err));
}


/// The trace rows of processed lines, given the rule outputs on each line: one block per line,
/// in order, of one row per output.
pub open spec fn rows_of(
    rows: Seq<RuleEvaluationRecord>,
    lines: Seq<JournalEntry>,
    outss: Seq<Seq<RuleOutput>>,
) -> bool
    decreases lines.len(),
{
    if lines.len() == 0 {
        rows.len() == 0 && outss.len() == 0
    } else {
        let n = outss.last().len();
        &&& outss.len() == lines.len()
        &&& rows.len() >= n
        &&& rows_of(rows.take(rows.len() - n), lines.drop_last(), outss.drop_last())
        &&& forall|i: int|
            0 <= i < n ==> trace_row_is(
                #[trigger] rows.skip(rows.len() - n)[i],
                outss.last()[i],
                lines.last(),
            )
    }
}

/// Where a run stands: the journal lines, the projection, the causal tree of its root, and how
/// many lines counted against the root.
pub struct RunModel {
    pub lines: Seq<JournalEntry>,
    pub state: StateModel,
    pub tree: Set<u64>,
    pub generated: nat,
}

/// The projection after processing `line`: a fact is applied, any other line changes nothing.
pub open spec fn processed_state(m: StateModel, line: JournalEntry) -> StateModel {
    match line.event {
        Event::Fact(f) => apply_spec(m, f)->Ok_0,
        _ => m,
    }
}

/// The causal tree a run starts with: the first queued line, if any.
pub open spec fn root_tree(queue: Seq<JournalEntry>) -> Set<u64> {
    if queue.len() > 0 {
        set![queue[0].sequence]
    } else {
        Set::empty()
    }
}

/// The run after processing, one after the other from index `from`, one line per element of
/// `outss`, each with those rule outputs: the line is applied to the projection, then the
/// ordered emissions of the outputs are appended against a shadow of it, as `emit_all` says.
pub open spec fn run_steps(
    m: RunModel,
    from: int,
    outss: Seq<Seq<RuleOutput>>,
    config: ConfigSnapshot,
    max_per_root: u64,
) -> RunModel
    decreases outss.len(),
{
    if outss.len() == 0 {
        m
    } else {
        let prev = run_steps(m, from, outss.drop_last(), config, max_per_root);
        let line = prev.lines[from + outss.len() - 1];
        let st = processed_state(prev.state, line);
        let out = emit_all(
            EmitModel { lines: prev.lines, shadow: st, tree: prev.tree, generated: prev.generated },
            line,
            sort_emissions_spec(raw_emissions(outss.last())),
            config,
            max_per_root,
        );
        RunModel { lines: out.model.lines, state: st, tree: out.model.tree, generated: out.model.generated }
    }
}

/// Each step of the run gets the outputs the registry gives on its line, evaluated on the
/// projection after that line (see `outputs_ok`).
pub open spec fn run_outputs_ok<R: Rule>(
    m: RunModel,
    from: int,
    outss: Seq<Seq<RuleOutput>>,
    registry: Seq<R>,
    config: ConfigSnapshot,
    max_per_root: u64,
) -> bool
    decreases outss.len(),
{
    if outss.len() == 0 {
        true
    } else {
        let prev = run_steps(m, from, outss.drop_last(), config, max_per_root);
        let line = prev.lines[from + outss.len() - 1];
        &&& run_outputs_ok(m, from, outss.drop_last(), registry, config, max_per_root)
        &&& outputs_ok(outss.last(), registry, line, processed_state(prev.state, line), config)
    }
}

/// A completed run from `start` whose lines from `from` on were all processed, the registry's
/// rules giving the outputs `outss` on each processed line: it ends with `lines` and the
/// projection `state`, and its trace rows are `rows`.
pub open spec fn drain_run<R: Rule>(
    outss: Seq<Seq<RuleOutput>>,
    start: RunModel,
    from: int,
    config: ConfigSnapshot,
    max_per_root: u64,
    registry: Seq<R>,
    lines: Seq<JournalEntry>,
    state: StateModel,
    rows: Seq<RuleEvaluationRecord>,
) -> bool {
    let end = run_steps(start, from, outss, config, max_per_root);
    &&& outss.len() == lines.len() - from
    &&& run_outputs_ok(start, from, outss, registry, config, max_per_root)
    &&& end.lines == lines
    &&& end.state == state
    &&& rows_of(rows, lines.skip(from), outss)
}

/// A stop on line `q` of the run `m` before its rules are evaluated, `count` lines having been
/// processed: in the order the checks are made, the wall-clock budget, then the per-run limit
/// (exactly when `count` lines were already processed), then the queue capacity (the lines
/// left after `q`), then the line's own fact being invalid on the projection.
pub open spec fn stop_before_rules(m: RunModel, q: int, count: nat, limits: RunLimits, e: RunError) -> bool {
    let pending = m.lines.len() - q - 1;
    match e {
        RunError::RunTimeBudget { elapsed_ms, max_ms } => max_ms == limits.max_wall_ms_per_run
            && elapsed_ms > max_ms,
        RunError::MaxEventsPerRun { processed, max } => count == limits.max_events_per_run
            && processed == count + 1 && max == limits.max_events_per_run,
        RunError::QueueCapacity { pending: n, max } => count < limits.max_events_per_run && n
            == pending && max == limits.max_pending_events && pending > max,
        RunError::Apply(ae) => count < limits.max_events_per_run && pending
            <= limits.max_pending_events && (m.lines[q].event matches Event::Fact(f) && apply_spec(
            m.state,
            f,
        ) == Err::<StateModel, ApplyErrorView>(ae@)),
        _ => false,
    }
}

/// A stop on line `q` of the run `m` while appending what the rules emitted on it: the checks
/// before the rules passed, the registry gave `outs`, and appending their ordered emissions
/// stopped with `e` (see `emit_all`), whose audit line ends `lines`.
pub open spec fn stop_in_rules<R: Rule>(
    m: RunModel,
    q: int,
    count: nat,
    outs: Seq<RuleOutput>,
    registry: Seq<R>,
    config: ConfigSnapshot,
    limits: RunLimits,
    lines: Seq<JournalEntry>,
    e: RunError,
) -> bool {
    let line = m.lines[q];
    let st = processed_state(m.state, line);
    let out = emit_all(
        EmitModel { lines: m.lines, shadow: st, tree: m.tree, generated: m.generated },
        line,
        sort_emissions_spec(raw_emissions(outs)),
        config,
        limits.max_events_generated_per_root,
    );
    &&& count < limits.max_events_per_run
    &&& m.lines.len() - q - 1 <= limits.max_pending_events
    &&& (line.event matches Event::Fact(f) ==> apply_spec(m.state, f) is Ok)
    &&& outputs_ok(outs, registry, line, st, config)
    &&& (out.err matches Some(k) && emit_error_is(e, k, out.model, limits.max_events_generated_per_root))
    &&& audited(out.model.lines, lines, line, e)
}

/// A run from `start` that processed the lines from `from` on with the registry's outputs
/// `outss`, then stopped with `e` on the next line, leaving the journal lines `lines`.
pub open spec fn drain_stopped<R: Rule>(
    outss: Seq<Seq<RuleOutput>>,
    start: RunModel,
    from: int,
    config: ConfigSnapshot,
    limits: RunLimits,
    registry: Seq<R>,
    lines: Seq<JournalEntry>,
    e: RunError,
) -> bool {
    let m = run_steps(start, from, outss, config, limits.max_events_generated_per_root);
    let q = from + outss.len();
    &&& run_outputs_ok(start, from, outss, registry, config, limits.max_events_generated_per_root)
    &&& q < m.lines.len()
    &&& ((stop_before_rules(m, q, outss.len(), limits, e) && audited(m.lines, lines, m.lines[q], e))
        || exists|outs: Seq<RuleOutput>|
        #[trigger] stop_in_rules(m, q, outss.len(), outs, registry, config, limits, lines, e))
}

/// The outcome's lines extend the model's.
pub open spec fn emit_extends(m: EmitModel, out: EmitOutcome) -> bool {
    out.model.lines.len() >= m.lines.len() && out.model.lines.take(m.lines.len() as int) == m.lines
}

proof fn lemma_emit_extends(
    m: EmitModel,
    trigger: JournalEntry,
    ems: Seq<Emission>,
    config: ConfigSnapshot,
    max_per_root: u64,
)
    ensures
        emit_extends(m, emit_all(m, trigger, ems, config, max_per_root)),
    decreases ems.len(),
{
    if ems.len() > 0 {
        lemma_emit_extends(m, trigger, ems.drop_last(), config, max_per_root);
        let r = emit_all(m, trigger, ems.drop_last(), config, max_per_root);
        if r.err is None {
            let o = emit_step(r.model, trigger, ems.last(), config, max_per_root);
            assert(o.model.lines.take(m.lines.len() as int) =~= r.model.lines.take(m.lines.len() as int));
        }
    } else {
        assert(m.lines.take(m.lines.len() as int) =~= m.lines);
    }
}

// ------------------------------------------------------------------ drain

/// Processes a FIFO of journal lines (already persisted) to exhaustion: each line is applied if
/// it is a fact, the rules are evaluated on it (one trace row per rule), and what they emit is
/// validated against a shadow state and appended, then queued. Appends whose `parent_sequence`
/// lies in the causal tree of the first queued line count toward
/// `max_events_generated_per_root`. Every error is preceded by its `ErrorOccurred` audit line.
/// On success the journal, the projection and the trace are those of `run_steps` for some rule
/// outputs on each processed line (what the registry's rules returned); with no rules and a queue
/// that applies within the limits, only the wall-clock budget can stop the run.
#[verifier::spinoff_prover]
#[verifier::rlimit(40)]
pub fn drain_fifo<R: Rule>(
    journal: &mut Journal,
    state: &mut State,
    registry: &[R],
    config: &ConfigSnapshot,
    queue: VecDeque<JournalEntry>,
    limits: RunLimits,
    rule_trace: &mut Vec<RuleEvaluationRecord>,
) -> (r: Result<(), RunError>)
    requires
        old(journal).wf(),
        old(state).wf(),
        queue@.len() <= old(journal).lines@.len(),
        queue@ == old(journal).lines@.skip(old(journal).lines@.len() - queue@.len()),
    ensures
        final(journal).wf(),
        final(state).wf(),
        journal_grew(*old(journal), *final(journal)),
        final(rule_trace)@.len() >= old(rule_trace)@.len(),
        final(rule_trace)@.take(old(rule_trace)@.len() as int) == old(rule_trace)@,
        r is Ok ==> replay_spec(
            old(state)@,
            final(journal).lines@.skip(old(journal).lines@.len() - queue@.len()),
        ) == Ok::<StateModel, ApplyErrorView>(final(state)@),
        r is Ok ==> final(journal).lines@.len() - (old(journal).lines@.len() - queue@.len())
            <= limits.max_events_per_run,
        r matches Err(e) ==> ends_with_audit(final(journal).lines@, e)
            || final(journal).next_sequence == u64::MAX,
        r matches Err(RunError::MaxEventsPerRun { processed, max }) ==> max
            == limits.max_events_per_run && processed == max + 1,
        r matches Err(RunError::MaxEventsGeneratedPerRoot { generated, max }) ==> max
            == limits.max_events_generated_per_root && generated == max + 1,
        r matches Err(RunError::QueueCapacity { pending, max }) ==> max
            == limits.max_pending_events && pending > max,
        r matches Err(RunError::RunTimeBudget { elapsed_ms, max_ms }) ==> max_ms
            == limits.max_wall_ms_per_run && elapsed_ms > max_ms,
        r matches Err(RunError::IoAnchoredDerivedActuator(_)) ==> config.physical_projection_mode
            == PhysicalProjectionMode::IoAnchored,
        respects_io_anchor(final(journal).lines@, old(journal).lines@.len() as int, *config),
        r matches Err(e) ==> audit_after(
            final(journal).lines@,
            old(journal).lines@.len() - queue@.len(),
            e,
        ),
        r matches Err(RunError::MaxEventsPerRun { .. }) ==> final(journal).lines@.len() > old(
            journal,
        ).lines@.len() - queue@.len() + limits.max_events_per_run,
        registry@.len() == 0 && replay_spec(old(state)@, queue@) is Ok && queue@.len()
            <= limits.max_events_per_run && queue@.len() <= limits.max_pending_events + 1 ==> (r is Ok
            || r matches Err(RunError::RunTimeBudget { .. })),
        r matches Err(e) ==> exists|outss: Seq<Seq<RuleOutput>>|
            #[trigger] drain_stopped(
                outss,
                RunModel {
                    lines: old(journal).lines@,
                    state: old(state)@,
                    tree: root_tree(queue@),
                    generated: 0,
                },
                old(journal).lines@.len() - queue@.len(),
                *config,
                limits,
                registry@,
                final(journal).lines@,
                e,
            ),
        r is Ok ==> exists|outss: Seq<Seq<RuleOutput>>|
            #[trigger] drain_run(
                outss,
                RunModel {
                    lines: old(journal).lines@,
                    state: old(state)@,
                    tree: root_tree(queue@),
                    generated: 0,
                },
                old(journal).lines@.len() - queue@.len(),
                *config,
                limits.max_events_generated_per_root,
                registry@,
                final(journal).lines@,
                final(state)@,
                final(rule_trace)@.skip(old(rule_trace)@.len() as int),
            ),
{
    let ghost j0 = *journal;
    let ghost base = state@;
    let ghost k0: int = journal.lines@.len() - queue@.len();
    let ghost trace0 = rule_trace@;
    let ghost mut p: int = k0;
    let ghost mut outss: Seq<Seq<RuleOutput>> = Seq::empty();
    let ghost start_model = RunModel {
        lines: journal.lines@,
        state: state@,
        tree: root_tree(queue@),
        generated: 0,
    };
    let ghost quiet: bool = registry@.len() == 0 && replay_spec(state@, queue@) is Ok
        && queue@.len() <= limits.max_events_per_run && queue@.len() <= limits.max_pending_events
        + 1;
    let ghost q0 = queue@;
    let mut fifo = queue;
    let start = instant_now();
    let mut processed: u64 = 0;
    let mut generated_from_root: u64 = 0;
    let mut causal_tree: HashSet<u64> = HashSet::new();
    if fifo.len() > 0 {
        causal_tree.insert(fifo[0].sequence);
    }
    proof {
        lemma_grew_refl(j0);
        assert(causal_tree@ =~= root_tree(queue@));
        assert(journal.lines@.subrange(k0, k0) =~= Seq::<JournalEntry>::empty());
        assert(rule_trace@.take(trace0.len() as int) =~= trace0);
        assert(rule_trace@.skip(trace0.len() as int) =~= Seq::<RuleEvaluationRecord>::empty());
    }
    while fifo.len() > 0
        invariant
            journal.wf(),
            state.wf(),
            journal_grew(j0, *journal),
            j0 == *old(journal),
            k0 == j0.lines@.len() - queue@.len(),
            trace0 == old(rule_trace)@,
            base == old(state)@,
            0 <= k0 <= p <= journal.lines@.len(),
            fifo@ == journal.lines@.skip(p),
            processed == p - k0,
            processed <= limits.max_events_per_run,
            generated_from_root <= limits.max_events_generated_per_root,
            generated_from_root + j0.lines@.len() <= journal.lines@.len(),
            respects_io_anchor(journal.lines@, j0.lines@.len() as int, *config),
            replay_spec(base, journal.lines@.subrange(k0, p)) == Ok::<StateModel, ApplyErrorView>(
                state@,
            ),
            rule_trace@.len() >= trace0.len(),
            rule_trace@.take(trace0.len() as int) == trace0,
            start_model == (RunModel {
                lines: j0.lines@,
                state: base,
                tree: root_tree(queue@),
                generated: 0,
            }),
            outss.len() == p - k0,
            run_outputs_ok(start_model, k0, outss, registry@, *config, limits.max_events_generated_per_root),
            rows_of(rule_trace@.skip(trace0.len() as int), journal.lines@.subrange(k0, p), outss),
            run_steps(start_model, k0, outss, *config, limits.max_events_generated_per_root) == (
            RunModel {
                lines: journal.lines@,
                state: state@,
                tree: causal_tree@,
                generated: generated_from_root as nat,
            }),
            q0 == j0.lines@.skip(k0),
            q0 == queue@,
            quiet == (registry@.len() == 0 && replay_spec(base, q0) is Ok && q0.len()
                <= limits.max_events_per_run && q0.len() <= limits.max_pending_events + 1),
            quiet ==> journal.lines@ == j0.lines@ && replay_spec(state@, fifo@) is Ok,
        decreases limits.max_events_per_run - processed,
    {
        let ghost state_before = state@;
        let entry = fifo.pop_front().unwrap();
        let ghost lines_now = journal.lines@;
        assert(entry == lines_now[p]);
        assert(fifo@ =~= lines_now.skip(p + 1));
        let ghost fifo_rest = fifo@;
        proof {
            if quiet {
                assert(lines_now.skip(p) =~= seq![entry] + fifo@);
                lemma_replay_concat(state_before, seq![entry], fifo@);
                assert(seq![entry].drop_last() =~= Seq::<JournalEntry>::empty());
                assert(replay_spec(state_before, seq![entry].drop_last()) == Ok::<
                    StateModel,
                    ApplyErrorView,
                >(state_before));
                assert(seq![entry].last() == entry);
                assert(replay_spec(state_before, seq![entry]) == match entry.event {
                    Event::Fact(f) => apply_spec(state_before, f),
                    _ => Ok(state_before),
                });
                assert(replay_spec(state_before, seq![entry]) is Ok);
                assert(replay_spec(processed_state(state_before, entry), fifo@) is Ok);
                assert(p - k0 < q0.len());
            }
        }
        let elapsed = duration_millis(&instant_elapsed(&start));
        let stop = if elapsed > limits.max_wall_ms_per_run as u128 {
            Some(RunError::RunTimeBudget { elapsed_ms: elapsed, max_ms: limits.max_wall_ms_per_run })
        } else if processed >= limits.max_events_per_run {
            Some(RunError::MaxEventsPerRun { processed: processed + 1, max: limits.max_events_per_run })
        } else {
            None
        };
        if let Some(e0) = stop {
            let err = fail(journal, &entry, e0, Ghost(j0), Ghost(*config));
            proof {
                lemma_audit_after(lines_now, journal.lines@, entry, err, k0, p);
                let m = run_steps(start_model, k0, outss, *config, limits.max_events_generated_per_root);
                assert(m.lines == lines_now && m.state == state_before);
                assert(stop_before_rules(m, p, outss.len(), limits, err));
                assert(drain_stopped(outss, start_model, k0, *config, limits, registry@, journal.lines@, err));
            }
            return Err(err);
        }
        processed = processed + 1;
        if fifo.len() > limits.max_pending_events {
            let err = fail(
                journal,
                &entry,
                RunError::QueueCapacity { pending: fifo.len(), max: limits.max_pending_events }, Ghost(j0), Ghost(*config));
            proof {
                lemma_audit_after(lines_now, journal.lines@, entry, err, k0, p);
                let m = run_steps(start_model, k0, outss, *config, limits.max_events_generated_per_root);
                assert(m.lines == lines_now && m.state == state_before);
                assert(stop_before_rules(m, p, outss.len(), limits, err));
                assert(drain_stopped(outss, start_model, k0, *config, limits, registry@, journal.lines@, err));
            }
            return Err(err);
        }
        match &entry.event {
            Event::Fact(f) => {
                match apply_event(state, f) {
                    Ok(next) => {
                        *state = next;
                    },
                    Err(ae) => {
                        proof {
                            if quiet {
                                assert(apply_spec(state_before, *f) is Ok);
                            }
                        }
                        let err = fail(journal, &entry, RunError::Apply(ae), Ghost(j0), Ghost(*config));
                        proof {
                            lemma_audit_after(lines_now, journal.lines@, entry, err, k0, p);
                            let m = run_steps(start_model, k0, outss, *config, limits.max_events_generated_per_root);
                            assert(m.lines == lines_now && m.state == state_before);
                            assert(stop_before_rules(m, p, outss.len(), limits, err));
                            assert(drain_stopped(outss, start_model, k0, *config, limits, registry@, journal.lines@, err));
                        }
                        return Err(err);
                    },
                }
            },
            _ => {},
        }
        assert(entry.event matches Event::Fact(f) ==> apply_spec(state_before, f) is Ok);
        proof {
            assert(lines_now.subrange(k0, p + 1).drop_last() =~= lines_now.subrange(k0, p));
            p = p + 1;
        }
        let res = collect_emissions_and_traces(registry, &entry, config, state);
        let ghost r0 = res;
        let (emissions, traces) = res;
        let mut traces = traces;
        let ghost trace_before = rule_trace@;
        let ghost block = traces@;
        rule_trace.append(&mut traces);
        assert(rule_trace@.take(trace0.len() as int) =~= trace_before.take(trace0.len() as int));
        proof {
            let n = registry@.len();
            let rows = rule_trace@.skip(trace0.len() as int);
            let ls = lines_now.subrange(k0, p);
            assert(ls.drop_last() =~= lines_now.subrange(k0, p - 1));
            assert(ls.last() == entry);
            assert(rows.take(rows.len() - n) =~= trace_before.skip(trace0.len() as int));
            assert(rows.skip(rows.len() - n) =~= block);
            let outs = choose|outs: Seq<RuleOutput>|
                outputs_ok(outs, registry@, entry, state@, *config) && plan_is(r0, outs, entry);
            assert(r0.1@ == block);
            assert(forall|i: int| 0 <= i < n ==> trace_row_is(#[trigger] block[i], outs[i], entry));
            if quiet {
                assert(outs.len() == 0);
                assert(raw_emissions(outs) =~= Seq::<Emission>::empty());
                assert(emissions@.len() == 0);
            }
            let prev_outss = outss;
            outss = outss.push(outs);
            assert(outss.drop_last() =~= prev_outss);
            assert(outss.last() == outs);
            let prev_model = run_steps(start_model, k0, prev_outss, *config, limits.max_events_generated_per_root);
            assert(prev_model.lines == lines_now);
            assert(prev_model.state == state_before);
            assert(prev_model.lines[k0 + outss.len() - 1] == entry);
            assert(processed_state(state_before, entry) == state@);
            assert(run_outputs_ok(start_model, k0, outss, registry@, *config, limits.max_events_generated_per_root));
            assert(rows_of(rows, ls, outss));
        }
        let mut shadow = state.clone();
        let ghost jc = *journal;
        let ghost qc = fifo@;
        let ghost mc = emit_model(*journal, shadow, causal_tree, generated_from_root);
        let ghost state_now = state@;
        match append_emissions(
            journal,
            &mut shadow,
            &mut fifo,
            &mut causal_tree,
            &mut generated_from_root,
            &entry,
            &emissions,
            config,
            limits.max_events_generated_per_root,
            Ghost(j0),
        ) {
            Ok(()) => {},
            Err(e) => {
                proof {
                    let prev_outss = outss.drop_last();
                    let outs = outss.last();
                    let m = run_steps(start_model, k0, prev_outss, *config, limits.max_events_generated_per_root);
                    assert(m.lines == lines_now && m.state == state_before);
                    assert(m.lines[k0 + prev_outss.len()] == entry);
                    assert(mc == (EmitModel { lines: m.lines, shadow: processed_state(state_before, entry), tree: m.tree, generated: m.generated }));
                    assert(emissions@ == sort_emissions_spec(raw_emissions(outs)));
                    assert(stop_in_rules(m, k0 + prev_outss.len(), prev_outss.len(), outs, registry@, *config, limits, journal.lines@, e));
                    assert(drain_stopped(prev_outss, start_model, k0, *config, limits, registry@, journal.lines@, e));
                    let out = emit_all(mc, entry, emissions@, *config, limits.max_events_generated_per_root);
                    if quiet {
                        assert(out.err is None);
                    }
                    lemma_emit_extends(mc, entry, emissions@, *config, limits.max_events_generated_per_root);
                    assert(out.model.lines[p - 1] == jc.lines@[p - 1]);
                    lemma_audit_after(out.model.lines, journal.lines@, entry, e, k0, p - 1);
                }
                return Err(e);
            },
        }
        proof {
            assert(journal.lines@.subrange(k0, p) =~= jc.lines@.subrange(k0, p));
            assert(fifo@ =~= journal.lines@.skip(p));
            let prev = run_steps(start_model, k0, outss.drop_last(), *config, limits.max_events_generated_per_root);
            assert(prev.lines == lines_now);
            assert(prev.lines[k0 + outss.len() - 1] == entry);
            assert(processed_state(prev.state, entry) == state_now);
            assert(emissions@ == sort_emissions_spec(raw_emissions(outss.last())));
            assert(mc == (EmitModel { lines: prev.lines, shadow: state_now, tree: prev.tree, generated: prev.generated }));
            if quiet {
                let out = emit_all(mc, entry, emissions@, *config, limits.max_events_generated_per_root);
                assert(out.model == mc);
                assert(journal.lines@ == jc.lines@);
                assert(fifo@ =~= qc);
                assert(qc == fifo_rest);
                assert(state@ == processed_state(state_before, entry));
            }
        }
    }
    proof {
        assert(journal.lines@.skip(k0) =~= journal.lines@.subrange(k0, p));
        assert(drain_run(
            outss,
            start_model,
            k0,
            *config,
            limits.max_events_generated_per_root,
            registry@,
            journal.lines@,
            state@,
            rule_trace@.skip(trace0.len() as int),
        ));
    }
    Ok(())
}

// ------------------------------------------------------------------ ingestion

/// Replaying `s + t` is replaying `s`, then `t` from where `s` left off.
pub proof fn lemma_replay_concat(m: StateModel, s: Seq<JournalEntry>, t: Seq<JournalEntry>)
    ensures
        replay_spec(m, s + t) == match replay_spec(m, s) {
            Ok(m1) => replay_spec(m1, t),
            Err(e) => Err(e),
        },
    decreases t.len(),
{
    if t.len() == 0 {
        assert(s + t =~= s);
    } else {
        lemma_replay_concat(m, s, t.drop_last());
        assert((s + t).drop_last() =~= s + t.drop_last());
    }
}

/// The live projection is the replay of the journal: if the projection was the replay of the
/// journal before a run, and the run appended lines and processed them all, it is the replay of
/// the journal after.
pub proof fn law_live_state_matches_replay(
    before: Seq<JournalEntry>,
    after: Seq<JournalEntry>,
    m0: StateModel,
    m1: StateModel,
)
    requires
        after.len() >= before.len(),
        after.take(before.len() as int) == before,
        replay_spec(crate::state::empty_model(), before) == Ok::<StateModel, ApplyErrorView>(m0),
        replay_spec(m0, after.skip(before.len() as int)) == Ok::<StateModel, ApplyErrorView>(m1),
    ensures
        replay_spec(crate::state::empty_model(), after) == Ok::<StateModel, ApplyErrorView>(m1),
{
    lemma_replay_concat(crate::state::empty_model(), before, after.skip(before.len() as int));
    assert(before + after.skip(before.len() as int) =~= after);
}

/// Over any number of successful runs, one after the other from an empty journal and an empty
/// projection, the live projection is the replay of the whole journal: `logs[k]` and
/// `states[k]` are the journal lines and the projection after the `k`-th run, each run only
/// appending lines and bringing the projection from the previous one by replaying what it
/// appended (as the ingestion and drain contracts state on success).
pub proof fn law_live_state_matches_replay_over_runs(
    logs: Seq<Seq<JournalEntry>>,
    states: Seq<StateModel>,
)
    requires
        logs.len() == states.len(),
        logs.len() > 0,
        logs[0].len() == 0,
        states[0] == crate::state::empty_model(),
        forall|k: int|
            0 < k < logs.len() ==> {
                &&& (#[trigger] logs[k]).len() >= logs[k - 1].len()
                &&& logs[k].take(logs[k - 1].len() as int) == logs[k - 1]
                &&& replay_spec(states[k - 1], logs[k].skip(logs[k - 1].len() as int)) == Ok::<
                    StateModel,
                    ApplyErrorView,
                >(states[k])
            },
    ensures
        replay_spec(crate::state::empty_model(), logs.last()) == Ok::<StateModel, ApplyErrorView>(
            states.last(),
        ),
    decreases logs.len(),
{
    if logs.len() == 1 {
        assert(logs.last() =~= Seq::<JournalEntry>::empty());
    } else {
        let n = logs.len() - 1;
        law_live_state_matches_replay_over_runs(logs.drop_last(), states.drop_last());
        assert(logs.drop_last().last() == logs[n - 1]);
        assert(states.drop_last().last() == states[n - 1]);
        assert(logs[n].len() >= logs[n - 1].len());
        law_live_state_matches_replay(logs[n - 1], logs[n], states[n - 1], states[n]);
    }
}

/// Appends a line that starts a cascade (no parent, no rule), mapping journal refusals.
fn append_root(journal: &mut Journal, a: JournalAppend) -> (r: Result<
    JournalAppendOutcome,
    RunError,
>)
    requires
        old(journal).wf(),
    ensures
        final(journal).wf(),
        journal_grew(*old(journal), *final(journal)),
        r matches Ok(JournalAppendOutcome::Committed(e)) ==> final(journal).lines@ == old(journal).lines@.push(e) && e == entry_of(a, old(journal).next_sequence),
        !(r matches Ok(JournalAppendOutcome::Committed(_))) ==> *final(journal) == *old(journal),
        r matches Ok(JournalAppendOutcome::DuplicateCommandSkipped { .. }) <==> old(journal).is_duplicate(a),
        r is Ok <==> (old(journal).is_duplicate(a) || (old(journal).next_sequence < u64::MAX
            && !old(journal).regresses(a))),
        r matches Err(e) ==> e is Journal,
{
    let ghost j0 = *journal;
    proof {
        lemma_grew_refl(j0);
    }
    if journal.next_sequence == u64::MAX {
        let duplicate = match &a.event {
            Event::Command(cmd) => journal.seen(cmd.command_id()),
            _ => false,
        };
        let regresses = match journal.last_timestamp_committed {
            Some(lt) => a.timestamp < lt,
            None => false,
        };
        if !duplicate && !regresses {
            return Err(RunError::Journal(owned("journal sequence space exhausted")));
        }
    }
    match journal.append(a) {
        Ok(o) => {
            proof {
                if o is Committed {
                    lemma_grew_push(j0, *journal, o->Committed_0);
                }
            }
            Ok(o)
        },
        Err(e) => Err(RunError::Journal(e.message())),
    }
}

/// An append with no parent, rule or ids, starting a cascade.
pub open spec fn root_append(timestamp: i64, causal_chain_id: u128, event: Event) -> JournalAppend {
    JournalAppend {
        timestamp,
        causal_chain_id,
        parent_sequence: None,
        parent_event_id: None,
        rule_id: None,
        event_id: None,
        correlation_id: None,
        trace_id: None,
        event,
    }
}

/// What ingesting the external append `a` leaves behind, journal and projection: `a` is
/// appended as the next line unless it is a known command (then nothing changes) or refused (the
/// sequence space is exhausted or its timestamp regresses: nothing changes and the error is a
/// journal error); the cascade it starts is then drained, with the outcome `drain_fifo` states.
pub open spec fn ingested<R: Rule>(
    j0: Journal,
    j1: Journal,
    s0: StateModel,
    s1: StateModel,
    a: JournalAppend,
    registry: Seq<R>,
    limits: RunLimits,
    config: ConfigSnapshot,
    r: Result<(), RunError>,
) -> bool {
    let n0 = j0.lines@.len();
    &&& journal_grew(j0, j1)
    &&& respects_io_anchor(j1.lines@, n0 + 1int, config)
    &&& j0.is_duplicate(a) ==> r is Ok && j1 == j0 && s1 == s0
    &&& !j0.is_duplicate(a) && j0.next_sequence < u64::MAX && !j0.regresses(a) ==> j1.lines@.len() > n0
    &&& j1.lines@.len() > n0 ==> j1.lines@[n0 as int] == entry_of(a, j0.next_sequence)
    &&& j1.lines@.len() == n0 ==> j1 == j0 && s1 == s0
    &&& j1.lines@.len() == n0 && !j0.is_duplicate(a) ==> r is Err
    &&& (r is Err && j1.lines@.len() == n0 ==> r matches Err(RunError::Journal(_)))
    &&& r is Ok ==> replay_spec(s0, j1.lines@.skip(n0 as int)) == Ok::<StateModel, ApplyErrorView>(s1)
    &&& r is Ok ==> j1.lines@.len() <= n0 + limits.max_events_per_run
    &&& r is Ok && !j0.is_duplicate(a) ==> exists|
        outss: Seq<Seq<RuleOutput>>,
        rows: Seq<RuleEvaluationRecord>,
    | #[trigger] drain_run(outss, ingest_start(j0, s0, a), n0 as int, config, limits.max_events_generated_per_root, registry, j1.lines@, s1, rows)
    &&& (r matches Err(e) ==> (j1.lines@.len() > n0 ==> audit_after(j1.lines@, n0 as int, e)))
    &&& (r matches Err(e) ==> (j1.lines@.len() > n0 ==> exists|outss: Seq<Seq<RuleOutput>>|
        #[trigger] drain_stopped(outss, ingest_start(j0, s0, a), n0 as int, config, limits, registry, j1.lines@, e)))
    &&& (r matches Err(RunError::MaxEventsPerRun { processed, max }) ==> max
        == limits.max_events_per_run && processed == max + 1 && j1.lines@.len() > n0
        + limits.max_events_per_run)
    &&& (r matches Err(RunError::MaxEventsGeneratedPerRoot { generated, max }) ==> max
        == limits.max_events_generated_per_root && generated == max + 1)
    &&& (r matches Err(RunError::QueueCapacity { pending, max }) ==> max == limits.max_pending_events
        && pending > max)
    &&& (r matches Err(RunError::RunTimeBudget { elapsed_ms, max_ms }) ==> max_ms
        == limits.max_wall_ms_per_run && elapsed_ms > max_ms)
    &&& (r matches Err(RunError::IoAnchoredDerivedActuator(_)) ==> config.physical_projection_mode
        == PhysicalProjectionMode::IoAnchored)
}

/// What the same ingestion leaves in the trace buffer: rows are only added; a known command adds
/// none; on success there is one block of a row per rule for each processed line.
pub open spec fn ingest_traced<R: Rule>(
    j0: Journal,
    j1: Journal,
    s0: StateModel,
    s1: StateModel,
    t0: Seq<RuleEvaluationRecord>,
    t1: Seq<RuleEvaluationRecord>,
    a: JournalAppend,
    registry: Seq<R>,
    limits: RunLimits,
    config: ConfigSnapshot,
    r: Result<(), RunError>,
) -> bool {
    &&& t1.len() >= t0.len()
    &&& t1.take(t0.len() as int) == t0
    &&& j0.is_duplicate(a) ==> t1 == t0
    &&& r is Ok && !j0.is_duplicate(a) ==> exists|outss: Seq<Seq<RuleOutput>>|
        #[trigger] drain_run(
            outss,
            ingest_start(j0, s0, a),
            j0.lines@.len() as int,
            config,
            limits.max_events_generated_per_root,
            registry,
            j1.lines@,
            s1,
            t1.skip(t0.len() as int),
        )
}

/// Where the run of an ingestion starts: `a` appended as the next line, which is the root of the
/// causal tree.
pub open spec fn ingest_start(j0: Journal, s0: StateModel, a: JournalAppend) -> RunModel {
    RunModel {
        lines: j0.lines@.push(entry_of(a, j0.next_sequence)),
        state: s0,
        tree: set![j0.next_sequence],
        generated: 0,
    }
}

/// Appends an external line, then drains the cascade it starts.
fn ingest_root<R: Rule>(
    journal: &mut Journal,
    state: &mut State,
    registry: &[R],
    config: &ConfigSnapshot,
    a: JournalAppend,
    limits: RunLimits,
    rule_trace: &mut Vec<RuleEvaluationRecord>,
) -> (r: Result<(), RunError>)
    requires
        old(journal).wf(),
        old(state).wf(),
    ensures
        final(journal).wf(),
        final(state).wf(),
        ingested(
            *old(journal),
            *final(journal),
            old(state)@,
            final(state)@,
            a,
            registry@,
            limits,
            *config,
            r,
        ),
        ingest_traced(
            *old(journal),
            *final(journal),
            old(state)@,
            final(state)@,
            old(rule_trace)@,
            final(rule_trace)@,
            a,
            registry@,
            limits,
            *config,
            r,
        ),
{
    let ghost j0 = *journal;
    let ghost n0 = journal.lines@.len();
    proof {
        assert(rule_trace@.take(rule_trace@.len() as int) =~= rule_trace@);
        assert(j0.lines@.skip(n0 as int) =~= Seq::<JournalEntry>::empty());
        lemma_grew_refl(j0);
    }
    let entry = match append_root(journal, a) {
        Ok(JournalAppendOutcome::Committed(e)) => e,
        Ok(JournalAppendOutcome::DuplicateCommandSkipped { .. }) => {
            return Ok(());
        },
        Err(e) => {
            return Err(e);
        },
    };
    let ghost j1 = *journal;
    let mut q: VecDeque<JournalEntry> = VecDeque::new();
    q.push_back(entry);
    assert(q@ =~= journal.lines@.skip(journal.lines@.len() - 1));
    let r = drain_fifo(journal, state, registry, config, q, limits, rule_trace);
    proof {
        lemma_grew_trans(j0, j1, *journal);
        assert(journal.lines@.take((n0 + 1) as int).take(n0 as int) =~= journal.lines@.take(n0 as int));
        assert(journal.lines@[n0 as int] == j1.lines@[n0 as int]);
    }
    r
}

/// Ingests an external observation with a caller-chosen causal chain: appends it, then drains
/// the cascade, recording one trace row per rule and processed line.
pub fn ingest_observation_with_causal_traced<R: Rule>(
    journal: &mut Journal,
    state: &mut State,
    registry: &[R],
    config: &ConfigSnapshot,
    timestamp: i64,
    observation: ObservationEvent,
    causal_chain_id: u128,
    limits: RunLimits,
    rule_trace: &mut Vec<RuleEvaluationRecord>,
) -> (r: Result<(), RunError>)
    requires
        old(journal).wf(),
        old(state).wf(),
    ensures
        final(journal).wf(),
        final(state).wf(),
        ingested(
            *old(journal),
            *final(journal),
            old(state)@,
            final(state)@,
            root_append(timestamp, causal_chain_id, Event::Observation(observation)),
            registry@,
            limits,
            *config,
            r,
        ),
        ingest_traced(
            *old(journal),
            *final(journal),
            old(state)@,
            final(state)@,
            old(rule_trace)@,
            final(rule_trace)@,
            root_append(timestamp, causal_chain_id, Event::Observation(observation)),
            registry@,
            limits,
            *config,
            r,
        ),
{
    let a = JournalAppend {
        timestamp,
        causal_chain_id,
        parent_sequence: None,
        parent_event_id: None,
        rule_id: None,
        event_id: None,
        correlation_id: None,
        trace_id: None,
        event: Event::Observation(observation),
    };
    ingest_root(journal, state, registry, config, a, limits, rule_trace)
}

/// Like `ingest_observation_with_causal_traced`, without a trace.
pub fn ingest_observation_with_causal<R: Rule>(
    journal: &mut Journal,
    state: &mut State,
    registry: &[R],
    config: &ConfigSnapshot,
    timestamp: i64,
    observation: ObservationEvent,
    causal_chain_id: u128,
    limits: RunLimits,
) -> (r: Result<(), RunError>)
    requires
        old(journal).wf(),
        old(state).wf(),
    ensures
        final(journal).wf(),
        final(state).wf(),
        ingested(
            *old(journal),
            *final(journal),
            old(state)@,
            final(state)@,
            root_append(timestamp, causal_chain_id, Event::Observation(observation)),
            registry@,
            limits,
            *config,
            r,
        ),
{
    let mut scratch: Vec<RuleEvaluationRecord> = Vec::new();
    ingest_observation_with_causal_traced(
        journal,
        state,
        registry,
        config,
        timestamp,
        observation,
        causal_chain_id,
        limits,
        &mut scratch,
    )
}

/// Ingests an external observation under a new random causal chain: the outcome is that of
/// `ingest_observation_with_causal` for some causal chain.
pub fn ingest_observation<R: Rule>(
    journal: &mut Journal,
    state: &mut State,
    registry: &[R],
    config: &ConfigSnapshot,
    timestamp: i64,
    observation: ObservationEvent,
    limits: RunLimits,
) -> (r: Result<(), RunError>)
    requires
        old(journal).wf(),
        old(state).wf(),
    ensures
        final(journal).wf(),
        final(state).wf(),
        exists|c: u128|
            ingested(
                *old(journal),
                *final(journal),
                old(state)@,
                final(state)@,
                #[trigger] root_append(timestamp, c, Event::Observation(observation)),
                registry@,
                limits,
                *config,
                r,
            ),
{
    let causal = new_v4();
    let r = ingest_observation_with_causal(
        journal,
        state,
        registry,
        config,
        timestamp,
        observation,
        causal,
        limits,
    );
    proof {
        // The drawn causal chain witnesses the `exists`.
        let w = root_append(timestamp, causal, Event::Observation(observation));
    }
    r
}

/// Ingests a command with a caller-chosen causal chain: appends it, then drains the cascade. A
/// command whose id is already journaled adds nothing, leaves the trace as it was, and succeeds.
pub fn ingest_command_with_causal_traced<R: Rule>(
    journal: &mut Journal,
    state: &mut State,
    registry: &[R],
    config: &ConfigSnapshot,
    timestamp: i64,
    command: CommandEvent,
    causal_chain_id: u128,
    limits: RunLimits,
    rule_trace: &mut Vec<RuleEvaluationRecord>,
) -> (r: Result<(), RunError>)
    requires
        old(journal).wf(),
        old(state).wf(),
    ensures
        final(journal).wf(),
        final(state).wf(),
        ingested(
            *old(journal),
            *final(journal),
            old(state)@,
            final(state)@,
            root_append(timestamp, causal_chain_id, Event::Command(command)),
            registry@,
            limits,
            *config,
            r,
        ),
        ingest_traced(
            *old(journal),
            *final(journal),
            old(state)@,
            final(state)@,
            old(rule_trace)@,
            final(rule_trace)@,
            root_append(timestamp, causal_chain_id, Event::Command(command)),
            registry@,
            limits,
            *config,
            r,
        ),
{
    let a = JournalAppend {
        timestamp,
        causal_chain_id,
        parent_sequence: None,
        parent_event_id: None,
        rule_id: None,
        event_id: None,
        correlation_id: None,
        trace_id: None,
        event: Event::Command(command),
    };
    ingest_root(journal, state, registry, config, a, limits, rule_trace)
}

/// Like `ingest_command_with_causal_traced`, without a trace.
pub fn ingest_command_with_causal<R: Rule>(
    journal: &mut Journal,
    state: &mut State,
    registry: &[R],
    config: &ConfigSnapshot,
    timestamp: i64,
    command: CommandEvent,
    causal_chain_id: u128,
    limits: RunLimits,
) -> (r: Result<(), RunError>)
    requires
        old(journal).wf(),
        old(state).wf(),
    ensures
        final(journal).wf(),
        final(state).wf(),
        ingested(
            *old(journal),
            *final(journal),
            old(state)@,
            final(state)@,
            root_append(timestamp, causal_chain_id, Event::Command(command)),
            registry@,
            limits,
            *config,
            r,
        ),
{
    let mut scratch: Vec<RuleEvaluationRecord> = Vec::new();
    ingest_command_with_causal_traced(
        journal,
        state,
        registry,
        config,
        timestamp,
        command,
        causal_chain_id,
        limits,
        &mut scratch,
    )
}

/// Ingests a command under a new random causal chain: the outcome is that of
/// `ingest_command_with_causal` for some causal chain.
pub fn ingest_command<R: Rule>(
    journal: &mut Journal,
    state: &mut State,
    registry: &[R],
    config: &ConfigSnapshot,
    timestamp: i64,
    command: CommandEvent,
    limits: RunLimits,
) -> (r: Result<(), RunError>)
    requires
        old(journal).wf(),
        old(state).wf(),
    ensures
        final(journal).wf(),
        final(state).wf(),
        exists|c: u128|
            ingested(
                *old(journal),
                *final(journal),
                old(state)@,
                final(state)@,
                #[trigger] root_append(timestamp, c, Event::Command(command)),
                registry@,
                limits,
                *config,
                r,
            ),
{
    let causal = new_v4();
    let r = ingest_command_with_causal(journal, state, registry, config, timestamp, command, causal, limits);
    proof {
        // The drawn causal chain witnesses the `exists`.
        let w = root_append(timestamp, causal, Event::Command(command));
    }
    r
}

} // verus!
