//! Dual-mode decisions: act vs deliberate.
//!
//! - **act**: `Mind -> Body`, one LLM turn with direct tool dispatch (the
//!   default).
//! - **deliberate**: `Mind <-> Soul -> Body`: the Mind produces a read-only
//!   [`Plan`], the Soul gate votes on it, and only an approved plan reaches the
//!   executor. A `revise` verdict feeds the Soul's reaction back to the Mind for
//!   up to `max_rounds`; a `veto` or exhausted rounds default-denies and the
//!   caller escalates.
//!
//! This module holds the decisions: mode selection, verdict resolution, the
//! round-by-round step of the deliberate pipeline (the caller performs the
//! planner/Soul awaits and hands each vote to [`deliberation_step`]), the Soul
//! prompt, and principle derivation from captured deliberations.

use vstd::prelude::*;
use crate::guardrail::ToolCall;
use crate::persona::Persona;
use crate::text::{
    chars_of, concat_map, dec_nat, first_index_of, first_index_of_exec, join, join_exec,
    last_index_of, last_index_of_exec, names, lemma_first_index_of_bounds, lemma_last_index_of_bounds,
    push_all, push_lit, push_nat, slice_chars, str_eq, string_of, views,
};
use crate::types::ValueEntry;

verus! {

/// The two decision modes.
#[derive(Debug, Clone, Copy, PartialEq, Eq, Structural)]
pub enum Mode {
    /// `Mind -> Body`: one LLM turn, tool calls dispatched directly.
    Act,
    /// `Mind <-> Soul -> Body`: a read-only plan is Soul-gated before any
    /// tool call runs.
    Deliberate,
}

/// The action about to be taken, described for mode selection
/// (blast radius and reversibility).
#[derive(Debug, Clone, Copy, PartialEq, Eq, Structural)]
pub struct ContemplatedAction {
    /// A concrete backout/undo exists.
    pub reversible: bool,
    /// Destroys or overwrites state.
    pub destructive: bool,
    /// Visible outside the host (sends a message, calls an external API, ...).
    pub outward_facing: bool,
    /// Time-critical: biases toward `act` even when otherwise risky.
    pub urgent: bool,
}

impl Default for ContemplatedAction {
    /// Every flag off.
    fn default() -> (r: Self)
        ensures
            !r.reversible && !r.destructive && !r.outward_facing && !r.urgent,
    {
        ContemplatedAction { reversible: false, destructive: false, outward_facing: false, urgent: false }
    }
}

/// Classifies a contemplated action's risk into a mode. Callers may plug in
/// their own classifier.
pub trait RiskClassifier: Send + Sync {
    /// The mode this classifier assigns to `action`.
    spec fn classification(&self, action: ContemplatedAction) -> Mode;

    /// Classifies `action`: its [`RiskClassifier::classification`].
    fn classify(&self, action: &ContemplatedAction) -> (m: Mode)
        ensures
            m == self.classification(*action),
    ;
}

/// The default classification: urgent actions stay fast (`Act`) whatever
/// else holds; otherwise irreversible, destructive or outward-facing actions
/// need a values check (`Deliberate`), and the rest stay in `Act`.
pub open spec fn default_classification(a: ContemplatedAction) -> Mode {
    if a.urgent {
        Mode::Act
    } else if !a.reversible || a.destructive || a.outward_facing {
        Mode::Deliberate
    } else {
        Mode::Act
    }
}

/// The default classifier ([`default_classification`]).
pub struct DefaultRiskClassifier;

impl RiskClassifier for DefaultRiskClassifier {
    open spec fn classification(&self, action: ContemplatedAction) -> Mode {
        default_classification(action)
    }

    fn classify(&self, action: &ContemplatedAction) -> (m: Mode)
        ensures
            m == default_classification(*action),
    {
        if action.urgent {
            return Mode::Act;
        }
        let risky = !action.reversible || action.destructive || action.outward_facing;
        if risky {
            Mode::Deliberate
        } else {
            Mode::Act
        }
    }
}

/// The mode named by `s` (`act` / `deliberate`).
pub open spec fn mode_of(s: Seq<char>) -> Option<Mode> {
    if s == "act"@ {
        Some(Mode::Act)
    } else if s == "deliberate"@ {
        Some(Mode::Deliberate)
    } else {
        None
    }
}

/// Parses a mode name; anything else is `None`.
pub fn parse_mode(s: &str) -> (r: Option<Mode>)
    ensures
        r == mode_of(s@),
{
    if str_eq(s, "act") {
        Some(Mode::Act)
    } else if str_eq(s, "deliberate") {
        Some(Mode::Deliberate)
    } else {
        None
    }
}

/// The mode a persona pins its role to, if it names a valid one.
pub open spec fn persona_mode(persona: Option<&Persona>) -> Option<Mode> {
    match persona {
        Some(p) => match p.default_mode {
            Some(m) => mode_of(m@),
            None => None,
        },
        None => None,
    }
}

/// The mode a persona pins its role to: its `default_mode`, when that names
/// a mode.
pub fn pinned_mode(persona: Option<&Persona>) -> (r: Option<Mode>)
    ensures
        r == persona_mode(persona),
{
    match persona {
        Some(p) => match &p.default_mode {
            Some(m) => parse_mode(m.as_str()),
            None => None,
        },
        None => None,
    }
}

/// Selects the mode for a contemplated action: a persona's valid
/// `default_mode` wins outright; otherwise the classifier decides.
pub fn select_mode(
    action: &ContemplatedAction,
    classifier: &dyn RiskClassifier,
    persona: Option<&Persona>,
) -> (r: Mode)
    ensures
        persona_mode(persona) matches Some(m) ==> r == m,
        persona_mode(persona) is None ==> r == classifier.classification(*action),
{
    match pinned_mode(persona) {
        Some(m) => m,
        None => classifier.classify(action),
    }
}


// ---------------------------------------------------------------------------
// Deliberate pipeline
// ---------------------------------------------------------------------------

/// A read-only plan produced by the Mind before any side effect runs.
pub struct Plan {
    /// Identifies this plan for deliberation capture.
    pub id: String,
    pub intent_summary: String,
    pub steps: Vec<String>,
    pub intended_tool_calls: Vec<ToolCall>,
}

impl Default for Plan {
    /// An empty plan.
    fn default() -> (r: Self)
        ensures
            r.id@.len() == 0,
            r.intent_summary@.len() == 0,
            r.steps@.len() == 0,
            r.intended_tool_calls@.len() == 0,
    {
        Plan {
            id: String::new(),
            intent_summary: String::new(),
            steps: Vec::new(),
            intended_tool_calls: Vec::new(),
        }
    }
}

/// The Soul's verdict on a plan, after threshold resolution.
#[derive(Debug, Clone, Copy, PartialEq, Eq, Structural)]
pub enum SoulVerdict {
    Approve,
    Revise,
    Veto,
}

/// The verdict as the Soul cast it, before threshold resolution.
#[derive(Debug, Clone, Copy, PartialEq, Eq, Structural)]
pub enum RawSoulVerdict {
    Approve,
    Revise,
    Veto,
}

/// The raw verdict a Soul reply's `verdict` word spells: exactly
/// `approve`, `revise` or `veto`.
pub open spec fn raw_verdict_of(word: Seq<char>) -> Option<RawSoulVerdict> {
    if word == "approve"@ {
        Some(RawSoulVerdict::Approve)
    } else if word == "revise"@ {
        Some(RawSoulVerdict::Revise)
    } else if word == "veto"@ {
        Some(RawSoulVerdict::Veto)
    } else {
        None
    }
}

/// Reads a Soul reply's `verdict` word; any other word is malformed.
pub fn parse_raw_verdict(word: &str) -> (r: Option<RawSoulVerdict>)
    ensures
        r == raw_verdict_of(word@),
{
    if str_eq(word, "approve") {
        Some(RawSoulVerdict::Approve)
    } else if str_eq(word, "revise") {
        Some(RawSoulVerdict::Revise)
    } else if str_eq(word, "veto") {
        Some(RawSoulVerdict::Veto)
    } else {
        None
    }
}

/// Threshold resolution: `approve` passes only when the vote's confidence
/// clears the threshold (`clears_threshold`), a below-threshold `approve`
/// is treated as `revise`, `revise` stays `revise`, and `veto` stays `veto`
/// whatever the confidence.
pub open spec fn resolve_spec(raw: RawSoulVerdict, clears_threshold: bool) -> SoulVerdict {
    match raw {
        RawSoulVerdict::Veto => SoulVerdict::Veto,
        RawSoulVerdict::Approve => if clears_threshold {
            SoulVerdict::Approve
        } else {
            SoulVerdict::Revise
        },
        RawSoulVerdict::Revise => SoulVerdict::Revise,
    }
}

/// Resolves a raw vote; `clears_threshold` is whether its confidence is at
/// or above the configured threshold.
pub fn resolve_verdict(raw: RawSoulVerdict, clears_threshold: bool) -> (r: SoulVerdict)
    ensures
        r == resolve_spec(raw, clears_threshold),
{
    match raw {
        RawSoulVerdict::Veto => SoulVerdict::Veto,
        RawSoulVerdict::Approve => if clears_threshold {
            SoulVerdict::Approve
        } else {
            SoulVerdict::Revise
        },
        RawSoulVerdict::Revise => SoulVerdict::Revise,
    }
}

/// Carries out an approved plan's intended tool calls (the Body). Each call
/// has already passed the persona ceiling and the red lines upstream.
pub trait Executor: Send + Sync {
    fn execute(&mut self, plan: &Plan);
}

/// Stub gate: always approves.
pub struct PassthroughSoulGate;

impl PassthroughSoulGate {
    /// The stub's vote: `Approve`, with a fixed reaction.
    pub fn vote(&self) -> (r: (SoulVerdict, String))
        ensures
            r.0 == SoulVerdict::Approve,
            r.1@ == "stub Soul gate: auto-approved"@,
    {
        (SoulVerdict::Approve, string_of(&chars_of("stub Soul gate: auto-approved")))
    }
}

/// Stub vote recorder: discards every vote.
pub struct NullVoteRecorder;

/// Stub deliberation sink: discards every record.
pub struct NullDeliberationSink;

/// Outcome of running the deliberate pipeline.
#[derive(Debug, Clone, PartialEq, Eq)]
pub enum DeliberateOutcome {
    /// The plan was approved and handed to the executor.
    Executed,
    /// The Soul vetoed, or the rounds ran out without approval: default-deny;
    /// the caller escalates with `reason`.
    DeniedAndEscalated { reason: String },
}

/// How a completed deliberation was disposed of.
#[derive(Debug, Clone, Copy, PartialEq, Eq, Structural)]
pub enum Disposition {
    /// The Soul approved; the executor ran the plan.
    Executed,
    /// The Soul vetoed.
    Denied,
    /// The rounds ran out without approval.
    Escalated,
}

/// The eventual real-world result of an executed plan.
#[derive(Debug, Clone, Copy, PartialEq, Eq, Structural)]
pub enum Outcome {
    Success,
    Failure,
    RolledBack,
}

/// What the caller does after one Soul vote.
pub enum DeliberateStep {
    /// Ask the Mind for a new plan, handing it `feedback`.
    Replan { feedback: String },
    /// Capture the round's plan and vote once with `disposition`, run the
    /// plan when the disposition is `Executed`, and return `outcome`.
    Finish { disposition: Disposition, outcome: DeliberateOutcome },
}

/// The number of rounds actually allowed (at least one).
pub open spec fn effective_rounds(max_rounds: u32) -> int {
    if max_rounds == 0 {
        1
    } else {
        max_rounds as int
    }
}

/// Whether the vote in round `round` (0-based) ends the deliberation.
pub open spec fn is_final_round(round: int, max_rounds: u32, verdict: SoulVerdict) -> bool {
    verdict != SoulVerdict::Revise || round + 1 >= effective_rounds(max_rounds)
}

/// The reason given when the rounds run out.
pub open spec fn exhausted_reason(max_rounds: u32) -> Seq<char> {
    "max_rounds ("@ + dec_nat(max_rounds as nat) + ") reached without Soul approval"@
}

/// The step after round `round`'s vote `verdict` with reaction `reaction`,
/// as (the disposition captured, if the deliberation finishes; the reason
/// on a denial, or the feedback on a replan): approve executes, veto denies
/// with the reaction as reason, revise replans with the reaction as feedback
/// until the last allowed round, where it escalates.
pub open spec fn step_spec(round: int, max_rounds: u32, verdict: SoulVerdict, reaction: Seq<char>) -> (
    Option<Disposition>,
    Seq<char>,
) {
    match verdict {
        SoulVerdict::Approve => (Some(Disposition::Executed), Seq::empty()),
        SoulVerdict::Veto => (Some(Disposition::Denied), reaction),
        SoulVerdict::Revise => if round + 1 >= effective_rounds(max_rounds) {
            (Some(Disposition::Escalated), exhausted_reason(max_rounds))
        } else {
            (None, reaction)
        },
    }
}

/// The view of a step in the shape of [`step_spec`].
pub open spec fn step_view(s: DeliberateStep) -> (Option<Disposition>, Seq<char>) {
    match s {
        DeliberateStep::Replan { feedback } => (None, feedback@),
        DeliberateStep::Finish { disposition, outcome } => (Some(disposition), match outcome {
            DeliberateOutcome::Executed => Seq::empty(),
            DeliberateOutcome::DeniedAndEscalated { reason } => reason@,
        }),
    }
}

/// A finished step's outcome agrees with its disposition.
pub open spec fn step_consistent(s: DeliberateStep) -> bool {
    match s {
        DeliberateStep::Replan { .. } => true,
        DeliberateStep::Finish { disposition, outcome } => (disposition == Disposition::Executed)
            == (outcome is Executed),
    }
}

/// Decides what follows the Soul's vote in round `round` (0-based) of a
/// deliberation allowed `max_rounds` rounds (at least one).
pub fn deliberation_step(round: u32, max_rounds: u32, verdict: SoulVerdict, reaction: &str) -> (s:
    DeliberateStep)
    requires
        round < effective_rounds(max_rounds),
    ensures
        step_view(s) == step_spec(round as int, max_rounds, verdict, reaction@),
        step_consistent(s),
{
    match verdict {
        SoulVerdict::Approve => DeliberateStep::Finish {
            disposition: Disposition::Executed,
            outcome: DeliberateOutcome::Executed,
        },
        SoulVerdict::Veto => DeliberateStep::Finish {
            disposition: Disposition::Denied,
            outcome: DeliberateOutcome::DeniedAndEscalated {
                reason: string_of(&chars_of(reaction)),
            },
        },
        SoulVerdict::Revise => {
            let allowed: u32 = if max_rounds == 0 {
                1
            } else {
                max_rounds
            };
            if round + 1 >= allowed {
                let mut why = chars_of("max_rounds (");
                push_nat(&mut why, max_rounds as u64);
                push_lit(&mut why, ") reached without Soul approval");
                DeliberateStep::Finish {
                    disposition: Disposition::Escalated,
                    outcome: DeliberateOutcome::DeniedAndEscalated { reason: string_of(&why) },
                }
            } else {
                DeliberateStep::Replan { feedback: string_of(&chars_of(reaction)) }
            }
        },
    }
}

/// A deliberation over the votes `vs` ends in round `k`: every earlier
/// round replans and round `k` finishes.
pub open spec fn ends_at(max_rounds: u32, vs: Seq<SoulVerdict>, k: int) -> bool {
    &&& 0 <= k < effective_rounds(max_rounds)
    &&& k < vs.len()
    &&& forall|j: int| 0 <= j < k ==> !is_final_round(j, max_rounds, #[trigger] vs[j])
    &&& is_final_round(k, max_rounds, vs[k])
}

proof fn lemma_ends_from(max_rounds: u32, vs: Seq<SoulVerdict>, i: int)
    requires
        0 <= i < effective_rounds(max_rounds),
        vs.len() >= effective_rounds(max_rounds),
        forall|j: int| 0 <= j < i ==> !is_final_round(j, max_rounds, #[trigger] vs[j]),
    ensures
        exists|k: int| ends_at(max_rounds, vs, k),
    decreases effective_rounds(max_rounds) - i,
{
    if is_final_round(i, max_rounds, vs[i]) {
        assert(ends_at(max_rounds, vs, i));
    } else {
        lemma_ends_from(max_rounds, vs, i + 1);
    }
}

/// Every deliberation finishes, and exactly once: whatever the Soul votes,
/// there is one round, within the allowed rounds (at least one), at which
/// the deliberation finishes (and is captured once) after only replanning
/// rounds, and no other round can be that round.
pub proof fn law_deliberation_finishes_exactly_once(max_rounds: u32, vs: Seq<SoulVerdict>)
    requires
        vs.len() >= effective_rounds(max_rounds),
    ensures
        exists|k: int| ends_at(max_rounds, vs, k),
        forall|k1: int, k2: int|
            ends_at(max_rounds, vs, k1) && ends_at(max_rounds, vs, k2) ==> k1 == k2,
{
    lemma_ends_from(max_rounds, vs, 0);
    assert forall|k1: int, k2: int|
        ends_at(max_rounds, vs, k1) && ends_at(max_rounds, vs, k2) implies k1 == k2 by {
        if k1 < k2 {
            assert(!is_final_round(k1, max_rounds, vs[k1]));
        } else if k2 < k1 {
            assert(!is_final_round(k2, max_rounds, vs[k2]));
        }
    }
}

/// The plan is executed exactly when the Soul approved it, and a round
/// finishes exactly when [`is_final_round`] says so.
pub proof fn law_execute_only_on_approval(
    round: int,
    max_rounds: u32,
    verdict: SoulVerdict,
    reaction: Seq<char>,
)
    requires
        0 <= round < effective_rounds(max_rounds),
    ensures
        step_spec(round, max_rounds, verdict, reaction).0 is Some <==> is_final_round(
            round,
            max_rounds,
            verdict,
        ),
        step_spec(round, max_rounds, verdict, reaction).0 == Some(Disposition::Executed)
            <==> verdict == SoulVerdict::Approve,
{
}


// ---------------------------------------------------------------------------
// The Soul's prompt and reply framing
// ---------------------------------------------------------------------------

/// The text from the first `{` to the last `}` of `s`, when both occur in
/// that order.
pub open spec fn json_object_span(s: Seq<char>) -> Option<Seq<char>> {
    let a = first_index_of(s, '{');
    let b = last_index_of(s, '}');
    if a >= 0 && b >= a {
        Some(s.subrange(a, b + 1))
    } else {
        None
    }
}

/// Extracts a `{...}` object from `text`, tolerating prose around it.
pub fn extract_json_object(text: &str) -> (r: Option<String>)
    ensures
        match r {
            Some(o) => json_object_span(text@) == Some(o@),
            None => json_object_span(text@) is None,
        },
{
    let s = chars_of(text);
    proof {
        lemma_first_index_of_bounds(s@, '{');
        lemma_last_index_of_bounds(s@, '}');
    }
    match first_index_of_exec(&s, '{') {
        None => None,
        Some(a) => match last_index_of_exec(&s, '}') {
            None => None,
            Some(b) => if b >= a {
                Some(string_of(&slice_chars(&s, a, b + 1)))
            } else {
                None
            },
        },
    }
}

/// The first catalog entry whose id is `id`.
pub open spec fn find_value(catalog: Seq<ValueEntry>, id: Seq<char>) -> Option<ValueEntry>
    decreases catalog.len(),
{
    if catalog.len() == 0 {
        None
    } else if catalog[0].id@ == id {
        Some(catalog[0])
    } else {
        find_value(catalog.drop_first(), id)
    }
}

/// One grounding line: a catalog value with its name and description, or a
/// free-text principle as it stands.
pub open spec fn grounding_line(catalog: Seq<ValueEntry>, entry: Seq<char>) -> Seq<char> {
    match find_value(catalog, entry) {
        Some(v) => "- "@ + v.name@ + " ("@ + v.id@ + "): "@ + v.description@,
        None => "- "@ + entry,
    }
}

/// The grounding lines of `grounding`, in order.
pub open spec fn grounding_lines(catalog: Seq<ValueEntry>, grounding: Seq<String>) -> Seq<Seq<char>> {
    grounding.map_values(|g: String| grounding_line(catalog, g@))
}

/// The user turn sent to the Soul: only the plan's intent and the values
/// grounding, never the Mind's steps, tool calls or environment.
pub open spec fn soul_prompt_spec(
    intent_summary: Seq<char>,
    grounding: Seq<String>,
    catalog: Seq<ValueEntry>,
) -> Seq<char> {
    "Plan intent:\n"@ + intent_summary + "\n\nValues grounding:\n"@ + join(
        grounding_lines(catalog, grounding),
        "\n"@,
    ) + "\n\nReturn your verdict as JSON."@
}

fn find_value_exec<'a>(catalog: &'a [ValueEntry], id: &str) -> (r: Option<&'a ValueEntry>)
    ensures
        match r {
            Some(v) => find_value(catalog@, id@) == Some(*v),
            None => find_value(catalog@, id@) is None,
        },
{
    let mut i: usize = 0;
    assert(catalog@.subrange(0, catalog@.len() as int) =~= catalog@);
    while i < catalog.len()
        invariant
            i <= catalog@.len(),
            find_value(catalog@, id@) == find_value(
                catalog@.subrange(i as int, catalog@.len() as int),
                id@,
            ),
        decreases catalog.len() - i,
    {
        let ghost rest = catalog@.subrange(i as int, catalog@.len() as int);
        assert(rest[0] == catalog@[i as int]);
        if str_eq(catalog[i].id.as_str(), id) {
            return Some(&catalog[i]);
        }
        assert(rest.drop_first() =~= catalog@.subrange(i + 1, catalog@.len() as int));
        i = i + 1;
    }
    None
}

/// The Soul's user turn for a plan intent, rendering each grounding entry
/// through `catalog` (catalog ids) or as free text (ratified principles).
pub fn soul_user_prompt(intent_summary: &str, grounding: &[String], catalog: &[ValueEntry]) -> (r:
    String)
    ensures
        r@ == soul_prompt_spec(intent_summary@, grounding@, catalog@),
{
    let mut lines: Vec<Vec<char>> = Vec::new();
    let mut i: usize = 0;
    let ghost all = grounding_lines(catalog@, grounding@);
    while i < grounding.len()
        invariant
            i <= grounding@.len(),
            all == grounding_lines(catalog@, grounding@),
            views(lines@) == all.subrange(0, i as int),
        decreases grounding.len() - i,
    {
        let entry = grounding[i].as_str();
        let line = match find_value_exec(catalog, entry) {
            Some(v) => {
                let mut l = chars_of("- ");
                push_lit(&mut l, v.name.as_str());
                push_lit(&mut l, " (");
                push_lit(&mut l, v.id.as_str());
                push_lit(&mut l, "): ");
                push_lit(&mut l, v.description.as_str());
                l
            },
            None => {
                let mut l = chars_of("- ");
                push_lit(&mut l, entry);
                l
            },
        };
        let ghost o = views(lines@);
        lines.push(line);
        assert(views(lines@) =~= o.push(line@));
        assert(all.subrange(0, i + 1) =~= all.subrange(0, i as int).push(all[i as int]));
        i = i + 1;
    }
    assert(all.subrange(0, all.len() as int) =~= all);
    let mut out = chars_of("Plan intent:\n");
    push_lit(&mut out, intent_summary);
    push_lit(&mut out, "\n\nValues grounding:\n");
    push_all(&mut out, &join_exec(&lines, "\n"));
    push_lit(&mut out, "\n\nReturn your verdict as JSON.");
    string_of(&out)
}

// ---------------------------------------------------------------------------
// Principle derivation: the propose stage
// ---------------------------------------------------------------------------

/// What derivation reads of a captured deliberation.
#[derive(Debug, Clone, Copy, PartialEq, Eq, Structural)]
pub struct DeliberationSummary {
    pub disposition: Disposition,
    /// Back-filled once known.
    pub outcome: Option<Outcome>,
}

/// A principle candidate proposed from a recurring pattern, with the
/// episode ids that produced it.
pub struct PrincipleCandidate {
    pub content: String,
    pub evidence: Vec<String>,
}

/// The ids, in order, of the executed deliberations whose outcome is `which`.
pub open spec fn bad_ids(eps: Seq<(String, DeliberationSummary)>, which: Outcome) -> Seq<Seq<char>>
    decreases eps.len(),
{
    if eps.len() == 0 {
        Seq::empty()
    } else {
        bad_ids(eps.drop_last(), which) + (if eps.last().1.disposition == Disposition::Executed
            && eps.last().1.outcome == Some(which) {
            seq![eps.last().0@]
        } else {
            Seq::empty()
        })
    }
}

/// The candidate text for `n` failed executions.
pub open spec fn failure_text(n: nat) -> Seq<char> {
    dec_nat(n)
        + " executed deliberations have ended in failure — require stronger evidence or a narrower blast radius before approving plans like these."@
}

/// The candidate text for `n` rolled-back executions.
pub open spec fn rollback_text(n: nat) -> Seq<char> {
    dec_nat(n)
        + " executed deliberations have needed a rollback — prefer plans with a verified backout, or hold them for deliberate mode even when they look reversible."@
}

pub open spec fn candidate_view(c: PrincipleCandidate) -> (Seq<char>, Seq<Seq<char>>) {
    (c.content@, names(c.evidence@))
}

/// The candidates derived from `eps`: one for failed executions and then
/// one for rolled-back executions, each only when that group recurred at
/// least `threshold` times.
pub open spec fn derived_candidates(eps: Seq<(String, DeliberationSummary)>, threshold: nat) -> Seq<
    (Seq<char>, Seq<Seq<char>>),
> {
    let f = bad_ids(eps, Outcome::Failure);
    let r = bad_ids(eps, Outcome::RolledBack);
    (if f.len() >= threshold {
        seq![(failure_text(f.len()), f)]
    } else {
        Seq::empty()
    }) + (if r.len() >= threshold {
        seq![(rollback_text(r.len()), r)]
    } else {
        Seq::empty()
    })
}

/// Groups the executed deliberations by bad outcome (`Failure`,
/// `RolledBack`) and proposes one candidate per group that recurred at
/// least `recurrence_threshold` times; denied, escalated and successful
/// deliberations never propose anything.
pub fn derive_principle_candidates(
    episodes: &[(String, DeliberationSummary)],
    recurrence_threshold: usize,
) -> (r: Vec<PrincipleCandidate>)
    ensures
        r@.map_values(|c: PrincipleCandidate| candidate_view(c)) == derived_candidates(
            episodes@,
            recurrence_threshold as nat,
        ),
{
    let mut failures: Vec<String> = Vec::new();
    let mut rollbacks: Vec<String> = Vec::new();
    let mut i: usize = 0;
    assert(episodes@.subrange(0, 0) =~= Seq::<(String, DeliberationSummary)>::empty());
    while i < episodes.len()
        invariant
            i <= episodes@.len(),
            names(failures@) == bad_ids(episodes@.subrange(0, i as int), Outcome::Failure),
            names(rollbacks@) == bad_ids(episodes@.subrange(0, i as int), Outcome::RolledBack),
        decreases episodes.len() - i,
    {
        let ghost pre = episodes@.subrange(0, i as int);
        let ghost nxt = episodes@.subrange(0, i + 1);
        assert(nxt.drop_last() =~= pre);
        let ghost of = names(failures@);
        let ghost orb = names(rollbacks@);
        let (id, s) = (&episodes[i].0, &episodes[i].1);
        let executed = match s.disposition {
            Disposition::Executed => true,
            _ => false,
        };
        if executed {
            match s.outcome {
                Some(Outcome::Failure) => {
                    failures.push(id.clone());
                },
                Some(Outcome::RolledBack) => {
                    rollbacks.push(id.clone());
                },
                _ => {},
            }
        }
        assert(names(failures@) =~= bad_ids(nxt, Outcome::Failure));
        assert(names(rollbacks@) =~= bad_ids(nxt, Outcome::RolledBack));
        i = i + 1;
    }
    assert(episodes@.subrange(0, episodes@.len() as int) =~= episodes@);
    let mut candidates: Vec<PrincipleCandidate> = Vec::new();
    let nf = failures.len();
    let nr = rollbacks.len();
    if nf >= recurrence_threshold {
        let mut text: Vec<char> = Vec::new();
        push_nat(&mut text, nf as u64);
        push_lit(
            &mut text,
            " executed deliberations have ended in failure — require stronger evidence or a narrower blast radius before approving plans like these.",
        );
        candidates.push(PrincipleCandidate { content: string_of(&text), evidence: failures });
    }
    let ghost mid = candidates@.map_values(|c: PrincipleCandidate| candidate_view(c));
    if nr >= recurrence_threshold {
        let mut text: Vec<char> = Vec::new();
        push_nat(&mut text, nr as u64);
        push_lit(
            &mut text,
            " executed deliberations have needed a rollback — prefer plans with a verified backout, or hold them for deliberate mode even when they look reversible.",
        );
        let c = PrincipleCandidate { content: string_of(&text), evidence: rollbacks };
        let ghost o = candidates@;
        candidates.push(c);
        assert(candidates@.map_values(|c: PrincipleCandidate| candidate_view(c)) =~= mid.push(
            candidate_view(c),
        ));
    }
    assert(candidates@.map_values(|c: PrincipleCandidate| candidate_view(c)) =~= derived_candidates(
        episodes@,
        recurrence_threshold as nat,
    ));
    candidates
}


/// A candidate is only ever proposed from a recurring pattern: its evidence
/// holds at least `threshold` episode ids, and its text states that count.
pub proof fn law_candidates_need_recurrence(eps: Seq<(String, DeliberationSummary)>, threshold: nat)
    ensures
        forall|i: int|
            0 <= i < derived_candidates(eps, threshold).len() ==> {
                let c = #[trigger] derived_candidates(eps, threshold)[i];
                &&& c.1.len() >= threshold
                &&& (c.0 == failure_text(c.1.len()) || c.0 == rollback_text(c.1.len()))
            },
{
}

proof fn lemma_bad_ids_sources(eps: Seq<(String, DeliberationSummary)>, which: Outcome, k: int)
    requires
        0 <= k < bad_ids(eps, which).len(),
    ensures
        exists|i: int|
            0 <= i < eps.len() && (#[trigger] eps[i]).0@ == bad_ids(eps, which)[k]
                && eps[i].1.disposition == Disposition::Executed && eps[i].1.outcome == Some(which),
    decreases eps.len(),
{
    let rest = bad_ids(eps.drop_last(), which);
    if k < rest.len() {
        lemma_bad_ids_sources(eps.drop_last(), which, k);
        let i = choose|i: int|
            0 <= i < eps.drop_last().len() && (#[trigger] eps.drop_last()[i]).0@ == rest[k]
                && eps.drop_last()[i].1.disposition == Disposition::Executed
                && eps.drop_last()[i].1.outcome == Some(which);
        assert(eps[i] == eps.drop_last()[i]);
        assert(bad_ids(eps, which)[k] == rest[k]);
    } else {
        assert(eps[eps.len() - 1] == eps.last());
    }
}

/// Only executed deliberations with a bad outcome are evidence: every
/// episode id a candidate cites belongs to a deliberation that was executed
/// and then failed (for the failure candidate) or was rolled back (for the
/// rollback candidate); denied, escalated and successful ones never count.
pub proof fn law_evidence_is_executed_and_bad(eps: Seq<(String, DeliberationSummary)>, which: Outcome, k: int)
    requires
        which == Outcome::Failure || which == Outcome::RolledBack,
        0 <= k < bad_ids(eps, which).len(),
    ensures
        exists|i: int|
            0 <= i < eps.len() && (#[trigger] eps[i]).0@ == bad_ids(eps, which)[k]
                && eps[i].1.disposition == Disposition::Executed && eps[i].1.outcome == Some(which),
{
    lemma_bad_ids_sources(eps, which, k);
}

/// The Soul sees only a plan's intent and the values grounding: plans that
/// share an intent get the same prompt, whatever their steps and intended
/// tool calls.
pub proof fn law_soul_sees_only_intent(p: Plan, q: Plan, grounding: Seq<String>, catalog: Seq<ValueEntry>)
    requires
        p.intent_summary@ == q.intent_summary@,
    ensures
        soul_prompt_spec(p.intent_summary@, grounding, catalog) == soul_prompt_spec(
            q.intent_summary@,
            grounding,
            catalog,
        ),
{
}

/// The default classifier sends every risky action through the values
/// check unless it is urgent: an urgent action always acts; otherwise an
/// action that is destructive, outward-facing or irreversible (any one of
/// them, whatever the other flags) deliberates, and only a reversible,
/// non-destructive, inward action acts.
pub proof fn law_risky_actions_deliberate(a: ContemplatedAction)
    ensures
        a.urgent ==> DefaultRiskClassifier.classification(a) == Mode::Act,
        !a.urgent && a.destructive ==> DefaultRiskClassifier.classification(a) == Mode::Deliberate,
        !a.urgent && a.outward_facing ==> DefaultRiskClassifier.classification(a) == Mode::Deliberate,
        !a.urgent && !a.reversible ==> DefaultRiskClassifier.classification(a) == Mode::Deliberate,
        !a.urgent && a.reversible && !a.destructive && !a.outward_facing
            ==> DefaultRiskClassifier.classification(a) == Mode::Act,
{
}

} // verus!
