//! Planning control loop: mitigate -> replan -> RAG -> escalate.
//!
//! A goal's plan is kept on track honestly: failed tasks are mitigated in
//! place first; anything still failing triggers a whole-network replan; the
//! round's RAG comes from the schedule's feasibility plus this round's
//! recovery outcome; a red round escalates to the goal's source with the
//! three standard remedies. The awaits (mitigator, planner, soul, sink) are
//! driven by the caller; this module decides.

use vstd::prelude::*;
use crate::text::{chars_list, chars_of, join, join_exec, names, push_all, push_lit, string_of};

verus! {

/// Red / amber / green status of an intent.
#[derive(Debug, Clone, Copy, PartialEq, Eq, Structural)]
pub enum Rag {
    Green,
    Amber,
    Red,
}

impl Rag {
    pub open spec fn as_str_spec(self) -> Seq<char> {
        match self {
            Rag::Green => "green"@,
            Rag::Amber => "amber"@,
            Rag::Red => "red"@,
        }
    }

    /// The stored spelling (`green` / `amber` / `red`).
    pub fn as_str(&self) -> (r: &'static str)
        ensures
            r@ == self.as_str_spec(),
    {
        match self {
            Rag::Green => "green",
            Rag::Amber => "amber",
            Rag::Red => "red",
        }
    }
}

/// A remedy the escalated-to source can apply.
#[derive(Debug, Clone, Copy, PartialEq, Eq, Structural)]
pub enum Remedy {
    ProvideResources,
    AdjustIntent,
    Replan,
}

/// The three remedies, always offered together and in this order.
pub open spec fn standard_remedies_spec() -> Seq<Remedy> {
    seq![Remedy::ProvideResources, Remedy::AdjustIntent, Remedy::Replan]
}

/// The three standard remedies.
pub fn standard_remedies() -> (r: Vec<Remedy>)
    ensures
        r@ == standard_remedies_spec(),
{
    let mut v: Vec<Remedy> = Vec::new();
    v.push(Remedy::ProvideResources);
    v.push(Remedy::AdjustIntent);
    v.push(Remedy::Replan);
    assert(v@ =~= standard_remedies_spec());
    v
}

/// A planning-domain escalation (never an ITIL record).
pub struct PlanningEscalation {
    pub goal_id: String,
    /// The goal's own source: who this routes back to.
    pub source: String,
    pub reason: String,
    pub remedies: Vec<Remedy>,
}

/// What the loop reads of a computed schedule.
pub struct ScheduleReport {
    pub feasible: bool,
    pub issues: Vec<String>,
}

/// RAG from structural feasibility plus this round's recovery outcome.
pub open spec fn rag_spec(feasible: bool, still_failing: bool, recovered_this_round: bool) -> Rag {
    if !feasible || still_failing {
        Rag::Red
    } else if recovered_this_round {
        Rag::Amber
    } else {
        Rag::Green
    }
}

/// Red when the schedule is infeasible or a failure survived mitigation and
/// replanning; amber when feasible and clear but recovery was needed this
/// round; green otherwise.
pub fn compute_rag(schedule: &ScheduleReport, still_failed: &[String], recovered_this_round: bool) -> (r: Rag)
    ensures
        r == rag_spec(schedule.feasible, still_failed@.len() > 0, recovered_this_round),
{
    if !schedule.feasible || still_failed.len() > 0 {
        Rag::Red
    } else if recovered_this_round {
        Rag::Amber
    } else {
        Rag::Green
    }
}

/// Splits the failed tasks by whether their in-place mitigation completed:
/// `(mitigated, still failing)`, each in input order.
pub open spec fn partition_spec(failed: Seq<String>, completed: Seq<bool>) -> (Seq<Seq<char>>, Seq<
    Seq<char>,
>)
    decreases failed.len(),
{
    if failed.len() == 0 {
        (Seq::empty(), Seq::empty())
    } else {
        let (m, s) = partition_spec(failed.drop_last(), completed);
        let t = failed.last()@;
        if completed[failed.len() - 1] {
            (m.push(t), s)
        } else {
            (m, s.push(t))
        }
    }
}

/// Partitions failed task ids by their mitigation outcome (`completed[i]`
/// is whether task `i` was recovered in place).
pub fn partition_mitigations(failed: &Vec<String>, completed: &Vec<bool>) -> (r: (Vec<String>, Vec<String>))
    requires
        completed.len() == failed.len(),
    ensures
        r.0@.map_values(|s: String| s@) == partition_spec(failed@, completed@).0,
        r.1@.map_values(|s: String| s@) == partition_spec(failed@, completed@).1,
{
    let mut m: Vec<String> = Vec::new();
    let mut s: Vec<String> = Vec::new();
    let mut i: usize = 0;
    assert(failed@.subrange(0, 0) =~= Seq::<String>::empty());
    assert(m@.map_values(|s: String| s@) =~= Seq::<Seq<char>>::empty());
    assert(s@.map_values(|s: String| s@) =~= Seq::<Seq<char>>::empty());
    while i < failed.len()
        invariant
            i <= failed.len(),
            completed.len() == failed.len(),
            (m@.map_values(|s: String| s@), s@.map_values(|s: String| s@)) == partition_spec(
                failed@.subrange(0, i as int),
                completed@,
            ),
        decreases failed.len() - i,
    {
        proof {
            assert(failed@.subrange(0, i + 1).drop_last() =~= failed@.subrange(0, i as int));
        }
        let t = string_of(&chars_of(failed[i].as_str()));
        if completed[i] {
            let ghost o = m@;
            m.push(t);
            assert(m@.map_values(|s: String| s@) =~= o.map_values(|s: String| s@).push(t@));
        } else {
            let ghost o = s@;
            s.push(t);
            assert(s@.map_values(|s: String| s@) =~= o.map_values(|s: String| s@).push(t@));
        }
        i = i + 1;
    }
    assert(failed@.subrange(0, failed.len() as int) =~= failed@);
    (m, s)
}

/// The feedback handed to the planner when tasks could not be mitigated.
pub fn replan_feedback(still_failed: &Vec<String>) -> (r: String)
    ensures
        r@ == "tasks failed and could not be mitigated: "@ + join(names(still_failed@), ", "@),
{
    let mut out = chars_of("tasks failed and could not be mitigated: ");
    let j = join_exec(&chars_list(still_failed.as_slice()), ", ");
    push_all(&mut out, &j);
    string_of(&out)
}

/// Whether the round replans, with the feedback handed to the planner: a
/// replan runs only when some task is still failing after mitigation.
pub fn replan_request(still_failed: &Vec<String>) -> (r: Option<String>)
    ensures
        still_failed@.len() == 0 ==> r is None,
        still_failed@.len() > 0 ==> (r matches Some(f) && f@ == "tasks failed and could not be mitigated: "@
            + join(names(still_failed@), ", "@)),
{
    if still_failed.len() == 0 {
        None
    } else {
        Some(replan_feedback(still_failed))
    }
}

/// The reason recorded on a red round's escalation.
pub open spec fn escalation_reason(still_failed: Seq<String>, issues: Seq<String>) -> Seq<char> {
    if still_failed.len() > 0 {
        "tasks still failing after mitigate/replan: "@ + join(names(still_failed), ", "@)
    } else {
        "schedule is infeasible: "@ + join(names(issues), "; "@)
    }
}

/// The full result of one control-loop pass.
pub struct ControlLoopReport {
    pub rag: Rag,
    pub schedule: ScheduleReport,
    /// Tasks recovered in place this round.
    pub mitigated_tasks: Vec<String>,
    /// Whether a replan ran this round.
    pub replanned: bool,
    /// The Soul's verdict on the replan, iff one ran.
    pub replan_approved: Option<bool>,
    /// Tasks that failed and could not be recovered this round.
    pub still_failed: Vec<String>,
    pub escalation: Option<PlanningEscalation>,
}

/// Concludes a round. `replan` is `None` when no replan ran, else the
/// Soul's verdict on it; an approved replan clears the failures (the caller
/// passes the new network's schedule). The round's RAG follows
/// [`compute_rag`]; a red round escalates with the standard remedies.
pub fn conclude_round(
    goal_id: &str,
    source: &str,
    schedule: ScheduleReport,
    mitigated_tasks: Vec<String>,
    still_failed: Vec<String>,
    replan: Option<bool>,
) -> (r: ControlLoopReport)
    ensures
        r.schedule == schedule,
        r.mitigated_tasks == mitigated_tasks,
        r.replanned == (replan is Some),
        r.replan_approved == replan,
        r.still_failed@ == (if replan == Some(true) {
            Seq::empty()
        } else {
            still_failed@
        }),
        r.rag == rag_spec(
            schedule.feasible,
            r.still_failed@.len() > 0,
            mitigated_tasks@.len() > 0 || replan is Some,
        ),
        (r.rag == Rag::Red) <==> r.escalation is Some,
        r.escalation matches Some(e) ==> e.goal_id@ == goal_id@ && e.source@ == source@
            && e.remedies@ == standard_remedies_spec() && e.reason@ == escalation_reason(
            r.still_failed@,
            schedule.issues@,
        ),
{
    let still_failed = if replan == Some(true) {
        Vec::new()
    } else {
        still_failed
    };
    let recovered = mitigated_tasks.len() > 0 || replan.is_some();
    let rag = compute_rag(&schedule, still_failed.as_slice(), recovered);
    let escalation = match rag {
        Rag::Red => {
            let reason = if still_failed.len() > 0 {
                let mut out = chars_of("tasks still failing after mitigate/replan: ");
                let j = join_exec(&chars_list(still_failed.as_slice()), ", ");
                push_all(&mut out, &j);
                out
            } else {
                let mut out = chars_of("schedule is infeasible: ");
                let j = join_exec(&chars_list(schedule.issues.as_slice()), "; ");
                push_all(&mut out, &j);
                out
            };
            Some(
                PlanningEscalation {
                    goal_id: string_of(&chars_of(goal_id)),
                    source: string_of(&chars_of(source)),
                    reason: string_of(&reason),
                    remedies: standard_remedies(),
                },
            )
        },
        _ => None,
    };
    ControlLoopReport {
        rag,
        schedule,
        mitigated_tasks,
        replanned: replan.is_some(),
        replan_approved: replan,
        still_failed,
        escalation,
    }
}


/// RAG is honest about the round: red exactly when the schedule is
/// infeasible or a failure survived, green exactly when the schedule is
/// feasible and the round needed no recovery at all, amber otherwise
/// (recovered, not endangered).
pub proof fn law_rag_is_honest(feasible: bool, still_failing: bool, recovered: bool)
    ensures
        (rag_spec(feasible, still_failing, recovered) == Rag::Red) <==> (!feasible || still_failing),
        (rag_spec(feasible, still_failing, recovered) == Rag::Green) <==> (feasible && !still_failing
            && !recovered),
        (rag_spec(feasible, still_failing, recovered) == Rag::Amber) <==> (feasible && !still_failing
            && recovered),
{
}

} // verus!
