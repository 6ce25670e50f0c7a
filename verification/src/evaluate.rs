//! Observed-vs-target evaluation: observed signals are checked against a
//! domain's to-be-state assertions, and only a deviation from intent raises
//! an incident. This module holds the text side of the check and the default
//! judge.

use vstd::prelude::*;
use crate::desired::AssertOp;
use crate::monitor::FailureIncident;
use crate::text::{chars_list, chars_of, join, join_exec, names, push_lit, str_eq, string_of};

verus! {

/// The default judge: every structured-assertion breach is worth an
/// incident.
pub struct StructuredJudge;

/// Whether an observed text satisfies a text target: `eq` and `ne` compare;
/// an ordering operator on text never holds (a deviation).
pub open spec fn text_satisfies_spec(observed: Seq<char>, op: AssertOp, target: Seq<char>) -> bool {
    match op {
        AssertOp::Eq => observed == target,
        AssertOp::Ne => observed != target,
        _ => false,
    }
}

/// Checks an observed text against a text target.
pub fn text_satisfies(observed: &str, op: AssertOp, target: &str) -> (r: bool)
    ensures
        r == text_satisfies_spec(observed@, op, target@),
{
    match op {
        AssertOp::Eq => str_eq(observed, target),
        AssertOp::Ne => !str_eq(observed, target),
        _ => false,
    }
}

/// The incident step for a domain's deviations, given one summary line per
/// deviation and the domain's active incident, if any: no deviation does
/// nothing; otherwise the active incident is touched (one open incident per
/// domain), or else one is opened titled `{domain} deviates from target`,
/// described by the summaries joined with `; `.
pub fn deviation_step(summaries: &Vec<String>, active_incident: Option<&str>, domain: &str) -> (r:
    Option<FailureIncident>)
    ensures
        summaries@.len() == 0 ==> r is None,
        summaries@.len() > 0 ==> match active_incident {
            Some(id) => r matches Some(FailureIncident::Touch { incident_id }) && incident_id@ == id@,
            None => r matches Some(FailureIncident::Open { title, description, episode_summary })
                && title@ == domain@ + " deviates from target"@
                && description@ == join(names(summaries@), "; "@)
                && episode_summary@ == "observed-vs-target deviation for `"@ + domain@ + "`"@,
        },
{
    if summaries.len() == 0 {
        return None;
    }
    match active_incident {
        Some(id) => Some(FailureIncident::Touch { incident_id: string_of(&chars_of(id)) }),
        None => {
            let mut title = chars_of(domain);
            push_lit(&mut title, " deviates from target");
            let description = join_exec(&chars_list(summaries.as_slice()), "; ");
            let mut episode = chars_of("observed-vs-target deviation for `");
            push_lit(&mut episode, domain);
            push_lit(&mut episode, "`");
            Some(
                FailureIncident::Open {
                    title: string_of(&title),
                    description: string_of(&description),
                    episode_summary: string_of(&episode),
                },
            )
        },
    }
}

} // verus!
