//! Monitoring of scheduled runs: a failed run opens an incident for its
//! skill (or updates the one already active), and once the skill's
//! incidents reach the recurrence threshold a problem is opened (or the one
//! already linked reused) and the incidents linked to it. The store work is
//! the caller's; this module decides and words the records.

use vstd::prelude::*;
use crate::text::{chars_of, dec_nat, opt_str, push_lit, push_nat, str_eq, string_of, take_chars, take_chars_exec};

verus! {

/// Outcome of evaluating a scheduled run's result.
pub struct MonitorOutcome {
    /// The incident opened or updated, if the run failed.
    pub incident_id: Option<String>,
    /// Whether a new incident was created (rather than an active one
    /// updated).
    pub created_incident: bool,
    /// The problem opened or linked once the recurrence threshold was
    /// reached.
    pub problem_id: Option<String>,
}

impl Default for MonitorOutcome {
    /// Nothing opened.
    fn default() -> (r: Self)
        ensures
            r.incident_id is None,
            !r.created_incident,
            r.problem_id is None,
    {
        MonitorOutcome { incident_id: None, created_incident: false, problem_id: None }
    }
}

/// Whether a run's status calls for an incident (anything but `success`).
pub fn is_failed_run(status: &str) -> (r: bool)
    ensures
        r == (status@ != "success"@),
{
    !str_eq(status, "success")
}

/// The incident opened for a skill's failed run: (title, description,
/// episode summary); the description is the first 200 characters of the
/// run's output.
pub fn failure_incident(skill_name: &str, output: &str) -> (r: (String, String, String))
    ensures
        r.0@ == skill_name@ + " failed"@,
        r.1@ == take_chars(output@, 200),
        r.2@ == "monitor opened incident for `"@ + skill_name@ + "`"@,
{
    let mut title = chars_of(skill_name);
    push_lit(&mut title, " failed");
    let preview = take_chars_exec(&chars_of(output), 200);
    let mut summary = chars_of("monitor opened incident for `");
    push_lit(&mut summary, skill_name);
    push_lit(&mut summary, "`");
    (string_of(&title), string_of(&preview), string_of(&summary))
}

/// What an observation does to the incidents of its subject (a skill or a
/// domain): touch the active incident, or open a new one.
#[derive(Debug, PartialEq, Eq)]
pub enum FailureIncident {
    /// Update the active incident (no duplicate is opened).
    Touch { incident_id: String },
    /// Open a new incident and record its episode.
    Open { title: String, description: String, episode_summary: String },
}

/// The incident step for a run with `status` of `skill_name` given the
/// skill's active (open or investigating) incident, if any: a successful run
/// does nothing; a failed one touches the active incident, or else opens one
/// worded by [`failure_incident`].
pub fn monitor_step(status: &str, active_incident: Option<&str>, skill_name: &str, output: &str) -> (r: Option<
    FailureIncident,
>)
    ensures
        status@ == "success"@ ==> r is None,
        status@ != "success"@ ==> match active_incident {
            Some(id) => r matches Some(FailureIncident::Touch { incident_id }) && incident_id@ == id@,
            None => r matches Some(FailureIncident::Open { title, description, episode_summary })
                && title@ == skill_name@ + " failed"@ && description@ == take_chars(output@, 200)
                && episode_summary@ == "monitor opened incident for `"@ + skill_name@ + "`"@,
        },
{
    if !is_failed_run(status) {
        return None;
    }
    match active_incident {
        Some(id) => Some(FailureIncident::Touch { incident_id: string_of(&chars_of(id)) }),
        None => {
            let (title, description, episode_summary) = failure_incident(skill_name, output);
            Some(FailureIncident::Open { title, description, episode_summary })
        },
    }
}

/// Whether a skill's incident count calls for a problem: a zero threshold
/// never does.
pub fn problem_due(incident_count: usize, recurrence_threshold: usize) -> (r: bool)
    ensures
        r == (recurrence_threshold > 0 && incident_count >= recurrence_threshold),
{
    recurrence_threshold > 0 && incident_count >= recurrence_threshold
}

/// The problem opened for a skill's recurring failures: (title,
/// description).
pub fn recurring_problem(skill_name: &str, incident_count: usize) -> (r: (String, String))
    ensures
        r.0@ == "recurring failures: "@ + skill_name@,
        r.1@ == dec_nat(incident_count as nat) + " incidents recorded for `"@ + skill_name@ + "`"@,
{
    let mut title = chars_of("recurring failures: ");
    push_lit(&mut title, skill_name);
    let mut desc: Vec<char> = Vec::new();
    push_nat(&mut desc, incident_count as u64);
    push_lit(&mut desc, " incidents recorded for `");
    push_lit(&mut desc, skill_name);
    push_lit(&mut desc, "`");
    (string_of(&title), string_of(&desc))
}

/// The first problem already linked to one of the skill's incidents (given
/// each incident's link, in order), to reuse rather than open another.
pub fn linked_problem(links: &[Option<String>]) -> (r: Option<String>)
    ensures
        match r {
            Some(p) => exists|i: int|
                0 <= i < links@.len() && (forall|j: int| 0 <= j < i ==> (#[trigger] links@[j]) is None)
                    && opt_str(links@[i]) == Some(p@),
            None => forall|j: int| 0 <= j < links@.len() ==> (#[trigger] links@[j]) is None,
        },
{
    let mut i: usize = 0;
    while i < links.len()
        invariant
            i <= links@.len(),
            forall|j: int| 0 <= j < i ==> (#[trigger] links@[j]) is None,
        decreases links.len() - i,
    {
        match &links[i] {
            Some(p) => {
                return Some(p.clone());
            },
            None => {},
        }
        i = i + 1;
    }
    None
}

} // verus!
