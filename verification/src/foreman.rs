//! Foreman mode: cave-task messages arrive on the bus, a local CLI worker
//! runs them, and a structured handover goes back up the bus. A failed or
//! empty run also drafts an ITIL incident. This module decides: which
//! messages are tasks, who the handover goes to, and what the handover and
//! any incident say. Spawning the worker, sending and persisting are the
//! caller's.

use vstd::prelude::*;
use crate::bus::BusMessage;
use crate::text::{
    chars_of, clone_opt, dec_int, fmt_i64, is_blank, opt_str, push_all,
    push_lit, string_of, take_chars, take_chars_exec, trim, trim_chars,
};
use crate::worker::{Outcome, WorkerRun};

verus! {

/// A structured cave-task: run something via a local worker, then report
/// back to `reply_to`.
pub struct CaveTask {
    /// The instruction handed to the worker.
    pub task: String,
    /// Which CLI worker to drive (the default worker when the message names
    /// none).
    pub worker: String,
    /// Where to run (the repo workspace inside the cave).
    pub cwd: Option<String>,
    /// Who to send the handover to (the message sender when absent).
    pub reply_to: Option<String>,
    /// Correlation ref echoed back on the handover.
    pub ref_id: Option<String>,
}

/// The structured handover reported back after a worker run.
pub struct Handover {
    pub ref_id: Option<String>,
    /// `done` | `failed` | `empty`.
    pub outcome: String,
    pub summary: String,
    pub exit_code: Option<i32>,
}

/// An incident to open when in-cave work breaks.
pub struct IncidentDraft {
    pub title: String,
    pub description: String,
    pub severity: String,
}

/// Whether a message body, already decoded as a task, is accepted: only
/// structured messages carry tasks, and a blank task is none.
pub open spec fn task_accepted(kind: Seq<char>, parsed: Option<CaveTask>) -> bool {
    &&& kind == "structured"@
    &&& parsed matches Some(t) && !is_blank(t.task@)
}

impl CaveTask {
    /// The task carried by `m`, given its body decoded as a task (`parsed`,
    /// `None` when the body is not one): only a structured message with a
    /// non-blank task yields it.
    pub fn from_parsed(m: &BusMessage, parsed: Option<CaveTask>) -> (r: Option<CaveTask>)
        ensures
            task_accepted(m.kind@, parsed) ==> r == parsed,
            !task_accepted(m.kind@, parsed) ==> r is None,
    {
        if !crate::text::str_eq(m.kind.as_str(), "structured") {
            return None;
        }
        match parsed {
            Some(t) => {
                let tc = chars_of(t.task.as_str());
                let tt = trim_chars(&tc);
                if tt.len() == 0 {
                    None
                } else {
                    Some(t)
                }
            },
            None => None,
        }
    }
}

/// The name of a run's outcome.
pub open spec fn outcome_name(o: Outcome) -> Seq<char> {
    match o {
        Outcome::Done => "done"@,
        Outcome::Failed => "failed"@,
        Outcome::Empty => "empty"@,
    }
}

fn outcome_str(o: Outcome) -> (r: &'static str)
    ensures
        r@ == outcome_name(o),
{
    match o {
        Outcome::Done => "done",
        Outcome::Failed => "failed",
        Outcome::Empty => "empty",
    }
}

/// The `Debug` rendering of an optional exit code (`Some(1)`, `None`).
pub open spec fn exit_debug(e: Option<i32>) -> Seq<char> {
    match e {
        Some(c) => "Some("@ + dec_int(c as int) + ")"@,
        None => "None"@,
    }
}

/// The handover summary: the trimmed output, at most 500 characters.
pub open spec fn summary_of(output: Seq<char>) -> Seq<char> {
    take_chars(trim(output), 500)
}

/// The incident title for a broken run.
pub open spec fn incident_title(ref_id: Option<Seq<char>>, outcome: Seq<char>) -> Seq<char> {
    "cave-task "@ + (match ref_id {
        Some(r) => r,
        None => "(no-ref)"@,
    }) + " worker "@ + outcome
}

/// The incident description for a broken run.
pub open spec fn incident_description(t: CaveTask, run: WorkerRun) -> Seq<char> {
    "worker="@ + t.worker@ + " outcome="@ + outcome_name(run.outcome) + " exit="@ + exit_debug(
        run.exit_code,
    ) + "\ntask: "@ + t.task@ + "\noutput:\n"@ + summary_of(run.output@)
}

/// Given a task and its worker run, plans the handover (the task's ref, the
/// outcome, the bounded summary, the exit code) and, when the run did not
/// cleanly succeed, a medium-severity incident.
pub fn plan_handover(task: &CaveTask, run: &WorkerRun) -> (r: (Handover, Option<IncidentDraft>))
    ensures
        opt_str(r.0.ref_id) == opt_str(task.ref_id),
        r.0.outcome@ == outcome_name(run.outcome),
        r.0.summary@ == summary_of(run.output@),
        r.0.exit_code == run.exit_code,
        run.outcome == Outcome::Done ==> r.1 is None,
        run.outcome != Outcome::Done ==> (r.1 matches Some(d) && d.title@ == incident_title(
            opt_str(task.ref_id),
            outcome_name(run.outcome),
        ) && d.description@ == incident_description(*task, *run) && d.severity@ == "medium"@),
{
    let outcome = outcome_str(run.outcome);
    let summary = take_chars_exec(&trim_chars(&chars_of(run.output.as_str())), 500);
    let handover = Handover {
        ref_id: clone_opt(&task.ref_id),
        outcome: string_of(&chars_of(outcome)),
        summary: string_of(&summary),
        exit_code: run.exit_code,
    };
    let incident = match run.outcome {
        Outcome::Done => None,
        _ => {
            let mut title = chars_of("cave-task ");
            match &task.ref_id {
                Some(r) => push_lit(&mut title, r.as_str()),
                None => push_lit(&mut title, "(no-ref)"),
            }
            push_lit(&mut title, " worker ");
            push_lit(&mut title, outcome);
            let mut desc = chars_of("worker=");
            push_lit(&mut desc, task.worker.as_str());
            push_lit(&mut desc, " outcome=");
            push_lit(&mut desc, outcome);
            push_lit(&mut desc, " exit=");
            match run.exit_code {
                Some(c) => {
                    push_lit(&mut desc, "Some(");
                    push_all(&mut desc, &fmt_i64(c as i64));
                    push_lit(&mut desc, ")");
                },
                None => push_lit(&mut desc, "None"),
            }
            push_lit(&mut desc, "\ntask: ");
            push_lit(&mut desc, task.task.as_str());
            push_lit(&mut desc, "\noutput:\n");
            push_all(&mut desc, &summary);
            Some(
                IncidentDraft {
                    title: string_of(&title),
                    description: string_of(&desc),
                    severity: string_of(&chars_of("medium")),
                },
            )
        },
    };
    (handover, incident)
}

/// Who the handover goes to: the task's `reply_to`, else the sender of the
/// message that carried the task.
pub fn handover_recipient(task: &CaveTask, message: &BusMessage) -> (r: String)
    ensures
        r@ == (match task.reply_to {
            Some(t) => t@,
            None => message.sender@,
        }),
{
    match &task.reply_to {
        Some(t) => t.clone(),
        None => message.sender.clone(),
    }
}

} // verus!
