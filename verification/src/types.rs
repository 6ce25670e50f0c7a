//! Shared records of the operator store (tasks, memories, ITIL items,
//! values, principles, derived checks) and the daemon's stream responses.

use vstd::prelude::*;

verus! {

/// A skill (task) available to run.
pub struct SkillInfo {
    pub name: String,
    pub description: String,
    pub source: String,
}

/// A recurring schedule for a skill.
pub struct Schedule {
    pub id: String,
    pub skill: String,
    pub interval: String,
    pub next_run: String,
    pub last_run: Option<String>,
}

/// One run of a skill.
pub struct TaskRun {
    pub id: String,
    pub skill_name: String,
    pub status: String,
    pub output: String,
    pub started_at: String,
    pub finished_at: String,
}

/// A stored memory.
pub struct Memory {
    pub id: String,
    pub category: String,
    pub content: String,
    pub created_at: String,
    pub updated_at: String,
    pub strength: i64,
    pub last_seen: Option<String>,
    pub source: String,
}

/// An ITIL incident.
pub struct Incident {
    pub id: String,
    pub title: String,
    pub description: String,
    pub severity: String,
    pub status: String,
    pub source: String,
    pub skill_name: Option<String>,
    pub workaround: Option<String>,
    pub opened_at: String,
    pub updated_at: String,
    pub resolved_at: Option<String>,
    pub resolution: Option<String>,
}

/// An ITIL change.
pub struct Change {
    pub id: String,
    pub title: String,
    pub description: String,
    pub status: String,
    pub incident_id: Option<String>,
    pub problem_id: Option<String>,
    /// The captured before-state (also the backout plan).
    pub before: Option<String>,
    pub after: Option<String>,
    pub approved_by: Option<String>,
    pub approved_at: Option<String>,
    pub created_at: String,
    pub applied_at: Option<String>,
}

/// An ITIL problem.
pub struct Problem {
    pub id: String,
    pub title: String,
    pub description: String,
    pub status: String,
    pub root_cause: Option<String>,
    pub created_at: String,
    pub updated_at: String,
    pub closed_at: Option<String>,
}

/// A root-cause hypothesis attached to a problem.
pub struct ProblemHypothesis {
    pub id: String,
    pub problem_id: String,
    pub text: String,
    pub status: String,
    pub created_at: String,
    pub updated_at: String,
}

/// One entry of the value catalog.
pub struct ValueEntry {
    pub id: String,
    pub name: String,
    pub description: String,
    pub tradition: String,
}

/// A principle (candidate, active or retired).
pub struct Principle {
    pub id: String,
    pub content: String,
    pub status: String,
    pub source: String,
    pub evidence: Vec<String>,
    pub created_at: String,
    pub updated_at: String,
}

/// A cheap check promoted from stable LLM verdicts.
pub struct DerivedCheck {
    pub id: String,
    pub domain: String,
    pub description: String,
    pub signature: String,
    pub status: String,
    pub created_at: String,
    pub demoted_at: Option<String>,
    pub demote_reason: Option<String>,
}

/// A response event from the daemon.
pub enum Response {
    StreamChunk { token: String },
    StreamDone { conversation_id: String },
    ToolCallEvent { name: String, arguments: String },
    ToolResultEvent { name: String, success: bool, output: String },
    TaskResult { run: TaskRun },
    PermissionRequest { request_id: String, tool: String, detail: String },
    Notice { message: String },
    Error { message: String },
}

/// Responses that end a request/response exchange.
pub fn is_terminal(resp: &Response) -> (r: bool)
    ensures
        r == (resp is StreamDone || resp is TaskResult || resp is Error),
{
    matches!(resp, Response::StreamDone { .. } | Response::TaskResult { .. } | Response::Error { .. })
}

} // verus!
