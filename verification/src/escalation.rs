//! The escalation bridge: when problem management decides a problem needs a
//! code or config change, it is escalated to the development plane as a
//! structured bus message asking for a BUG or FEAT ticket; the reply is
//! correlated by the escalation ref. This module builds the payload.

use vstd::prelude::*;
use crate::text::{chars_of, debug_quoted, debug_str, eq_lit, keyword, keyword_exec, push_lit, string_of};

verus! {

/// What kind of ticket an escalation asks for.
#[derive(Debug, Clone, Copy, PartialEq, Eq, Structural)]
pub enum EscalationKind {
    Bug,
    Feat,
}

/// The kind named by the normalized word `k`.
pub open spec fn escalation_kind_of(k: Seq<char>) -> Option<EscalationKind> {
    if k == "bug"@ {
        Some(EscalationKind::Bug)
    } else if k == "feat"@ || k == "feature"@ {
        Some(EscalationKind::Feat)
    } else {
        None
    }
}

impl EscalationKind {
    /// Parses `bug` / `feat` / `feature` (trimmed, case-insensitive); an
    /// unknown word is an error naming it.
    pub fn parse(s: &str) -> (r: Result<EscalationKind, String>)
        ensures
            match escalation_kind_of(keyword(s@)) {
                Some(k) => r == Ok::<EscalationKind, String>(k),
                None => r matches Err(e) && e@ == "unknown escalation kind "@ + debug_quoted(
                    keyword(s@),
                ) + " (use bug|feat)"@,
            },
    {
        let k = keyword_exec(s);
        if eq_lit(&k, "bug") {
            Ok(EscalationKind::Bug)
        } else if eq_lit(&k, "feat") || eq_lit(&k, "feature") {
            Ok(EscalationKind::Feat)
        } else {
            let ks = string_of(&k);
            let q = debug_str(ks.as_str());
            let mut msg = chars_of("unknown escalation kind ");
            push_lit(&mut msg, q.as_str());
            push_lit(&mut msg, " (use bug|feat)");
            Err(string_of(&msg))
        }
    }

    pub open spec fn as_str_spec(self) -> Seq<char> {
        match self {
            EscalationKind::Bug => "bug"@,
            EscalationKind::Feat => "feat"@,
        }
    }

    /// The ticket type name (`bug` / `feat`).
    pub fn as_str(&self) -> (r: &'static str)
        ensures
            r@ == self.as_str_spec(),
    {
        match self {
            EscalationKind::Bug => "bug",
            EscalationKind::Feat => "feat",
        }
    }
}

/// The structured escalation payload (the body of a structured message).
pub struct Escalation {
    /// Marks the message as an escalation for the router (`escalation`).
    pub kind: String,
    /// The ticket type requested.
    pub ticket: String,
    /// The originating problem id (for the verify-then-close loop).
    pub problem_id: String,
    pub title: String,
    pub description: String,
    /// Where the created ticket id should be reported back to.
    pub reply_to: String,
    /// Correlation ref echoed on the reply.
    pub ref_id: String,
}

/// The escalation ref of a problem.
pub open spec fn escalation_ref(problem_id: Seq<char>) -> Seq<char> {
    "ESC-"@ + problem_id
}

/// The correlation ref assigned to an escalation of `problem_id`.
pub fn correlation_ref(problem_id: &str) -> (r: String)
    ensures
        r@ == escalation_ref(problem_id@),
{
    let mut out = chars_of("ESC-");
    push_lit(&mut out, problem_id);
    string_of(&out)
}

/// Builds the escalation payload for a problem.
pub fn build(problem_id: &str, title: &str, description: &str, kind: EscalationKind, reply_to: &str) -> (e:
    Escalation)
    ensures
        e.kind@ == "escalation"@,
        e.ticket@ == kind.as_str_spec(),
        e.problem_id@ == problem_id@,
        e.title@ == title@,
        e.description@ == description@,
        e.reply_to@ == reply_to@,
        e.ref_id@ == escalation_ref(problem_id@),
{
    Escalation {
        kind: string_of(&chars_of("escalation")),
        ticket: string_of(&chars_of(kind.as_str())),
        problem_id: string_of(&chars_of(problem_id)),
        title: string_of(&chars_of(title)),
        description: string_of(&chars_of(description)),
        reply_to: string_of(&chars_of(reply_to)),
        ref_id: correlation_ref(problem_id),
    }
}

/// A reply's ref identifies the escalated problem: distinct problems get
/// distinct refs, and the problem id is the ref after its `ESC-` prefix.
pub proof fn law_escalation_ref_identifies_problem(a: Seq<char>, b: Seq<char>)
    ensures
        escalation_ref(a) == escalation_ref(b) ==> a == b,
        escalation_ref(a).subrange(4, escalation_ref(a).len() as int) == a,
{
    reveal_strlit("ESC-");
    assert(escalation_ref(a).subrange(4, escalation_ref(a).len() as int) =~= a);
    if escalation_ref(a) == escalation_ref(b) {
        assert(escalation_ref(b).subrange(4, escalation_ref(b).len() as int) =~= b);
    }
}

} // verus!
