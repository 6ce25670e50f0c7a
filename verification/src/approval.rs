//! Decision escalation: a change staged `pending_approval` is put to a
//! human or supervisor for a decision over the bus; the verdict resumes the
//! change's lifecycle. This module builds the request and reads the verdict.

use vstd::prelude::*;
use crate::text::{chars_of, clone_opt, opt_str, push_lit, str_eq, string_of};
use crate::types::Change;

verus! {

/// The structured approval request (the body of a structured message).
pub struct ApprovalRequest {
    /// Marks the message as an approval request for the router
    /// (`approval_request`).
    pub kind: String,
    pub change_id: String,
    pub title: String,
    pub description: String,
    /// The captured rollback plan, so the approver can weigh reversibility.
    pub backout: Option<String>,
    /// The incident the change remediates, if any.
    pub incident_id: Option<String>,
    /// Where the verdict should be reported back to.
    pub reply_to: String,
    /// Correlation ref echoed on the verdict.
    pub ref_id: String,
}

/// The approval ref of a change.
pub open spec fn approval_ref(change_id: Seq<char>) -> Seq<char> {
    "APR-"@ + change_id
}

/// The correlation ref assigned to an approval request for `change_id`.
pub fn correlation_ref(change_id: &str) -> (r: String)
    ensures
        r@ == approval_ref(change_id@),
{
    let mut out = chars_of("APR-");
    push_lit(&mut out, change_id);
    string_of(&out)
}

/// Builds an approval request from a staged change: its id, title and
/// description, its before-state as the backout plan, its incident.
pub fn build_request(change: &Change, reply_to: &str) -> (r: ApprovalRequest)
    ensures
        r.kind@ == "approval_request"@,
        r.change_id@ == change.id@,
        r.title@ == change.title@,
        r.description@ == change.description@,
        opt_str(r.backout) == opt_str(change.before),
        opt_str(r.incident_id) == opt_str(change.incident_id),
        r.reply_to@ == reply_to@,
        r.ref_id@ == approval_ref(change.id@),
{
    ApprovalRequest {
        kind: string_of(&chars_of("approval_request")),
        change_id: change.id.clone(),
        title: change.title.clone(),
        description: change.description.clone(),
        backout: clone_opt(&change.before),
        incident_id: clone_opt(&change.incident_id),
        reply_to: string_of(&chars_of(reply_to)),
        ref_id: correlation_ref(change.id.as_str()),
    }
}

/// A supervisor's verdict on an approval request.
pub struct ApprovalVerdict {
    pub change_id: String,
    pub approved: bool,
    pub approved_by: String,
}

/// Whether a change is staged awaiting a decision.
pub fn awaiting_decision(change: &Change) -> (r: bool)
    ensures
        r == (change.status@ == "pending_approval"@),
{
    str_eq(change.status.as_str(), "pending_approval")
}

/// The history note for a decision on a change: an approval is applied, a
/// rejection closes the change unapplied.
pub fn verdict_summary(verdict: &ApprovalVerdict) -> (r: String)
    ensures
        r@ == (if verdict.approved {
            "change approved by "@ + verdict.approved_by@ + " and applied"@
        } else {
            "change rejected by "@ + verdict.approved_by@
        }),
{
    if verdict.approved {
        let mut out = chars_of("change approved by ");
        push_lit(&mut out, verdict.approved_by.as_str());
        push_lit(&mut out, " and applied");
        string_of(&out)
    } else {
        let mut out = chars_of("change rejected by ");
        push_lit(&mut out, verdict.approved_by.as_str());
        string_of(&out)
    }
}

/// A verdict's ref identifies the change: distinct changes get distinct
/// refs, and no approval ref is ever an escalation ref.
pub proof fn law_approval_ref_identifies_change(a: Seq<char>, b: Seq<char>, p: Seq<char>)
    ensures
        approval_ref(a) == approval_ref(b) ==> a == b,
        approval_ref(a) != crate::escalation::escalation_ref(p),
{
    reveal_strlit("APR-");
    reveal_strlit("ESC-");
    if approval_ref(a) == approval_ref(b) {
        assert(approval_ref(a).subrange(4, approval_ref(a).len() as int) =~= a);
        assert(approval_ref(b).subrange(4, approval_ref(b).len() as int) =~= b);
    }
    assert(approval_ref(a)[0] == 'A');
    assert(crate::escalation::escalation_ref(p)[0] == 'E');
}

} // verus!
