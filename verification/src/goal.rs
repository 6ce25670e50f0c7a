//! Goal lifecycle: "achieve a state by a date".
//!
//! `proposed -> active -> achieved | failed | abandoned`. Activation is a
//! deliberate transition from `proposed` only; abandoning is allowed from any
//! non-terminal state; evaluation of an active goal achieves it when every
//! criterion holds, fails it once the deadline has passed, and otherwise
//! leaves it active. The store round-trips are the caller's.

use vstd::prelude::*;
use crate::control_loop::Rag;
use crate::text::{ascii_lower, chars_of, debug_quoted, debug_str, eq_lit, keyword, keyword_exec, lemma_keyword_of_ascii_word, lemma_keyword_of_lower_word, push_lit, string_of};

verus! {

/// The error for a status word that names no status.
pub open spec fn unknown_status_message(s: Seq<char>) -> Seq<char> {
    "unknown goal status: "@ + debug_quoted(keyword(s))
}

/// A goal's lifecycle state.
#[derive(Debug, Clone, Copy, PartialEq, Eq, Structural)]
pub enum GoalStatus {
    Proposed,
    Active,
    Achieved,
    Failed,
    Abandoned,
}

/// The status spelled by a normalized word.
pub open spec fn status_of(k: Seq<char>) -> Option<GoalStatus> {
    if k == "proposed"@ {
        Some(GoalStatus::Proposed)
    } else if k == "active"@ {
        Some(GoalStatus::Active)
    } else if k == "achieved"@ {
        Some(GoalStatus::Achieved)
    } else if k == "failed"@ {
        Some(GoalStatus::Failed)
    } else if k == "abandoned"@ {
        Some(GoalStatus::Abandoned)
    } else {
        None
    }
}

impl GoalStatus {
    pub open spec fn as_str_spec(self) -> Seq<char> {
        match self {
            GoalStatus::Proposed => "proposed"@,
            GoalStatus::Active => "active"@,
            GoalStatus::Achieved => "achieved"@,
            GoalStatus::Failed => "failed"@,
            GoalStatus::Abandoned => "abandoned"@,
        }
    }

    /// The stored spelling.
    pub fn as_str(&self) -> (r: &'static str)
        ensures
            r@ == self.as_str_spec(),
    {
        match self {
            GoalStatus::Proposed => "proposed",
            GoalStatus::Active => "active",
            GoalStatus::Achieved => "achieved",
            GoalStatus::Failed => "failed",
            GoalStatus::Abandoned => "abandoned",
        }
    }

    /// Parses a status (trimmed, case-insensitive); an unknown word is an
    /// error naming it.
    pub fn parse(s: &str) -> (r: Result<GoalStatus, String>)
        ensures
            match status_of(keyword(s@)) {
                Some(st) => r == Ok::<GoalStatus, String>(st),
                None => r matches Err(e) && e@ == unknown_status_message(s@),
            },
    {
        let k = keyword_exec(s);
        if eq_lit(&k, "proposed") {
            Ok(GoalStatus::Proposed)
        } else if eq_lit(&k, "active") {
            Ok(GoalStatus::Active)
        } else if eq_lit(&k, "achieved") {
            Ok(GoalStatus::Achieved)
        } else if eq_lit(&k, "failed") {
            Ok(GoalStatus::Failed)
        } else if eq_lit(&k, "abandoned") {
            Ok(GoalStatus::Abandoned)
        } else {
            let ks = string_of(&k);
            let q = debug_str(ks.as_str());
            let mut msg = chars_of("unknown goal status: ");
            push_lit(&mut msg, q.as_str());
            Err(string_of(&msg))
        }
    }

    pub open spec fn is_terminal_spec(self) -> bool {
        self == GoalStatus::Achieved || self == GoalStatus::Failed || self == GoalStatus::Abandoned
    }

    /// Achieved, failed and abandoned are terminal.
    pub fn is_terminal(&self) -> (r: bool)
        ensures
            r == self.is_terminal_spec(),
    {
        matches!(self, GoalStatus::Achieved | GoalStatus::Failed | GoalStatus::Abandoned)
    }
}

/// The result of evaluating a goal.
#[derive(Debug, Clone, Copy, PartialEq, Eq, Structural)]
pub enum GoalOutcome {
    /// Not every criterion holds yet, and the deadline hasn't passed.
    StillActive,
    /// Every criterion holds: the goal becomes `achieved` (green).
    Achieved,
    /// The deadline passed with criteria unmet: the goal becomes `failed` (red).
    Failed,
    /// The goal isn't `active`: nothing to evaluate, left untouched.
    NotActive,
}

/// Why a lifecycle step was refused.
#[derive(Debug)]
pub enum GoalError {
    /// The stored status is not a known status word (carries the message).
    UnknownStatus(String),
    /// Only a proposed goal can be activated (carries the current status).
    NotProposed(String),
    /// A terminal goal cannot be abandoned (carries the current status).
    AlreadyTerminal(String),
    /// The deadline is not RFC 3339 (carries the deadline).
    BadDeadline(String),
}

/// `proposed -> active` (green). Any other starting state is refused.
pub fn activate_transition(status: &str) -> (r: Result<(GoalStatus, Rag), GoalError>)
    ensures
        match status_of(keyword(status@)) {
            None => r matches Err(GoalError::UnknownStatus(k)) && k@ == unknown_status_message(status@),
            Some(GoalStatus::Proposed) => r matches Ok((s, g)) && s == GoalStatus::Active && g
                == Rag::Green,
            Some(_) => r matches Err(GoalError::NotProposed(k)) && k@ == status@,
        },
        status_of(keyword(status@)) matches Some(st) ==> match r {
            Ok((s, _)) => s == step_status(st, GoalEvent::Activate),
            Err(_) => st == step_status(st, GoalEvent::Activate),
        },
{
    match GoalStatus::parse(status) {
        Err(k) => Err(GoalError::UnknownStatus(k)),
        Ok(GoalStatus::Proposed) => Ok((GoalStatus::Active, Rag::Green)),
        Ok(_) => Err(GoalError::NotProposed(string_of(&crate::text::chars_of(status)))),
    }
}

/// Any non-terminal state -> `abandoned` (red). A terminal goal is refused.
pub fn abandon_transition(status: &str) -> (r: Result<(GoalStatus, Rag), GoalError>)
    ensures
        match status_of(keyword(status@)) {
            None => r matches Err(GoalError::UnknownStatus(k)) && k@ == unknown_status_message(status@),
            Some(st) => if st.is_terminal_spec() {
                r matches Err(GoalError::AlreadyTerminal(k)) && k@ == status@
            } else {
                r matches Ok((s, g)) && s == GoalStatus::Abandoned && g == Rag::Red
            },
        },
        status_of(keyword(status@)) matches Some(st) ==> match r {
            Ok((s, _)) => s == step_status(st, GoalEvent::Abandon),
            Err(_) => st == step_status(st, GoalEvent::Abandon),
        },
{
    match GoalStatus::parse(status) {
        Err(k) => Err(GoalError::UnknownStatus(k)),
        Ok(st) => {
            if st.is_terminal() {
                Err(GoalError::AlreadyTerminal(string_of(&crate::text::chars_of(status))))
            } else {
                Ok((GoalStatus::Abandoned, Rag::Red))
            }
        },
    }
}

/// Name for the instant an RFC 3339 timestamp denotes, as (Unix seconds,
/// sub-second nanoseconds); `None` when the text is not RFC 3339.
pub uninterp spec fn rfc3339_instant(s: Seq<char>) -> Option<(int, int)>;

/// `chrono::DateTime::parse_from_rfc3339`, read back as the instant's
/// `timestamp()` and `timestamp_subsec_nanos()`. The result is named
/// `rfc3339_instant`; the RFC 3339 grammar itself is not restated.
#[verifier::external_body]
pub(crate) fn parse_rfc3339(s: &str) -> (r: Option<(i64, u32)>)
    ensures
        match r {
            Some((secs, nanos)) => rfc3339_instant(s@) == Some((secs as int, nanos as int)),
            None => rfc3339_instant(s@) is None,
        },
{
    match chrono::DateTime::parse_from_rfc3339(s) {
        Ok(d) => Some((d.timestamp(), d.timestamp_subsec_nanos())),
        Err(_) => None,
    }
}

/// `a` is at or after `b` (instants as (seconds, nanoseconds)).
pub open spec fn at_or_after(a: (int, int), b: (int, int)) -> bool {
    a.0 > b.0 || (a.0 == b.0 && a.1 >= b.1)
}

/// The evaluation of a goal with stored `status`, whether every success
/// criterion currently holds, its `deadline` and the current instant `now`.
pub open spec fn evaluation_spec(
    status: Seq<char>,
    all_hold: bool,
    deadline: Seq<char>,
    now: (int, int),
) -> Option<Option<GoalOutcome>> {
    match status_of(keyword(status)) {
        None => None,
        Some(st) => if st != GoalStatus::Active {
            Some(Some(GoalOutcome::NotActive))
        } else if all_hold {
            Some(Some(GoalOutcome::Achieved))
        } else {
            match rfc3339_instant(deadline) {
                None => Some(None),
                Some(d) => if at_or_after(now, d) {
                    Some(Some(GoalOutcome::Failed))
                } else {
                    Some(Some(GoalOutcome::StillActive))
                },
            }
        },
    }
}

/// Done-detection for a goal: not active -> nothing; every criterion holds
/// -> achieved (even past the deadline); else at/after the deadline ->
/// failed; else still active. `now` is caller-supplied (seconds, nanos).
pub fn evaluate_goal_decision(
    status: &str,
    all_hold: bool,
    deadline: &str,
    now_secs: i64,
    now_nanos: u32,
) -> (r: Result<GoalOutcome, GoalError>)
    ensures
        match evaluation_spec(status@, all_hold, deadline@, (now_secs as int, now_nanos as int)) {
            None => r matches Err(GoalError::UnknownStatus(k)) && k@ == unknown_status_message(status@),
            Some(None) => r matches Err(GoalError::BadDeadline(d)) && d@ == deadline@,
            Some(Some(o)) => r matches Ok(x) && x == o,
        },
{
    let st = match GoalStatus::parse(status) {
        Err(k) => {
            return Err(GoalError::UnknownStatus(k));
        },
        Ok(st) => st,
    };
    if st != GoalStatus::Active {
        return Ok(GoalOutcome::NotActive);
    }
    if all_hold {
        return Ok(GoalOutcome::Achieved);
    }
    match parse_rfc3339(deadline) {
        None => Err(GoalError::BadDeadline(string_of(&crate::text::chars_of(deadline)))),
        Some((ds, dn)) => {
            if now_secs > ds || (now_secs == ds && now_nanos >= dn) {
                Ok(GoalOutcome::Failed)
            } else {
                Ok(GoalOutcome::StillActive)
            }
        },
    }
}

/// The status and RAG a goal is stored with after an evaluation, if the
/// evaluation changes it.
pub open spec fn outcome_transition(o: GoalOutcome) -> Option<(GoalStatus, Rag)> {
    match o {
        GoalOutcome::Achieved => Some((GoalStatus::Achieved, Rag::Green)),
        GoalOutcome::Failed => Some((GoalStatus::Failed, Rag::Red)),
        _ => None,
    }
}

/// The store update an evaluation outcome calls for.
pub fn outcome_update(o: GoalOutcome) -> (r: Option<(GoalStatus, Rag)>)
    ensures
        r == outcome_transition(o),
{
    match o {
        GoalOutcome::Achieved => Some((GoalStatus::Achieved, Rag::Green)),
        GoalOutcome::Failed => Some((GoalStatus::Failed, Rag::Red)),
        _ => None,
    }
}


impl GoalError {
    pub open spec fn message_spec(self, id: Seq<char>) -> Seq<char> {
        match self {
            GoalError::UnknownStatus(m) => m@,
            GoalError::NotProposed(s) => "goal "@ + id + " is "@ + s@
                + " — only a proposed goal can be activated"@,
            GoalError::AlreadyTerminal(s) => "goal "@ + id + " is already "@ + s@
                + " — nothing to abandon"@,
            GoalError::BadDeadline(d) => "goal "@ + id + " has an unparseable deadline: "@
                + debug_quoted(d@),
        }
    }

    /// The refusal's text for goal `id`.
    pub fn message(&self, id: &str) -> (r: String)
        ensures
            r@ == self.message_spec(id@),
    {
        match self {
            GoalError::UnknownStatus(m) => m.clone(),
            GoalError::NotProposed(s) => {
                let mut out = chars_of("goal ");
                push_lit(&mut out, id);
                push_lit(&mut out, " is ");
                push_lit(&mut out, s.as_str());
                push_lit(&mut out, " — only a proposed goal can be activated");
                string_of(&out)
            },
            GoalError::AlreadyTerminal(s) => {
                let mut out = chars_of("goal ");
                push_lit(&mut out, id);
                push_lit(&mut out, " is already ");
                push_lit(&mut out, s.as_str());
                push_lit(&mut out, " — nothing to abandon");
                string_of(&out)
            },
            GoalError::BadDeadline(d) => {
                let q = debug_str(d.as_str());
                let mut out = chars_of("goal ");
                push_lit(&mut out, id);
                push_lit(&mut out, " has an unparseable deadline: ");
                push_lit(&mut out, q.as_str());
                string_of(&out)
            },
        }
    }
}

/// A lifecycle event.
pub enum GoalEvent {
    /// `activate`.
    Activate,
    /// `abandon`.
    Abandon,
    /// An evaluation: whether every criterion held, and whether the
    /// deadline had passed.
    Evaluate { all_hold: bool, past_deadline: bool },
}

/// The status after an event; a refused event leaves the status as it was.
pub open spec fn step_status(st: GoalStatus, ev: GoalEvent) -> GoalStatus {
    match ev {
        GoalEvent::Activate => if st == GoalStatus::Proposed {
            GoalStatus::Active
        } else {
            st
        },
        GoalEvent::Abandon => if st.is_terminal_spec() {
            st
        } else {
            GoalStatus::Abandoned
        },
        GoalEvent::Evaluate { all_hold, past_deadline } => if st != GoalStatus::Active {
            st
        } else if all_hold {
            GoalStatus::Achieved
        } else if past_deadline {
            GoalStatus::Failed
        } else {
            st
        },
    }
}

/// The status after a sequence of events.
pub open spec fn run_status(st: GoalStatus, evs: Seq<GoalEvent>) -> GoalStatus
    decreases evs.len(),
{
    if evs.len() == 0 {
        st
    } else {
        step_status(run_status(st, evs.drop_last()), evs.last())
    }
}

/// Terminal states are final: whatever events follow, an achieved, failed
/// or abandoned goal keeps its status.
pub proof fn law_terminal_is_final(st: GoalStatus, evs: Seq<GoalEvent>)
    requires
        st.is_terminal_spec(),
    ensures
        run_status(st, evs) == st,
    decreases evs.len(),
{
    if evs.len() > 0 {
        law_terminal_is_final(st, evs.drop_last());
    }
}

/// Only a proposed goal can become active, achieving every criterion wins
/// over a passed deadline, and an evaluation never abandons a goal (only an
/// explicit abandon does).
pub proof fn law_lifecycle_steps(st: GoalStatus, past_deadline: bool, all_hold: bool)
    ensures
        step_status(st, GoalEvent::Evaluate { all_hold, past_deadline }) == GoalStatus::Abandoned
            ==> st == GoalStatus::Abandoned,
        (step_status(st, GoalEvent::Activate) == GoalStatus::Active && st != GoalStatus::Active)
            <==> st == GoalStatus::Proposed,
        st == GoalStatus::Active ==> step_status(
            st,
            GoalEvent::Evaluate { all_hold: true, past_deadline },
        ) == GoalStatus::Achieved,
        st == GoalStatus::Active ==> step_status(
            st,
            GoalEvent::Evaluate { all_hold: false, past_deadline: true },
        ) == GoalStatus::Failed,
{
}

/// Every status reads back as itself: its stored spelling parses to it.
pub proof fn law_status_round_trip(st: GoalStatus)
    ensures
        status_of(keyword(st.as_str_spec())) == Some(st),
{
    reveal_strlit("proposed");
    reveal_strlit("active");
    reveal_strlit("achieved");
    reveal_strlit("failed");
    reveal_strlit("abandoned");
    lemma_keyword_of_lower_word(st.as_str_spec());
}

/// Parsing ignores ASCII case: any spelling of a status name in upper- or
/// lowercase letters reads back as that status.
pub proof fn law_status_parse_ignores_case(st: GoalStatus, w: Seq<char>)
    requires
        w.len() > 0,
        forall|i: int|
            0 <= i < w.len() ==> ('a' <= #[trigger] w[i] && w[i] <= 'z') || ('A' <= w[i] && w[i]
                <= 'Z') || w[i] == '_',
        w.map_values(|c: char| ascii_lower(c)) == st.as_str_spec(),
    ensures
        status_of(keyword(w)) == Some(st),
{
    reveal_strlit("proposed");
    reveal_strlit("active");
    reveal_strlit("achieved");
    reveal_strlit("failed");
    reveal_strlit("abandoned");
    lemma_keyword_of_lower_word(st.as_str_spec());
    lemma_keyword_of_ascii_word(w);
}

} // verus!
