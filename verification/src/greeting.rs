//! Standalone parking + login greeting: a one-line health summary plus the
//! actionable items (changes awaiting approval, problems needing a decision,
//! parked intent escalations), and the intent-plane RAG counts.

use vstd::prelude::*;
use crate::control_loop::PlanningEscalation;
use crate::text::{chars_of, dec_int, eq_lit, fmt_i64, push_all, push_lit, string_of};
use crate::types::{Change, Incident, Problem};

verus! {

/// One actionable item shown at login.
pub struct ActionItem {
    /// `change`, `problem` or `intent_escalation`.
    pub kind: String,
    pub id: String,
    pub title: String,
}

/// The login greeting: health line + actionable items.
pub struct Greeting {
    pub mode: String,
    pub open_incidents: i64,
    pub open_problems: i64,
    /// Changes staged awaiting approval.
    pub pending_changes: Vec<ActionItem>,
    /// Open problems needing a human decision.
    pub decision_problems: Vec<ActionItem>,
    /// Endangered goals escalated by the planning loop and parked for a decision.
    pub intent_escalations: Vec<ActionItem>,
}

impl Greeting {
    pub open spec fn has_actions_spec(self) -> bool {
        self.pending_changes@.len() > 0 || self.decision_problems@.len() > 0
            || self.intent_escalations@.len() > 0
    }

    /// Whether anything needs the operator's attention.
    pub fn has_actions(&self) -> (r: bool)
        ensures
            r == self.has_actions_spec(),
    {
        self.pending_changes.len() > 0 || self.decision_problems.len() > 0
            || self.intent_escalations.len() > 0
    }

    pub open spec fn health_line_spec(self) -> Seq<char> {
        "mode="@ + self.mode@ + " | "@ + dec_int(self.open_incidents as int)
            + " open incident(s), "@ + dec_int(self.open_problems as int) + " open problem(s)"@
    }

    /// `mode=<mode> | <n> open incident(s), <m> open problem(s)`.
    pub fn health_line(&self) -> (r: String)
        ensures
            r@ == self.health_line_spec(),
    {
        let mut out = chars_of("mode=");
        push_lit(&mut out, self.mode.as_str());
        push_lit(&mut out, " | ");
        push_all(&mut out, &fmt_i64(self.open_incidents));
        push_lit(&mut out, " open incident(s), ");
        push_all(&mut out, &fmt_i64(self.open_problems));
        push_lit(&mut out, " open problem(s)");
        string_of(&out)
    }
}

/// Incident statuses that count as open.
pub open spec fn is_open_incident_spec(status: Seq<char>) -> bool {
    status == "open"@ || status == "investigating"@ || status == "blocked"@
}

/// Whether an incident status counts as open.
pub fn is_open_incident(status: &str) -> (r: bool)
    ensures
        r == is_open_incident_spec(status@),
{
    let s = chars_of(status);
    eq_lit(&s, "open") || eq_lit(&s, "investigating") || eq_lit(&s, "blocked")
}

/// The number of open incidents among `incs`.
pub open spec fn count_open(incs: Seq<Incident>) -> nat
    decreases incs.len(),
{
    if incs.len() == 0 {
        0
    } else {
        count_open(incs.drop_last()) + if is_open_incident_spec(incs.last().status@) {
            1nat
        } else {
            0nat
        }
    }
}

pub open spec fn item_view(a: ActionItem) -> (Seq<char>, Seq<char>, Seq<char>) {
    (a.kind@, a.id@, a.title@)
}

/// The changes staged awaiting approval, as action items, in order.
pub open spec fn change_items(changes: Seq<Change>) -> Seq<(Seq<char>, Seq<char>, Seq<char>)>
    decreases changes.len(),
{
    if changes.len() == 0 {
        Seq::empty()
    } else {
        change_items(changes.drop_last()) + (if changes.last().status@ == "pending_approval"@ {
            seq![("change"@, changes.last().id@, changes.last().title@)]
        } else {
            Seq::empty()
        })
    }
}

/// The open problems, as action items, in order.
pub open spec fn problem_items(problems: Seq<Problem>) -> Seq<(Seq<char>, Seq<char>, Seq<char>)>
    decreases problems.len(),
{
    if problems.len() == 0 {
        Seq::empty()
    } else {
        problem_items(problems.drop_last()) + (if problems.last().status@ == "open"@ {
            seq![("problem"@, problems.last().id@, problems.last().title@)]
        } else {
            Seq::empty()
        })
    }
}

fn item(kind: &str, id: &String, title: &String) -> (r: ActionItem)
    ensures
        item_view(r) == (kind@, id@, title@),
{
    ActionItem { kind: string_of(&chars_of(kind)), id: id.clone(), title: title.clone() }
}

proof fn lemma_problem_items_len(problems: Seq<Problem>)
    ensures
        problem_items(problems).len() <= problems.len(),
    decreases problems.len(),
{
    if problems.len() > 0 {
        lemma_problem_items_len(problems.drop_last());
    }
}

/// Builds the greeting for the effective `mode` from the stored incidents,
/// changes and problems and the parked intent escalations: the open
/// incidents and open problems counted, the changes awaiting approval and
/// the open problems listed, every parked escalation listed.
pub fn build(
    mode: &str,
    incidents: &[Incident],
    changes: &[Change],
    problems: &[Problem],
    escalations: &[PlanningEscalation],
) -> (g: Greeting)
    requires
        incidents@.len() < 0x8000_0000_0000_0000,
        problems@.len() < 0x8000_0000_0000_0000,
    ensures
        g.mode@ == mode@,
        g.open_incidents == count_open(incidents@),
        g.open_problems == problem_items(problems@).len(),
        g.pending_changes@.map_values(|a: ActionItem| item_view(a)) == change_items(changes@),
        g.decision_problems@.map_values(|a: ActionItem| item_view(a)) == problem_items(problems@),
        g.intent_escalations@.map_values(|a: ActionItem| item_view(a)) == escalations@.map_values(
            |e: PlanningEscalation| ("intent_escalation"@, e.goal_id@, e.reason@),
        ),
{
    let mut open: i64 = 0;
    let mut i: usize = 0;
    assert(incidents@.subrange(0, 0) =~= Seq::<Incident>::empty());
    while i < incidents.len()
        invariant
            i <= incidents@.len(),
            incidents@.len() < 0x8000_0000_0000_0000,
            open == count_open(incidents@.subrange(0, i as int)),
            open <= i,
        decreases incidents.len() - i,
    {
        proof {
            assert(incidents@.subrange(0, i + 1).drop_last() =~= incidents@.subrange(0, i as int));
        }
        if is_open_incident(incidents[i].status.as_str()) {
            open = open + 1;
        }
        i = i + 1;
    }
    assert(incidents@.subrange(0, incidents@.len() as int) =~= incidents@);
    let mut pending_changes: Vec<ActionItem> = Vec::new();
    let mut k: usize = 0;
    while k < changes.len()
        invariant
            k <= changes@.len(),
            pending_changes@.map_values(|a: ActionItem| item_view(a)) == change_items(
                changes@.subrange(0, k as int),
            ),
        decreases changes.len() - k,
    {
        assert(changes@.subrange(0, k + 1).drop_last() =~= changes@.subrange(0, k as int));
        if crate::text::str_eq(changes[k].status.as_str(), "pending_approval") {
            let it = item("change", &changes[k].id, &changes[k].title);
            let ghost o = pending_changes@.map_values(|a: ActionItem| item_view(a));
            pending_changes.push(it);
            assert(pending_changes@.map_values(|a: ActionItem| item_view(a)) =~= o.push(item_view(it)));
        }
        k = k + 1;
    }
    assert(changes@.subrange(0, changes@.len() as int) =~= changes@);
    let mut decision_problems: Vec<ActionItem> = Vec::new();
    let mut k: usize = 0;
    while k < problems.len()
        invariant
            k <= problems@.len(),
            decision_problems@.map_values(|a: ActionItem| item_view(a)) == problem_items(
                problems@.subrange(0, k as int),
            ),
        decreases problems.len() - k,
    {
        assert(problems@.subrange(0, k + 1).drop_last() =~= problems@.subrange(0, k as int));
        if crate::text::str_eq(problems[k].status.as_str(), "open") {
            let it = item("problem", &problems[k].id, &problems[k].title);
            let ghost o = decision_problems@.map_values(|a: ActionItem| item_view(a));
            decision_problems.push(it);
            assert(decision_problems@.map_values(|a: ActionItem| item_view(a)) =~= o.push(item_view(it)));
        }
        k = k + 1;
    }
    assert(problems@.subrange(0, problems@.len() as int) =~= problems@);
    let mut intent_escalations: Vec<ActionItem> = Vec::new();
    let mut k: usize = 0;
    while k < escalations.len()
        invariant
            k <= escalations@.len(),
            intent_escalations@.map_values(|a: ActionItem| item_view(a)) == escalations@.subrange(
                0,
                k as int,
            ).map_values(|e: PlanningEscalation| ("intent_escalation"@, e.goal_id@, e.reason@)),
        decreases escalations.len() - k,
    {
        let it = item("intent_escalation", &escalations[k].goal_id, &escalations[k].reason);
        let ghost o = intent_escalations@.map_values(|a: ActionItem| item_view(a));
        intent_escalations.push(it);
        assert(intent_escalations@.map_values(|a: ActionItem| item_view(a)) =~= o.push(item_view(it)));
        assert(escalations@.subrange(0, k + 1).map_values(
            |e: PlanningEscalation| ("intent_escalation"@, e.goal_id@, e.reason@),
        ) =~= escalations@.subrange(0, k as int).map_values(
            |e: PlanningEscalation| ("intent_escalation"@, e.goal_id@, e.reason@),
        ).push(("intent_escalation"@, escalations@[k as int].goal_id@, escalations@[k as int].reason@)));
        k = k + 1;
    }
    assert(escalations@.subrange(0, escalations@.len() as int) =~= escalations@);
    proof {
        lemma_problem_items_len(problems@);
    }
    let np: usize = decision_problems.len();
    assert(np == problem_items(problems@).len()) by {
        assert(decision_problems@.map_values(|a: ActionItem| item_view(a)).len() == decision_problems@.len());
    }
    Greeting {
        mode: string_of(&chars_of(mode)),
        open_incidents: open,
        open_problems: np as i64,
        pending_changes,
        decision_problems,
        intent_escalations,
    }
}

/// Whether a parked change is stale on bus recovery: its incident has
/// resolved or closed on its own.
pub fn parked_change_is_stale(incident_status: Option<&str>) -> (r: bool)
    ensures
        r == (incident_status matches Some(s) && (s@ == "resolved"@ || s@ == "closed"@)),
{
    match incident_status {
        Some(s) => crate::text::str_eq(s, "resolved") || crate::text::str_eq(s, "closed"),
        None => false,
    }
}

/// RAG counts across every stored goal and objective.
#[derive(Debug, Clone, Copy, PartialEq, Eq, Structural)]
pub struct IntentRagSummary {
    pub goals_green: usize,
    pub goals_amber: usize,
    pub goals_red: usize,
    pub objectives_green: usize,
    pub objectives_amber: usize,
    pub objectives_red: usize,
}

/// How many of `rags` spell `which`.
pub open spec fn count_rag(rags: Seq<String>, which: Seq<char>) -> nat
    decreases rags.len(),
{
    if rags.len() == 0 {
        0
    } else {
        count_rag(rags.drop_last(), which) + if rags.last()@ == which {
            1nat
        } else {
            0nat
        }
    }
}

proof fn lemma_count_rag_le(rags: Seq<String>, which: Seq<char>)
    ensures
        count_rag(rags, which) <= rags.len(),
    decreases rags.len(),
{
    if rags.len() > 0 {
        lemma_count_rag_le(rags.drop_last(), which);
    }
}

/// Counts one RAG value into the matching counter; other spellings are
/// ignored.
pub fn bump(green: &mut usize, amber: &mut usize, red: &mut usize, rag: &str)
    requires
        *old(green) < usize::MAX,
        *old(amber) < usize::MAX,
        *old(red) < usize::MAX,
    ensures
        *final(green) == *old(green) + if rag@ == "green"@ {
            1int
        } else {
            0int
        },
        *final(amber) == *old(amber) + if rag@ == "amber"@ {
            1int
        } else {
            0int
        },
        *final(red) == *old(red) + if rag@ == "red"@ {
            1int
        } else {
            0int
        },
{
    proof {
        reveal_strlit("green");
        reveal_strlit("amber");
        reveal_strlit("red");
        assert("green"@[0] != "amber"@[0]);
        assert("green"@.len() != "red"@.len());
        assert("amber"@.len() != "red"@.len());
    }
    let r = chars_of(rag);
    if eq_lit(&r, "green") {
        *green = *green + 1;
    } else if eq_lit(&r, "amber") {
        *amber = *amber + 1;
    } else if eq_lit(&r, "red") {
        *red = *red + 1;
    }
}

fn count_rags(rags: &[String]) -> (r: (usize, usize, usize))
    ensures
        r.0 == count_rag(rags@, "green"@),
        r.1 == count_rag(rags@, "amber"@),
        r.2 == count_rag(rags@, "red"@),
{
    let mut g: usize = 0;
    let mut a: usize = 0;
    let mut rd: usize = 0;
    let mut i: usize = 0;
    assert(rags@.subrange(0, 0) =~= Seq::<String>::empty());
    while i < rags.len()
        invariant
            i <= rags.len(),
            g == count_rag(rags@.subrange(0, i as int), "green"@),
            a == count_rag(rags@.subrange(0, i as int), "amber"@),
            rd == count_rag(rags@.subrange(0, i as int), "red"@),
        decreases rags.len() - i,
    {
        proof {
            assert(rags@.subrange(0, i + 1).drop_last() =~= rags@.subrange(0, i as int));
            lemma_count_rag_le(rags@.subrange(0, i as int), "green"@);
            lemma_count_rag_le(rags@.subrange(0, i as int), "amber"@);
            lemma_count_rag_le(rags@.subrange(0, i as int), "red"@);
        }
        bump(&mut g, &mut a, &mut rd, rags[i].as_str());
        i = i + 1;
    }
    assert(rags@.subrange(0, rags.len() as int) =~= rags@);
    (g, a, rd)
}

/// RAG counts of the stored goals and objectives, given their RAG values.
pub fn intent_rag_summary(goal_rags: &[String], objective_rags: &[String]) -> (s: IntentRagSummary)
    ensures
        s.goals_green == count_rag(goal_rags@, "green"@),
        s.goals_amber == count_rag(goal_rags@, "amber"@),
        s.goals_red == count_rag(goal_rags@, "red"@),
        s.objectives_green == count_rag(objective_rags@, "green"@),
        s.objectives_amber == count_rag(objective_rags@, "amber"@),
        s.objectives_red == count_rag(objective_rags@, "red"@),
{
    let (gg, ga, gr) = count_rags(goal_rags);
    let (og, oa, or) = count_rags(objective_rags);
    IntentRagSummary {
        goals_green: gg,
        goals_amber: ga,
        goals_red: gr,
        objectives_green: og,
        objectives_amber: oa,
        objectives_red: or,
    }
}

/// The greeting counts as open exactly the incidents whose status is
/// `open`, `investigating` or `blocked`: its count is the number of such
/// incidents, whatever the others hold.
pub proof fn law_open_incidents_counted(incs: Seq<Incident>)
    ensures
        count_open(incs) == incs.filter(
            |i: Incident| i.status@ == "open"@ || i.status@ == "investigating"@ || i.status@ == "blocked"@,
        ).len(),
    decreases incs.len(),
{
    if incs.len() > 0 {
        law_open_incidents_counted(incs.drop_last());
        let f = |i: Incident| i.status@ == "open"@ || i.status@ == "investigating"@ || i.status@ == "blocked"@;
        assert(is_open_incident_spec(incs.last().status@) == f(incs.last()));
        reveal(Seq::filter);
        assert(incs.filter(f).len() == incs.drop_last().filter(f).len() + if f(incs.last()) {
            1int
        } else {
            0int
        });
    }
}

/// The greeting lists exactly the problems whose status is `open`, in
/// order, each as a `problem` item with its id and title; its open-problem
/// count is their number.
pub proof fn law_open_problems_listed(ps: Seq<Problem>)
    ensures
        problem_items(ps) == ps.filter(|p: Problem| p.status@ == "open"@).map_values(
            |p: Problem| ("problem"@, p.id@, p.title@),
        ),
    decreases ps.len(),
{
    if ps.len() > 0 {
        law_open_problems_listed(ps.drop_last());
        let f = |p: Problem| p.status@ == "open"@;
        let g = |p: Problem| ("problem"@, p.id@, p.title@);
        reveal(Seq::filter);
        let sub = ps.drop_last().filter(f);
        if f(ps.last()) {
            assert(ps.filter(f) == sub.push(ps.last()));
            assert(sub.push(ps.last()).map_values(g) =~= sub.map_values(g) + seq![g(ps.last())]);
        } else {
            assert(ps.filter(f) == sub);
            assert(sub.map_values(g) + Seq::empty() =~= sub.map_values(g));
        }
    } else {
        reveal(Seq::filter);
        assert(ps.filter(|p: Problem| p.status@ == "open"@).map_values(
            |p: Problem| ("problem"@, p.id@, p.title@),
        ) =~= Seq::empty());
    }
}

/// The greeting lists exactly the changes whose status is
/// `pending_approval`, in order, each as a `change` item with its id and
/// title.
pub proof fn law_pending_changes_listed(cs: Seq<Change>)
    ensures
        change_items(cs) == cs.filter(|c: Change| c.status@ == "pending_approval"@).map_values(
            |c: Change| ("change"@, c.id@, c.title@),
        ),
    decreases cs.len(),
{
    if cs.len() > 0 {
        law_pending_changes_listed(cs.drop_last());
        let f = |c: Change| c.status@ == "pending_approval"@;
        let g = |c: Change| ("change"@, c.id@, c.title@);
        reveal(Seq::filter);
        let sub = cs.drop_last().filter(f);
        if f(cs.last()) {
            assert(cs.filter(f) == sub.push(cs.last()));
            assert(sub.push(cs.last()).map_values(g) =~= sub.map_values(g) + seq![g(cs.last())]);
        } else {
            assert(cs.filter(f) == sub);
            assert(sub.map_values(g) + Seq::empty() =~= sub.map_values(g));
        }
    } else {
        reveal(Seq::filter);
        assert(cs.filter(|c: Change| c.status@ == "pending_approval"@).map_values(
            |c: Change| ("change"@, c.id@, c.title@),
        ) =~= Seq::empty());
    }
}

} // verus!
