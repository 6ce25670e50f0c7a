//! Meeting-chair behaviour: collect participants' reports off the bus,
//! compile minutes (decisions and action items) from the agenda, the reports
//! and the chair's own open ITIL count, and recognise the chair's own minutes
//! messages.

use vstd::prelude::*;
use crate::bus::BusMessage;
use crate::json::{json_str_member, json_string_member};
use crate::text::{
    chars_of, dec_nat, ends_with, first_index_of, first_index_of_exec, is_blank, lemma_first_index_of_at, lemma_first_index_of_bounds,
    lines, lines_exec, push_lit, push_nat, slice_chars, starts_with, starts_with_lit, str_eq,
    string_of, trim, trim_chars, views,
};

verus! {

/// A participant's report collected for the meeting.
pub struct Report {
    pub from: String,
    pub body: String,
}

/// An action item assigned out of the meeting.
pub struct ActionItem {
    pub assignee: String,
    pub description: String,
    /// The assignee was marked `!`: the item needs the owner's approval.
    pub needs_owner_approval: bool,
}

/// Compiled minutes for one convening.
pub struct Minutes {
    pub decisions: Vec<String>,
    pub action_items: Vec<ActionItem>,
}

/// The report text a message carries: the `body` member of a structured
/// `{"kind":"report",...}` body (empty when missing), else the whole body.
pub open spec fn report_text(body: Seq<char>) -> Seq<char> {
    if json_string_member(body, "kind"@) == Some("report"@) {
        match json_string_member(body, "body"@) {
            Some(b) => b,
            None => Seq::empty(),
        }
    } else {
        body
    }
}

/// The reports in `inbox`, in order: every message whose report text is not
/// blank, attributed to its sender.
pub open spec fn reports_of(inbox: Seq<BusMessage>) -> Seq<(Seq<char>, Seq<char>)>
    decreases inbox.len(),
{
    if inbox.len() == 0 {
        Seq::empty()
    } else {
        let m = inbox.last();
        reports_of(inbox.drop_last()) + (if is_blank(report_text(m.body@)) {
            Seq::empty()
        } else {
            seq![(m.sender@, report_text(m.body@))]
        })
    }
}

pub open spec fn report_view(r: Report) -> (Seq<char>, Seq<char>) {
    (r.from@, r.body@)
}

/// Collects the participants' reports from the chair's inbox (free-text and
/// structured report bodies alike), skipping blank ones.
pub fn collect_reports(inbox: &[BusMessage]) -> (r: Vec<Report>)
    ensures
        r@.map_values(|x: Report| report_view(x)) == reports_of(inbox@),
{
    let mut out: Vec<Report> = Vec::new();
    let mut i: usize = 0;
    while i < inbox.len()
        invariant
            i <= inbox@.len(),
            out@.map_values(|x: Report| report_view(x)) == reports_of(inbox@.subrange(0, i as int)),
        decreases inbox.len() - i,
    {
        let m = &inbox[i];
        let is_report = match json_str_member(m.body.as_str(), "kind") {
            Some(k) => str_eq(k.as_str(), "report"),
            None => false,
        };
        let body = if is_report {
            match json_str_member(m.body.as_str(), "body") {
                Some(b) => b,
                None => String::new(),
            }
        } else {
            m.body.clone()
        };
        let ghost o = out@;
        assert(inbox@.subrange(0, i + 1).drop_last() =~= inbox@.subrange(0, i as int));
        if trim_chars(&chars_of(body.as_str())).len() > 0 {
            let rep = Report { from: m.sender.clone(), body };
            out.push(rep);
            assert(out@.map_values(|x: Report| report_view(x)) =~= o.map_values(
                |x: Report| report_view(x),
            ).push(report_view(rep)));
        }
        i = i + 1;
    }
    assert(inbox@.subrange(0, inbox@.len() as int) =~= inbox@);
    out
}

/// The action item a report line announces, as (assignee, description,
/// owner-gated): a line that, trimmed, reads `ACTION <assignee>: <desc>`;
/// a `!` after the assignee marks it owner-gated; a blank assignee is none.
pub open spec fn action_of_line(line: Seq<char>) -> Option<(Seq<char>, Seq<char>, bool)> {
    let t = trim(line);
    if !starts_with(t, "ACTION "@) {
        None
    } else {
        let rest = t.subrange(7, t.len() as int);
        let c = first_index_of(rest, ':');
        if c < 0 {
            None
        } else {
            let a = trim(rest.subrange(0, c));
            let desc = trim(rest.subrange(c + 1, rest.len() as int));
            let gated = ends_with(a, "!"@);
            let who = if gated {
                trim(a.drop_last())
            } else {
                a
            };
            if who.len() == 0 {
                None
            } else {
                Some((who, desc, gated))
            }
        }
    }
}

/// The action items announced by `ls`, in order.
pub open spec fn line_actions(ls: Seq<Seq<char>>) -> Seq<(Seq<char>, Seq<char>, bool)>
    decreases ls.len(),
{
    if ls.len() == 0 {
        Seq::empty()
    } else {
        line_actions(ls.drop_last()) + (match action_of_line(ls.last()) {
            Some(a) => seq![a],
            None => Seq::empty(),
        })
    }
}

/// The action items announced across `reports`, report by report, line by
/// line.
pub open spec fn report_actions(reports: Seq<Report>) -> Seq<(Seq<char>, Seq<char>, bool)>
    decreases reports.len(),
{
    if reports.len() == 0 {
        Seq::empty()
    } else {
        report_actions(reports.drop_last()) + line_actions(lines(reports.last().body@))
    }
}

pub open spec fn action_view(a: ActionItem) -> (Seq<char>, Seq<char>, bool) {
    (a.assignee@, a.description@, a.needs_owner_approval)
}

/// The decision minuted for an agenda item.
pub open spec fn reviewed(item: String) -> Seq<char> {
    item@ + ": reviewed"@
}

fn action_of_line_exec(line: &Vec<char>) -> (r: Option<ActionItem>)
    ensures
        match r {
            Some(a) => action_of_line(line@) == Some(action_view(a)),
            None => action_of_line(line@) is None,
        },
{
    let t = trim_chars(line);
    if !starts_with_lit(&t, "ACTION ") {
        return None;
    }
    proof {
        reveal_strlit("ACTION ");
    }
    let rest = slice_chars(&t, 7, t.len());
    proof {
        lemma_first_index_of_bounds(rest@, ':');
    }
    match first_index_of_exec(&rest, ':') {
        None => None,
        Some(c) => {
            let a = trim_chars(&slice_chars(&rest, 0, c));
            let desc = trim_chars(&slice_chars(&rest, c + 1, rest.len()));
            let gated = a.len() > 0 && a[a.len() - 1] == '!';
            assert(gated == ends_with(a@, "!"@)) by {
                reveal_strlit("!");
                if a@.len() > 0 {
                    let s = a@.subrange(a@.len() - 1, a@.len() as int);
                    assert(s.len() == 1 && s[0] == a@.last());
                    if s == "!"@ {
                        assert(s[0] == "!"@[0]);
                    }
                    if a@.last() == '!' {
                        assert(s =~= "!"@);
                    }
                }
            }
            let who = if gated {
                let w = slice_chars(&a, 0, a.len() - 1);
                assert(w@ =~= a@.drop_last());
                trim_chars(&w)
            } else {
                a
            };
            if who.len() == 0 {
                None
            } else {
                Some(
                    ActionItem {
                        assignee: string_of(&who),
                        description: string_of(&desc),
                        needs_owner_approval: gated,
                    },
                )
            }
        },
    }
}

/// Compiles minutes: each agenda item minuted as reviewed, then the open
/// ITIL count carried; every `ACTION <assignee>: <desc>` line of any report
/// becomes an action item (a `!` after the assignee marks it owner-gated).
pub fn compile(agenda: &[String], reports: &[Report], open_itil: usize) -> (m: Minutes)
    ensures
        m.decisions@.map_values(|d: String| d@) == agenda@.map_values(|i: String| reviewed(i)).push(
            "open ITIL items carried: "@ + dec_nat(open_itil as nat),
        ),
        m.action_items@.map_values(|a: ActionItem| action_view(a)) == report_actions(reports@),
{
    let mut decisions: Vec<String> = Vec::new();
    let mut i: usize = 0;
    while i < agenda.len()
        invariant
            i <= agenda@.len(),
            decisions@.map_values(|d: String| d@) == agenda@.subrange(0, i as int).map_values(
                |x: String| reviewed(x),
            ),
        decreases agenda.len() - i,
    {
        let mut d = chars_of(agenda[i].as_str());
        push_lit(&mut d, ": reviewed");
        let ds = string_of(&d);
        let ghost om = decisions@.map_values(|d: String| d@);
        assert(ds@ == reviewed(agenda@[i as int]));
        decisions.push(ds);
        assert(decisions@.map_values(|d: String| d@) =~= om.push(ds@));
        assert(agenda@.subrange(0, i + 1).map_values(|x: String| reviewed(x)) =~= agenda@.subrange(
            0,
            i as int,
        ).map_values(|x: String| reviewed(x)).push(reviewed(agenda@[i as int])));
        i = i + 1;
    }
    assert(agenda@.subrange(0, agenda@.len() as int) =~= agenda@);
    let mut last = chars_of("open ITIL items carried: ");
    push_nat(&mut last, open_itil as u64);
    let ls = string_of(&last);
    let ghost before = decisions@.map_values(|d: String| d@);
    decisions.push(ls);
    assert(decisions@.map_values(|d: String| d@) =~= before.push(ls@));
    let mut action_items: Vec<ActionItem> = Vec::new();
    let mut j: usize = 0;
    while j < reports.len()
        invariant
            j <= reports@.len(),
            action_items@.map_values(|a: ActionItem| action_view(a)) == report_actions(
                reports@.subrange(0, j as int),
            ),
        decreases reports.len() - j,
    {
        let ghost before_r = action_items@.map_values(|a: ActionItem| action_view(a));
        let ls = lines_exec(&chars_of(reports[j].body.as_str()));
        let ghost all = views(ls@);
        let mut k: usize = 0;
        assert(all.subrange(0, 0) =~= Seq::<Seq<char>>::empty());
        while k < ls.len()
            invariant
                k <= ls@.len(),
                all == views(ls@),
                action_items@.map_values(|a: ActionItem| action_view(a)) == before_r + line_actions(
                    all.subrange(0, k as int),
                ),
            decreases ls.len() - k,
        {
            assert(all.subrange(0, k + 1).drop_last() =~= all.subrange(0, k as int));
            assert(all[k as int] == ls@[k as int]@);
            let ghost o = action_items@;
            match action_of_line_exec(&ls[k]) {
                Some(a) => {
                    let ghost av = action_view(a);
                    action_items.push(a);
                    assert(action_items@.map_values(|a: ActionItem| action_view(a)) =~= o.map_values(
                        |a: ActionItem| action_view(a),
                    ).push(av));
                },
                None => {},
            }
            k = k + 1;
        }
        assert(all.subrange(0, all.len() as int) =~= all);
        assert(reports@.subrange(0, j + 1).drop_last() =~= reports@.subrange(0, j as int));
        j = j + 1;
    }
    assert(reports@.subrange(0, reports@.len() as int) =~= reports@);
    Minutes { decisions, action_items }
}

/// Whether a message is the chair's own minutes: structured, with a JSON
/// body whose `kind` is `minutes`.
pub fn is_structured_minutes(m: &BusMessage) -> (r: bool)
    ensures
        r == (m.kind@ == "structured"@ && json_string_member(m.body@, "kind"@) == Some(
            "minutes"@,
        )),
{
    if !str_eq(m.kind.as_str(), "structured") {
        return false;
    }
    match json_str_member(m.body.as_str(), "kind") {
        Some(k) => str_eq(k.as_str(), "minutes"),
        None => false,
    }
}

/// An action line names its assignee up to the first `:`; everything after
/// it, colons included, is the description. For a line reading (trimmed)
/// `ACTION <who>:<desc>` with no `:` in `<who>`, the item is assigned to
/// the trimmed `<who>` (a trailing `!` removed and marking it owner-gated)
/// and described by the trimmed `<desc>`; a blank assignee gives no item.
pub proof fn law_action_assignee_ends_at_first_colon(line: Seq<char>, who: Seq<char>, desc: Seq<char>)
    requires
        trim(line) == "ACTION "@ + who + ":"@ + desc,
        forall|i: int| 0 <= i < who.len() ==> who[i] != ':',
    ensures
        ({
            let a = trim(who);
            let gated = a.len() > 0 && a.last() == '!';
            let name = if gated {
                trim(a.drop_last())
            } else {
                a
            };
            &&& name.len() > 0 ==> action_of_line(line) == Some((name, trim(desc), gated))
            &&& name.len() == 0 ==> action_of_line(line) is None
        }),
{
    reveal_strlit("ACTION ");
    reveal_strlit(":");
    reveal_strlit("!");
    let t = trim(line);
    let rest = t.subrange(7, t.len() as int);
    assert(starts_with(t, "ACTION "@)) by {
        assert(t.subrange(0, 7) =~= "ACTION "@);
    }
    assert(rest =~= who + ":"@ + desc);
    assert(rest[who.len() as int] == ':');
    lemma_first_index_of_at(rest, ':', who.len() as int);
    assert(rest.subrange(0, who.len() as int) =~= who);
    assert(rest.subrange(who.len() as int + 1, rest.len() as int) =~= desc);
    let a = trim(who);
    if a.len() > 0 {
        let sfx = a.subrange(a.len() - 1, a.len() as int);
        if a.last() == '!' {
            assert(sfx =~= "!"@);
        } else {
            assert(sfx[0] != "!"@[0]);
        }
    }
}

/// Only action lines assign work: a line that does not read (trimmed)
/// `ACTION ` followed by text with a `:` announces no item.
pub proof fn law_only_action_lines_assign(line: Seq<char>)
    ensures
        !starts_with(trim(line), "ACTION "@) ==> action_of_line(line) is None,
        (starts_with(trim(line), "ACTION "@) && forall|i: int|
            7 <= i < trim(line).len() ==> trim(line)[i] != ':') ==> action_of_line(line) is None,
{
    reveal_strlit("ACTION ");
    let t = trim(line);
    if starts_with(t, "ACTION "@) && forall|i: int| 7 <= i < t.len() ==> t[i] != ':' {
        let rest = t.subrange(7, t.len() as int);
        lemma_first_index_of_bounds(rest, ':');
        if first_index_of(rest, ':') >= 0 {
            assert(rest[first_index_of(rest, ':')] == t[first_index_of(rest, ':') + 7]);
        }
    }
}

/// A report's lines each announce at most one item, in line order: the
/// items of a list of lines are exactly the announced items of its lines,
/// in order.
pub proof fn law_line_actions_in_order(ls: Seq<Seq<char>>)
    ensures
        line_actions(ls) == ls.filter_map(|l: Seq<char>| action_of_line(l)),
    decreases ls.len(),
{
    if ls.len() > 0 {
        law_line_actions_in_order(ls.drop_last());
        let f = |l: Seq<char>| action_of_line(l);
        assert(f(ls.last()) == action_of_line(ls.last()));
        match action_of_line(ls.last()) {
            Some(a) => {
                assert(ls.filter_map(f) == ls.drop_last().filter_map(f) + seq![a]);
            },
            None => {
                assert(ls.filter_map(f) == ls.drop_last().filter_map(f));
                assert(ls.drop_last().filter_map(f) + Seq::empty() =~= ls.drop_last().filter_map(f));
            },
        }
    } else {
        assert(ls.filter_map(|l: Seq<char>| action_of_line(l)) =~= Seq::empty());
    }
}

} // verus!
