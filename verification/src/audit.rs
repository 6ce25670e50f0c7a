//! Scheduled operator self-audit: monitoring coverage and cadence.

use vstd::prelude::*;
use crate::text::{chars_of, push_lit, str_eq, string_of, wrap_lit};

verus! {

/// One audit finding.
pub struct Finding {
    pub area: String,
    pub message: String,
}

/// The result of an audit sweep.
pub struct AuditReport {
    pub findings: Vec<Finding>,
    /// Whether scope was trimmed to stay within budget.
    pub trimmed: bool,
}

impl AuditReport {
    /// Whether the sweep found nothing.
    pub fn is_clean(&self) -> (r: bool)
        ensures
            r == (self.findings@.len() == 0),
    {
        self.findings.len() == 0
    }
}

/// A finding as an `(area, message)` pair.
pub open spec fn finding_view(f: Finding) -> (Seq<char>, Seq<char>) {
    (f.area@, f.message@)
}

/// `x` is one of `xs`.
pub open spec fn listed(xs: Seq<String>, x: Seq<char>) -> bool {
    exists|i: int| 0 <= i < xs.len() && #[trigger] xs[i]@ == x
}

/// Coverage findings for the entries of `from` that are absent from `other`
/// (`to_be == true`: to-be-states without a monitoring skill; `false`:
/// skills without a to-be-state).
pub open spec fn gaps(from: Seq<String>, other: Seq<String>, to_be: bool) -> Seq<
    (Seq<char>, Seq<char>),
>
    decreases from.len(),
{
    if from.len() == 0 {
        Seq::empty()
    } else {
        let rest = gaps(from.drop_last(), other, to_be);
        let d = from.last()@;
        if listed(other, d) {
            rest
        } else if to_be {
            rest.push(
                (
                    "coverage"@,
                    "domain `"@ + d + "` has a to-be-state but no operator skill monitoring it"@,
                ),
            )
        } else {
            rest.push(("coverage"@, "operator skill `"@ + d + "` has no to-be-state to judge against"@))
        }
    }
}

fn listed_exec(xs: &[String], x: &str) -> (r: bool)
    ensures
        r == listed(xs@, x@),
{
    let mut i: usize = 0;
    while i < xs.len()
        invariant
            i <= xs.len(),
            forall|j: int| 0 <= j < i ==> xs@[j]@ != x@,
        decreases xs.len() - i,
    {
        if str_eq(xs[i].as_str(), x) {
            assert(xs@[i as int]@ == x@);
            return true;
        }
        i = i + 1;
    }
    false
}

fn push_gaps(out: &mut Vec<Finding>, from: &[String], other: &[String], to_be: bool)
    ensures
        final(out)@.map_values(|f: Finding| finding_view(f)) == old(out)@.map_values(
            |f: Finding| finding_view(f),
        ) + gaps(from@, other@, to_be),
{
    let ghost base = old(out)@.map_values(|f: Finding| finding_view(f));
    let mut i: usize = 0;
    assert(from@.subrange(0, 0) =~= Seq::<String>::empty());
    assert(base + gaps(from@.subrange(0, 0), other@, to_be) =~= base);
    while i < from.len()
        invariant
            i <= from.len(),
            out@.map_values(|f: Finding| finding_view(f)) == base + gaps(
                from@.subrange(0, i as int),
                other@,
                to_be,
            ),
        decreases from.len() - i,
    {
        proof {
            assert(from@.subrange(0, i + 1).drop_last() =~= from@.subrange(0, i as int));
        }
        let d = from[i].as_str();
        if !listed_exec(other, d) {
            let msg = if to_be {
                wrap_lit(
                    "domain `",
                    &chars_of(d),
                    "` has a to-be-state but no operator skill monitoring it",
                )
            } else {
                wrap_lit("operator skill `", &chars_of(d), "` has no to-be-state to judge against")
            };
            let f = Finding { area: string_of(&chars_of("coverage")), message: string_of(&msg) };
            let ghost o = out@;
            out.push(f);
            assert(out@.map_values(|f: Finding| finding_view(f)) =~= o.map_values(
                |f: Finding| finding_view(f),
            ).push(finding_view(f)));
        }
        i = i + 1;
    }
    assert(from@.subrange(0, from.len() as int) =~= from@);
}

/// Coverage gaps: a domain with a to-be-state but no operator skill
/// (unmonitored intent), then an operator skill with no to-be-state
/// (nothing to judge against).
pub fn audit_coverage(skill_domains: &[String], desired_domains: &[String]) -> (r: Vec<
    Finding,
>)
    ensures
        r@.map_values(|f: Finding| finding_view(f)) == gaps(desired_domains@, skill_domains@, true)
            + gaps(skill_domains@, desired_domains@, false),
{
    let mut out: Vec<Finding> = Vec::new();
    assert(out@.map_values(|f: Finding| finding_view(f)) =~= Seq::<(Seq<char>, Seq<char>)>::empty());
    push_gaps(&mut out, desired_domains, skill_domains, true);
    push_gaps(&mut out, skill_domains, desired_domains, false);
    assert(out@.map_values(|f: Finding| finding_view(f)) =~= gaps(
        desired_domains@,
        skill_domains@,
        true,
    ) + gaps(skill_domains@, desired_domains@, false));
    out
}

/// The sweep's report from the KPI findings (judged by the caller against
/// the reliability floor): the KPI findings, then, unless the sweep is over
/// budget, the coverage findings; an over-budget sweep is marked trimmed.
pub fn run_audit(
    kpi_findings: Vec<Finding>,
    skill_domains: &[String],
    desired_domains: &[String],
    over_budget: bool,
) -> (r: AuditReport)
    ensures
        r.trimmed == over_budget,
        r.findings@.map_values(|f: Finding| finding_view(f)) == kpi_findings@.map_values(
            |f: Finding| finding_view(f),
        ) + (if over_budget {
            Seq::empty()
        } else {
            gaps(desired_domains@, skill_domains@, true) + gaps(skill_domains@, desired_domains@, false)
        }),
{
    let mut findings = kpi_findings;
    let ghost k = findings@.map_values(|f: Finding| finding_view(f));
    if !over_budget {
        let mut cov = audit_coverage(skill_domains, desired_domains);
        let ghost c = cov@.map_values(|f: Finding| finding_view(f));
        findings.append(&mut cov);
        assert(findings@.map_values(|f: Finding| finding_view(f)) =~= k + c);
    } else {
        assert(k + Seq::<(Seq<char>, Seq<char>)>::empty() =~= k);
    }
    AuditReport { findings, trimmed: over_budget }
}

/// The problem title a finding is filed under.
pub open spec fn finding_title(f: (Seq<char>, Seq<char>)) -> Seq<char> {
    "self-audit ["@ + f.0 + "]: "@ + f.1
}

/// The titles to file as new problems, in order: each finding's title
/// unless an open problem already carries it (filing is idempotent).
pub open spec fn titles_to_file(findings: Seq<(Seq<char>, Seq<char>)>, open_titles: Seq<String>) -> Seq<Seq<char>>
    decreases findings.len(),
{
    if findings.len() == 0 {
        Seq::empty()
    } else {
        let rest = titles_to_file(findings.drop_last(), open_titles);
        let t = finding_title(findings.last());
        if listed(open_titles, t) {
            rest
        } else {
            rest.push(t)
        }
    }
}

/// The problem titles a report's findings are filed under, leaving out
/// those already open (`open_titles`).
pub fn findings_to_file(findings: &[Finding], open_titles: &[String]) -> (r: Vec<String>)
    ensures
        crate::text::names(r@) == titles_to_file(findings@.map_values(|f: Finding| finding_view(f)), open_titles@),
{
    let ghost fv = findings@.map_values(|f: Finding| finding_view(f));
    let mut out: Vec<String> = Vec::new();
    let mut i: usize = 0;
    while i < findings.len()
        invariant
            i <= findings@.len(),
            fv == findings@.map_values(|f: Finding| finding_view(f)),
            crate::text::names(out@) == titles_to_file(fv.subrange(0, i as int), open_titles@),
        decreases findings.len() - i,
    {
        let f = &findings[i];
        let mut t = chars_of("self-audit [");
        push_lit(&mut t, f.area.as_str());
        push_lit(&mut t, "]: ");
        push_lit(&mut t, f.message.as_str());
        let ts = string_of(&t);
        let mut j: usize = 0;
        let mut seen = false;
        while j < open_titles.len()
            invariant
                j <= open_titles@.len(),
                ts@ == t@,
                seen == (exists|k: int| 0 <= k < j && #[trigger] open_titles@[k]@ == t@),
            decreases open_titles.len() - j,
        {
            if crate::text::str_eq(open_titles[j].as_str(), ts.as_str()) {
                seen = true;
            }
            j = j + 1;
        }
        assert(fv.subrange(0, i + 1).drop_last() =~= fv.subrange(0, i as int));
        assert(fv.subrange(0, i + 1).last() == fv[i as int]);
        assert(t@ == finding_title(fv[i as int]));
        if !seen {
            let ghost o = out@;
            out.push(ts);
            assert(crate::text::names(out@) =~= crate::text::names(o).push(t@));
        }
        i = i + 1;
    }
    assert(fv.subrange(0, fv.len() as int) =~= fv);
    out
}

proof fn lemma_all_listed_files_nothing(findings: Seq<(Seq<char>, Seq<char>)>, open_titles: Seq<String>)
    requires
        forall|i: int| 0 <= i < findings.len() ==> listed(open_titles, finding_title(#[trigger] findings[i])),
    ensures
        titles_to_file(findings, open_titles) == Seq::<Seq<char>>::empty(),
    decreases findings.len(),
{
    if findings.len() > 0 {
        assert(listed(open_titles, finding_title(findings[findings.len() - 1])));
        assert forall|i: int| 0 <= i < findings.drop_last().len() implies listed(
            open_titles,
            finding_title(#[trigger] findings.drop_last()[i]),
        ) by {
            assert(findings.drop_last()[i] == findings[i]);
        }
        lemma_all_listed_files_nothing(findings.drop_last(), open_titles);
    }
}

proof fn lemma_each_title_open_or_filed(findings: Seq<(Seq<char>, Seq<char>)>, open_titles: Seq<String>, i: int)
    requires
        0 <= i < findings.len(),
    ensures
        listed(open_titles, finding_title(findings[i])) || titles_to_file(findings, open_titles).contains(
            finding_title(findings[i]),
        ),
    decreases findings.len(),
{
    let rest = titles_to_file(findings.drop_last(), open_titles);
    if i < findings.len() - 1 {
        assert(findings.drop_last()[i] == findings[i]);
        lemma_each_title_open_or_filed(findings.drop_last(), open_titles, i);
        if rest.contains(finding_title(findings[i])) {
            let k = choose|k: int| 0 <= k < rest.len() && rest[k] == finding_title(findings[i]);
            let all = titles_to_file(findings, open_titles);
            if !listed(open_titles, finding_title(findings.last())) {
                assert(all[k] == rest[k]);
            }
            assert(all.contains(finding_title(findings[i])));
        }
    } else {
        let all = titles_to_file(findings, open_titles);
        if !listed(open_titles, finding_title(findings.last())) {
            assert(all[all.len() - 1] == finding_title(findings[i]));
        }
    }
}

/// Filing is idempotent: once a report's findings were filed (their titles
/// open alongside those already open), filing the same findings again opens
/// nothing.
pub proof fn law_filing_is_idempotent(
    findings: Seq<(Seq<char>, Seq<char>)>,
    open_titles: Seq<String>,
    filed: Seq<String>,
)
    requires
        crate::text::names(filed) == titles_to_file(findings, open_titles),
    ensures
        titles_to_file(findings, open_titles + filed) == Seq::<Seq<char>>::empty(),
{
    assert forall|i: int| 0 <= i < findings.len() implies listed(
        open_titles + filed,
        finding_title(#[trigger] findings[i]),
    ) by {
        let t = finding_title(findings[i]);
        lemma_each_title_open_or_filed(findings, open_titles, i);
        if listed(open_titles, t) {
            let k = choose|k: int| 0 <= k < open_titles.len() && #[trigger] open_titles[k]@ == t;
            assert((open_titles + filed)[k] == open_titles[k]);
        } else {
            let names = crate::text::names(filed);
            let j = choose|j: int| 0 <= j < names.len() && names[j] == t;
            assert(names[j] == filed[j]@);
            assert((open_titles + filed)[open_titles.len() + j] == filed[j]);
        }
    }
    lemma_all_listed_files_nothing(findings, open_titles + filed);
}

/// Adaptive cadence in days: weekly while KPIs are volatile, monthly once
/// stable.
pub fn adaptive_cadence_days(volatile: bool) -> (r: i64)
    ensures
        r == (if volatile {
            7int
        } else {
            30int
        }),
{
    if volatile {
        7
    } else {
        30
    }
}

} // verus!
