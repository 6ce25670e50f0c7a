//! Notice filters: hand-editable rules that drop known-noise observations
//! before they reach the LLM judging tier. An observation is filtered when its
//! text contains the rule's `contains` (case-insensitive) and, if the rule is
//! domain-scoped, it comes from that domain.

use vstd::prelude::*;
use crate::overlay::{key_fn, layered, lemma_last_key_index, overlay_keys, winner, winner_fn};
use crate::text::{
    chars_of, clone_opt, contains, contains_exec, lower_chars, lowercase, names, opt_str, str_eq, text_lt,
};

verus! {

/// Where a filter rule came from (user overrides system by name).
#[derive(Debug, Clone, Copy, PartialEq, Eq, Structural)]
pub enum FilterSource {
    System,
    User,
}

impl FilterSource {
    pub open spec fn name_spec(self) -> Seq<char> {
        match self {
            FilterSource::System => "system"@,
            FilterSource::User => "user"@,
        }
    }

    /// The display name (`system` / `user`).
    pub fn name(&self) -> (r: &'static str)
        ensures
            r@ == self.name_spec(),
    {
        match self {
            FilterSource::System => "system",
            FilterSource::User => "user",
        }
    }
}

/// A single noise-suppression rule.
pub struct FilterRule {
    pub name: String,
    pub contains: String,
    pub domain: Option<String>,
    pub source: FilterSource,
}

impl FilterRule {
    /// A copy of the rule.
    pub fn duplicate(&self) -> (r: FilterRule)
        ensures
            rule_view(r) == rule_view(*self),
    {
        FilterRule {
            name: self.name.clone(),
            contains: self.contains.clone(),
            domain: clone_opt(&self.domain),
            source: self.source,
        }
    }
}

/// A rule as plain values.
pub open spec fn rule_view(r: FilterRule) -> (Seq<char>, Seq<char>, Option<Seq<char>>, FilterSource) {
    (r.name@, r.contains@, opt_str(r.domain), r.source)
}

/// Whether `r` drops an observation from `domain` whose lowercased text is
/// `lower_text`.
pub open spec fn rule_matches(r: FilterRule, domain: Seq<char>, lower_text: Seq<char>) -> bool {
    (match r.domain {
        None => true,
        Some(d) => d@ == domain,
    }) && contains(lower_text, lowercase(r.contains@))
}

/// The index of the first rule at or after `k` that matches.
pub open spec fn first_match_from(
    rules: Seq<FilterRule>,
    k: int,
    domain: Seq<char>,
    lower_text: Seq<char>,
) -> Option<int>
    decreases rules.len() - k,
{
    if k < 0 || k >= rules.len() {
        None
    } else if rule_matches(rules[k], domain, lower_text) {
        Some(k)
    } else {
        first_match_from(rules, k + 1, domain, lower_text)
    }
}

/// The index of the first rule that filters an observation from `domain`
/// with text `text`.
pub open spec fn first_match_index(rules: Seq<FilterRule>, domain: Seq<char>, text: Seq<char>) -> Option<
    int,
> {
    first_match_from(rules, 0, domain, lowercase(text))
}

fn rule_matches_exec(r: &FilterRule, domain: &str, lower_text: &Vec<char>) -> (b: bool)
    ensures
        b == rule_matches(*r, domain@, lower_text@),
{
    let scoped_ok = match &r.domain {
        None => true,
        Some(d) => str_eq(d.as_str(), domain),
    };
    if !scoped_ok {
        return false;
    }
    let needle = lower_chars(&chars_of(r.contains.as_str()));
    contains_exec(lower_text, &needle)
}

/// The first rule that filters an observation from `domain` with text `text`.
pub fn first_match<'a>(rules: &'a [FilterRule], domain: &str, text: &str) -> (r: Option<
    &'a FilterRule,
>)
    ensures
        match first_match_index(rules@, domain@, text@) {
            Some(k) => r matches Some(x) && 0 <= k < rules@.len() && *x == rules@[k],
            None => r is None,
        },
{
    let lower = lower_chars(&chars_of(text));
    let mut i: usize = 0;
    while i < rules.len()
        invariant
            i <= rules.len(),
            lower@ == lowercase(text@),
            first_match_index(rules@, domain@, text@) == first_match_from(
                rules@,
                i as int,
                domain@,
                lower@,
            ),
        decreases rules.len() - i,
    {
        if rule_matches_exec(&rules[i], domain, &lower) {
            return Some(&rules[i]);
        }
        i = i + 1;
    }
    None
}

/// Whether an observation is filtered (dropped) by any rule.
pub fn is_filtered(rules: &[FilterRule], domain: &str, text: &str) -> (r: bool)
    ensures
        r == (first_match_index(rules@, domain@, text@) is Some),
{
    first_match(rules, domain, text).is_some()
}


/// The names of `rules`.
pub open spec fn rule_names(rules: Seq<FilterRule>) -> Seq<Seq<char>> {
    rules.map_values(|r: FilterRule| r.name@)
}

/// The rule that wins `name` when `user` rules are layered over `system`
/// rules: the last user rule of that name, else the last system one.
pub open spec fn winning_rule(system: Seq<FilterRule>, user: Seq<FilterRule>, name: Seq<char>) -> Option<
    FilterRule,
> {
    match winner(rule_names(system), rule_names(user), name) {
        Some((true, i)) => Some(user[i]),
        Some((false, i)) => Some(system[i]),
        None => None,
    }
}

fn names_of(rules: &Vec<FilterRule>) -> (r: Vec<String>)
    ensures
        names(r@) == rule_names(rules@),
{
    let mut out: Vec<String> = Vec::new();
    let mut i: usize = 0;
    while i < rules.len()
        invariant
            i <= rules@.len(),
            out@.len() == i,
            forall|j: int| 0 <= j < i ==> out@[j]@ == rules@[j].name@,
        decreases rules.len() - i,
    {
        out.push(rules[i].name.clone());
        i = i + 1;
    }
    assert(names(out@) =~= rule_names(rules@));
    out
}

/// Layers the rules read from the user store over those of the system store:
/// a user rule overrides every system rule of the same name, rules with new
/// names are added, and the result holds one rule per name, ordered by name.
pub fn load_filters(system_rules: Vec<FilterRule>, user_rules: Vec<FilterRule>) -> (r: Vec<FilterRule>)
    ensures
        forall|i: int, j: int| 0 <= i < j < r@.len() ==> text_lt(#[trigger] r@[i].name@, #[trigger] r@[j].name@),
        forall|j: int|
            0 <= j < r@.len() ==> (winning_rule(system_rules@, user_rules@, (#[trigger] r@[j]).name@) matches Some(w)
                && rule_view(w) == rule_view(r@[j])),
        forall|name: Seq<char>|
            (#[trigger] winning_rule(system_rules@, user_rules@, name)) is Some ==> exists|j: int|
                0 <= j < r@.len() && (#[trigger] r@[j]).name@ == name,
{
    let sn = names_of(&system_rules);
    let un = names_of(&user_rules);
    let entries = overlay_keys(sn.as_slice(), un.as_slice());
    let ghost kf = key_fn(names(sn@), names(un@));
    let ghost wf = winner_fn(names(sn@), names(un@));
    let mut out: Vec<FilterRule> = Vec::new();
    let mut j: usize = 0;
    while j < entries.len()
        invariant
            j <= entries@.len(),
            out@.len() == j,
            kf == key_fn(names(sn@), names(un@)),
            wf == winner_fn(names(sn@), names(un@)),
            layered(entries@, kf, wf),
            names(sn@) == rule_names(system_rules@),
            names(un@) == rule_names(user_rules@),
            forall|q: int| 0 <= q < j ==> out@[q].name@ == kf(entries@[q]),
            forall|q: int|
                0 <= q < j ==> (winning_rule(system_rules@, user_rules@, (#[trigger] out@[q]).name@) matches Some(w)
                    && rule_view(w) == rule_view(out@[q])),
        decreases entries.len() - j,
    {
        let (u, idx) = entries[j];
        assert(entries@[j as int] == (u, idx));
        proof {
            lemma_last_key_index(names(sn@), kf(entries@[j as int]));
            lemma_last_key_index(names(un@), kf(entries@[j as int]));
        }
        let rule = if u {
            user_rules[idx].duplicate()
        } else {
            system_rules[idx].duplicate()
        };
        out.push(rule);
        j = j + 1;
    }
    assert forall|i: int, k: int| 0 <= i < k < out@.len() implies text_lt(#[trigger] out@[i].name@, #[trigger] out@[k].name@) by {
        assert(text_lt(kf(entries@[i]), kf(entries@[k])));
    }
    assert forall|name: Seq<char>|
        (#[trigger] winning_rule(system_rules@, user_rules@, name)) is Some implies exists|q: int|
            0 <= q < out@.len() && (#[trigger] out@[q]).name@ == name by {
        assert(wf(name) is Some);
        let q = choose|q: int| 0 <= q < entries@.len() && kf(#[trigger] entries@[q]) == name;
        assert(out@[q].name@ == name);
    }
    out
}

} // verus!
