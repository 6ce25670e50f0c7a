//! The intent dependency and conflict graph over goals and objectives:
//! `supports` (achieving `from` advances `to`) and `conflicts_with`
//! (pursuing both pulls apart). Conflicts are arbitrated by priority (the
//! lower number wins) with ties broken by id; a supported intent's progress
//! is how many of its supporters were credited.

use vstd::prelude::*;
use crate::text::{
    chars_of, debug_quoted, debug_str, eq_lit, keyword, keyword_exec, lemma_text_lt_asym, push_lit,
    string_of, text_lt, text_lt_exec,
};

verus! {

/// Which store an intent id refers to.
#[derive(Debug, Clone, Copy, PartialEq, Eq, Structural)]
pub enum IntentKind {
    Goal,
    Objective,
}

/// The intent kind named by the normalized word `k`.
pub open spec fn intent_kind_of(k: Seq<char>) -> Option<IntentKind> {
    if k == "goal"@ {
        Some(IntentKind::Goal)
    } else if k == "objective"@ {
        Some(IntentKind::Objective)
    } else {
        None
    }
}

impl IntentKind {
    pub open spec fn as_str_spec(self) -> Seq<char> {
        match self {
            IntentKind::Goal => "goal"@,
            IntentKind::Objective => "objective"@,
        }
    }

    /// The kind's name (`goal` / `objective`).
    pub fn as_str(&self) -> (r: &'static str)
        ensures
            r@ == self.as_str_spec(),
    {
        match self {
            IntentKind::Goal => "goal",
            IntentKind::Objective => "objective",
        }
    }

    /// Parses an intent kind (trimmed, case-insensitive); an unknown word is
    /// an error naming it.
    pub fn parse(s: &str) -> (r: Result<IntentKind, String>)
        ensures
            match intent_kind_of(keyword(s@)) {
                Some(k) => r == Ok::<IntentKind, String>(k),
                None => r matches Err(e) && e@ == "unknown intent kind: "@ + debug_quoted(keyword(s@)),
            },
    {
        let k = keyword_exec(s);
        if eq_lit(&k, "goal") {
            Ok(IntentKind::Goal)
        } else if eq_lit(&k, "objective") {
            Ok(IntentKind::Objective)
        } else {
            let ks = string_of(&k);
            let q = debug_str(ks.as_str());
            let mut msg = chars_of("unknown intent kind: ");
            push_lit(&mut msg, q.as_str());
            Err(string_of(&msg))
        }
    }
}

/// Who authored an intent (and so where its escalations go).
#[derive(Debug, Clone, Copy, PartialEq, Eq, Structural)]
pub enum IntentSource {
    Dvalin,
    Human,
    Regin,
}

/// The source named by the normalized word `k`.
pub open spec fn intent_source_of(k: Seq<char>) -> Option<IntentSource> {
    if k == "dvalin"@ {
        Some(IntentSource::Dvalin)
    } else if k == "human"@ {
        Some(IntentSource::Human)
    } else if k == "regin"@ {
        Some(IntentSource::Regin)
    } else {
        None
    }
}

impl IntentSource {
    /// Parses an intent source (trimmed, case-insensitive); an unknown word
    /// is an error naming it.
    pub fn parse(s: &str) -> (r: Result<IntentSource, String>)
        ensures
            match intent_source_of(keyword(s@)) {
                Some(k) => r == Ok::<IntentSource, String>(k),
                None => r matches Err(e) && e@ == "unknown intent source: "@ + debug_quoted(keyword(s@)),
            },
    {
        let k = keyword_exec(s);
        if eq_lit(&k, "dvalin") {
            Ok(IntentSource::Dvalin)
        } else if eq_lit(&k, "human") {
            Ok(IntentSource::Human)
        } else if eq_lit(&k, "regin") {
            Ok(IntentSource::Regin)
        } else {
            let ks = string_of(&k);
            let q = debug_str(ks.as_str());
            let mut msg = chars_of("unknown intent source: ");
            push_lit(&mut msg, q.as_str());
            Err(string_of(&msg))
        }
    }
}

/// How one intent relates to another.
#[derive(Debug, Clone, Copy, PartialEq, Eq, Structural)]
pub enum RelationKind {
    Supports,
    ConflictsWith,
}

/// The relation kind named by the normalized word `k`.
pub open spec fn relation_kind_of(k: Seq<char>) -> Option<RelationKind> {
    if k == "supports"@ {
        Some(RelationKind::Supports)
    } else if k == "conflicts_with"@ {
        Some(RelationKind::ConflictsWith)
    } else {
        None
    }
}

impl RelationKind {
    pub open spec fn as_str_spec(self) -> Seq<char> {
        match self {
            RelationKind::Supports => "supports"@,
            RelationKind::ConflictsWith => "conflicts_with"@,
        }
    }

    /// The relation's name (`supports` / `conflicts_with`).
    pub fn as_str(&self) -> (r: &'static str)
        ensures
            r@ == self.as_str_spec(),
    {
        match self {
            RelationKind::Supports => "supports",
            RelationKind::ConflictsWith => "conflicts_with",
        }
    }

    /// Parses a relation kind (trimmed, case-insensitive); an unknown word
    /// is an error naming it.
    pub fn parse(s: &str) -> (r: Result<RelationKind, String>)
        ensures
            match relation_kind_of(keyword(s@)) {
                Some(k) => r == Ok::<RelationKind, String>(k),
                None => r matches Err(e) && e@ == "unknown relation kind: "@ + debug_quoted(keyword(s@)),
            },
    {
        let k = keyword_exec(s);
        if eq_lit(&k, "supports") {
            Ok(RelationKind::Supports)
        } else if eq_lit(&k, "conflicts_with") {
            Ok(RelationKind::ConflictsWith)
        } else {
            let ks = string_of(&k);
            let q = debug_str(ks.as_str());
            let mut msg = chars_of("unknown relation kind: ");
            push_lit(&mut msg, q.as_str());
            Err(string_of(&msg))
        }
    }
}

/// A directed relation between two intents.
pub struct Relation {
    pub id: String,
    pub from_kind: String,
    pub from_id: String,
    pub to_kind: String,
    pub to_id: String,
    pub relation: String,
    /// Set once `from`'s achievement was credited toward `to` (`supports`
    /// relations only).
    pub credited_at: Option<String>,
    pub created_at: String,
}

/// A resolved conflict: `winner` keeps priority, `deferred` got a
/// mitigation recorded.
pub struct ConflictArbitration {
    pub relation_id: String,
    pub winner_kind: String,
    pub winner_id: String,
    pub deferred_kind: String,
    pub deferred_id: String,
    pub mitigation_id: String,
}

/// How many of an intent's `supports` relations were credited.
#[derive(Debug, Clone, Copy, PartialEq, Eq, Structural)]
pub struct SupportProgress {
    pub supporters: usize,
    pub achieved_supporters: usize,
}

/// Whether the `from` side of a conflict wins: the lower priority number
/// wins, and on equal priorities the smaller id.
pub open spec fn from_wins_spec(from_priority: int, to_priority: int, from_id: Seq<char>, to_id: Seq<char>) -> bool {
    from_priority < to_priority || (from_priority == to_priority && text_lt(from_id, to_id))
}

/// Decides a conflict's winner side.
pub fn from_wins(from_priority: i64, to_priority: i64, from_id: &str, to_id: &str) -> (r: bool)
    ensures
        r == from_wins_spec(from_priority as int, to_priority as int, from_id@, to_id@),
{
    from_priority < to_priority || (from_priority == to_priority && text_lt_exec(from_id, to_id))
}

/// Arbitrates an active conflict between its two intents, given their
/// priorities: (winner kind, winner id, deferred kind, deferred id).
pub fn arbitrate(rel: &Relation, from_priority: i64, to_priority: i64) -> (r: (String, String, String, String))
    ensures
        from_wins_spec(from_priority as int, to_priority as int, rel.from_id@, rel.to_id@) ==> (
        r.0@, r.1@, r.2@, r.3@) == (rel.from_kind@, rel.from_id@, rel.to_kind@, rel.to_id@),
        !from_wins_spec(from_priority as int, to_priority as int, rel.from_id@, rel.to_id@) ==> (
        r.0@, r.1@, r.2@, r.3@) == (rel.to_kind@, rel.to_id@, rel.from_kind@, rel.from_id@),
{
    if from_wins(from_priority, to_priority, rel.from_id.as_str(), rel.to_id.as_str()) {
        (rel.from_kind.clone(), rel.from_id.clone(), rel.to_kind.clone(), rel.to_id.clone())
    } else {
        (rel.to_kind.clone(), rel.to_id.clone(), rel.from_kind.clone(), rel.from_id.clone())
    }
}

/// Arbitration is deterministic whichever way round a conflict was
/// recorded: between two different intents, exactly one side wins, and the
/// same one when `from` and `to` are swapped.
pub proof fn law_arbitration_has_one_winner(p: int, q: int, a: Seq<char>, b: Seq<char>)
    requires
        a != b || p != q,
    ensures
        from_wins_spec(p, q, a, b) <==> !from_wins_spec(q, p, b, a),
{
    lemma_text_lt_asym(a, b);
}

/// Counts supporters and credited supporters from each `supports`
/// relation's credit stamp.
pub open spec fn count_credited(credits: Seq<Option<String>>) -> nat
    decreases credits.len(),
{
    if credits.len() == 0 {
        0
    } else {
        count_credited(credits.drop_last()) + (if credits.last() is Some {
            1nat
        } else {
            0nat
        })
    }
}

/// The progress of an intent from the credit stamps of the relations that
/// support it.
pub fn support_progress(credits: &[Option<String>]) -> (r: SupportProgress)
    ensures
        r.supporters == credits@.len(),
        r.achieved_supporters == count_credited(credits@),
{
    let mut n: usize = 0;
    let mut i: usize = 0;
    while i < credits.len()
        invariant
            i <= credits@.len(),
            n == count_credited(credits@.subrange(0, i as int)),
            n <= i,
        decreases credits.len() - i,
    {
        assert(credits@.subrange(0, i + 1).drop_last() =~= credits@.subrange(0, i as int));
        if credits[i].is_some() {
            n = n + 1;
        }
        i = i + 1;
    }
    assert(credits@.subrange(0, credits@.len() as int) =~= credits@);
    SupportProgress { supporters: credits.len(), achieved_supporters: n }
}

/// Whether a relation would tie an intent to itself.
pub fn is_self_relation(from_kind: IntentKind, from_id: &str, to_kind: IntentKind, to_id: &str) -> (r: bool)
    ensures
        r == (from_kind == to_kind && from_id@ == to_id@),
{
    from_kind == to_kind && crate::text::str_eq(from_id, to_id)
}

/// Why a relation from `from_kind` `from_id` to `to_kind` `to_id` of kind
/// `relation` is refused, if it is; `from_exists` and `to_exists` say
/// whether each end is stored. Checked in order: the two kinds and the
/// relation name must parse, both ends must exist, and an intent cannot
/// relate to itself.
pub open spec fn relation_refusal_spec(
    from_kind: Seq<char>,
    from_id: Seq<char>,
    to_kind: Seq<char>,
    to_id: Seq<char>,
    relation: Seq<char>,
    from_exists: bool,
    to_exists: bool,
) -> Option<Seq<char>> {
    if intent_kind_of(keyword(from_kind)) is None {
        Some("unknown intent kind: "@ + debug_quoted(keyword(from_kind)))
    } else if intent_kind_of(keyword(to_kind)) is None {
        Some("unknown intent kind: "@ + debug_quoted(keyword(to_kind)))
    } else if relation_kind_of(keyword(relation)) is None {
        Some("unknown relation kind: "@ + debug_quoted(keyword(relation)))
    } else if !from_exists {
        Some("no such "@ + from_kind + " "@ + from_id)
    } else if !to_exists {
        Some("no such "@ + to_kind + " "@ + to_id)
    } else if intent_kind_of(keyword(from_kind)) == intent_kind_of(keyword(to_kind)) && from_id == to_id {
        Some("an intent cannot relate to itself"@)
    } else {
        None
    }
}

/// Validates a new relation (see [`relation_refusal_spec`]): `None` when it
/// may be stored, else the refusal.
pub fn relation_refusal(
    from_kind: &str,
    from_id: &str,
    to_kind: &str,
    to_id: &str,
    relation: &str,
    from_exists: bool,
    to_exists: bool,
) -> (r: Option<String>)
    ensures
        match relation_refusal_spec(from_kind@, from_id@, to_kind@, to_id@, relation@, from_exists, to_exists) {
            Some(m) => r matches Some(x) && x@ == m,
            None => r is None,
        },
{
    let fk = match IntentKind::parse(from_kind) {
        Ok(k) => k,
        Err(e) => {
            return Some(e);
        },
    };
    let tk = match IntentKind::parse(to_kind) {
        Ok(k) => k,
        Err(e) => {
            return Some(e);
        },
    };
    match RelationKind::parse(relation) {
        Ok(_) => {},
        Err(e) => {
            return Some(e);
        },
    }
    if !from_exists {
        let mut m = chars_of("no such ");
        push_lit(&mut m, from_kind);
        push_lit(&mut m, " ");
        push_lit(&mut m, from_id);
        return Some(string_of(&m));
    }
    if !to_exists {
        let mut m = chars_of("no such ");
        push_lit(&mut m, to_kind);
        push_lit(&mut m, " ");
        push_lit(&mut m, to_id);
        return Some(string_of(&m));
    }
    if is_self_relation(fk, from_id, tk, to_id) {
        return Some(string_of(&chars_of("an intent cannot relate to itself")));
    }
    None
}

/// Whether an intent of `kind` with lifecycle `status` is pursued: a goal
/// only while `active`; an objective whenever it exists.
pub fn intent_is_active(kind: IntentKind, goal_status: &str) -> (r: bool)
    ensures
        r == (kind == IntentKind::Objective || goal_status@ == "active"@),
{
    match kind {
        IntentKind::Goal => crate::text::str_eq(goal_status, "active"),
        IntentKind::Objective => true,
    }
}

} // verus!
