//! The identity store's rules: how the legacy store's rows are carried
//! over and when that migration counts as done, when a snapshot may be
//! imported, which curator proposals may touch memories, what closing a
//! session records, and the statement that snapshots the store to a file.
//! Running the statements is the caller's.

use vstd::prelude::*;
use crate::text::{chars_of, dec_nat, push_lit, push_nat, str_eq, string_of, trim, trim_chars};

verus! {

/// Outcome of a legacy migration attempt.
pub struct MigrationReport {
    pub episodes: usize,
    pub memories: usize,
    pub did_run: bool,
}

/// Identity metadata.
pub struct IdentityInfo {
    pub identity_id: String,
    pub name: String,
    pub host: String,
    pub schema_version: String,
    pub memory_count: i64,
    pub created_at: String,
}

/// `s` with every single quote doubled (SQL string-literal escaping).
pub open spec fn escape_quotes(s: Seq<char>) -> Seq<char>
    decreases s.len(),
{
    if s.len() == 0 {
        Seq::empty()
    } else {
        escape_quotes(s.drop_last()) + (if s.last() == '\'' {
            seq!['\'', '\'']
        } else {
            seq![s.last()]
        })
    }
}

/// The statement that writes a compact, consistent copy of the store to
/// `path`, the path quoted as an SQL string literal.
pub fn vacuum_into_sql(path: &str) -> (r: String)
    ensures
        r@ == "VACUUM INTO '"@ + escape_quotes(path@) + "'"@,
{
    let p = chars_of(path);
    let mut out = chars_of("VACUUM INTO '");
    let ghost head = out@;
    let mut i: usize = 0;
    while i < p.len()
        invariant
            i <= p@.len(),
            out@ == head + escape_quotes(p@.subrange(0, i as int)),
        decreases p.len() - i,
    {
        assert(p@.subrange(0, i + 1).drop_last() =~= p@.subrange(0, i as int));
        let c = p[i];
        if c == '\'' {
            out.push('\'');
            out.push('\'');
        } else {
            out.push(c);
        }
        assert(out@ =~= head + escape_quotes(p@.subrange(0, i + 1)));
        i = i + 1;
    }
    assert(p@.subrange(0, p@.len() as int) =~= p@);
    push_lit(&mut out, "'");
    string_of(&out)
}


/// The state a legacy episode is carried over with: a reflected episode is
/// already consolidated, any other is new.
pub fn legacy_episode_state(reflected: bool) -> (r: &'static str)
    ensures
        r@ == (if reflected {
            "consolidated"@
        } else {
            "new"@
        }),
{
    if reflected {
        "consolidated"
    } else {
        "new"
    }
}

/// The tier a legacy memory is carried over to: a human-sourced memory or
/// one of strength at least 3 is long-term, any other medium-term.
pub fn legacy_memory_tier(source: &str, strength: i64) -> (r: &'static str)
    ensures
        r@ == (if source@ == "human"@ || strength >= 3 {
            "long"@
        } else {
            "medium"@
        }),
{
    if str_eq(source, "human") || strength >= 3 {
        "long"
    } else {
        "medium"
    }
}

/// The refusal when the copy lost or gained rows.
pub open spec fn mismatch_message(episodes: nat, memories: nat, copied_episodes: nat, copied_memories: nat) -> Seq<
    char,
> {
    "Migration count mismatch: episodes "@ + dec_nat(copied_episodes) + " vs "@ + dec_nat(episodes)
        + ", memories "@ + dec_nat(copied_memories) + " vs "@ + dec_nat(memories)
}

/// Checks a legacy migration's copy: the rows counted in the new store
/// after copying must equal those counted in the legacy store, else the
/// migration is refused (and the legacy tables must not be dropped).
pub fn migration_outcome(episodes: usize, memories: usize, copied_episodes: usize, copied_memories: usize) -> (r: Result<
    MigrationReport,
    String,
>)
    ensures
        match r {
            Ok(rep) => copied_episodes == episodes && copied_memories == memories && rep.episodes
                == episodes && rep.memories == memories && rep.did_run,
            Err(m) => (copied_episodes != episodes || copied_memories != memories) && m@
                == mismatch_message(
                episodes as nat,
                memories as nat,
                copied_episodes as nat,
                copied_memories as nat,
            ),
        },
{
    if copied_episodes != episodes || copied_memories != memories {
        let mut m = chars_of("Migration count mismatch: episodes ");
        push_nat(&mut m, copied_episodes as u64);
        push_lit(&mut m, " vs ");
        push_nat(&mut m, episodes as u64);
        push_lit(&mut m, ", memories ");
        push_nat(&mut m, copied_memories as u64);
        push_lit(&mut m, " vs ");
        push_nat(&mut m, memories as u64);
        return Err(string_of(&m));
    }
    Ok(MigrationReport { episodes, memories, did_run: true })
}

/// The refusal, if any, to import a snapshot of identity `source_id` into
/// the store of identity `own_id`: another identity's snapshot is always
/// refused; the own identity's only without `merge`.
pub open spec fn import_refusal_spec(source_id: Seq<char>, own_id: Seq<char>, merge: bool) -> Option<Seq<char>> {
    if source_id != own_id {
        Some(
            "Snapshot belongs to a different identity ("@ + source_id
                + "). Refusing to merge distinct identities."@,
        )
    } else if !merge {
        Some(
            "Identity '"@ + own_id
                + "' already exists and --merge was not specified. Use --merge to import without overwriting existing data."@,
        )
    } else {
        None
    }
}

/// Whether a snapshot may be imported (`None`), or why not.
pub fn import_refusal(source_id: &str, own_id: &str, merge: bool) -> (r: Option<String>)
    ensures
        match import_refusal_spec(source_id@, own_id@, merge) {
            Some(m) => r matches Some(x) && x@ == m,
            None => r is None,
        },
{
    if !str_eq(source_id, own_id) {
        let mut m = chars_of("Snapshot belongs to a different identity (");
        push_lit(&mut m, source_id);
        push_lit(&mut m, "). Refusing to merge distinct identities.");
        Some(string_of(&m))
    } else if !merge {
        let mut m = chars_of("Identity '");
        push_lit(&mut m, own_id);
        push_lit(
            &mut m,
            "' already exists and --merge was not specified. Use --merge to import without overwriting existing data.",
        );
        Some(string_of(&m))
    } else {
        None
    }
}

/// The episode recorded when a session is closed, if any: only closing a
/// session that was still open records one, with the session's summary or,
/// lacking one, a fixed note.
pub fn session_close_episode(closed_an_open_session: bool, summary: Option<&str>) -> (r: Option<String>)
    ensures
        !closed_an_open_session ==> r is None,
        closed_an_open_session ==> (r matches Some(x) && x@ == (match summary {
            Some(s) => s@,
            None => "session closed without summary"@,
        })),
{
    if !closed_an_open_session {
        return None;
    }
    match summary {
        Some(s) => Some(string_of(&chars_of(s))),
        None => Some(string_of(&chars_of("session closed without summary"))),
    }
}

/// The category of the human-curated core charter's memories.
pub const PRINCIPLE_CATEGORY: &'static str = "principle";

/// What a curator proposal asks for.
#[derive(Debug, Clone, Copy, PartialEq, Eq, Structural)]
pub enum CuratorAction {
    Add,
    Update,
    Delete,
    Noop,
}

/// What applying a curator proposal does to the store.
#[derive(Debug, PartialEq, Eq)]
pub enum CuratorStep {
    /// Nothing (the proposal is refused or empty).
    Skip,
    /// Save a new reflection memory.
    Add { category: String, content: String },
    /// Rewrite memory `target_id`.
    Update { target_id: String, category: String, content: String },
    /// Delete memory `target_id`.
    Delete { target_id: String },
}

/// The step in plain values: (kind 0 skip / 1 add / 2 update / 3 delete,
/// target, category, content).
pub open spec fn curator_step_view(s: CuratorStep) -> (int, Seq<char>, Seq<char>, Seq<char>) {
    match s {
        CuratorStep::Skip => (0, Seq::empty(), Seq::empty(), Seq::empty()),
        CuratorStep::Add { category, content } => (1, Seq::empty(), category@, content@),
        CuratorStep::Update { target_id, category, content } => (2, target_id@, category@, content@),
        CuratorStep::Delete { target_id } => (3, target_id@, Seq::empty(), Seq::empty()),
    }
}

/// The curator's rule: a proposal with a blank category or content, or one
/// in the principle category, or one that targets a principle memory
/// (`target_category`, the stored category of the target memory, `None`
/// when no such memory exists), is skipped: the core charter is never
/// touched by the curator. Otherwise add saves, and update and delete act on
/// their target only when it names a stored memory, doing nothing without
/// one; category and content are trimmed.
pub open spec fn curator_step_spec(
    action: CuratorAction,
    category: Seq<char>,
    content: Seq<char>,
    target_id: Option<Seq<char>>,
    target_category: Option<Seq<char>>,
) -> (int, Seq<char>, Seq<char>, Seq<char>) {
    let cat = trim(category);
    let con = trim(content);
    let skip = (0int, Seq::<char>::empty(), Seq::<char>::empty(), Seq::<char>::empty());
    if cat.len() == 0 || con.len() == 0 || cat == "principle"@ {
        skip
    } else {
        match action {
            CuratorAction::Add => (1, Seq::empty(), cat, con),
            CuratorAction::Noop => skip,
            CuratorAction::Update => match (target_id, target_category) {
                (Some(t), Some(c)) => if c == "principle"@ {
                    skip
                } else {
                    (2, t, cat, con)
                },
                _ => skip,
            },
            CuratorAction::Delete => match (target_id, target_category) {
                (Some(t), Some(c)) => if c == "principle"@ {
                    skip
                } else {
                    (3, t, Seq::empty(), Seq::empty())
                },
                _ => skip,
            },
        }
    }
}

/// Decides what a curator proposal does.
pub fn curator_step(
    action: CuratorAction,
    category: &str,
    content: &str,
    target_id: Option<&str>,
    target_category: Option<&str>,
) -> (r: CuratorStep)
    ensures
        curator_step_view(r) == curator_step_spec(
            action,
            category@,
            content@,
            match target_id {
                Some(t) => Some(t@),
                None => None,
            },
            match target_category {
                Some(c) => Some(c@),
                None => None,
            },
        ),
{
    let cat = trim_chars(&chars_of(category));
    let con = trim_chars(&chars_of(content));
    if cat.len() == 0 || con.len() == 0 || crate::text::eq_lit(&cat, PRINCIPLE_CATEGORY) {
        return CuratorStep::Skip;
    }
    let target_ok = match target_category {
        Some(c) => !str_eq(c, PRINCIPLE_CATEGORY),
        None => false,
    };
    match action {
        CuratorAction::Add => CuratorStep::Add { category: string_of(&cat), content: string_of(&con) },
        CuratorAction::Noop => CuratorStep::Skip,
        CuratorAction::Update => match target_id {
            None => CuratorStep::Skip,
            Some(t) => if !target_ok {
                CuratorStep::Skip
            } else {
                CuratorStep::Update {
                    target_id: string_of(&chars_of(t)),
                    category: string_of(&cat),
                    content: string_of(&con),
                }
            },
        },
        CuratorAction::Delete => match target_id {
            None => CuratorStep::Skip,
            Some(t) => if !target_ok {
                CuratorStep::Skip
            } else {
                CuratorStep::Delete { target_id: string_of(&chars_of(t)) }
            },
        },
    }
}

/// The core charter is never touched by the curator: whatever a proposal
/// asks, it adds, rewrites or deletes nothing in the principle category,
/// and it never rewrites or deletes a principle memory.
pub proof fn law_curator_never_touches_principles(
    action: CuratorAction,
    category: Seq<char>,
    content: Seq<char>,
    target_id: Option<Seq<char>>,
    target_category: Option<Seq<char>>,
)
    ensures
        curator_step_spec(action, category, content, target_id, target_category).0 != 0 ==> trim(
            category,
        ) != "principle"@,
        target_category == Some("principle"@) ==> curator_step_spec(
            action,
            category,
            content,
            target_id,
            target_category,
        ).0 == 0 || curator_step_spec(action, category, content, target_id, target_category).0
            == 1,
{
}

} // verus!
