//! The system prompt: the operator directive first, then the global user
//! context, the per-repo context and the memories.

use vstd::prelude::*;
use crate::text::{chars_of, is_blank, join, join_exec, push_lit, string_of, trim_chars, views};
use crate::types::Memory;

verus! {

/// The "senseful full automation" operator directive: the baseline of the
/// operator-plane system prompt.
pub const OPERATOR_DIRECTIVE: &'static str = "You are regin, an autonomous operator of this Linux machine. Keep it at its to-be state with *senseful* full automation: act directly on safe, reversible fixes; stage risky or destructive changes for human approval; escalate what is beyond your control. Minimise cost while holding reliability — prefer cheap, deterministic checks over repeated LLM judgement, and never cross the global red-lines (the safety substrate, your own governance, or catastrophic host actions).";

/// The closing note of the memories section.
pub open spec fn memory_hint() -> Seq<char> {
    "You have a memory system. When you learn something important, want to remember a preference, notice a pattern, or develop a useful skill, tell the user you'd like to save it. The user can then run:\n\nregin memory save <category> \"<content>\"\n\nCategories: preference, fact, skill, pattern, project, person"@
}

/// A context section when its text is not blank.
pub open spec fn section(label: Seq<char>, text: Option<&str>) -> Seq<Seq<char>> {
    match text {
        Some(t) => if is_blank(t@) {
            Seq::empty()
        } else {
            seq!["## "@ + label + "\n\n"@ + t@]
        },
        None => Seq::empty(),
    }
}

/// The memories section: a heading, one `[category] content` line per
/// memory, an empty part and the note on saving memories; nothing when there
/// are no memories.
pub open spec fn memories_section(memories: Seq<Memory>) -> Seq<Seq<char>> {
    if memories.len() == 0 {
        Seq::empty()
    } else {
        seq!["## Memories\n"@] + memories.map_values(
            |m: Memory| "["@ + m.category@ + "] "@ + m.content@,
        ) + seq![Seq::<char>::empty(), memory_hint()]
    }
}

/// The prompt's parts, joined by blank lines.
pub open spec fn prompt_parts(
    user_context: Option<&str>,
    repo_context: Option<&str>,
    memories: Seq<Memory>,
) -> Seq<Seq<char>> {
    seq![OPERATOR_DIRECTIVE@] + section("user context"@, user_context) + section(
        "repo context"@,
        repo_context,
    ) + memories_section(memories)
}

fn push_section(parts: &mut Vec<Vec<char>>, label: &str, text: Option<&str>)
    ensures
        views(final(parts)@) == views(old(parts)@) + section(label@, text),
{
    match text {
        Some(t) => {
            if trim_chars(&chars_of(t)).len() > 0 {
                let mut p = chars_of("## ");
                push_lit(&mut p, label);
                push_lit(&mut p, "\n\n");
                push_lit(&mut p, t);
                let ghost o = views(parts@);
                parts.push(p);
                assert(views(parts@) =~= o + seq![p@]);
            } else {
                assert(views(parts@) =~= views(parts@) + Seq::<Seq<char>>::empty());
            }
        },
        None => {
            assert(views(parts@) =~= views(parts@) + Seq::<Seq<char>>::empty());
        },
    }
}

/// Builds the system prompt from the global user context (the text of the
/// user's context file, if it has one), the repo context already resolved by
/// the caller, and the memories. Blank contexts are left out.
pub fn build_system_prompt(user_context: Option<&str>, repo_context: Option<&str>, memories: &[Memory]) -> (r:
    Option<String>)
    ensures
        r matches Some(p) && p@ == join(prompt_parts(user_context, repo_context, memories@), "\n\n"@),
{
    let mut parts: Vec<Vec<char>> = Vec::new();
    parts.push(chars_of(OPERATOR_DIRECTIVE));
    assert(views(parts@) =~= seq![OPERATOR_DIRECTIVE@]);
    push_section(&mut parts, "user context", user_context);
    push_section(&mut parts, "repo context", repo_context);
    let ghost base = views(parts@);
    if memories.len() > 0 {
        parts.push(chars_of("## Memories\n"));
        let mut i: usize = 0;
        while i < memories.len()
            invariant
                i <= memories@.len(),
                views(parts@) == base + seq!["## Memories\n"@] + memories@.subrange(0, i as int).map_values(
                    |m: Memory| "["@ + m.category@ + "] "@ + m.content@,
                ),
            decreases memories.len() - i,
        {
            let mut line = chars_of("[");
            push_lit(&mut line, memories[i].category.as_str());
            push_lit(&mut line, "] ");
            push_lit(&mut line, memories[i].content.as_str());
            let ghost o = views(parts@);
            parts.push(line);
            assert(views(parts@) =~= o.push(line@));
            assert(memories@.subrange(0, i + 1).map_values(
                |m: Memory| "["@ + m.category@ + "] "@ + m.content@,
            ) =~= memories@.subrange(0, i as int).map_values(
                |m: Memory| "["@ + m.category@ + "] "@ + m.content@,
            ).push("["@ + memories@[i as int].category@ + "] "@ + memories@[i as int].content@));
            i = i + 1;
        }
        assert(memories@.subrange(0, memories@.len() as int) =~= memories@);
        let ghost o2 = views(parts@);
        parts.push(Vec::new());
        parts.push(
            chars_of(
                "You have a memory system. When you learn something important, want to remember a preference, notice a pattern, or develop a useful skill, tell the user you'd like to save it. The user can then run:\n\nregin memory save <category> \"<content>\"\n\nCategories: preference, fact, skill, pattern, project, person",
            ),
        );
        assert(views(parts@) =~= o2 + seq![Seq::<char>::empty(), memory_hint()]);
    } else {
        assert(views(parts@) =~= base + memories_section(memories@));
    }
    assert(views(parts@) =~= prompt_parts(user_context, repo_context, memories@));
    Some(string_of(&join_exec(&parts, "\n\n")))
}

} // verus!
