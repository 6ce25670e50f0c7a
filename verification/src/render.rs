//! `data -> String` renderers for the command-line views.
//!
//! Each renderer takes already-fetched data and returns the exact text block
//! printed for it (plain text, no colouring).

use vstd::prelude::*;
use vstd::string::StringSliceAdditionalSpecFns;
use vstd::utf8::{decode_utf8, encode_utf8, encode_utf8_decode_utf8, is_char_boundary};
use crate::text::{
    bool_str, chars_of, concat_map, dec_int, dec_nat, fmt_i64, fmt_u64, lemma_concat_map_step,
    lemma_subrange_full, pad, push_all, debug_quoted, debug_str, chars_list, copy_chars, join,
    join_exec, lines, lines_exec, names, take_chars, take_chars_exec, views, push_bool, push_lit, push_nat, push_padded, string_of,
};
use crate::audit::Finding;
use crate::desired::DesiredInfo;
use crate::filters::FilterRule;
use crate::greeting::{ActionItem, Greeting};
use crate::types::{
    Change, DerivedCheck, Incident, Memory, Principle, Problem, ProblemHypothesis, Response,
    Schedule, SkillInfo, TaskRun, ValueEntry,
};

verus! {

/// The byte length a short id is cut to (at most 8 bytes).
pub open spec fn sid_len(s: Seq<char>) -> int {
    let n = encode_utf8(s).len();
    if n < 8 {
        n as int
    } else {
        8
    }
}

/// The cut falls on a character boundary (else slicing panics).
pub open spec fn sid_ok(s: Seq<char>) -> bool {
    encode_utf8(s).len() <= usize::MAX && is_char_boundary(encode_utf8(s), sid_len(s))
}

/// The short id: the first `min(8, len)` bytes of the UTF-8 encoding.
pub open spec fn sid_spec(s: Seq<char>) -> Seq<char> {
    decode_utf8(encode_utf8(s).subrange(0, sid_len(s)))
}

/// Short id prefix used throughout the list views (first 8 bytes).
pub fn sid(id: &str) -> (r: &str)
    requires
        sid_ok(id@),
    ensures
        r@ == sid_spec(id@),
{
    let n = id.len();
    assert(id.spec_bytes() == encode_utf8(id@));
    assert(n == encode_utf8(id@).len());
    let m = if n < 8 {
        n
    } else {
        8
    };
    let (head, _) = id.split_at(m);
    proof {
        assert(head.spec_bytes() == encode_utf8(head@));
        encode_utf8_decode_utf8(head@);
    }
    head
}

/// `secs` as a compact duration (`30s`, `1m`, `1h1m`, `1d1h`).
pub open spec fn fmt_secs_spec(secs: int) -> Seq<char> {
    if secs < 60 {
        dec_int(secs) + "s"@
    } else if secs < 3600 {
        dec_int(secs / 60) + "m"@
    } else if secs < 86400 {
        dec_int(secs / 3600) + "h"@ + dec_int((secs % 3600) / 60) + "m"@
    } else {
        dec_int(secs / 86400) + "d"@ + dec_int((secs % 86400) / 3600) + "h"@
    }
}

/// Formats a duration in seconds.
pub fn fmt_secs(secs: i64) -> (r: String)
    ensures
        r@ == fmt_secs_spec(secs as int),
{
    let mut out: Vec<char>;
    if secs < 60 {
        out = fmt_i64(secs);
        push_lit(&mut out, "s");
    } else if secs < 3600 {
        out = fmt_i64(secs / 60);
        push_lit(&mut out, "m");
    } else if secs < 86400 {
        out = fmt_i64(secs / 3600);
        push_lit(&mut out, "h");
        push_all(&mut out, &fmt_i64((secs % 3600) / 60));
        push_lit(&mut out, "m");
    } else {
        out = fmt_i64(secs / 86400);
        push_lit(&mut out, "d");
        push_all(&mut out, &fmt_i64((secs % 86400) / 3600));
        push_lit(&mut out, "h");
    }
    string_of(&out)
}

/// `✓ <message>`.
pub fn render_ok(message: &str) -> (r: String)
    ensures
        r@ == "✓ "@ + message@ + "\n"@,
{
    let mut out = chars_of("✓ ");
    push_lit(&mut out, message);
    push_lit(&mut out, "\n");
    string_of(&out)
}

/// Daemon liveness.
pub fn render_ping(up: bool) -> (r: String)
    ensures
        r@ == (if up {
            "regind is running ✓\n"@
        } else {
            "regind is not reachable\n"@
        }),
{
    if up {
        string_of(&chars_of("regind is running ✓\n"))
    } else {
        string_of(&chars_of("regind is not reachable\n"))
    }
}

/// Byte-addressed masking of a secret: its first 4 and last 4 bytes.
pub open spec fn mask_ok(v: Seq<char>) -> bool {
    let b = encode_utf8(v);
    &&& b.len() <= usize::MAX
    &&& b.len() > 8 ==> is_char_boundary(b, 4) && is_char_boundary(b, b.len() - 4)
}

/// `abcd…wxyz` for a secret longer than 8 bytes.
pub open spec fn mask_spec(v: Seq<char>) -> Seq<char> {
    let b = encode_utf8(v);
    decode_utf8(b.subrange(0, 4)) + "…"@ + decode_utf8(b.subrange(b.len() - 4, b.len() as int))
}

fn mask(value: &str) -> (r: Vec<char>)
    requires
        encode_utf8(value@).len() > 8,
        mask_ok(value@),
    ensures
        r@ == mask_spec(value@),
{
    let n = value.len();
    assert(value.spec_bytes() == encode_utf8(value@));
    let (head, _) = value.split_at(4);
    let (_, tail) = value.split_at(n - 4);
    proof {
        assert(head.spec_bytes() == encode_utf8(head@));
        assert(tail.spec_bytes() == encode_utf8(tail@));
        encode_utf8_decode_utf8(head@);
        encode_utf8_decode_utf8(tail@);
    }
    let mut out = chars_of(head);
    push_lit(&mut out, "…");
    push_lit(&mut out, tail);
    out
}

/// What the settings view shows for `value` under `key`: secrets under an
/// `api_key` key are masked (or starred when short).
pub open spec fn config_display(key: Seq<char>, value: Seq<char>) -> Seq<char> {
    if crate::text::contains(key, "api_key"@) && encode_utf8(value).len() > 8 {
        mask_spec(value)
    } else if crate::text::contains(key, "api_key"@) && value.len() > 0 {
        "****"@
    } else {
        value
    }
}

/// One settings line.
pub open spec fn config_line(e: (String, String)) -> Seq<char> {
    "  "@ + pad(e.0@, 25) + config_display(e.0@, e.1@) + "\n"@
}

pub open spec fn config_line_fn() -> spec_fn((String, String)) -> Seq<char> {
    |e: (String, String)| config_line(e)
}

/// The settings view.
pub fn render_config_entries(entries: &[(String, String)]) -> (r: String)
    requires
        forall|i: int| 0 <= i < entries@.len() ==> mask_ok((#[trigger] entries@[i]).1@),
    ensures
        r@ == "Settings:\n"@ + concat_map(entries@, config_line_fn()),
{
    let mut out = chars_of("Settings:\n");
    let ghost head = out@;
    let mut i: usize = 0;
    while i < entries.len()
        invariant
            i <= entries.len(),
            forall|k: int| 0 <= k < entries@.len() ==> mask_ok((#[trigger] entries@[k]).1@),
            out@ == head + concat_map(entries@.subrange(0, i as int), config_line_fn()),
        decreases entries.len() - i,
    {
        let key = &entries[i].0;
        let value = &entries[i].1;
        let mut line = chars_of("  ");
        push_padded(&mut line, key.as_str(), 25);
        let kc = chars_of(key.as_str());
        let is_secret = crate::text::contains_lit(&kc, "api_key");
        if is_secret && value.as_str().len() > 8 {
            assert(mask_ok(entries@[i as int].1@));
            push_all(&mut line, &mask(value.as_str()));
        } else if is_secret && !value.as_str().is_empty() {
            push_lit(&mut line, "****");
        } else {
            push_lit(&mut line, value.as_str());
        }
        push_lit(&mut line, "\n");
        proof {
            lemma_concat_map_step(entries@, config_line_fn(), i as int);
        }
        push_all(&mut out, &line);
        i = i + 1;
    }
    proof {
        lemma_subrange_full(entries@);
    }
    string_of(&out)
}

/// A single setting value (secrets under an `api_key` key masked).
pub fn render_config_value(key: &str, value: &str) -> (r: String)
    requires
        mask_ok(value@),
    ensures
        r@ == (if crate::text::contains(key@, "api_key"@) && encode_utf8(value@).len() > 8 {
            mask_spec(value@)
        } else {
            value@
        }) + "\n"@,
{
    let kc = chars_of(key);
    let mut out = if crate::text::contains_lit(&kc, "api_key") && value.len() > 8 {
        mask(value)
    } else {
        chars_of(value)
    };
    push_lit(&mut out, "\n");
    string_of(&out)
}


// ---------------------------------------------------------------------------
// Tasks, schedules, runs
// ---------------------------------------------------------------------------

pub open spec fn task_line(s: SkillInfo) -> Seq<char> {
    "  "@ + pad(s.name@, 20) + "["@ + pad(s.source@, 6) + "] "@ + s.description@ + "\n"@
}

pub open spec fn task_line_fn() -> spec_fn(SkillInfo) -> Seq<char> {
    |s: SkillInfo| task_line(s)
}

/// The task (skill) list.
pub fn render_task_list(skills: &[SkillInfo]) -> (r: String)
    ensures
        r@ == (if skills@.len() == 0 {
            "No tasks found.\n  Add skills to ~/.config/regin/skills/ or /usr/share/regin/skills/\n"@
        } else {
            "Tasks ("@ + dec_nat(skills@.len()) + "):\n"@ + concat_map(skills@, task_line_fn())
        }),
{
    if skills.len() == 0 {
        return string_of(
            &chars_of(
                "No tasks found.\n  Add skills to ~/.config/regin/skills/ or /usr/share/regin/skills/\n",
            ),
        );
    }
    let mut out = chars_of("Tasks (");
    push_nat(&mut out, skills.len() as u64);
    push_lit(&mut out, "):\n");
    let ghost head = out@;
    let mut i: usize = 0;
    while i < skills.len()
        invariant
            i <= skills@.len(),
            out@ == head + concat_map(skills@.subrange(0, i as int), task_line_fn()),
        decreases skills.len() - i,
    {
        let s = &skills[i];
        let mut line = chars_of("  ");
        push_padded(&mut line, s.name.as_str(), 20);
        push_lit(&mut line, "[");
        push_padded(&mut line, s.source.as_str(), 6);
        push_lit(&mut line, "] ");
        push_lit(&mut line, s.description.as_str());
        push_lit(&mut line, "\n");
        proof {
            lemma_concat_map_step(skills@, task_line_fn(), i as int);
        }
        push_all(&mut out, &line);
        i = i + 1;
    }
    proof {
        lemma_subrange_full(skills@);
    }
    string_of(&out)
}

pub open spec fn bullet_line(f: String) -> Seq<char> {
    "  • "@ + f@ + "\n"@
}

pub open spec fn bullet_line_fn() -> spec_fn(String) -> Seq<char> {
    |f: String| bullet_line(f)
}

/// One task's definition and supporting files.
pub fn render_task_show(name: &str, description: &str, prompt: &str, files: &[String]) -> (r: String)
    ensures
        r@ == "Task: "@ + name@ + "\n  "@ + description@ + "\n\n— prompt —\n"@ + prompt@ + "\n"@ + (
        if files@.len() == 0 {
            Seq::empty()
        } else {
            "Supporting files ("@ + dec_nat(files@.len()) + "):\n"@ + concat_map(
                files@,
                bullet_line_fn(),
            )
        }),
{
    let mut out = chars_of("Task: ");
    push_lit(&mut out, name);
    push_lit(&mut out, "\n  ");
    push_lit(&mut out, description);
    push_lit(&mut out, "\n\n— prompt —\n");
    push_lit(&mut out, prompt);
    push_lit(&mut out, "\n");
    if files.len() > 0 {
        push_lit(&mut out, "Supporting files (");
        push_nat(&mut out, files.len() as u64);
        push_lit(&mut out, "):\n");
        let ghost head = out@;
        let mut i: usize = 0;
        while i < files.len()
            invariant
                i <= files@.len(),
                out@ == head + concat_map(files@.subrange(0, i as int), bullet_line_fn()),
            decreases files.len() - i,
        {
            let mut line = chars_of("  • ");
            push_lit(&mut line, files[i].as_str());
            push_lit(&mut line, "\n");
            proof {
                lemma_concat_map_step(files@, bullet_line_fn(), i as int);
            }
            push_all(&mut out, &line);
            i = i + 1;
        }
        proof {
            lemma_subrange_full(files@);
        }
    }
    string_of(&out)
}

pub open spec fn schedule_line(s: Schedule) -> Seq<char> {
    "  "@ + pad(s.skill@, 20) + "  "@ + pad(s.interval@, 10) + "  next: "@ + s.next_run@ + (
    match s.last_run {
        Some(l) => "  last: "@ + l@,
        None => Seq::empty(),
    }) + "\n"@
}

pub open spec fn schedule_line_fn() -> spec_fn(Schedule) -> Seq<char> {
    |s: Schedule| schedule_line(s)
}

/// Active schedules.
pub fn render_schedules(schedules: &[Schedule]) -> (r: String)
    ensures
        r@ == (if schedules@.len() == 0 {
            "No active schedules.\n"@
        } else {
            "Schedules ("@ + dec_nat(schedules@.len()) + "):\n"@ + concat_map(
                schedules@,
                schedule_line_fn(),
            )
        }),
{
    if schedules.len() == 0 {
        return string_of(&chars_of("No active schedules.\n"));
    }
    let mut out = chars_of("Schedules (");
    push_nat(&mut out, schedules.len() as u64);
    push_lit(&mut out, "):\n");
    let ghost head = out@;
    let mut i: usize = 0;
    while i < schedules.len()
        invariant
            i <= schedules@.len(),
            out@ == head + concat_map(schedules@.subrange(0, i as int), schedule_line_fn()),
        decreases schedules.len() - i,
    {
        let s = &schedules[i];
        let mut line = chars_of("  ");
        push_padded(&mut line, s.skill.as_str(), 20);
        push_lit(&mut line, "  ");
        push_padded(&mut line, s.interval.as_str(), 10);
        push_lit(&mut line, "  next: ");
        push_lit(&mut line, s.next_run.as_str());
        match &s.last_run {
            Some(l) => {
                push_lit(&mut line, "  last: ");
                push_lit(&mut line, l.as_str());
            },
            None => {},
        }
        push_lit(&mut line, "\n");
        proof {
            lemma_concat_map_step(schedules@, schedule_line_fn(), i as int);
        }
        push_all(&mut out, &line);
        i = i + 1;
    }
    proof {
        lemma_subrange_full(schedules@);
    }
    string_of(&out)
}

/// The first line of a text, if it has any (`lines().next()`).
pub open spec fn first_line(s: Seq<char>) -> Option<Seq<char>> {
    let ls = crate::text::lines(s);
    if ls.len() > 0 {
        Some(ls[0])
    } else {
        None
    }
}

pub open spec fn run_line(r: TaskRun) -> Seq<char> {
    "  "@ + r.started_at@ + " | "@ + pad(r.skill_name@, 20) + " | "@ + r.status@ + "\n"@ + (
    match first_line(r.output@) {
        Some(f) => "    "@ + crate::text::take_chars(f, 100) + "\n"@,
        None => Seq::empty(),
    })
}

pub open spec fn run_line_fn() -> spec_fn(TaskRun) -> Seq<char> {
    |r: TaskRun| run_line(r)
}

/// Recent task runs with a one-line output preview (at most 100 chars).
pub fn render_runs(runs: &[TaskRun]) -> (r: String)
    ensures
        r@ == (if runs@.len() == 0 {
            "No task runs found.\n"@
        } else {
            "Task runs ("@ + dec_nat(runs@.len()) + "):\n"@ + concat_map(runs@, run_line_fn())
        }),
{
    if runs.len() == 0 {
        return string_of(&chars_of("No task runs found.\n"));
    }
    let mut out = chars_of("Task runs (");
    push_nat(&mut out, runs.len() as u64);
    push_lit(&mut out, "):\n");
    let ghost head = out@;
    let mut i: usize = 0;
    while i < runs.len()
        invariant
            i <= runs@.len(),
            out@ == head + concat_map(runs@.subrange(0, i as int), run_line_fn()),
        decreases runs.len() - i,
    {
        let r = &runs[i];
        let mut line = chars_of("  ");
        push_lit(&mut line, r.started_at.as_str());
        push_lit(&mut line, " | ");
        push_padded(&mut line, r.skill_name.as_str(), 20);
        push_lit(&mut line, " | ");
        push_lit(&mut line, r.status.as_str());
        push_lit(&mut line, "\n");
        let ls = crate::text::lines_exec(&chars_of(r.output.as_str()));
        if ls.len() > 0 {
            assert(crate::text::views(ls@)[0] == ls@[0]@);
            push_lit(&mut line, "    ");
            push_all(&mut line, &crate::text::take_chars_exec(&ls[0], 100));
            push_lit(&mut line, "\n");
        }
        proof {
            lemma_concat_map_step(runs@, run_line_fn(), i as int);
        }
        push_all(&mut out, &line);
        i = i + 1;
    }
    proof {
        lemma_subrange_full(runs@);
    }
    string_of(&out)
}

/// The outcome of one task execution.
pub fn render_task_result(run: &TaskRun) -> (r: String)
    ensures
        r@ == "\nStatus: "@ + run.status@ + "\n\n"@ + run.output@ + "\n"@,
{
    let mut out = chars_of("\nStatus: ");
    push_lit(&mut out, run.status.as_str());
    push_lit(&mut out, "\n\n");
    push_lit(&mut out, run.output.as_str());
    push_lit(&mut out, "\n");
    string_of(&out)
}

/// Confirmation that a skill file was created.
pub fn render_task_created(name: &str, path: &str, shadows_system: bool) -> (r: String)
    ensures
        r@ == "✓ Created skill '"@ + name@ + "' at "@ + path@ + "\n"@ + (if shadows_system {
            "  note: this user skill shadows a system skill named '"@ + name@ + "'\n"@
        } else {
            Seq::empty()
        }),
{
    let mut out = chars_of("✓ Created skill '");
    push_lit(&mut out, name);
    push_lit(&mut out, "' at ");
    push_lit(&mut out, path);
    push_lit(&mut out, "\n");
    if shadows_system {
        push_lit(&mut out, "  note: this user skill shadows a system skill named '");
        push_lit(&mut out, name);
        push_lit(&mut out, "'\n");
    }
    string_of(&out)
}

// ---------------------------------------------------------------------------
// Memory / identity
// ---------------------------------------------------------------------------

pub open spec fn memory_line(m: Memory) -> Seq<char> {
    "  "@ + sid_spec(m.id@) + "  ["@ + pad(m.category@, 10) + "] "@ + m.content@ + "\n"@
}

pub open spec fn memory_list_line(m: Memory) -> Seq<char> {
    memory_line(m) + (if m.source@ == "reflection"@ {
        "            ⟳ reflection · strength "@ + dec_int(m.strength as int) + "\n"@
    } else {
        Seq::empty()
    })
}

pub open spec fn memory_line_fn() -> spec_fn(Memory) -> Seq<char> {
    |m: Memory| memory_line(m)
}

pub open spec fn memory_list_line_fn() -> spec_fn(Memory) -> Seq<char> {
    |m: Memory| memory_list_line(m)
}

fn memory_line_exec(m: &Memory) -> (r: Vec<char>)
    requires
        sid_ok(m.id@),
    ensures
        r@ == memory_line(*m),
{
    let mut line = chars_of("  ");
    push_lit(&mut line, sid(m.id.as_str()));
    push_lit(&mut line, "  [");
    push_padded(&mut line, m.category.as_str(), 10);
    push_lit(&mut line, "] ");
    push_lit(&mut line, m.content.as_str());
    push_lit(&mut line, "\n");
    line
}

/// Stored memories; reflection-sourced ones show their strength.
pub fn render_memory_list(memories: &[Memory]) -> (r: String)
    requires
        forall|i: int| 0 <= i < memories@.len() ==> sid_ok((#[trigger] memories@[i]).id@),
    ensures
        r@ == (if memories@.len() == 0 {
            "No memories stored.\n  Save one with: regin memory save <category> '<content>'\n"@
        } else {
            "Memories ("@ + dec_nat(memories@.len()) + "):\n"@ + concat_map(
                memories@,
                memory_list_line_fn(),
            )
        }),
{
    if memories.len() == 0 {
        return string_of(
            &chars_of(
                "No memories stored.\n  Save one with: regin memory save <category> '<content>'\n",
            ),
        );
    }
    let mut out = chars_of("Memories (");
    push_nat(&mut out, memories.len() as u64);
    push_lit(&mut out, "):\n");
    let ghost head = out@;
    let mut i: usize = 0;
    while i < memories.len()
        invariant
            i <= memories@.len(),
            forall|k: int| 0 <= k < memories@.len() ==> sid_ok((#[trigger] memories@[k]).id@),
            out@ == head + concat_map(memories@.subrange(0, i as int), memory_list_line_fn()),
        decreases memories.len() - i,
    {
        let m = &memories[i];
        let mut line = memory_line_exec(m);
        if crate::text::str_eq(m.source.as_str(), "reflection") {
            push_lit(&mut line, "            ⟳ reflection · strength ");
            push_all(&mut line, &fmt_i64(m.strength));
            push_lit(&mut line, "\n");
        }
        proof {
            lemma_concat_map_step(memories@, memory_list_line_fn(), i as int);
        }
        push_all(&mut out, &line);
        i = i + 1;
    }
    proof {
        lemma_subrange_full(memories@);
    }
    string_of(&out)
}

/// Memory search hits.
pub fn render_memory_search(memories: &[Memory]) -> (r: String)
    requires
        forall|i: int| 0 <= i < memories@.len() ==> sid_ok((#[trigger] memories@[i]).id@),
    ensures
        r@ == (if memories@.len() == 0 {
            "No matching memories.\n"@
        } else {
            concat_map(memories@, memory_line_fn())
        }),
{
    if memories.len() == 0 {
        return string_of(&chars_of("No matching memories.\n"));
    }
    let mut out: Vec<char> = Vec::new();
    let mut i: usize = 0;
    while i < memories.len()
        invariant
            i <= memories@.len(),
            forall|k: int| 0 <= k < memories@.len() ==> sid_ok((#[trigger] memories@[k]).id@),
            out@ == concat_map(memories@.subrange(0, i as int), memory_line_fn()),
        decreases memories.len() - i,
    {
        let line = memory_line_exec(&memories[i]);
        proof {
            lemma_concat_map_step(memories@, memory_line_fn(), i as int);
        }
        push_all(&mut out, &line);
        i = i + 1;
    }
    proof {
        lemma_subrange_full(memories@);
    }
    string_of(&out)
}

/// The identity summary.
pub fn render_memory_info(
    identity_id: &str,
    name: &str,
    host: &str,
    schema_version: &str,
    memory_count: i64,
    created_at: &str,
) -> (r: String)
    ensures
        r@ == "Identity:    "@ + identity_id@ + "\nName:        "@ + name@ + "\nHost:        "@
            + host@ + "\nSchema:      "@ + schema_version@ + "\nMemories:    "@ + dec_int(
            memory_count as int,
        ) + "\nCreated:     "@ + created_at@ + "\n"@,
{
    let mut out = chars_of("Identity:    ");
    push_lit(&mut out, identity_id);
    push_lit(&mut out, "\nName:        ");
    push_lit(&mut out, name);
    push_lit(&mut out, "\nHost:        ");
    push_lit(&mut out, host);
    push_lit(&mut out, "\nSchema:      ");
    push_lit(&mut out, schema_version);
    push_lit(&mut out, "\nMemories:    ");
    push_all(&mut out, &fmt_i64(memory_count));
    push_lit(&mut out, "\nCreated:     ");
    push_lit(&mut out, created_at);
    push_lit(&mut out, "\n");
    string_of(&out)
}

/// Reflection counters.
pub fn render_reflect_stats(episodes: u32, reinforced: u32, created: u32, decayed: u32) -> (r: String)
    ensures
        r@ == "✓ Reflection: "@ + dec_nat(episodes as nat) + " episodes → "@ + dec_nat(
            reinforced as nat,
        ) + " reinforced, "@ + dec_nat(created as nat) + " new, "@ + dec_nat(decayed as nat)
            + " decayed\n"@,
{
    let mut out = chars_of("✓ Reflection: ");
    push_nat(&mut out, episodes as u64);
    push_lit(&mut out, " episodes → ");
    push_nat(&mut out, reinforced as u64);
    push_lit(&mut out, " reinforced, ");
    push_nat(&mut out, created as u64);
    push_lit(&mut out, " new, ");
    push_nat(&mut out, decayed as u64);
    push_lit(&mut out, " decayed\n");
    string_of(&out)
}

/// Confirmation of an identity export.
pub fn render_memory_export(path: &str) -> (r: String)
    ensures
        r@ == "✓ Exported identity to "@ + path@ + "\n"@,
{
    let mut out = chars_of("✓ Exported identity to ");
    push_lit(&mut out, path);
    push_lit(&mut out, "\n");
    string_of(&out)
}

/// The resolved repo and its stored context.
pub fn render_context_show(repo_key: Option<&str>, content: Option<&str>) -> (r: String)
    ensures
        r@ == (match repo_key {
            Some(k) => "repo: "@ + k@ + "\n"@,
            None => "(no repo resolved for the current directory)\n"@,
        }) + (match content {
            Some(c) => c@ + "\n"@,
            None => "  (no context stored — set one with: regin context set '<text>')\n"@,
        }),
{
    let mut out = match repo_key {
        Some(k) => {
            let mut o = chars_of("repo: ");
            push_lit(&mut o, k);
            push_lit(&mut o, "\n");
            o
        },
        None => chars_of("(no repo resolved for the current directory)\n"),
    };
    match content {
        Some(c) => {
            push_lit(&mut out, c);
            push_lit(&mut out, "\n");
        },
        None => {
            push_lit(&mut out, "  (no context stored — set one with: regin context set '<text>')\n");
        },
    }
    string_of(&out)
}

/// The effective bus mode.
pub fn render_mode(mode: &str, configured: bool, last_ok: Option<&str>, failures: u32) -> (r: String)
    ensures
        r@ == "effective mode: "@ + mode@ + "\n  bus configured: "@ + bool_str(configured)
            + "\n  last reachable: "@ + (match last_ok {
            Some(l) => l@,
            None => "never"@,
        }) + "\n  consecutive failures: "@ + dec_nat(failures as nat) + "\n"@,
{
    let mut out = chars_of("effective mode: ");
    push_lit(&mut out, mode);
    push_lit(&mut out, "\n  bus configured: ");
    push_bool(&mut out, configured);
    push_lit(&mut out, "\n  last reachable: ");
    match last_ok {
        Some(l) => push_lit(&mut out, l),
        None => push_lit(&mut out, "never"),
    }
    push_lit(&mut out, "\n  consecutive failures: ");
    push_nat(&mut out, failures as u64);
    push_lit(&mut out, "\n");
    string_of(&out)
}


// ---------------------------------------------------------------------------
// ITIL lists
// ---------------------------------------------------------------------------

/// `o`'s text, or `d` when absent.
pub open spec fn or_text(o: Option<String>, d: Seq<char>) -> Seq<char> {
    match o {
        Some(s) => s@,
        None => d,
    }
}

/// An indented detail line `            <label><text>` when `o` is present.
pub open spec fn detail_line(label: Seq<char>, o: Option<String>) -> Seq<char> {
    match o {
        Some(s) => "            "@ + label + s@ + "\n"@,
        None => Seq::empty(),
    }
}

pub open spec fn incident_line(i: Incident) -> Seq<char> {
    "  "@ + sid_spec(i.id@) + "  ["@ + pad(i.status@, 13) + "] "@ + pad(i.severity@, 8) + " "@
        + i.title@ + "\n"@ + (if i.description@.len() > 0 {
        "            "@ + i.description@ + "\n"@
    } else {
        Seq::empty()
    }) + detail_line("workaround: "@, i.workaround) + detail_line("resolution: "@, i.resolution)
}

pub open spec fn incident_line_fn() -> spec_fn(Incident) -> Seq<char> {
    |i: Incident| incident_line(i)
}

fn push_detail(dst: &mut Vec<char>, label: &str, o: &Option<String>)
    ensures
        final(dst)@ == old(dst)@ + detail_line(label@, *o),
{
    match o {
        Some(s) => {
            push_lit(dst, "            ");
            push_lit(dst, label);
            push_lit(dst, s.as_str());
            push_lit(dst, "\n");
        },
        None => {},
    }
}

fn incident_line_exec(inc: &Incident) -> (r: Vec<char>)
    requires
        sid_ok(inc.id@),
    ensures
        r@ == incident_line(*inc),
{
    let mut line = chars_of("  ");
    push_lit(&mut line, sid(inc.id.as_str()));
    push_lit(&mut line, "  [");
    push_padded(&mut line, inc.status.as_str(), 13);
    push_lit(&mut line, "] ");
    push_padded(&mut line, inc.severity.as_str(), 8);
    push_lit(&mut line, " ");
    push_lit(&mut line, inc.title.as_str());
    push_lit(&mut line, "\n");
    if !inc.description.as_str().is_empty() {
        push_lit(&mut line, "            ");
        push_lit(&mut line, inc.description.as_str());
        push_lit(&mut line, "\n");
    }
    push_detail(&mut line, "workaround: ", &inc.workaround);
    push_detail(&mut line, "resolution: ", &inc.resolution);
    line
}

/// Incidents with their description, workaround and resolution.
pub fn render_incidents(incidents: &[Incident]) -> (r: String)
    requires
        forall|k: int| 0 <= k < incidents@.len() ==> sid_ok((#[trigger] incidents@[k]).id@),
    ensures
        r@ == (if incidents@.len() == 0 {
            "No incidents.\n"@
        } else {
            concat_map(incidents@, incident_line_fn())
        }),
{
    if incidents.len() == 0 {
        return string_of(&chars_of("No incidents.\n"));
    }
    let mut out: Vec<char> = Vec::new();
    let mut i: usize = 0;
    while i < incidents.len()
        invariant
            i <= incidents@.len(),
            forall|k: int| 0 <= k < incidents@.len() ==> sid_ok((#[trigger] incidents@[k]).id@),
            out@ == concat_map(incidents@.subrange(0, i as int), incident_line_fn()),
        decreases incidents.len() - i,
    {
        let line = incident_line_exec(&incidents[i]);
        proof {
            lemma_concat_map_step(incidents@, incident_line_fn(), i as int);
        }
        push_all(&mut out, &line);
        i = i + 1;
    }
    proof {
        lemma_subrange_full(incidents@);
    }
    string_of(&out)
}

/// The short ids of a change can be cut (its own, its incident's, its problem's).
pub open spec fn change_ids_ok(c: Change) -> bool {
    &&& sid_ok(c.id@)
    &&& c.incident_id matches Some(x) ==> sid_ok(x@)
    &&& c.problem_id matches Some(x) ==> sid_ok(x@)
}

/// `            <label><short id>` for a linked item.
pub open spec fn sid_detail(label: Seq<char>, o: Option<String>) -> Seq<char> {
    match o {
        Some(x) => "            "@ + label + sid_spec(x@) + "\n"@,
        None => Seq::empty(),
    }
}

/// `            <before> -> <after>` when either side is recorded.
pub open spec fn before_after(before: Option<String>, after: Option<String>) -> Seq<char> {
    if before is Some || after is Some {
        "            "@ + or_text(before, "?"@) + " -> "@ + or_text(after, "?"@) + "\n"@
    } else {
        Seq::empty()
    }
}

pub open spec fn change_line(c: Change) -> Seq<char> {
    "  "@ + sid_spec(c.id@) + "  ["@ + pad(c.status@, 8) + "] "@ + c.title@ + "\n"@ + sid_detail(
        "incident: "@,
        c.incident_id,
    ) + sid_detail("problem: "@, c.problem_id) + before_after(c.before, c.after) + detail_line(
        "approved by "@,
        c.approved_by,
    )
}

pub open spec fn change_line_fn() -> spec_fn(Change) -> Seq<char> {
    |c: Change| change_line(c)
}

fn push_or(dst: &mut Vec<char>, o: &Option<String>, d: &str)
    ensures
        final(dst)@ == old(dst)@ + or_text(*o, d@),
{
    match o {
        Some(s) => push_lit(dst, s.as_str()),
        None => push_lit(dst, d),
    }
}

fn push_sid_detail(dst: &mut Vec<char>, label: &str, o: &Option<String>)
    requires
        o matches Some(x) ==> sid_ok(x@),
    ensures
        final(dst)@ == old(dst)@ + sid_detail(label@, *o),
{
    match o {
        Some(x) => {
            push_lit(dst, "            ");
            push_lit(dst, label);
            push_lit(dst, sid(x.as_str()));
            push_lit(dst, "\n");
        },
        None => {},
    }
}

fn push_before_after(dst: &mut Vec<char>, before: &Option<String>, after: &Option<String>)
    ensures
        final(dst)@ == old(dst)@ + before_after(*before, *after),
{
    if before.is_some() || after.is_some() {
        push_lit(dst, "            ");
        push_or(dst, before, "?");
        push_lit(dst, " -> ");
        push_or(dst, after, "?");
        push_lit(dst, "\n");
    }
}

fn change_line_exec(c: &Change) -> (r: Vec<char>)
    requires
        change_ids_ok(*c),
    ensures
        r@ == change_line(*c),
{
    let mut line = chars_of("  ");
    push_lit(&mut line, sid(c.id.as_str()));
    push_lit(&mut line, "  [");
    push_padded(&mut line, c.status.as_str(), 8);
    push_lit(&mut line, "] ");
    push_lit(&mut line, c.title.as_str());
    push_lit(&mut line, "\n");
    push_sid_detail(&mut line, "incident: ", &c.incident_id);
    push_sid_detail(&mut line, "problem: ", &c.problem_id);
    push_before_after(&mut line, &c.before, &c.after);
    push_detail(&mut line, "approved by ", &c.approved_by);
    line
}

/// Changes with their linked incident/problem, before/after and approver.
pub fn render_changes(changes: &[Change]) -> (r: String)
    requires
        forall|k: int| 0 <= k < changes@.len() ==> change_ids_ok(#[trigger] changes@[k]),
    ensures
        r@ == (if changes@.len() == 0 {
            "No changes.\n"@
        } else {
            concat_map(changes@, change_line_fn())
        }),
{
    if changes.len() == 0 {
        return string_of(&chars_of("No changes.\n"));
    }
    let mut out: Vec<char> = Vec::new();
    let mut i: usize = 0;
    while i < changes.len()
        invariant
            i <= changes@.len(),
            forall|k: int| 0 <= k < changes@.len() ==> change_ids_ok(#[trigger] changes@[k]),
            out@ == concat_map(changes@.subrange(0, i as int), change_line_fn()),
        decreases changes.len() - i,
    {
        let line = change_line_exec(&changes[i]);
        proof {
            lemma_concat_map_step(changes@, change_line_fn(), i as int);
        }
        push_all(&mut out, &line);
        i = i + 1;
    }
    proof {
        lemma_subrange_full(changes@);
    }
    string_of(&out)
}

pub open spec fn problem_line(p: Problem) -> Seq<char> {
    "  "@ + sid_spec(p.id@) + "  ["@ + pad(p.status@, 11) + "] "@ + p.title@ + "\n"@
        + detail_line("root cause: "@, p.root_cause)
}

pub open spec fn problem_line_fn() -> spec_fn(Problem) -> Seq<char> {
    |p: Problem| problem_line(p)
}

/// Problems with their root cause when known.
pub fn render_problems(problems: &[Problem]) -> (r: String)
    requires
        forall|k: int| 0 <= k < problems@.len() ==> sid_ok((#[trigger] problems@[k]).id@),
    ensures
        r@ == (if problems@.len() == 0 {
            "No problems.\n"@
        } else {
            concat_map(problems@, problem_line_fn())
        }),
{
    if problems.len() == 0 {
        return string_of(&chars_of("No problems.\n"));
    }
    let mut out: Vec<char> = Vec::new();
    let mut i: usize = 0;
    while i < problems.len()
        invariant
            i <= problems@.len(),
            forall|k: int| 0 <= k < problems@.len() ==> sid_ok((#[trigger] problems@[k]).id@),
            out@ == concat_map(problems@.subrange(0, i as int), problem_line_fn()),
        decreases problems.len() - i,
    {
        let p = &problems[i];
        let mut line = chars_of("  ");
        push_lit(&mut line, sid(p.id.as_str()));
        push_lit(&mut line, "  [");
        push_padded(&mut line, p.status.as_str(), 11);
        push_lit(&mut line, "] ");
        push_lit(&mut line, p.title.as_str());
        push_lit(&mut line, "\n");
        push_detail(&mut line, "root cause: ", &p.root_cause);
        proof {
            lemma_concat_map_step(problems@, problem_line_fn(), i as int);
        }
        push_all(&mut out, &line);
        i = i + 1;
    }
    proof {
        lemma_subrange_full(problems@);
    }
    string_of(&out)
}

pub open spec fn hypothesis_line(h: ProblemHypothesis) -> Seq<char> {
    "  "@ + sid_spec(h.id@) + "  ["@ + pad(h.status@, 10) + "] "@ + h.text@ + "\n"@
}

pub open spec fn hypothesis_line_fn() -> spec_fn(ProblemHypothesis) -> Seq<char> {
    |h: ProblemHypothesis| hypothesis_line(h)
}

/// Root-cause hypotheses of a problem.
pub fn render_hypotheses(hypotheses: &[ProblemHypothesis]) -> (r: String)
    requires
        forall|k: int| 0 <= k < hypotheses@.len() ==> sid_ok((#[trigger] hypotheses@[k]).id@),
    ensures
        r@ == (if hypotheses@.len() == 0 {
            "No hypotheses.\n"@
        } else {
            concat_map(hypotheses@, hypothesis_line_fn())
        }),
{
    if hypotheses.len() == 0 {
        return string_of(&chars_of("No hypotheses.\n"));
    }
    let mut out: Vec<char> = Vec::new();
    let mut i: usize = 0;
    while i < hypotheses.len()
        invariant
            i <= hypotheses@.len(),
            forall|k: int| 0 <= k < hypotheses@.len() ==> sid_ok((#[trigger] hypotheses@[k]).id@),
            out@ == concat_map(hypotheses@.subrange(0, i as int), hypothesis_line_fn()),
        decreases hypotheses.len() - i,
    {
        let h = &hypotheses[i];
        let mut line = chars_of("  ");
        push_lit(&mut line, sid(h.id.as_str()));
        push_lit(&mut line, "  [");
        push_padded(&mut line, h.status.as_str(), 10);
        push_lit(&mut line, "] ");
        push_lit(&mut line, h.text.as_str());
        push_lit(&mut line, "\n");
        proof {
            lemma_concat_map_step(hypotheses@, hypothesis_line_fn(), i as int);
        }
        push_all(&mut out, &line);
        i = i + 1;
    }
    proof {
        lemma_subrange_full(hypotheses@);
    }
    string_of(&out)
}


// ---------------------------------------------------------------------------
// Desired state, greeting, filters, audit
// ---------------------------------------------------------------------------

pub open spec fn conflict_line(c: String) -> Seq<char> {
    "        conflict: "@ + c@ + "\n"@
}

pub open spec fn conflict_line_fn() -> spec_fn(String) -> Seq<char> {
    |c: String| conflict_line(c)
}

pub open spec fn desired_line(d: DesiredInfo) -> Seq<char> {
    "  "@ + pad(d.domain@, 16) + "["@ + d.source.name_spec() + "] "@ + dec_nat(d.assertions as nat)
        + " assertion(s)"@ + (match d.recurrence_threshold {
        Some(rt) => ", recurrence>="@ + dec_nat(rt as nat),
        None => Seq::empty(),
    }) + "\n"@ + concat_map(d.conflicts@, conflict_line_fn())
}

pub open spec fn desired_line_fn() -> spec_fn(DesiredInfo) -> Seq<char> {
    |d: DesiredInfo| desired_line(d)
}

fn desired_line_exec(d: &DesiredInfo) -> (r: Vec<char>)
    ensures
        r@ == desired_line(*d),
{
    let mut line = chars_of("  ");
    push_padded(&mut line, d.domain.as_str(), 16);
    push_lit(&mut line, "[");
    push_lit(&mut line, d.source.name());
    push_lit(&mut line, "] ");
    push_nat(&mut line, d.assertions as u64);
    push_lit(&mut line, " assertion(s)");
    match d.recurrence_threshold {
        Some(rt) => {
            push_lit(&mut line, ", recurrence>=");
            push_nat(&mut line, rt as u64);
        },
        None => {},
    }
    push_lit(&mut line, "\n");
    let ghost head = line@;
    let mut i: usize = 0;
    while i < d.conflicts.len()
        invariant
            i <= d.conflicts@.len(),
            line@ == head + concat_map(d.conflicts@.subrange(0, i as int), conflict_line_fn()),
        decreases d.conflicts.len() - i,
    {
        push_lit(&mut line, "        conflict: ");
        push_lit(&mut line, d.conflicts[i].as_str());
        push_lit(&mut line, "\n");
        proof {
            lemma_concat_map_step(d.conflicts@, conflict_line_fn(), i as int);
        }
        i = i + 1;
    }
    proof {
        lemma_subrange_full(d.conflicts@);
    }
    line
}

/// The desired-state domains with their assertion counts and conflicts.
pub fn render_desired_list(items: &[DesiredInfo]) -> (r: String)
    ensures
        r@ == (if items@.len() == 0 {
            "No desired-state domains. Add files under ~/.config/regin/desired/<domain>.md\n"@
        } else {
            concat_map(items@, desired_line_fn())
        }),
{
    if items.len() == 0 {
        return string_of(
            &chars_of(
                "No desired-state domains. Add files under ~/.config/regin/desired/<domain>.md\n",
            ),
        );
    }
    let mut out: Vec<char> = Vec::new();
    let mut i: usize = 0;
    while i < items.len()
        invariant
            i <= items@.len(),
            out@ == concat_map(items@.subrange(0, i as int), desired_line_fn()),
        decreases items.len() - i,
    {
        let line = desired_line_exec(&items[i]);
        proof {
            lemma_concat_map_step(items@, desired_line_fn(), i as int);
        }
        push_all(&mut out, &line);
        i = i + 1;
    }
    proof {
        lemma_subrange_full(items@);
    }
    string_of(&out)
}

pub open spec fn action_line(a: ActionItem) -> Seq<char> {
    "  "@ + sid_spec(a.id@) + "  "@ + a.title@ + "\n"@
}

pub open spec fn action_line_fn() -> spec_fn(ActionItem) -> Seq<char> {
    |a: ActionItem| action_line(a)
}

/// All short ids of `items` can be cut.
pub open spec fn action_ids_ok(items: Seq<ActionItem>) -> bool {
    forall|k: int| 0 <= k < items.len() ==> sid_ok((#[trigger] items[k]).id@)
}

/// `<heading>` and one line per item, or nothing for no items.
pub open spec fn action_section(heading: Seq<char>, items: Seq<ActionItem>) -> Seq<char> {
    if items.len() == 0 {
        Seq::empty()
    } else {
        heading + concat_map(items, action_line_fn())
    }
}

fn push_action_section(dst: &mut Vec<char>, heading: &str, items: &Vec<ActionItem>)
    requires
        action_ids_ok(items@),
    ensures
        final(dst)@ == old(dst)@ + action_section(heading@, items@),
{
    if items.len() == 0 {
        return ;
    }
    push_lit(dst, heading);
    let ghost head = dst@;
    let mut i: usize = 0;
    while i < items.len()
        invariant
            i <= items@.len(),
            action_ids_ok(items@),
            dst@ == head + concat_map(items@.subrange(0, i as int), action_line_fn()),
        decreases items.len() - i,
    {
        let a = &items[i];
        let mut line = chars_of("  ");
        push_lit(&mut line, sid(a.id.as_str()));
        push_lit(&mut line, "  ");
        push_lit(&mut line, a.title.as_str());
        push_lit(&mut line, "\n");
        proof {
            lemma_concat_map_step(items@, action_line_fn(), i as int);
        }
        push_all(dst, &line);
        i = i + 1;
    }
    proof {
        lemma_subrange_full(items@);
    }
}

/// The login greeting: the health line, then (when anything needs action)
/// the changes awaiting approval and the problems needing a decision.
pub fn render_greeting(g: &Greeting) -> (r: String)
    requires
        action_ids_ok(g.pending_changes@),
        action_ids_ok(g.decision_problems@),
    ensures
        r@ == g.health_line_spec() + "\n"@ + (if g.has_actions_spec() {
            action_section("changes awaiting approval:\n"@, g.pending_changes@) + action_section(
                "problems needing a decision:\n"@,
                g.decision_problems@,
            )
        } else {
            Seq::empty()
        }),
{
    let h = g.health_line();
    let mut out = chars_of(h.as_str());
    push_lit(&mut out, "\n");
    if !g.has_actions() {
        return string_of(&out);
    }
    push_action_section(&mut out, "changes awaiting approval:\n", &g.pending_changes);
    push_action_section(&mut out, "problems needing a decision:\n", &g.decision_problems);
    string_of(&out)
}

pub open spec fn filter_line(r: FilterRule) -> Seq<char> {
    "  "@ + pad(r.name@, 20) + "["@ + r.source.name_spec() + "] contains "@ + debug_quoted(
        r.contains@,
    ) + (match r.domain {
        Some(d) => " (domain: "@ + d@ + ")"@,
        None => Seq::empty(),
    }) + "\n"@
}

pub open spec fn filter_line_fn() -> spec_fn(FilterRule) -> Seq<char> {
    |r: FilterRule| filter_line(r)
}

/// The notice-filter rules; the matched text is shown `Debug`-quoted.
pub fn render_filters(rules: &[FilterRule]) -> (r: String)
    ensures
        r@ == (if rules@.len() == 0 {
            "No notice filters. Add rule files under ~/.config/regin/filters/*.toml\n"@
        } else {
            concat_map(rules@, filter_line_fn())
        }),
{
    if rules.len() == 0 {
        return string_of(
            &chars_of("No notice filters. Add rule files under ~/.config/regin/filters/*.toml\n"),
        );
    }
    let mut out: Vec<char> = Vec::new();
    let mut i: usize = 0;
    while i < rules.len()
        invariant
            i <= rules@.len(),
            out@ == concat_map(rules@.subrange(0, i as int), filter_line_fn()),
        decreases rules.len() - i,
    {
        let r = &rules[i];
        let mut line = chars_of("  ");
        push_padded(&mut line, r.name.as_str(), 20);
        push_lit(&mut line, "[");
        push_lit(&mut line, r.source.name());
        push_lit(&mut line, "] contains ");
        let q = debug_str(r.contains.as_str());
        push_lit(&mut line, q.as_str());
        match &r.domain {
            Some(d) => {
                push_lit(&mut line, " (domain: ");
                push_lit(&mut line, d.as_str());
                push_lit(&mut line, ")");
            },
            None => {},
        }
        push_lit(&mut line, "\n");
        proof {
            lemma_concat_map_step(rules@, filter_line_fn(), i as int);
        }
        push_all(&mut out, &line);
        i = i + 1;
    }
    proof {
        lemma_subrange_full(rules@);
    }
    string_of(&out)
}

pub open spec fn finding_line(f: Finding) -> Seq<char> {
    "  ["@ + f.area@ + "] "@ + f.message@ + "\n"@
}

pub open spec fn finding_line_fn() -> spec_fn(Finding) -> Seq<char> {
    |f: Finding| finding_line(f)
}

/// The self-audit result and how many problems it filed.
pub fn render_audit(findings: &[Finding], trimmed: bool, opened: usize) -> (r: String)
    ensures
        r@ == (if trimmed {
            "(audit trimmed to stay within budget)\n"@
        } else {
            Seq::empty()
        }) + (if findings@.len() == 0 {
            "Self-audit clean — no findings.\n"@
        } else {
            concat_map(findings@, finding_line_fn()) + dec_nat(opened as nat)
                + " new problem(s) filed for review.\n"@
        }),
{
    let mut out: Vec<char> = Vec::new();
    if trimmed {
        push_lit(&mut out, "(audit trimmed to stay within budget)\n");
    }
    if findings.len() == 0 {
        push_lit(&mut out, "Self-audit clean — no findings.\n");
        return string_of(&out);
    }
    let ghost head = out@;
    let mut i: usize = 0;
    while i < findings.len()
        invariant
            i <= findings@.len(),
            out@ == head + concat_map(findings@.subrange(0, i as int), finding_line_fn()),
        decreases findings.len() - i,
    {
        let f = &findings[i];
        let mut line = chars_of("  [");
        push_lit(&mut line, f.area.as_str());
        push_lit(&mut line, "] ");
        push_lit(&mut line, f.message.as_str());
        push_lit(&mut line, "\n");
        proof {
            lemma_concat_map_step(findings@, finding_line_fn(), i as int);
        }
        push_all(&mut out, &line);
        i = i + 1;
    }
    proof {
        lemma_subrange_full(findings@);
    }
    push_nat(&mut out, opened as u64);
    push_lit(&mut out, " new problem(s) filed for review.\n");
    string_of(&out)
}


// ---------------------------------------------------------------------------
// Streaming events
// ---------------------------------------------------------------------------

/// Folds one event of a chat stream into the reply text so far and the
/// conversation id: a chunk appends its token, the end-of-stream event sets
/// the id, and every other event changes nothing.
pub fn apply_chat_event(resp: &Response, full: &mut String, conv_id: &mut String)
    ensures
        final(full)@ == (match resp {
            Response::StreamChunk { token } => old(full)@ + token@,
            _ => old(full)@,
        }),
        final(conv_id)@ == (match resp {
            Response::StreamDone { conversation_id } => conversation_id@,
            _ => old(conv_id)@,
        }),
{
    match resp {
        Response::StreamChunk { token } => {
            let mut v = chars_of(full.as_str());
            push_lit(&mut v, token.as_str());
            *full = string_of(&v);
        },
        Response::StreamDone { conversation_id } => {
            *conv_id = conversation_id.clone();
        },
        _ => {},
    }
}

/// `▶ <name> <first 120 characters of the arguments>`.
pub fn render_tool_call(name: &str, arguments: &str) -> (r: String)
    ensures
        r@ == "▶ "@ + name@ + " "@ + take_chars(arguments@, 120),
{
    let mut out = chars_of("▶ ");
    push_lit(&mut out, name);
    push_lit(&mut out, " ");
    push_all(&mut out, &take_chars_exec(&chars_of(arguments), 120));
    string_of(&out)
}

/// The first `n` lines of `output`, joined by a newline and an indent.
pub open spec fn tool_preview(output: Seq<char>, n: nat) -> Seq<char> {
    let ls = lines(output);
    join(
        if ls.len() <= n {
            ls
        } else {
            ls.subrange(0, n as int)
        },
        "\n    "@,
    )
}

/// `  ✓ <name>` (or `✗`), followed by the first `max_lines` lines of the
/// output when that preview is not empty.
pub fn render_tool_result(name: &str, success: bool, output: &str, max_lines: usize) -> (r: String)
    ensures
        r@ == "  "@ + (if success {
            "✓"@
        } else {
            "✗"@
        }) + " "@ + name@ + (if tool_preview(output@, max_lines as nat).len() == 0 {
            Seq::empty()
        } else {
            "\n    "@ + tool_preview(output@, max_lines as nat)
        }),
{
    let ls = lines_exec(&chars_of(output));
    let mut kept: Vec<Vec<char>> = Vec::new();
    let mut i: usize = 0;
    let ghost all = views(ls@);
    let ghost n = if all.len() <= max_lines as nat {
        all.len() as int
    } else {
        max_lines as int
    };
    while i < ls.len() && i < max_lines
        invariant
            i <= ls.len(),
            all == views(ls@),
            i <= n,
            n == (if all.len() <= max_lines as nat { all.len() as int } else { max_lines as int }),
            views(kept@) == all.subrange(0, i as int),
        decreases ls.len() - i,
    {
        let ghost o = views(kept@);
        kept.push(copy_chars(&ls[i]));
        assert(views(kept@) =~= o.push(ls@[i as int]@));
        assert(all.subrange(0, i + 1) =~= all.subrange(0, i as int).push(all[i as int]));
        i = i + 1;
    }
    proof {
        if all.len() <= max_lines as nat {
            assert(all.subrange(0, all.len() as int) =~= all);
        }
    }
    let preview = join_exec(&kept, "\n    ");
    let mut out = chars_of("  ");
    if success {
        push_lit(&mut out, "✓");
    } else {
        push_lit(&mut out, "✗");
    }
    push_lit(&mut out, " ");
    push_lit(&mut out, name);
    if preview.len() > 0 {
        push_lit(&mut out, "\n    ");
        push_all(&mut out, &preview);
    }
    string_of(&out)
}

// ---------------------------------------------------------------------------
// Values, charter, principles, derived checks
// ---------------------------------------------------------------------------

pub open spec fn value_line(v: ValueEntry) -> Seq<char> {
    "  "@ + pad(v.id@, 20) + "["@ + pad(v.tradition@, 14) + "] "@ + v.name@ + "\n"@
}

pub open spec fn value_line_fn() -> spec_fn(ValueEntry) -> Seq<char> {
    |v: ValueEntry| value_line(v)
}

/// The value catalog.
pub fn render_soul_values_list(version: &str, values: &[ValueEntry]) -> (r: String)
    ensures
        r@ == "Value catalog (v"@ + version@ + ", "@ + dec_nat(values@.len()) + " entries):\n"@
            + concat_map(values@, value_line_fn()),
{
    let mut out = chars_of("Value catalog (v");
    push_lit(&mut out, version);
    push_lit(&mut out, ", ");
    push_nat(&mut out, values.len() as u64);
    push_lit(&mut out, " entries):\n");
    let ghost head = out@;
    let mut i: usize = 0;
    while i < values.len()
        invariant
            i <= values@.len(),
            out@ == head + concat_map(values@.subrange(0, i as int), value_line_fn()),
        decreases values.len() - i,
    {
        let v = &values[i];
        let mut line = chars_of("  ");
        push_padded(&mut line, v.id.as_str(), 20);
        push_lit(&mut line, "[");
        push_padded(&mut line, v.tradition.as_str(), 14);
        push_lit(&mut line, "] ");
        push_lit(&mut line, v.name.as_str());
        push_lit(&mut line, "\n");
        proof {
            lemma_concat_map_step(values@, value_line_fn(), i as int);
        }
        push_all(&mut out, &line);
        i = i + 1;
    }
    proof {
        lemma_subrange_full(values@);
    }
    string_of(&out)
}

/// One catalog entry in full.
pub fn render_soul_value_detail(v: &ValueEntry) -> (r: String)
    ensures
        r@ == v.name@ + " ("@ + v.id@ + ")\ntradition: "@ + v.tradition@ + "\n"@ + v.description@
            + "\n"@,
{
    let mut out = chars_of(v.name.as_str());
    push_lit(&mut out, " (");
    push_lit(&mut out, v.id.as_str());
    push_lit(&mut out, ")\ntradition: ");
    push_lit(&mut out, v.tradition.as_str());
    push_lit(&mut out, "\n");
    push_lit(&mut out, v.description.as_str());
    push_lit(&mut out, "\n");
    string_of(&out)
}

pub open spec fn id_line(s: String) -> Seq<char> {
    "  "@ + s@ + "\n"@
}

pub open spec fn id_line_fn() -> spec_fn(String) -> Seq<char> {
    |s: String| id_line(s)
}

fn push_id_lines(dst: &mut Vec<char>, ids: &[String])
    ensures
        final(dst)@ == old(dst)@ + concat_map(ids@, id_line_fn()),
{
    let ghost head = dst@;
    let mut i: usize = 0;
    while i < ids.len()
        invariant
            i <= ids@.len(),
            dst@ == head + concat_map(ids@.subrange(0, i as int), id_line_fn()),
        decreases ids.len() - i,
    {
        push_lit(dst, "  ");
        push_lit(dst, ids[i].as_str());
        push_lit(dst, "\n");
        proof {
            lemma_concat_map_step(ids@, id_line_fn(), i as int);
        }
        i = i + 1;
    }
    proof {
        lemma_subrange_full(ids@);
    }
}

/// The core charter, the persona overlay (when any) and what the Soul reads.
pub fn render_soul_charter(core_ids: &[String], persona_overlay: &[String], grounding: &[String]) -> (r: String)
    ensures
        r@ == "core charter ("@ + dec_nat(core_ids@.len()) + "):\n"@ + (if core_ids@.len() == 0 {
            "  (empty — seed it with: regin soul charter set <id>...)\n"@
        } else {
            concat_map(core_ids@, id_line_fn())
        }) + (if persona_overlay@.len() == 0 {
            Seq::empty()
        } else {
            "persona overlay ("@ + dec_nat(persona_overlay@.len()) + "):\n"@ + concat_map(
                persona_overlay@,
                id_line_fn(),
            )
        }) + "grounding — what the Soul reads ("@ + dec_nat(grounding@.len()) + "):\n"@
            + concat_map(grounding@, id_line_fn()),
{
    let mut out = chars_of("core charter (");
    push_nat(&mut out, core_ids.len() as u64);
    push_lit(&mut out, "):\n");
    if core_ids.len() == 0 {
        push_lit(&mut out, "  (empty — seed it with: regin soul charter set <id>...)\n");
    } else {
        push_id_lines(&mut out, core_ids);
    }
    if persona_overlay.len() > 0 {
        push_lit(&mut out, "persona overlay (");
        push_nat(&mut out, persona_overlay.len() as u64);
        push_lit(&mut out, "):\n");
        push_id_lines(&mut out, persona_overlay);
    }
    push_lit(&mut out, "grounding — what the Soul reads (");
    push_nat(&mut out, grounding.len() as u64);
    push_lit(&mut out, "):\n");
    push_id_lines(&mut out, grounding);
    string_of(&out)
}

/// Proposed starting values for a role, with the command that confirms them.
pub fn render_soul_charter_proposal(role: &str, proposed: &[String]) -> (r: String)
    ensures
        r@ == "proposed starting values for role '"@ + role@ + "':\n"@ + concat_map(
            proposed@,
            id_line_fn(),
        ) + "\nreview, then confirm with: regin soul charter set "@ + join(names(proposed@), " "@)
            + "\n"@,
{
    let mut out = chars_of("proposed starting values for role '");
    push_lit(&mut out, role);
    push_lit(&mut out, "':\n");
    push_id_lines(&mut out, proposed);
    push_lit(&mut out, "\nreview, then confirm with: regin soul charter set ");
    push_all(&mut out, &join_exec(&chars_list(proposed), " "));
    push_lit(&mut out, "\n");
    string_of(&out)
}

/// Which values were added to the core charter.
pub fn render_soul_charter_written(added: &[String]) -> (r: String)
    ensures
        r@ == (if added@.len() == 0 {
            "✓ no new values (already in the core charter)\n"@
        } else {
            "✓ added to the core charter: "@ + join(names(added@), ", "@) + "\n"@
        }),
{
    if added.len() == 0 {
        return string_of(&chars_of("✓ no new values (already in the core charter)\n"));
    }
    let mut out = chars_of("✓ added to the core charter: ");
    push_all(&mut out, &join_exec(&chars_list(added), ", "));
    push_lit(&mut out, "\n");
    string_of(&out)
}

pub open spec fn principle_line(p: Principle) -> Seq<char> {
    "  "@ + sid_spec(p.id@) + " ["@ + pad(p.status@, 9) + "] ("@ + p.source@ + ") "@ + p.content@
        + "\n"@ + (if p.evidence@.len() > 0 {
        "      evidence: "@ + dec_nat(p.evidence@.len()) + " deliberation(s)\n"@
    } else {
        Seq::empty()
    })
}

pub open spec fn principle_line_fn() -> spec_fn(Principle) -> Seq<char> {
    |p: Principle| principle_line(p)
}

/// Principles with their status, source and evidence count.
pub fn render_soul_principles(principles: &[Principle]) -> (r: String)
    requires
        forall|k: int| 0 <= k < principles@.len() ==> sid_ok((#[trigger] principles@[k]).id@),
    ensures
        r@ == (if principles@.len() == 0 {
            "no principles\n"@
        } else {
            "principles ("@ + dec_nat(principles@.len()) + "):\n"@ + concat_map(
                principles@,
                principle_line_fn(),
            )
        }),
{
    if principles.len() == 0 {
        return string_of(&chars_of("no principles\n"));
    }
    let mut out = chars_of("principles (");
    push_nat(&mut out, principles.len() as u64);
    push_lit(&mut out, "):\n");
    let ghost head = out@;
    let mut i: usize = 0;
    while i < principles.len()
        invariant
            i <= principles@.len(),
            forall|k: int| 0 <= k < principles@.len() ==> sid_ok((#[trigger] principles@[k]).id@),
            out@ == head + concat_map(principles@.subrange(0, i as int), principle_line_fn()),
        decreases principles.len() - i,
    {
        let p = &principles[i];
        let mut line = chars_of("  ");
        push_lit(&mut line, sid(p.id.as_str()));
        push_lit(&mut line, " [");
        push_padded(&mut line, p.status.as_str(), 9);
        push_lit(&mut line, "] (");
        push_lit(&mut line, p.source.as_str());
        push_lit(&mut line, ") ");
        push_lit(&mut line, p.content.as_str());
        push_lit(&mut line, "\n");
        if p.evidence.len() > 0 {
            push_lit(&mut line, "      evidence: ");
            push_nat(&mut line, p.evidence.len() as u64);
            push_lit(&mut line, " deliberation(s)\n");
        }
        proof {
            lemma_concat_map_step(principles@, principle_line_fn(), i as int);
        }
        push_all(&mut out, &line);
        i = i + 1;
    }
    proof {
        lemma_subrange_full(principles@);
    }
    string_of(&out)
}

/// Confirmation that a principle was ratified.
pub fn render_soul_principle_ratified(p: &Principle) -> (r: String)
    requires
        sid_ok(p.id@),
    ensures
        r@ == "✓ ratified "@ + sid_spec(p.id@) + " — now active: "@ + p.content@ + "\n"@,
{
    let mut out = chars_of("✓ ratified ");
    push_lit(&mut out, sid(p.id.as_str()));
    push_lit(&mut out, " — now active: ");
    push_lit(&mut out, p.content.as_str());
    push_lit(&mut out, "\n");
    string_of(&out)
}

/// Confirmation that a principle was retired.
pub fn render_soul_principle_rejected(p: &Principle) -> (r: String)
    requires
        sid_ok(p.id@),
    ensures
        r@ == "✓ retired "@ + sid_spec(p.id@) + ": "@ + p.content@ + "\n"@,
{
    let mut out = chars_of("✓ retired ");
    push_lit(&mut out, sid(p.id.as_str()));
    push_lit(&mut out, ": ");
    push_lit(&mut out, p.content.as_str());
    push_lit(&mut out, "\n");
    string_of(&out)
}

pub open spec fn check_line(c: DerivedCheck) -> Seq<char> {
    "  "@ + pad(c.domain@, 16) + c.description@ + "  ["@ + c.signature@ + "]\n"@
}

pub open spec fn check_line_fn() -> spec_fn(DerivedCheck) -> Seq<char> {
    |c: DerivedCheck| check_line(c)
}

/// The derived (promoted) checks.
pub fn render_checks(checks: &[DerivedCheck]) -> (r: String)
    ensures
        r@ == (if checks@.len() == 0 {
            "No derived checks yet. regin promotes stable LLM verdicts into cheap checks over time.\n"@
        } else {
            concat_map(checks@, check_line_fn())
        }),
{
    if checks.len() == 0 {
        return string_of(
            &chars_of(
                "No derived checks yet. regin promotes stable LLM verdicts into cheap checks over time.\n",
            ),
        );
    }
    let mut out: Vec<char> = Vec::new();
    let mut i: usize = 0;
    while i < checks.len()
        invariant
            i <= checks@.len(),
            out@ == concat_map(checks@.subrange(0, i as int), check_line_fn()),
        decreases checks.len() - i,
    {
        let c = &checks[i];
        let mut line = chars_of("  ");
        push_padded(&mut line, c.domain.as_str(), 16);
        push_lit(&mut line, c.description.as_str());
        push_lit(&mut line, "  [");
        push_lit(&mut line, c.signature.as_str());
        push_lit(&mut line, "]\n");
        proof {
            lemma_concat_map_step(checks@, check_line_fn(), i as int);
        }
        push_all(&mut out, &line);
        i = i + 1;
    }
    proof {
        lemma_subrange_full(checks@);
    }
    string_of(&out)
}

} // verus!
