//! Desired-state ("to-be") model: per-domain markdown files carrying a free
//! text intent and a fenced ` ```assertions ` block of machine-checkable TOML.
//! Files are layered user-over-system.

use vstd::prelude::*;
use crate::text::{
    chars_list, chars_of, copy_chars, debug_quoted, debug_str, join, join_exec, keyword, keyword_exec,
    lines, lines_exec, lower_chars, names, push_all,
    lowercase, starts_with,
    starts_with_lit, string_of, trim, trim_chars, trim_start, views,
};

verus! {

/// Where a desired-state file came from (user overrides system).
#[derive(Debug, Clone, Copy, PartialEq, Eq, Structural)]
pub enum DesiredSource {
    System,
    User,
}

impl DesiredSource {
    pub open spec fn name_spec(self) -> Seq<char> {
        match self {
            DesiredSource::System => "system"@,
            DesiredSource::User => "user"@,
        }
    }

    /// The display name (`system` / `user`).
    pub fn name(&self) -> (r: &'static str)
        ensures
            r@ == self.name_spec(),
    {
        match self {
            DesiredSource::System => "system",
            DesiredSource::User => "user",
        }
    }
}

/// A comparison operator in an assertion.
#[derive(Debug, Clone, Copy, PartialEq, Eq, Structural)]
pub enum AssertOp {
    Lt,
    Le,
    Gt,
    Ge,
    Eq,
    Ne,
}

/// The operator spelled by an already trimmed and lowercased word.
pub open spec fn op_of(k: Seq<char>) -> Option<AssertOp> {
    if k == "lt"@ || k == "<"@ {
        Some(AssertOp::Lt)
    } else if k == "le"@ || k == "lte"@ || k == "<="@ {
        Some(AssertOp::Le)
    } else if k == "gt"@ || k == ">"@ {
        Some(AssertOp::Gt)
    } else if k == "ge"@ || k == "gte"@ || k == ">="@ {
        Some(AssertOp::Ge)
    } else if k == "eq"@ || k == "=="@ || k == "="@ {
        Some(AssertOp::Eq)
    } else if k == "ne"@ || k == "!="@ || k == "<>"@ {
        Some(AssertOp::Ne)
    } else {
        None
    }
}

impl AssertOp {
    /// Parses an operator (aliases accepted, trimmed, case-insensitive); an
    /// unknown word is an error naming it.
    pub fn parse(s: &str) -> (r: Result<AssertOp, String>)
        ensures
            match op_of(keyword(s@)) {
                Some(op) => r == Ok::<AssertOp, String>(op),
                None => r matches Err(e) && e@ == "unknown assertion operator: "@ + debug_quoted(
                    keyword(s@),
                ),
            },
    {
        let k = keyword_exec(s);
        let e = crate::text::eq_lit;
        if e(&k, "lt") || e(&k, "<") {
            Ok(AssertOp::Lt)
        } else if e(&k, "le") || e(&k, "lte") || e(&k, "<=") {
            Ok(AssertOp::Le)
        } else if e(&k, "gt") || e(&k, ">") {
            Ok(AssertOp::Gt)
        } else if e(&k, "ge") || e(&k, "gte") || e(&k, ">=") {
            Ok(AssertOp::Ge)
        } else if e(&k, "eq") || e(&k, "==") || e(&k, "=") {
            Ok(AssertOp::Eq)
        } else if e(&k, "ne") || e(&k, "!=") || e(&k, "<>") {
            Ok(AssertOp::Ne)
        } else {
            let ks = string_of(&k);
            let q = debug_str(ks.as_str());
            let mut msg = chars_of("unknown assertion operator: ");
            push_all(&mut msg, &chars_of(q.as_str()));
            Err(string_of(&msg))
        }
    }

    pub open spec fn as_str_spec(self) -> Seq<char> {
        match self {
            AssertOp::Lt => "lt"@,
            AssertOp::Le => "le"@,
            AssertOp::Gt => "gt"@,
            AssertOp::Ge => "ge"@,
            AssertOp::Eq => "eq"@,
            AssertOp::Ne => "ne"@,
        }
    }

    /// The canonical spelling.
    pub fn as_str(&self) -> (r: &'static str)
        ensures
            r@ == self.as_str_spec(),
    {
        match self {
            AssertOp::Lt => "lt",
            AssertOp::Le => "le",
            AssertOp::Gt => "gt",
            AssertOp::Ge => "ge",
            AssertOp::Eq => "eq",
            AssertOp::Ne => "ne",
        }
    }
}

/// A compact summary of a desired state for listing.
pub struct DesiredInfo {
    pub domain: String,
    pub source: DesiredSource,
    pub assertions: usize,
    pub recurrence_threshold: Option<usize>,
    /// Non-empty when the target is self-contradictory (ambiguous).
    pub conflicts: Vec<String>,
}

/// What reading one layer's file for a domain gave: no such file, a file
/// that could not be read or parsed, or the value taken from the parsed
/// state.
pub enum LayerFile<T> {
    Absent,
    Unreadable,
    Loaded(T),
}

/// The value a domain's desired state gives, layered user over system: a
/// user file shadows the system file, and an unreadable user file gives
/// nothing (fail-safe) rather than the system file's value; only without a
/// user file does the system file count.
pub open spec fn layered<T>(user: LayerFile<T>, system: LayerFile<T>) -> Option<T> {
    match user {
        LayerFile::Loaded(t) => Some(t),
        LayerFile::Unreadable => None,
        LayerFile::Absent => match system {
            LayerFile::Loaded(t) => Some(t),
            _ => None,
        },
    }
}

/// Which layer's file a domain's desired state is read from: the user file
/// when it exists, else the system file when it exists, else none.
pub fn desired_layer(user_is_file: bool, system_is_file: bool) -> (r: Option<DesiredSource>)
    ensures
        r == (if user_is_file {
            Some(DesiredSource::User)
        } else if system_is_file {
            Some(DesiredSource::System)
        } else {
            None
        }),
{
    if user_is_file {
        Some(DesiredSource::User)
    } else if system_is_file {
        Some(DesiredSource::System)
    } else {
        None
    }
}

/// The cadence tune of a domain: the `cadence` of its desired state, layered
/// user over system (see [`layered`]), if it names one.
pub fn cadence_tune(user: LayerFile<Option<String>>, system: LayerFile<Option<String>>) -> (r: Option<String>)
    ensures
        r == (match layered(user, system) {
            Some(Some(c)) => Some(c),
            _ => None::<String>,
        }),
{
    match user {
        LayerFile::Loaded(c) => c,
        LayerFile::Unreadable => None,
        LayerFile::Absent => match system {
            LayerFile::Loaded(c) => c,
            _ => None,
        },
    }
}

/// The effective recurrence-to-problem threshold for a domain: the
/// per-domain override of its desired state, layered user over system (see
/// [`layered`]), if there is one, else `default`.
pub fn recurrence_threshold(
    user: LayerFile<Option<usize>>,
    system: LayerFile<Option<usize>>,
    default: usize,
) -> (r: usize)
    ensures
        r == (match layered(user, system) {
            Some(Some(t)) => t,
            _ => default,
        }),
{
    let loaded = match user {
        LayerFile::Loaded(t) => t,
        LayerFile::Unreadable => None,
        LayerFile::Absent => match system {
            LayerFile::Loaded(t) => t,
            _ => None,
        },
    };
    match loaded {
        Some(t) => t,
        None => default,
    }
}

// ---------------------------------------------------------------------------
// Splitting a desired-state file
// ---------------------------------------------------------------------------

/// `s` with every leading backtick removed.
pub open spec fn strip_backticks(s: Seq<char>) -> Seq<char>
    decreases s.len(),
{
    if s.len() > 0 && s[0] == '`' {
        strip_backticks(s.drop_first())
    } else {
        s
    }
}

/// ASCII case folding of one character, as a code point.
pub open spec fn ascii_fold(c: char) -> u32 {
    let u = c as u32;
    if 65 <= u && u <= 90 {
        (u + 32) as u32
    } else {
        u
    }
}

/// `a` equals `b` ignoring ASCII case.
pub open spec fn eq_ignore_ascii_case(a: Seq<char>, b: Seq<char>) -> bool {
    a.len() == b.len() && forall|i: int| 0 <= i < a.len() ==> ascii_fold(#[trigger] a[i])
        == ascii_fold(b[i])
}

/// A line that opens the structured block: a fence whose info word is
/// `assertions` (any ASCII case).
pub open spec fn is_block_open(line: Seq<char>) -> bool {
    let t = trim_start(line);
    starts_with(t, "```"@) && eq_ignore_ascii_case(trim(strip_backticks(t)), "assertions"@)
}

/// A fence line (closes the structured block).
pub open spec fn is_fence(line: Seq<char>) -> bool {
    starts_with(trim_start(line), "```"@)
}

/// The index of the first fence at or after `k` (or the line count).
pub open spec fn fence_end(ls: Seq<Seq<char>>, k: int) -> int
    decreases ls.len() - k,
{
    if k >= ls.len() {
        ls.len() as int
    } else if is_fence(ls[k]) {
        k
    } else {
        fence_end(ls, k + 1)
    }
}

/// Walks the lines from `i`: only the first assertions block is taken as
/// structured; every other line (later fences included) stays intent.
pub open spec fn split_from(
    ls: Seq<Seq<char>>,
    i: int,
    intent: Seq<Seq<char>>,
    block: Option<Seq<char>>,
) -> (Seq<Seq<char>>, Option<Seq<char>>)
    decreases ls.len() - i,
{
    if i >= ls.len() || i < 0 {
        (intent, block)
    } else if block is None && is_block_open(ls[i]) {
        let j = fence_end(ls, i + 1);
        if i + 1 <= j < ls.len() {
            split_from(ls, j + 1, intent, Some(join(ls.subrange(i + 1, j), "\n"@)))
        } else if j == ls.len() {
            (intent, Some(join(ls.subrange(i + 1, j), "\n"@)))
        } else {
            (intent, block)
        }
    } else {
        split_from(ls, i + 1, intent.push(ls[i]), block)
    }
}

/// The characters of an optional character vector.
pub open spec fn opt_chars(b: Option<Vec<char>>) -> Option<Seq<char>> {
    match b {
        Some(v) => Some(v@),
        None => None,
    }
}

/// The (intent, assertions-block source) split of a desired-state file.
pub open spec fn split_assertions_spec(content: Seq<char>) -> (Seq<char>, Option<Seq<char>>) {
    let (intent, block) = split_from(lines(content), 0, Seq::empty(), None);
    (trim(join(intent, "\n"@)), block)
}

proof fn lemma_fence_end_bounds(ls: Seq<Seq<char>>, k: int)
    requires
        0 <= k,
    ensures
        k <= fence_end(ls, k) || (k > ls.len() && fence_end(ls, k) == ls.len()),
        fence_end(ls, k) <= ls.len() || k > ls.len(),
    decreases ls.len() - k,
{
    if k < ls.len() && !is_fence(ls[k]) {
        lemma_fence_end_bounds(ls, k + 1);
    }
}

fn strip_backticks_exec(v: &Vec<char>) -> (r: Vec<char>)
    ensures
        r@ == strip_backticks(v@),
{
    let mut i: usize = 0;
    assert(v@.subrange(0, v.len() as int) =~= v@);
    while i < v.len() && v[i] == '`'
        invariant
            i <= v.len(),
            strip_backticks(v@) == strip_backticks(v@.subrange(i as int, v.len() as int)),
        decreases v.len() - i,
    {
        assert(v@.subrange(i as int, v.len() as int).drop_first() =~= v@.subrange(
            i + 1,
            v.len() as int,
        ));
        i = i + 1;
    }
    crate::text::slice_chars(v, i, v.len())
}

fn ascii_fold_exec(c: char) -> (r: u32)
    ensures
        r == ascii_fold(c),
{
    let u = c as u32;
    if 65 <= u && u <= 90 {
        u + 32
    } else {
        u
    }
}

fn eq_ignore_ascii_case_exec(a: &Vec<char>, b: &Vec<char>) -> (r: bool)
    ensures
        r == eq_ignore_ascii_case(a@, b@),
{
    if a.len() != b.len() {
        return false;
    }
    let mut i: usize = 0;
    while i < a.len()
        invariant
            a.len() == b.len(),
            i <= a.len(),
            forall|k: int| 0 <= k < i ==> ascii_fold(#[trigger] a@[k]) == ascii_fold(b@[k]),
        decreases a.len() - i,
    {
        if ascii_fold_exec(a[i]) != ascii_fold_exec(b[i]) {
            return false;
        }
        i = i + 1;
    }
    true
}

fn trim_start_exec(v: &Vec<char>) -> (r: Vec<char>)
    ensures
        r@ == trim_start(v@),
{
    let mut i: usize = 0;
    assert(v@.subrange(0, v.len() as int) =~= v@);
    while i < v.len() && crate::text::char_is_ws(v[i])
        invariant
            i <= v.len(),
            trim_start(v@) == trim_start(v@.subrange(i as int, v.len() as int)),
        decreases v.len() - i,
    {
        assert(v@.subrange(i as int, v.len() as int).drop_first() =~= v@.subrange(
            i + 1,
            v.len() as int,
        ));
        i = i + 1;
    }
    crate::text::slice_chars(v, i, v.len())
}

fn is_fence_exec(line: &Vec<char>) -> (r: bool)
    ensures
        r == is_fence(line@),
{
    let t = trim_start_exec(line);
    starts_with_lit(&t, "```")
}

fn is_block_open_exec(line: &Vec<char>) -> (r: bool)
    ensures
        r == is_block_open(line@),
{
    let t = trim_start_exec(line);
    if !starts_with_lit(&t, "```") {
        return false;
    }
    let word = trim_chars(&strip_backticks_exec(&t));
    eq_ignore_ascii_case_exec(&word, &chars_of("assertions"))
}

/// Splits a desired-state file into (intent, optional assertions-block
/// source). Only the first ` ```assertions ` fenced block is structured; any
/// later fences stay in the intent. The intent is trimmed.
pub fn split_assertions_block(content: &str) -> (r: (String, Option<String>))
    ensures
        r.0@ == split_assertions_spec(content@).0,
        match split_assertions_spec(content@).1 {
            Some(b) => r.1 is Some && r.1->0@ == b,
            None => r.1 is None,
        },
{
    let ls = lines_exec(&chars_of(content));
    let ghost all = views(ls@);
    let mut intent: Vec<Vec<char>> = Vec::new();
    let mut block: Option<Vec<char>> = None;
    let mut i: usize = 0;
    assert(views(intent@) =~= Seq::<Seq<char>>::empty());
    while i < ls.len()
        invariant
            i <= ls.len(),
            all == views(ls@),
            split_from(all, 0, Seq::empty(), None) == split_from(
                all,
                i as int,
                views(intent@),
                opt_chars(block),
            ),
        decreases ls.len() - i,
    {
        assert(all[i as int] == ls@[i as int]@);
        if block.is_none() && is_block_open_exec(&ls[i]) {
            let mut j = i + 1;
            proof {
                lemma_fence_end_bounds(all, j as int);
            }
            while j < ls.len() && !is_fence_exec(&ls[j])
                invariant
                    i < j <= ls.len(),
                    all == views(ls@),
                    fence_end(all, i + 1) == fence_end(all, j as int),
                decreases ls.len() - j,
            {
                assert(all[j as int] == ls@[j as int]@);
                j = j + 1;
            }
            proof {
                if j < ls.len() {
                    assert(all[j as int] == ls@[j as int]@);
                }
                assert(fence_end(all, j as int) == j);
            }
            let body = crate::text::tokens_range(&ls, i + 1, j);
            let joined = join_exec(&body, "\n");
            let ghost i0 = i as int;
            assert(joined@ == join(all.subrange(i0 + 1, j as int), "\n"@));
            block = Some(joined);
            if j < ls.len() {
                i = j + 1;
            } else {
                i = j;
            }
        } else {
            let line = copy_chars(&ls[i]);
            let ghost o = views(intent@);
            intent.push(line);
            assert(views(intent@) =~= o.push(all[i as int]));
            i = i + 1;
        }
    }
    let joined = join_exec(&intent, "\n");
    let t = trim_chars(&joined);
    let b = match block {
        Some(v) => Some(string_of(&v)),
        None => None,
    };
    (string_of(&t), b)
}


// ---------------------------------------------------------------------------
// Contradictory text targets
// ---------------------------------------------------------------------------

/// Whether `xs` holds `x`.
pub open spec fn holds_text(xs: Seq<Seq<char>>, x: Seq<char>) -> bool {
    exists|i: int| 0 <= i < xs.len() && xs[i] == x
}

/// The `eq` texts of a key's text assertions, in order.
pub open spec fn eq_texts(asserts: Seq<(AssertOp, String)>) -> Seq<Seq<char>>
    decreases asserts.len(),
{
    if asserts.len() == 0 {
        Seq::empty()
    } else {
        eq_texts(asserts.drop_last()) + (if asserts.last().0 == AssertOp::Eq {
            seq![asserts.last().1@]
        } else {
            Seq::empty()
        })
    }
}

/// The `ne` texts of a key's text assertions, in order.
pub open spec fn ne_texts(asserts: Seq<(AssertOp, String)>) -> Seq<Seq<char>>
    decreases asserts.len(),
{
    if asserts.len() == 0 {
        Seq::empty()
    } else {
        ne_texts(asserts.drop_last()) + (if asserts.last().0 == AssertOp::Ne {
            seq![asserts.last().1@]
        } else {
            Seq::empty()
        })
    }
}

/// Whether an assertion orders (`lt`, `le`, `gt`, `ge`).
pub open spec fn is_ordering(op: AssertOp) -> bool {
    op != AssertOp::Eq && op != AssertOp::Ne
}

/// Why a key's text target is self-contradictory, if it is: an ordering
/// operator on text; more than one distinct required value; a value both
/// required and forbidden.
pub open spec fn text_contradiction_spec(key: Seq<char>, asserts: Seq<(AssertOp, String)>) -> Option<Seq<char>> {
    let eqs = eq_texts(asserts);
    let nes = ne_texts(asserts);
    if exists|i: int| 0 <= i < asserts.len() && is_ordering(#[trigger] asserts[i].0) {
        Some("`"@ + key + "` uses an ordering operator on a text value"@)
    } else if eqs.len() > 0 && exists|i: int| 0 <= i < eqs.len() && #[trigger] eqs[i] != eqs[0] {
        Some("`"@ + key + "` must equal multiple different text values"@)
    } else if eqs.len() > 0 && holds_text(nes, eqs[0]) {
        Some("`"@ + key + "` both equals and does not equal "@ + debug_quoted(eqs[0]))
    } else {
        None
    }
}

/// Checks one key's text-valued assertions (`asserts`, as operator and
/// value) for a contradiction, and names it.
pub fn text_contradiction(key: &str, asserts: &[(AssertOp, String)]) -> (r: Option<String>)
    ensures
        match text_contradiction_spec(key@, asserts@) {
            Some(m) => r matches Some(x) && x@ == m,
            None => r is None,
        },
{
    let mut eqs: Vec<Vec<char>> = Vec::new();
    let mut nes: Vec<Vec<char>> = Vec::new();
    let mut i: usize = 0;
    while i < asserts.len()
        invariant
            i <= asserts@.len(),
            forall|j: int| 0 <= j < i ==> !is_ordering(#[trigger] asserts@[j].0),
            views(eqs@) == eq_texts(asserts@.subrange(0, i as int)),
            views(nes@) == ne_texts(asserts@.subrange(0, i as int)),
        decreases asserts.len() - i,
    {
        let ghost pre = asserts@.subrange(0, i as int);
        assert(asserts@.subrange(0, i + 1).drop_last() =~= pre);
        let (op, t) = (&asserts[i].0, &asserts[i].1);
        match op {
            AssertOp::Eq => {
                let ghost o = views(eqs@);
                let c = chars_of(t.as_str());
                eqs.push(c);
                assert(views(eqs@) =~= o.push(c@));
                assert(views(nes@) =~= ne_texts(asserts@.subrange(0, i + 1)));
            },
            AssertOp::Ne => {
                let ghost o = views(nes@);
                let c = chars_of(t.as_str());
                nes.push(c);
                assert(views(nes@) =~= o.push(c@));
                assert(views(eqs@) =~= eq_texts(asserts@.subrange(0, i + 1)));
            },
            _ => {
                let mut m = chars_of("`");
                push_all(&mut m, &chars_of(key));
                push_all(&mut m, &chars_of("` uses an ordering operator on a text value"));
                assert(is_ordering(asserts@[i as int].0));
                return Some(string_of(&m));
            },
        }
        i = i + 1;
    }
    assert(asserts@.subrange(0, asserts@.len() as int) =~= asserts@);
    if eqs.len() > 0 {
        let mut k: usize = 1;
        while k < eqs.len()
            invariant
                1 <= k <= eqs@.len(),
                forall|j: int| 0 <= j < k ==> #[trigger] views(eqs@)[j] == views(eqs@)[0],
                forall|j: int| 0 <= j < asserts@.len() ==> !is_ordering(#[trigger] asserts@[j].0),
                views(eqs@) == eq_texts(asserts@),
                views(nes@) == ne_texts(asserts@),
            decreases eqs.len() - k,
        {
            if !crate::text::seq_eq(&eqs[k], &eqs[0]) {
                assert(views(eqs@)[k as int] != views(eqs@)[0]);
                let mut m = chars_of("`");
                push_all(&mut m, &chars_of(key));
                push_all(&mut m, &chars_of("` must equal multiple different text values"));
                return Some(string_of(&m));
            }
            k = k + 1;
        }
        let mut n: usize = 0;
        while n < nes.len()
            invariant
                n <= nes@.len(),
                eqs@.len() > 0,
                forall|j: int| 0 <= j < n ==> #[trigger] views(nes@)[j] != views(eqs@)[0],
                forall|j: int| 0 <= j < eqs@.len() ==> #[trigger] views(eqs@)[j] == views(eqs@)[0],
                forall|j: int| 0 <= j < asserts@.len() ==> !is_ordering(#[trigger] asserts@[j].0),
                views(eqs@) == eq_texts(asserts@),
                views(nes@) == ne_texts(asserts@),
            decreases nes.len() - n,
        {
            if crate::text::seq_eq(&nes[n], &eqs[0]) {
                assert(views(nes@)[n as int] == views(eqs@)[0]);
                let first = string_of(&eqs[0]);
                let q = debug_str(first.as_str());
                let mut m = chars_of("`");
                push_all(&mut m, &chars_of(key));
                push_all(&mut m, &chars_of("` both equals and does not equal "));
                push_all(&mut m, &chars_of(q.as_str()));
                return Some(string_of(&m));
            }
            n = n + 1;
        }
    }
    None
}

/// The problem opened for a domain whose target is contradictory: its title
/// and its description listing the reasons.
pub fn conflict_problem(domain: &str, reasons: &[String]) -> (r: (String, String))
    ensures
        r.0@ == "desired-state conflict: "@ + domain@,
        r.1@ == "The to-be state for `"@ + domain@
            + "` is ambiguous/contradictory and needs a human:\n- "@ + join(names(reasons@), "\n- "@),
{
    let mut title = chars_of("desired-state conflict: ");
    push_all(&mut title, &chars_of(domain));
    let mut desc = chars_of("The to-be state for `");
    push_all(&mut desc, &chars_of(domain));
    push_all(&mut desc, &chars_of("` is ambiguous/contradictory and needs a human:\n- "));
    push_all(&mut desc, &join_exec(&chars_list(reasons), "\n- "));
    (string_of(&title), string_of(&desc))
}

proof fn lemma_split_before_open(
    ls: Seq<Seq<char>>,
    i: int,
    o: int,
    intent: Seq<Seq<char>>,
)
    requires
        0 <= i <= o <= ls.len(),
        forall|k: int| i <= k < o ==> !is_block_open(#[trigger] ls[k]),
    ensures
        split_from(ls, i, intent, None) == split_from(ls, o, intent + ls.subrange(i, o), None),
    decreases o - i,
{
    if i < o {
        lemma_split_before_open(ls, i + 1, o, intent.push(ls[i]));
        assert(intent.push(ls[i]) + ls.subrange(i + 1, o) =~= intent + ls.subrange(i, o));
    } else {
        assert(intent + ls.subrange(i, o) =~= intent);
    }
}

proof fn lemma_split_after_block(ls: Seq<Seq<char>>, i: int, intent: Seq<Seq<char>>, b: Seq<char>)
    requires
        0 <= i <= ls.len(),
    ensures
        split_from(ls, i, intent, Some(b)) == (intent + ls.subrange(i, ls.len() as int), Some(b)),
    decreases ls.len() - i,
{
    if i < ls.len() {
        lemma_split_after_block(ls, i + 1, intent.push(ls[i]), b);
        assert(intent.push(ls[i]) + ls.subrange(i + 1, ls.len() as int) =~= intent + ls.subrange(
            i,
            ls.len() as int,
        ));
    } else {
        assert(intent + ls.subrange(i, ls.len() as int) =~= intent);
    }
}

proof fn lemma_fence_end_at(ls: Seq<Seq<char>>, k: int, c: int)
    requires
        0 <= k <= c <= ls.len(),
        c < ls.len() ==> is_fence(ls[c]),
        forall|m: int| k <= m < c ==> !is_fence(#[trigger] ls[m]),
    ensures
        fence_end(ls, k) == c,
    decreases c - k,
{
    if k < c {
        lemma_fence_end_at(ls, k + 1, c);
    }
}

/// Splitting a desired-state file drops exactly the opening fence of the
/// first assertions block, the block's lines and its closing fence: the
/// block is the lines between the two fences, and the intent is every other
/// line of the file, in order (before the block, then after it).
pub proof fn law_split_keeps_every_other_line(content: Seq<char>, ls: Seq<Seq<char>>, o: int, c: int)
    requires
        ls == lines(content),
        0 <= o < c < ls.len(),
        is_block_open(ls[o]),
        forall|k: int| 0 <= k < o ==> !is_block_open(#[trigger] ls[k]),
        is_fence(ls[c]),
        forall|k: int| o < k < c ==> !is_fence(#[trigger] ls[k]),
    ensures
        split_assertions_spec(content) == (
            trim(join(ls.subrange(0, o) + ls.subrange(c + 1, ls.len() as int), "\n"@)),
            Some(join(ls.subrange(o + 1, c), "\n"@)),
        ),
{
    lemma_split_before_open(ls, 0, o, Seq::empty());
    assert(Seq::<Seq<char>>::empty() + ls.subrange(0, o) =~= ls.subrange(0, o));
    lemma_fence_end_at(ls, o + 1, c);
    lemma_split_after_block(ls, c + 1, ls.subrange(0, o), join(ls.subrange(o + 1, c), "\n"@));
}

/// A file whose first assertions block is never closed: the block runs to
/// the end of the file and the intent is the lines before it.
pub proof fn law_unclosed_block_runs_to_the_end(content: Seq<char>, ls: Seq<Seq<char>>, o: int)
    requires
        ls == lines(content),
        0 <= o < ls.len(),
        is_block_open(ls[o]),
        forall|k: int| 0 <= k < o ==> !is_block_open(#[trigger] ls[k]),
        forall|k: int| o < k < ls.len() ==> !is_fence(#[trigger] ls[k]),
    ensures
        split_assertions_spec(content) == (
            trim(join(ls.subrange(0, o), "\n"@)),
            Some(join(ls.subrange(o + 1, ls.len() as int), "\n"@)),
        ),
{
    lemma_split_before_open(ls, 0, o, Seq::empty());
    assert(Seq::<Seq<char>>::empty() + ls.subrange(0, o) =~= ls.subrange(0, o));
    lemma_fence_end_at(ls, o + 1, ls.len() as int);
}

/// A file without an assertions block is all intent.
pub proof fn law_no_block_is_all_intent(content: Seq<char>, ls: Seq<Seq<char>>)
    requires
        ls == lines(content),
        forall|k: int| 0 <= k < ls.len() ==> !is_block_open(#[trigger] ls[k]),
    ensures
        split_assertions_spec(content) == (trim(join(ls, "\n"@)), None::<Seq<char>>),
{
    lemma_split_before_open(ls, 0, ls.len() as int, Seq::empty());
    assert(Seq::<Seq<char>>::empty() + ls.subrange(0, ls.len() as int) =~= ls);
}

} // verus!
