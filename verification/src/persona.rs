//! The role a regin instance currently wears: its name, its tool capability
//! ceiling and an optional pinned decision mode.

use vstd::prelude::*;

verus! {

/// A persona (role hat).
pub struct Persona {
    pub role: String,
    /// The tool ceiling; `None` is an unscoped ceiling (every tool).
    pub tools: Option<Vec<String>>,
    /// A decision mode the role is pinned to (`act` / `deliberate`), if any.
    pub default_mode: Option<String>,
}

/// `tool` is one of the names in `ts`.
pub open spec fn lists(ts: Seq<String>, tool: Seq<char>) -> bool {
    exists|i: int| 0 <= i < ts.len() && #[trigger] ts[i]@ == tool
}

/// Whether the ceiling admits `tool`: no persona and an unscoped persona
/// admit every tool, a scoped one exactly the listed tools.
pub open spec fn allows_spec(persona: Option<&Persona>, tool: Seq<char>) -> bool {
    match persona {
        None => true,
        Some(p) => match p.tools {
            None => true,
            Some(ts) => lists(ts@, tool),
        },
    }
}

/// Whether `tool` is one of the names in `ts`.
pub fn lists_exec(ts: &Vec<String>, tool: &str) -> (r: bool)
    ensures
        r == lists(ts@, tool@),
{
    let mut i: usize = 0;
    while i < ts.len()
        invariant
            i <= ts.len(),
            forall|j: int| 0 <= j < i ==> ts@[j]@ != tool@,
        decreases ts.len() - i,
    {
        if crate::text::str_eq(ts[i].as_str(), tool) {
            assert(ts@[i as int]@ == tool@);
            return true;
        }
        i = i + 1;
    }
    false
}

/// Whether `persona`'s capability ceiling admits `tool`.
pub fn allows(persona: Option<&Persona>, tool: &str) -> (r: bool)
    ensures
        r == allows_spec(persona, tool@),
{
    match persona {
        None => true,
        Some(p) => match &p.tools {
            None => true,
            Some(ts) => lists_exec(ts, tool),
        },
    }
}

} // verus!
