//! How a local CLI worker run in the cave ended.

use vstd::prelude::*;
use crate::text::{chars_of, trim, trim_chars};

verus! {

/// How a worker run ended.
#[derive(Debug, Clone, Copy, PartialEq, Eq, Structural)]
pub enum Outcome {
    /// Exited cleanly with output.
    Done,
    /// Exited with a failure.
    Failed,
    /// Produced nothing.
    Empty,
}

/// What the handover reads of a finished worker run.
pub struct WorkerRun {
    pub outcome: Outcome,
    pub output: String,
    pub exit_code: Option<i32>,
}

/// How a run ended, from whether the worker exited successfully and what it
/// printed: a failing exit is `Failed`; a successful one that printed only
/// whitespace is `Empty`; otherwise `Done`.
pub open spec fn run_outcome(succeeded: bool, output: Seq<char>) -> Outcome {
    if !succeeded {
        Outcome::Failed
    } else if trim(output).len() == 0 {
        Outcome::Empty
    } else {
        Outcome::Done
    }
}

/// Classifies a finished worker run (see [`run_outcome`]).
pub fn classify_run(succeeded: bool, output: &str) -> (r: Outcome)
    ensures
        r == run_outcome(succeeded, output@),
{
    if !succeeded {
        Outcome::Failed
    } else if trim_chars(&chars_of(output)).len() == 0 {
        Outcome::Empty
    } else {
        Outcome::Done
    }
}

} // verus!
