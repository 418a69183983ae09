//! Options of the shell-evaluation query.

use vstd::prelude::*;

verus! {

/// Evaluate a shell command as `%sh<command>`.
#[derive(Debug, Clone)]
pub struct Options {
    /// do not parse or escape the command
    pub verbatim: bool,
    /// the shell command to evaluate
    pub command: Vec<String>,
}

} // verus!
