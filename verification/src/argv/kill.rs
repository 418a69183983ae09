//! Options of the kill subcommand.

use vstd::prelude::*;

verus! {

/// Kill the session in context.
#[derive(Debug, Clone)]
pub struct Options {
    /// exit status to hand to the editor
    pub exit_status: Option<i32>,
}

} // verus!
