//! Options of the list subcommand.

use vstd::prelude::*;

verus! {

/// List the session in context, or all sessions.
#[derive(Debug, Clone)]
pub struct Options {
    /// all sessions
    pub all: bool,
}

} // verus!
