//! Options of the edit subcommand.

use vstd::prelude::*;

verus! {

/// Edit a file in the context client, or create a new client if none is
/// bound or the new switch is given.
#[derive(Debug, Clone)]
pub struct Options {
    /// create a new client and wait for it to exit
    pub new: bool,
    /// focus the client in context
    pub focus: bool,
    /// paths to files, optionally with one `+line[:column]` coordinate
    pub files: Vec<String>,
}

} // verus!
