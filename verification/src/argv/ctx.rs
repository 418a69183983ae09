//! Options of the ctx subcommand.

use vstd::prelude::*;

verus! {

/// Print the session context (the default subcommand).
#[derive(Debug, Clone)]
pub struct Options {
    /// require a client; exit with an error when none is bound
    pub client: bool,
}

impl Options {
    /// The default: no client required.
    pub fn new_default() -> (r: Options)
        ensures
            r.client == false,
    {
        Options { client: false }
    }
}

} // verus!
