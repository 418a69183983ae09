//! Options of the attach subcommand.

use vstd::prelude::*;

verus! {

/// Attach to a session in context by creating a new client.
#[derive(Debug, Clone)]
pub struct Options {
    /// switch to buffer
    pub buffer: Option<String>,
}

} // verus!
