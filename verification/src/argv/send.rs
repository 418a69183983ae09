//! Options of the send subcommand.

use vstd::prelude::*;

verus! {

/// Send a command to the session in context.
#[derive(Debug, Clone)]
pub struct Options {
    /// do not parse or escape the command
    pub verbatim: bool,
    /// buffer context, or `*` for all non-debug buffers
    pub buffers: Vec<String>,
    /// the command to send
    pub command: Vec<String>,
}

} // verus!
