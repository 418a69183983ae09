//! Options of the cat subcommand.

use vstd::prelude::*;

verus! {

/// Print buffer content.
#[derive(Debug, Clone)]
pub struct Options {
    /// buffer context, or `*` for all non-debug buffers
    pub buffers: Vec<String>,
}

} // verus!
