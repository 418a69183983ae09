//! Options of the register query.

use vstd::prelude::*;

use crate::argv::get::QuotingMethod;

verus! {

/// Get a register as `%reg<name>`.
#[derive(Debug, Clone)]
pub struct Options {
    /// quote output; kakoune when not given
    pub quoting: QuotingMethod,
    /// split a list-typed register such as colon or slash
    pub list: bool,
    /// do not parse the output
    pub verbatim: bool,
    /// the register name to query; dquote when not given
    pub name: String,
}

} // verus!
