//! Options of the option query.

use vstd::prelude::*;

use crate::argv::get::QuotingMethod;

verus! {

/// Get an option as `%opt<name>`.
#[derive(Debug, Clone)]
pub struct Options {
    /// quote output; kakoune when not given
    pub quoting: QuotingMethod,
    /// split a list-typed option such as ui_options
    pub list: bool,
    /// report only the value of this key in a map-typed result
    pub map_key: Option<String>,
    /// do not unquote the output
    pub verbatim: bool,
    /// the option name to query
    pub name: String,
}

} // verus!
