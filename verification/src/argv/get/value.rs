//! Options of the value query.

use vstd::prelude::*;

use crate::argv::get::QuotingMethod;

verus! {

/// Get a runtime value as `%val<name>`.
#[derive(Debug, Clone)]
pub struct Options {
    /// quote output; kakoune when not given
    pub quoting: QuotingMethod,
    /// split a list-typed value such as buflist or client_list
    pub list: bool,
    /// report only the value of this key in a map-typed result
    pub map_key: Option<String>,
    /// do not parse the output
    pub verbatim: bool,
    /// the value name to query
    pub name: String,
}

} // verus!
