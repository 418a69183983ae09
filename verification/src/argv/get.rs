//! Options of the get subcommand and its four query shapes.

pub mod opt;
pub mod register;
pub mod shell;
pub mod value;

use vstd::prelude::*;

use crate::chars::str_eq;
use vstd::string::StringExecFns;

verus! {

/// Get state from the session in context.
#[derive(Debug, Clone)]
pub struct Options {
    /// buffer context, or `*` for all non-debug buffers
    pub buffers: Vec<String>,
    /// split output at the null character instead of the newline
    pub zplit: bool,
    /// which query to run
    pub subcommand: SubCommand,
}

/// The four query shapes.
#[derive(Debug, Clone)]
pub enum SubCommand {
    Value(value::Options),
    Opt(opt::Options),
    Register(register::Options),
    Shell(shell::Options),
}

/// The quoting style asked of the editor.
#[derive(Debug, Clone)]
pub enum QuotingMethod {
    Raw,
    Kakoune,
    Shell,
}

impl QuotingMethod {
    /// Parses a quoting style name.
    pub fn from_arg_value(value: &str) -> (r: Result<QuotingMethod, String>)
        ensures
            value@ == "raw"@ ==> (r matches Ok(q) && q is Raw),
            value@ == "kakoune"@ ==> (r matches Ok(q) && q is Kakoune),
            value@ == "shell"@ ==> (r matches Ok(q) && q is Shell),
            (value@ != "raw"@ && value@ != "kakoune"@ && value@ != "shell"@) ==> (r matches Err(m)
                && m@ == "expected one of 'raw', 'kakoune', 'shell'"@),
    {
        proof {
            // the three names are pairwise distinct
            reveal_strlit("raw");
            reveal_strlit("kakoune");
            reveal_strlit("shell");
            assert("raw"@.len() == 3);
            assert("kakoune"@.len() == 7);
            assert("shell"@.len() == 5);
        }
        if str_eq(value, "raw") {
            Ok(QuotingMethod::Raw)
        } else if str_eq(value, "kakoune") {
            Ok(QuotingMethod::Kakoune)
        } else if str_eq(value, "shell") {
            Ok(QuotingMethod::Shell)
        } else {
            let mut m = String::new();
            m.append("expected one of 'raw', 'kakoune', 'shell'");
            Err(m)
        }
    }
}

} // verus!
