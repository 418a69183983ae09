//! The command-line model: the top-level invocation and one options struct
//! per subcommand.  These are plain data; the binary around the library
//! parses its arguments into them.

pub mod attach;
pub mod cat;
pub mod ctx;
pub mod edit;
pub mod get;
pub mod init;
pub mod kill;
pub mod list;
pub mod send;

use vstd::prelude::*;

verus! {

/// One whole invocation: global switches and the chosen subcommand.
#[derive(Debug, Clone)]
pub struct Kampliment {
    /// session
    pub session: Option<String>,
    /// client
    pub client: Option<String>,
    /// print version and exit
    pub version: bool,
    /// print command passed to kakoune
    pub debug: bool,
    /// the subcommand, if one was given
    pub subcommand: Option<SubCommand>,
}

/// The subcommands the tool serves.
#[derive(Debug, Clone)]
pub enum SubCommand {
    Init(init::Options),
    Attach(attach::Options),
    Edit(edit::Options),
    Send(send::Options),
    Kill(kill::Options),
    List(list::Options),
    Get(get::Options),
    Cat(cat::Options),
    Ctx(ctx::Options),
}

} // verus!
