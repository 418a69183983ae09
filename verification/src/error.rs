//! The error taxonomy: context errors raised before anything is sent,
//! process-level failures of the editor binary, script errors caught inside
//! the editor and routed to the error FIFO, and local decode errors.

use vstd::prelude::*;
use vstd::string::StringExecFns;

use crate::chars::i32_to_string;
use crate::chars::int_str;
use crate::lex::ParseError;

verus! {

/// Everything a request can fail with, fully resolved at the context
/// boundary.
#[derive(Debug, Clone, PartialEq, Eq)]
pub enum Error {
    /// The context cannot serve the command (no session, no client, ...).
    InvalidContext(&'static str),
    /// A command body was required and none was given.
    CommandRequired,
    /// The editor process exited with this non-zero code.
    KakUnexpectedExit(i32),
    /// The script failed inside the editor; the editor's own diagnostic.
    KakEvalCatch(String),
    /// A coordinate argument stood where none was expected.
    UnexpectedCoordPosition(String),
    /// A coordinate argument did not parse.
    InvalidCoordinates(String),
    /// Quoted-list output was malformed.
    Parse(ParseError),
    /// Any other failure, carried as its message.
    Other(String),
}

/// The display text of each error.
pub open spec fn error_message(e: &Error) -> Seq<char> {
    match e {
        Error::InvalidContext(s) => "invalid context: "@ + s@,
        Error::CommandRequired => "command is required"@,
        Error::KakUnexpectedExit(code) => "kak exited with code: "@ + int_str(*code as int),
        Error::KakEvalCatch(s) => "kak eval error: "@ + s@,
        Error::UnexpectedCoordPosition(s) => "unexpected coordinates position: "@ + s@,
        Error::InvalidCoordinates(s) => "invalid coordinates: "@ + s@,
        Error::Parse(_) => "missing closing quote"@,
        Error::Other(s) => s@,
    }
}

impl Error {
    /// Renders the error as its display text.
    pub fn message(&self) -> (r: String)
        ensures
            r@ == error_message(self),
    {
        let mut out = String::new();
        match self {
            Error::InvalidContext(s) => {
                out.append("invalid context: ");
                out.append(s);
            },
            Error::CommandRequired => {
                out.append("command is required");
            },
            Error::KakUnexpectedExit(code) => {
                out.append("kak exited with code: ");
                let digits = i32_to_string(*code);
                out.append(digits.as_str());
            },
            Error::KakEvalCatch(s) => {
                out.append("kak eval error: ");
                out.append(s.as_str());
            },
            Error::UnexpectedCoordPosition(s) => {
                out.append("unexpected coordinates position: ");
                out.append(s.as_str());
            },
            Error::InvalidCoordinates(s) => {
                out.append("invalid coordinates: ");
                out.append(s.as_str());
            },
            Error::Parse(_) => {
                out.append("missing closing quote");
            },
            Error::Other(s) => {
                out.append(s.as_str());
            },
        }
        out
    }
}

} // verus!
