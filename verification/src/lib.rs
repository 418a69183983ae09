//! Library for driving a running Kakoune session from the command line.
//!
//! The core is the session protocol engine: framing of request scripts
//! with scoping, failure catching and a trailing sentinel ([`context`]),
//! synchronization of the two FIFO response channels ([`sync`]), the quote
//! lexer for the editor's list encoding ([`lex`]), and the query layer on
//! top of them ([`query`]).  Around it stand the command-line model
//! ([`argv`]), subcommand routing and dispatch ([`kamp`]), and the
//! individual commands ([`edit`], [`init`], [`list`]).

pub mod argv;
pub mod chars;
pub mod context;
pub mod edit;
pub mod error;
pub mod init;
pub mod kamp;
pub mod lex;
pub mod list;
pub mod query;
pub mod sync;

pub use chars::i32_to_string;
pub use context::split_kak_list;
pub use context::Context;
pub use edit::edit;
pub use edit::parse;
pub use edit::FileArg;
pub use error::Error;
pub use init::init;
pub use kamp::attach;
pub use kamp::cat;
pub use kamp::ctx;
pub use kamp::kill;
pub use kamp::route;
pub use kamp::send;
pub use kamp::to_buffer_ctx;
pub use kamp::version;
pub use kamp::Plan;
pub use kamp::Post;
pub use kamp::Route;
pub use lex::encode_list;
pub use lex::quote;
pub use lex::split;
pub use lex::ParseError;
pub use list::list_all;
pub use list::list_current;
pub use list::Client;
pub use list::ListFlow;
pub use list::ListStage;
pub use list::Session;
pub use query::join_args;
pub use query::parse_query_output;
pub use query::split_lines;
pub use query::QueryContext;
pub use query::QueryKeyVal;
pub use query::QueryType;
pub use query::Quoting;
pub use sync::check_status;
pub use sync::sentinel_complete;
pub use sync::strip_sentinel;
pub use sync::ExitKind;
pub use sync::FifoEvent;
pub use sync::Race;
pub use sync::Report;
