//! Subcommand dispatch: turns a parsed invocation into the one action the
//! binary performs — text to print, a script to pipe, a client to connect,
//! or a flow the binary drives — with every script framed here.

use vstd::pervasive::unreached;
use vstd::prelude::*;
use vstd::string::StringExecFns;

use crate::argv;
use crate::argv::Kampliment;
use crate::argv::SubCommand;
use crate::chars::push_char;
use crate::chars::str_eq;
use crate::context::buffer_view;
use crate::context::framed_connect;
use crate::context::framed_send;
use crate::context::Context;
use crate::error::Error;
use crate::query::args_joined;
use crate::query::args_verbatim;
use crate::query::join_args;
use crate::query::key_val_spec;
use crate::query::quoting_spec;
use crate::query::QueryContext;
use crate::query::QueryKeyVal;
use crate::query::QueryType;
use crate::query::Quoting;

verus! {

/// What the binary does with the response of a piped request.
#[derive(Debug, Clone)]
pub enum Post {
    /// run the script, discard the payload
    Discard,
    /// print the payload as it came
    Print,
    /// decode the payload as a query response, then print one item per
    /// separator (a null byte when `zplit`, a newline otherwise)
    Query { qtype: QueryType, verbatim: bool, zplit: bool },
}

/// The one action a dispatched command asks of the binary.
#[derive(Debug, Clone)]
pub enum Plan {
    /// print this text and exit
    Output(String),
    /// pipe this framed script and await the FIFO race
    Pipe { script: String, post: Post },
    /// pipe this raw script; only the exit status matters
    PipeRaw { script: String },
    /// connect a new client running this framed script
    Connect { script: String },
    /// gather file facts from disk, then call `edit`
    EditCmd(argv::edit::Options),
    /// run the session-listing flow against this context
    ListCurrent,
}

/// The session context line, with the client line when one is bound.
pub open spec fn ctx_text(session: Seq<char>, client: Option<Seq<char>>) -> Seq<char> {
    match client {
        Some(c) => "session: "@ + session + "\n"@ + "client: "@ + c + "\n"@,
        None => "session: "@ + session + "\n"@,
    }
}

/// Renders the context subcommand's output for this handle.
pub fn ctx(c: &Context) -> (r: String)
    ensures
        r@ == ctx_text(c.spec_session(), c.spec_client()),
{
    let mut out = String::new();
    out.append("session: ");
    let session = c.session();
    out.append(session.as_str());
    out.append("\n");
    match c.client() {
        Some(client) => {
            out.append("client: ");
            out.append(client.as_str());
            out.append("\n");
            proof {
                assert(out@ =~= ctx_text(c.spec_session(), c.spec_client()));
            }
        },
        None => {
            proof {
                assert(out@ =~= ctx_text(c.spec_session(), c.spec_client()));
            }
        },
    }
    out
}

/// The tool's name and version line.
pub fn version() -> (r: String)
    ensures
        r@ == "kamp 0.1.0\n"@,
{
    let mut out = String::new();
    out.append("kamp 0.1.0\n");
    out
}

/// What the buffer arguments after the first contribute to the target: each
/// one but the all-buffers star is appended after a comma and counted.
pub open spec fn buffer_tail(items: Seq<Seq<char>>) -> (Seq<char>, int)
    decreases items.len(),
{
    if items.len() == 0 {
        (Seq::empty(), 0)
    } else if items[0] == seq!['*'] {
        buffer_tail(items.drop_first())
    } else {
        let (t, n) = buffer_tail(items.drop_first());
        ((seq![','] + items[0]) + t, 1 + n)
    }
}

/// The resolved buffer target: nothing without buffer arguments; the quoted
/// all-buffers star with count zero when the first argument is the star;
/// otherwise the quoted comma-joined names with their count.
pub open spec fn buffer_ctx_spec(buffers: Seq<Seq<char>>) -> Option<(Seq<char>, int)> {
    if buffers.len() == 0 {
        None
    } else if buffers[0] == seq!['*'] {
        Some((seq!['\'', '*', '\''], 0))
    } else {
        let (t, n) = buffer_tail(buffers.drop_first());
        Some(((seq!['\''] + buffers[0] + t).push('\''), 1 + n))
    }
}

proof fn lemma_buffer_tail_push(items: Seq<Seq<char>>, x: Seq<char>)
    ensures
        x == seq!['*'] ==> buffer_tail(items.push(x)) == buffer_tail(items),
        x != seq!['*'] ==> buffer_tail(items.push(x)) == (
            buffer_tail(items).0 + (seq![','] + x),
            buffer_tail(items).1 + 1,
        ),
    decreases items.len(),
{
    if items.len() == 0 {
        assert(items.push(x)[0] == x);
        assert(items.push(x).drop_first() =~= items);
        assert(buffer_tail(items) == (Seq::<char>::empty(), 0int));
        if x != seq!['*'] {
            assert(buffer_tail(items.push(x)).0 =~= buffer_tail(items).0 + (seq![','] + x));
        }
    } else {
        lemma_buffer_tail_push(items.drop_first(), x);
        assert(items.push(x)[0] == items[0]);
        assert(items.push(x).drop_first() =~= items.drop_first().push(x));
        if x != seq!['*'] && items[0] != seq!['*'] {
            assert(buffer_tail(items.push(x)).0 =~= buffer_tail(items).0 + (seq![','] + x));
        }
    }
}

/// Builds the buffer target for the editor: the first name, then every
/// further non-star name after a comma, all single-quoted, with the count
/// of named buffers; the all-buffers star yields count zero.
pub fn to_buffer_ctx(buffers: Vec<String>) -> (r: Option<(String, i32)>)
    requires
        buffers@.len() <= 0x7fff_ffff,
    ensures
        buffer_view(r) == buffer_ctx_spec(buffers.deep_view()),
{
    proof {
        reveal_strlit("*");
        assert("*"@.len() == 1);
        assert("*"@ =~= seq!['*']);
    }
    let n = buffers.len();
    if n == 0 {
        return None;
    }
    let first = &buffers[0];
    let mut res = String::new();
    push_char(&mut res, '\'');
    if str_eq(first.as_str(), "*") {
        push_char(&mut res, '*');
        push_char(&mut res, '\'');
        proof {
            assert(res@ =~= seq!['\'', '*', '\'']);
        }
        return Some((res, 0));
    }
    res.append(first.as_str());
    let mut count: i32 = 1;
    let mut i: usize = 1;
    proof {
        assert(buffers.deep_view().drop_first().take(0) =~= Seq::<Seq<char>>::empty());
    }
    while i < n
        invariant
            n == buffers@.len() <= 0x7fff_ffff,
            1 <= i <= n,
            buffers.deep_view()[0] != seq!['*'],
            res@ == seq!['\''] + buffers.deep_view()[0] + buffer_tail(
                buffers.deep_view().drop_first().take(i - 1),
            ).0,
            count as int == 1 + buffer_tail(buffers.deep_view().drop_first().take(i - 1)).1,
            count as int <= i,
        decreases n - i,
    {
        proof {
            reveal_strlit("*");
            assert("*"@.len() == 1);
            assert("*"@ =~= seq!['*']);
        }
        let ghost rest = buffers.deep_view().drop_first();
        let item = &buffers[i];
        let keep = !str_eq(item.as_str(), "*");
        if keep {
            push_char(&mut res, ',');
            res.append(item.as_str());
            count = count + 1;
        }
        i = i + 1;
        proof {
            assert(rest.take(i - 1) =~= rest.take(i - 2).push(rest[i - 2]));
            assert(rest[i - 2] == buffers.deep_view()[i - 1]);
            lemma_buffer_tail_push(rest.take(i - 2), rest[i - 2]);
            assert(res@ =~= seq!['\''] + buffers.deep_view()[0] + buffer_tail(rest.take(i - 1)).0);
        }
    }
    push_char(&mut res, '\'');
    proof {
        let dv = buffers.deep_view();
        assert(dv.drop_first().take(n - 1) =~= dv.drop_first());
        assert(res@ =~= (seq!['\''] + dv[0] + buffer_tail(dv.drop_first()).0).push('\''));
    }
    Some((res, count))
}

/// The rendered expansion a get subcommand queries.
pub open spec fn qcmd_key_val(c: &argv::get::SubCommand) -> Seq<char> {
    match c {
        argv::get::SubCommand::Value(o) => "%val<"@ + o.name@ + ">"@,
        argv::get::SubCommand::Opt(o) => "%opt<"@ + o.name@ + ">"@,
        argv::get::SubCommand::Register(o) => "%reg<"@ + o.name@ + ">"@,
        argv::get::SubCommand::Shell(o) => "%sh<"@ + (if o.verbatim {
            args_verbatim(o.command.deep_view())
        } else {
            args_joined(o.command.deep_view())
        }) + ">"@,
    }
}

/// The quoting style name a get subcommand asks of the editor.
pub open spec fn qcmd_quoting(c: &argv::get::SubCommand) -> Seq<char> {
    match c {
        argv::get::SubCommand::Value(o) => method_name(&o.quoting),
        argv::get::SubCommand::Opt(o) => method_name(&o.quoting),
        argv::get::SubCommand::Register(o) => method_name(&o.quoting),
        argv::get::SubCommand::Shell(_) => "raw"@,
    }
}

/// The rendered name of a quoting method.
pub open spec fn method_name(m: &argv::get::QuotingMethod) -> Seq<char> {
    match m {
        argv::get::QuotingMethod::Raw => "raw"@,
        argv::get::QuotingMethod::Kakoune => "kakoune"@,
        argv::get::QuotingMethod::Shell => "shell"@,
    }
}

/// The request body a get subcommand sends.
pub open spec fn qcmd_body(c: &argv::get::SubCommand) -> Seq<char> {
    "echo -quoting "@ + qcmd_quoting(c) + " -to-file %opt<kamp_out> "@ + qcmd_key_val(c)
}

/// Maps a parsed quoting method to the query layer's style.
pub fn quoting_of(m: &argv::get::QuotingMethod) -> (r: Quoting)
    ensures
        quoting_spec(&r) == method_name(m),
{
    match m {
        argv::get::QuotingMethod::Raw => Quoting::Raw,
        argv::get::QuotingMethod::Kakoune => Quoting::Kakoune,
        argv::get::QuotingMethod::Shell => Quoting::Shell,
    }
}

/// How a get subcommand's response is interpreted: a map key wins over the
/// list switch; shell evaluation is always plain.
pub open spec fn qcmd_qtype_ok(c: &argv::get::SubCommand, qtype: &QueryType) -> bool {
    match c {
        argv::get::SubCommand::Value(o) => match o.map_key {
            Some(ref k) => (qtype matches QueryType::Lookup(rk) && rk@ == k@),
            None => *qtype == if o.list {
                QueryType::List
            } else {
                QueryType::Plain
            },
        },
        argv::get::SubCommand::Opt(o) => match o.map_key {
            Some(ref k) => (qtype matches QueryType::Lookup(rk) && rk@ == k@),
            None => *qtype == if o.list {
                QueryType::List
            } else {
                QueryType::Plain
            },
        },
        argv::get::SubCommand::Register(o) => *qtype == if o.list {
            QueryType::List
        } else {
            QueryType::Plain
        },
        argv::get::SubCommand::Shell(_) => *qtype == QueryType::Plain,
    }
}

/// Whether the decode skips all parsing.
pub open spec fn qcmd_verbatim(c: &argv::get::SubCommand) -> bool {
    match c {
        argv::get::SubCommand::Value(o) => o.verbatim,
        argv::get::SubCommand::Opt(o) => o.verbatim,
        argv::get::SubCommand::Register(o) => o.verbatim,
        argv::get::SubCommand::Shell(_) => true,
    }
}

impl QueryContext {
    /// Builds the query a get subcommand runs.
    pub fn from_cmd(cmd: argv::get::SubCommand) -> (r: QueryContext)
        ensures
            key_val_spec(&r.key_val) == qcmd_key_val(&cmd),
            quoting_spec(&r.quoting) == qcmd_quoting(&cmd),
            qcmd_qtype_ok(&cmd, &r.qtype),
            r.verbatim == qcmd_verbatim(&cmd),
    {
        match cmd {
            argv::get::SubCommand::Value(o) => QueryContext::new(
                QueryKeyVal::Val(o.name),
                QueryType::new(o.list, o.map_key),
                quoting_of(&o.quoting),
                o.verbatim,
            ),
            argv::get::SubCommand::Opt(o) => QueryContext::new(
                QueryKeyVal::Opt(o.name),
                QueryType::new(o.list, o.map_key),
                quoting_of(&o.quoting),
                o.verbatim,
            ),
            argv::get::SubCommand::Register(o) => QueryContext::new(
                QueryKeyVal::Reg(o.name),
                QueryType::new(o.list, None),
                quoting_of(&o.quoting),
                o.verbatim,
            ),
            argv::get::SubCommand::Shell(o) => QueryContext::new_sh(o.command, o.verbatim),
        }
    }
}

/// The body the attach subcommand runs on the new client: switch to the
/// buffer when one is named, nothing otherwise.
pub open spec fn attach_body(buffer: &Option<String>) -> Seq<char> {
    match buffer {
        Some(b) => "buffer '"@ + b@ + "'"@,
        None => Seq::empty(),
    }
}

/// Builds the attach body.
pub fn attach(buffer: &Option<String>) -> (r: String)
    ensures
        r@ == attach_body(buffer),
{
    let mut cmd = String::new();
    if let Some(b) = buffer {
        cmd.append("buffer '");
        cmd.append(b.as_str());
        cmd.append("'");
        proof {
            assert(cmd@ =~= attach_body(buffer));
        }
    }
    cmd
}

/// Whether dispatch can serve the command without overflowing a counter: no
/// more buffer arguments than a signed 32-bit count can hold, and the
/// command is one that runs against a session.
pub open spec fn dispatchable(command: &SubCommand) -> bool {
    &&& !(command matches SubCommand::Init(_))
    &&& match command {
        SubCommand::Send(o) => o.buffers@.len() <= 0x7fff_ffff,
        SubCommand::Get(o) => o.buffers@.len() <= 0x7fff_ffff,
        SubCommand::Cat(o) => o.buffers@.len() <= 0x7fff_ffff,
        _ => true,
    }
}

impl Context {
    /// Turns one subcommand into the action the binary performs against
    /// this context.
    pub fn dispatch(&self, command: SubCommand) -> (r: Result<Plan, Error>)
        requires
            dispatchable(&command),
        ensures
            match command {
                SubCommand::Ctx(o) => if self.spec_client() is None && o.client {
                    (r matches Err(e) && e matches Error::InvalidContext(m) && m@
                        == "client is required"@)
                } else {
                    (r matches Ok(p) && p matches Plan::Output(s) && s@ == ctx_text(
                        self.spec_session(),
                        self.spec_client(),
                    ))
                },
                SubCommand::Attach(o) => (r matches Ok(p) && p matches Plan::Connect { script }
                    && script@ == framed_connect(attach_body(&o.buffer))),
                SubCommand::Edit(o) => (r matches Ok(p) && p matches Plan::EditCmd(eo) && eo.new
                    == o.new && eo.focus == o.focus && eo.files@ == o.files@),
                SubCommand::Send(o) => if o.command@.len() == 0 {
                    (r matches Err(e) && e is CommandRequired)
                } else {
                    (r matches Ok(p) && p matches Plan::Pipe { script, post } && script@
                        == framed_send(
                        if o.verbatim {
                            args_verbatim(o.command.deep_view())
                        } else {
                            args_joined(o.command.deep_view())
                        },
                        buffer_ctx_spec(o.buffers.deep_view()),
                        self.spec_client(),
                    ) && post is Discard)
                },
                SubCommand::Kill(o) => (r matches Ok(p) && p matches Plan::PipeRaw { script }
                    && script@ == match o.exit_status {
                    Some(code) => "kill "@ + crate::chars::int_str(code as int),
                    None => "kill"@,
                }),
                SubCommand::List(_) => (r matches Ok(p) && p is ListCurrent),
                SubCommand::Get(o) => (r matches Ok(p) && p matches Plan::Pipe { script, post }
                    && script@ == framed_send(
                    qcmd_body(&o.subcommand),
                    buffer_ctx_spec(o.buffers.deep_view()),
                    self.spec_client(),
                ) && (post matches Post::Query { qtype, verbatim, zplit } && qcmd_qtype_ok(
                    &o.subcommand,
                    &qtype,
                ) && verbatim == qcmd_verbatim(&o.subcommand) && zplit == o.zplit)),
                SubCommand::Cat(o) => if self.spec_client() is None && o.buffers@.len() == 0 {
                    (r matches Err(e) && e matches Error::InvalidContext(m) && m@
                        == "either client or buffer is required"@)
                } else {
                    (r matches Ok(p) && p matches Plan::Pipe { script, post } && script@
                        == framed_send(
                        "write %opt{kamp_out}"@,
                        buffer_ctx_spec(o.buffers.deep_view()),
                        self.spec_client(),
                    ) && post is Print)
                },
                SubCommand::Init(_) => true,
            },
    {
        match command {
            SubCommand::Ctx(o) => {
                if self.is_draft() && o.client {
                    Err(Error::InvalidContext("client is required"))
                } else {
                    Ok(Plan::Output(ctx(self)))
                }
            },
            SubCommand::Attach(o) => {
                let body = attach(&o.buffer);
                Ok(Plan::Connect { script: self.connect(body.as_str()) })
            },
            SubCommand::Edit(o) => Ok(Plan::EditCmd(o)),
            SubCommand::Send(o) => {
                if o.command.len() == 0 {
                    Err(Error::CommandRequired)
                } else {
                    let body = join_args(&o.command, o.verbatim);
                    let buffer_ctx = to_buffer_ctx(o.buffers);
                    Ok(
                        Plan::Pipe {
                            script: self.send(body.as_str(), buffer_ctx),
                            post: Post::Discard,
                        },
                    )
                }
            },
            SubCommand::Kill(o) => Ok(Plan::PipeRaw { script: self.send_kill(o.exit_status) }),
            SubCommand::List(_) => Ok(Plan::ListCurrent),
            SubCommand::Get(o) => {
                let q = QueryContext::from_cmd(o.subcommand);
                let body = q.body();
                let buffer_ctx = to_buffer_ctx(o.buffers);
                Ok(
                    Plan::Pipe {
                        script: self.send(body.as_str(), buffer_ctx),
                        post: Post::Query { qtype: q.qtype, verbatim: q.verbatim, zplit: o.zplit },
                    },
                )
            },
            SubCommand::Cat(o) => {
                let buffer_ctx = to_buffer_ctx(o.buffers);
                if self.is_draft() && buffer_ctx.is_none() {
                    Err(Error::InvalidContext("either client or buffer is required"))
                } else {
                    Ok(
                        Plan::Pipe {
                            script: self.send("write %opt{kamp_out}", buffer_ctx),
                            post: Post::Print,
                        },
                    )
                }
            },
            SubCommand::Init(_) => unreached(),
        }
    }
}

/// Frames a raw command body as a piped request against the context.
pub fn send(c: &Context, cmd: String, buffer_ctx: Option<(String, i32)>) -> (r: String)
    ensures
        r@ == framed_send(cmd@, buffer_view(buffer_ctx), c.spec_client()),
{
    c.send(cmd.as_str(), buffer_ctx)
}

/// The raw kill script for the context's session.
pub fn kill(c: &Context, exit_status: Option<i32>) -> (r: String)
    ensures
        r@ == match exit_status {
            Some(code) => "kill "@ + crate::chars::int_str(code as int),
            None => "kill"@,
        },
{
    c.send_kill(exit_status)
}

/// Frames the request that prints the targeted buffer's content, which
/// needs a client or a buffer target.
pub fn cat(c: &Context, buffer_ctx: Option<(String, i32)>) -> (r: Result<String, Error>)
    ensures
        c.spec_client() is None && buffer_ctx is None ==> (r matches Err(e) && e matches
            Error::InvalidContext(m) && m@ == "either client or buffer is required"@),
        !(c.spec_client() is None && buffer_ctx is None) ==> (r matches Ok(script) && script@
            == framed_send("write %opt{kamp_out}"@, buffer_view(buffer_ctx), c.spec_client())),
{
    if c.is_draft() && buffer_ctx.is_none() {
        return Err(Error::InvalidContext("either client or buffer is required"));
    }
    Ok(c.send("write %opt{kamp_out}", buffer_ctx))
}

/// Where an invocation goes before anything runs.
#[derive(Debug)]
pub enum Route {
    /// print this text and exit
    Output(String),
    /// enumerate the sessions, then run the listing flow on each
    ListAll { debug: bool },
    /// replace the process with the editor opening these files
    Proxy(Vec<String>),
    /// run the command against this session context
    WithSession { ctx: Context, command: SubCommand },
}

/// The view of an optional string.
pub open spec fn opt_view(o: &Option<String>) -> Option<Seq<char>> {
    match o {
        Some(s) => Some(s@),
        None => None,
    }
}

/// The session the invocation addresses: the command-line session when one
/// was given and not empty, else the environment's.
pub open spec fn session_of(cli: &Option<String>, env: &Option<String>) -> Option<Seq<char>> {
    match cli {
        Some(s) => if s@.len() > 0 {
            Some(s@)
        } else {
            opt_view(env)
        },
        None => opt_view(env),
    }
}

/// The client the context binds: the command-line client when given, else
/// the environment's; an empty name binds none.
pub open spec fn client_of(cli: &Option<String>, env: &Option<String>) -> Option<Seq<char>> {
    let given = match cli {
        Some(c) => Some(c@),
        None => opt_view(env),
    };
    match given {
        Some(c) => if c.len() > 0 {
            Some(c)
        } else {
            None
        },
        None => None,
    }
}

/// Routes one invocation: the version switch and the init subcommand print
/// and exit; listing all sessions needs no session; editing without any
/// session becomes a bare pass-through; everything else needs a session and
/// runs against its context.
pub fn route(kamp: Kampliment, env_session: Option<String>, env_client: Option<String>, tmp_dir:
    &str) -> (r: Result<Route, Error>)
    ensures
        kamp.version ==> (r matches Ok(rr) && rr matches Route::Output(s) && s@
            == "kamp 0.1.0\n"@),
        !kamp.version ==> match kamp.subcommand {
            Some(SubCommand::Init(o)) => (r matches Ok(rr) && rr matches Route::Output(s) && s@
                == crate::init::init_text(o.export@, o.alias)),
            Some(SubCommand::List(o)) => if o.all {
                (r matches Ok(rr) && rr matches Route::ListAll { debug } && debug == kamp.debug)
            } else {
                routed_with_session(&r, &kamp, &env_session, &env_client, tmp_dir@)
            },
            Some(SubCommand::Edit(o)) => if session_of(&kamp.session, &env_session) is None {
                (r matches Ok(rr) && rr matches Route::Proxy(files) && files@ == o.files@)
            } else {
                routed_with_session(&r, &kamp, &env_session, &env_client, tmp_dir@)
            },
            _ => routed_with_session(&r, &kamp, &env_session, &env_client, tmp_dir@),
        },
{
    if kamp.version {
        return Ok(Route::Output(version()));
    }
    let subcommand = match kamp.subcommand {
        Some(c) => c,
        None => SubCommand::Ctx(argv::ctx::Options::new_default()),
    };
    match subcommand {
        SubCommand::Init(o) => Ok(Route::Output(crate::init::init(o.export, o.alias))),
        SubCommand::List(o) => {
            if o.all {
                Ok(Route::ListAll { debug: kamp.debug })
            } else {
                with_session(
                    kamp.session,
                    kamp.client,
                    kamp.debug,
                    SubCommand::List(o),
                    env_session,
                    env_client,
                    tmp_dir,
                )
            }
        },
        SubCommand::Edit(o) => {
            let have_session = match &kamp.session {
                Some(s) => {
                    if !s.as_str().is_empty() {
                        true
                    } else {
                        env_session.is_some()
                    }
                },
                None => env_session.is_some(),
            };
            if !have_session {
                Ok(Route::Proxy(o.files))
            } else {
                with_session(
                    kamp.session,
                    kamp.client,
                    kamp.debug,
                    SubCommand::Edit(o),
                    env_session,
                    env_client,
                    tmp_dir,
                )
            }
        },
        other => with_session(
            kamp.session,
            kamp.client,
            kamp.debug,
            other,
            env_session,
            env_client,
            tmp_dir,
        ),
    }
}

/// What routing a session-bound command guarantees: without a session the
/// context error; with one a context derived from it, with the resolved
/// client bound and the command passed through.
pub open spec fn routed_with_session(
    r: &Result<Route, Error>,
    kamp: &Kampliment,
    env_session: &Option<String>,
    env_client: &Option<String>,
    tmp_dir: Seq<char>,
) -> bool {
    match session_of(&kamp.session, env_session) {
        None => (r matches Err(e) && e matches Error::InvalidContext(m) && m@
            == "session is required"@),
        Some(session) => (r matches Ok(rr) && rr matches Route::WithSession { ctx, command }
            && ctx.spec_session() == session && ctx.spec_fifo_out() == crate::context::fifo_path(
            tmp_dir,
            session,
            ".out"@,
        ) && ctx.spec_fifo_err() == crate::context::fifo_path(tmp_dir, session, ".err"@)
            && ctx.spec_client() == client_of(&kamp.client, env_client) && ctx.spec_debug()
            == kamp.debug && match kamp.subcommand {
            Some(ref c) => command == c,
            None => (command matches SubCommand::Ctx(o) && o.client == false),
        }),
    }
}

fn with_session(
    cli_session: Option<String>,
    cli_client: Option<String>,
    debug: bool,
    command: SubCommand,
    env_session: Option<String>,
    env_client: Option<String>,
    tmp_dir: &str,
) -> (r: Result<Route, Error>)
    ensures
        match session_of(&cli_session, &env_session) {
            None => (r matches Err(e) && e matches Error::InvalidContext(m) && m@
                == "session is required"@),
            Some(session) => (r matches Ok(rr) && rr matches Route::WithSession {
                ctx,
                command: rc,
            } && ctx.spec_session() == session && ctx.spec_fifo_out()
                == crate::context::fifo_path(tmp_dir@, session, ".out"@) && ctx.spec_fifo_err()
                == crate::context::fifo_path(tmp_dir@, session, ".err"@) && ctx.spec_client()
                == client_of(&cli_client, &env_client) && ctx.spec_debug() == debug && rc
                == command),
        },
{
    let session = match cli_session {
        Some(s) => {
            if !s.as_str().is_empty() {
                Some(s)
            } else {
                env_session
            }
        },
        None => env_session,
    };
    let session = match session {
        Some(s) => s,
        None => {
            return Err(Error::InvalidContext("session is required"));
        },
    };
    let mut ctx = Context::new(tmp_dir, session.as_str(), debug);
    match cli_client {
        Some(c) => ctx.set_client(c.as_str()),
        None => match env_client {
            Some(c) => ctx.set_client(c.as_str()),
            None => (),
        },
    }
    Ok(Route::WithSession { ctx, command })
}

} // verus!
