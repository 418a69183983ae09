//! Listing sessions: one session is described by its working directory and
//! its clients, each with the buffer it shows.  Gathering that takes a
//! short conversation with the editor — ask for the client list, then for
//! each client's buffer name, then for the working directory — modelled
//! here as a state machine; the binary runs one request per step and hands
//! the decoded response back.

use vstd::prelude::*;
use vstd::string::StringExecFns;

use crate::context::framed_send;
use crate::context::Context;

verus! {

/// The request body asking for the client list, quoted for the lexer.
pub const CLIENTS_BODY: &'static str =
    "echo -quoting kakoune -to-file %opt<kamp_out> %val<client_list>";

/// The request body asking for the current buffer's name.
pub const BUFNAME_BODY: &'static str = "echo -quoting kakoune -to-file %opt<kamp_out> %val<bufname>";

/// The request body asking the shell for the working directory.
pub const PWD_BODY: &'static str = "echo -quoting raw -to-file %opt<kamp_out> %sh<pwd>";

/// One client of a session and the buffer it shows.
#[derive(Debug, Clone)]
pub struct Client {
    name: String,
    bufname: String,
}

impl Client {
    /// The client's name.
    pub closed spec fn spec_name(&self) -> Seq<char> {
        self.name@
    }

    /// The name of the buffer the client shows.
    pub closed spec fn spec_bufname(&self) -> Seq<char> {
        self.bufname@
    }

    /// Builds a client description.
    pub fn new(name: String, bufname: String) -> (r: Client)
        ensures
            r.spec_name() == name@,
            r.spec_bufname() == bufname@,
    {
        Client { name, bufname }
    }
}

/// One session: its name, its working directory, and its clients.
#[derive(Debug)]
pub struct Session {
    name: String,
    pwd: String,
    clients: Vec<Client>,
}

impl Session {
    /// The session's name.
    pub closed spec fn spec_name(&self) -> Seq<char> {
        self.name@
    }

    /// The session's working directory.
    pub closed spec fn spec_pwd(&self) -> Seq<char> {
        self.pwd@
    }

    /// The session's clients.
    pub closed spec fn spec_clients(&self) -> Seq<Client> {
        self.clients@
    }

    /// Builds a session description.
    pub fn new(name: String, pwd: String, clients: Vec<Client>) -> (r: Session)
        ensures
            r.spec_name() == name@,
            r.spec_pwd() == pwd@,
            r.spec_clients() == clients@,
    {
        Session { name, pwd, clients }
    }
}

/// Where the listing conversation stands.
#[derive(Debug)]
pub enum ListStage {
    /// the client list was asked for
    NeedClients,
    /// one buffer name per client is being asked for, in order
    NeedBufname { names: Vec<String>, idx: usize, clients: Vec<Client> },
    /// the working directory was asked for
    NeedPwd { clients: Vec<Client> },
    /// the session is fully described
    Finished(Session),
}

/// The conversation that describes one session.
#[derive(Debug)]
pub struct ListFlow {
    /// the session handle the requests run against
    pub ctx: Context,
    /// where the conversation stands
    pub stage: ListStage,
}

/// The client a name binds: an empty name binds none.
pub open spec fn client_opt(name: Seq<char>) -> Option<Seq<char>> {
    if name.len() == 0 {
        None
    } else {
        Some(name)
    }
}

/// The last element of a decoded response, or the empty string.
pub open spec fn last_or_empty(items: Seq<Seq<char>>) -> Seq<char> {
    if items.len() == 0 {
        Seq::empty()
    } else {
        items.last()
    }
}

impl ListFlow {
    /// Opens the conversation for one session: the flow and the framed
    /// request for the client list.
    pub fn start(ctx: Context) -> (r: (ListFlow, String))
        ensures
            r.0.ctx == ctx,
            r.0.stage is NeedClients,
            r.1@ == framed_send(CLIENTS_BODY@, None, ctx.spec_client()),
    {
        let script = ctx.send(CLIENTS_BODY, None);
        (ListFlow { ctx, stage: ListStage::NeedClients }, script)
    }

    /// Whether the next response is taken verbatim rather than decoded as a
    /// quoted list.
    pub fn wants_verbatim(&self) -> (r: bool)
        ensures
            r == (self.stage is NeedPwd),
    {
        match self.stage {
            ListStage::NeedPwd { .. } => true,
            _ => false,
        }
    }

    /// Feeds one decoded response and yields the next framed request, or
    /// nothing once the session is fully described.
    ///
    /// From the client list, the flow asks for the first client's buffer
    /// name, or for the working directory when there is no client; each
    /// buffer response adds one client description; the working-directory
    /// response finishes the session with its last line.
    pub fn step(&mut self, response: Vec<String>) -> (r: Option<String>)
        ensures
            old(self).ctx.spec_session() == final(self).ctx.spec_session(),
            old(self).ctx.spec_fifo_out() == final(self).ctx.spec_fifo_out(),
            old(self).ctx.spec_fifo_err() == final(self).ctx.spec_fifo_err(),
            match old(self).stage {
                ListStage::NeedClients => if response@.len() == 0 {
                    (final(self).stage matches ListStage::NeedPwd { clients } && clients@.len()
                        == 0 && (r matches Some(s) && s@ == framed_send(PWD_BODY@, None, None)))
                } else {
                    (final(self).stage matches ListStage::NeedBufname { names, idx, clients }
                        && names@ == response@ && idx == 0 && clients@.len() == 0 && (r matches
                    Some(s) && s@ == framed_send(BUFNAME_BODY@, None, client_opt(response@[0]@))))
                },
                ListStage::NeedBufname { names, idx, clients } => if idx < names@.len() {
                    if idx + 1 < names@.len() {
                        (final(self).stage matches ListStage::NeedBufname {
                            names: nn,
                            idx: ni,
                            clients: nc,
                        } && nn@ == names@ && ni == idx + 1 && nc@.len() == clients@.len() + 1
                            && nc@.drop_last() == clients@
                            && nc@.last().spec_name() == names@[idx as int]@
                            && nc@.last().spec_bufname() == last_or_empty(response.deep_view())
                            && (r matches Some(s) && s@ == framed_send(
                            BUFNAME_BODY@,
                            None,
                            client_opt(names@[idx + 1]@),
                        )))
                    } else {
                        (final(self).stage matches ListStage::NeedPwd { clients: nc } && nc@.len()
                            == clients@.len() + 1 && nc@.drop_last() == clients@
                            && nc@.last().spec_name()
                            == names@[idx as int]@ && nc@.last().spec_bufname() == last_or_empty(
                            response.deep_view(),
                        ) && (r matches Some(s) && s@ == framed_send(PWD_BODY@, None, None)))
                    }
                } else {
                    true
                },
                ListStage::NeedPwd { clients } => (final(self).stage matches
                    ListStage::Finished(session) && session.spec_name() == old(
                    self,
                ).ctx.spec_session() && session.spec_pwd() == last_or_empty(response.deep_view())
                    && session.spec_clients() == clients@ && r is None),
                ListStage::Finished(_) => r is None,
            },
    {
        let mut stage = ListStage::NeedClients;
        core::mem::swap(&mut stage, &mut self.stage);
        match stage {
            ListStage::NeedClients => {
                if response.len() == 0 {
                    proof {
                        reveal_strlit("");
                        assert(""@.len() == 0);
                    }
                    self.ctx.set_client("");
                    let script = self.ctx.send(PWD_BODY, None);
                    self.stage = ListStage::NeedPwd { clients: Vec::new() };
                    Some(script)
                } else {
                    self.ctx.set_client(response[0].as_str());
                    let script = self.ctx.send(BUFNAME_BODY, None);
                    self.stage = ListStage::NeedBufname {
                        names: response,
                        idx: 0,
                        clients: Vec::new(),
                    };
                    Some(script)
                }
            },
            ListStage::NeedBufname { names, idx, mut clients } => {
                if idx < names.len() {
                    let name = names[idx].clone();
                    let bufname = last_of(response);
                    let ghost before = clients@;
                    clients.push(Client::new(name, bufname));
                    proof {
                        assert(clients@.drop_last() =~= before);
                    }
                    let next = idx + 1;
                    if next < names.len() {
                        self.ctx.set_client(names[next].as_str());
                        let script = self.ctx.send(BUFNAME_BODY, None);
                        self.stage = ListStage::NeedBufname { names, idx: next, clients };
                        Some(script)
                    } else {
                        proof {
                            reveal_strlit("");
                            assert(""@.len() == 0);
                        }
                        self.ctx.set_client("");
                        let script = self.ctx.send(PWD_BODY, None);
                        self.stage = ListStage::NeedPwd { clients };
                        Some(script)
                    }
                } else {
                    self.stage = ListStage::NeedBufname { names, idx, clients };
                    None
                }
            },
            ListStage::NeedPwd { clients } => {
                let pwd = last_of(response);
                let session_name = self.ctx.session();
                let session = Session::new(session_name, pwd, clients);
                self.stage = ListStage::Finished(session);
                None
            },
            ListStage::Finished(s) => {
                self.stage = ListStage::Finished(s);
                None
            },
        }
    }

    /// The described session, once the conversation finished.
    pub fn result(self) -> (r: Option<Session>)
        ensures
            match self.stage {
                ListStage::Finished(s) => (r matches Some(rs) && rs.spec_name() == s.spec_name()
                    && rs.spec_pwd() == s.spec_pwd() && rs.spec_clients() == s.spec_clients()),
                _ => r is None,
            },
    {
        match self.stage {
            ListStage::Finished(s) => Some(s),
            _ => None,
        }
    }
}

/// The last element of a response, or the empty string.
fn last_of(mut items: Vec<String>) -> (r: String)
    ensures
        r@ == last_or_empty(items.deep_view()),
{
    let ghost dv0 = items.deep_view();
    match items.pop() {
        Some(s) => {
            proof {
                assert(dv0.len() > 0);
                assert(dv0[dv0.len() - 1] == s@);
            }
            s
        },
        None => {
            proof {
                assert(dv0.len() == 0);
            }
            String::new()
        },
    }
}

/// Opens the conversation for the session in context.
pub fn list_current(ctx: Context) -> (r: (ListFlow, String))
    ensures
        r.0.ctx == ctx,
        r.0.stage is NeedClients,
        r.1@ == framed_send(CLIENTS_BODY@, None, ctx.spec_client()),
{
    ListFlow::start(ctx)
}

/// Opens one conversation per named session, each against a fresh context.
pub fn list_all(sessions: Vec<String>, tmp_dir: &str, debug: bool) -> (r: Vec<(ListFlow, String)>)
    ensures
        r@.len() == sessions@.len(),
        forall|i: int|
            0 <= i < r@.len() ==> (#[trigger] r@[i]).0.ctx.spec_session() == sessions@[i]@
                && r@[i].0.ctx.spec_client() is None && r@[i].0.ctx.spec_debug() == debug
                && r@[i].0.stage is NeedClients && r@[i].1@ == framed_send(
                CLIENTS_BODY@,
                None,
                None,
            ),
{
    let mut r: Vec<(ListFlow, String)> = Vec::new();
    let mut i: usize = 0;
    while i < sessions.len()
        invariant
            i <= sessions@.len(),
            r@.len() == i,
            forall|k: int|
                0 <= k < i ==> (#[trigger] r@[k]).0.ctx.spec_session() == sessions@[k]@
                    && r@[k].0.ctx.spec_client() is None && r@[k].0.ctx.spec_debug() == debug
                    && r@[k].0.stage is NeedClients && r@[k].1@ == framed_send(
                    CLIENTS_BODY@,
                    None,
                    None,
                ),
        decreases sessions@.len() - i,
    {
        let ctx = Context::new(tmp_dir, sessions[i].as_str(), debug);
        let flow = ListFlow::start(ctx);
        r.push(flow);
        i = i + 1;
    }
    r
}

} // verus!
