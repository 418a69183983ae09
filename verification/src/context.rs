//! The session handle and the command framer.  A `Context` names one running
//! editor session, an optional client, and the pair of FIFO paths derived
//! from the session name.  Its methods build the framed request scripts that
//! the launcher pipes to the editor: scoping, failure catching, and the
//! trailing sentinel echo that marks the end of a request's output.

use vstd::prelude::*;
use vstd::string::StrSliceExecFns;
use vstd::string::StringExecFns;

use crate::chars::chars_to_string;
use crate::chars::i32_to_string;
use crate::chars::int_str;
use crate::chars::str_chars;

verus! {

/// The FIFO path for one session: `<tmp>/kamp-<session><ext>`, adding the
/// separator only when the base directory does not already end with one.
pub open spec fn fifo_path(tmp: Seq<char>, session: Seq<char>, ext: Seq<char>) -> Seq<char> {
    if tmp.len() > 0 && tmp[tmp.len() - 1] == '/' {
        tmp + "kamp-"@ + session + ext
    } else {
        tmp + "/"@ + "kamp-"@ + session + ext
    }
}

/// An immutable handle on one editor session: the session name, an optional
/// client name, the two derived FIFO paths, and the debug flag.
#[derive(Debug, Clone)]
pub struct Context {
    session: String,
    client: Option<String>,
    fifo_out: String,
    fifo_err: String,
    debug: bool,
}

impl Context {
    /// The session name this handle addresses.
    pub closed spec fn spec_session(&self) -> Seq<char> {
        self.session@
    }

    /// The client bound to this handle, if any.
    pub closed spec fn spec_client(&self) -> Option<Seq<char>> {
        match self.client {
            Some(ref c) => Some(c@),
            None => None,
        }
    }

    /// The derived output FIFO path.
    pub closed spec fn spec_fifo_out(&self) -> Seq<char> {
        self.fifo_out@
    }

    /// The derived error FIFO path.
    pub closed spec fn spec_fifo_err(&self) -> Seq<char> {
        self.fifo_err@
    }

    /// Whether the handle prints what it builds.
    pub closed spec fn spec_debug(&self) -> bool {
        self.debug
    }

    /// Builds the handle for `session`, deriving both FIFO paths from the
    /// temporary directory and the session name alone.
    pub fn new(tmp_dir: &str, session: &str, debug: bool) -> (r: Context)
        ensures
            r.spec_session() == session@,
            r.spec_client() is None,
            r.spec_fifo_out() == fifo_path(tmp_dir@, session@, ".out"@),
            r.spec_fifo_err() == fifo_path(tmp_dir@, session@, ".err"@),
            r.spec_debug() == debug,
    {
        let mut base = String::new();
        base.append(tmp_dir);
        let n = tmp_dir.unicode_len();
        let ends_sep = n > 0 && tmp_dir.get_char(n - 1) == '/';
        if !ends_sep {
            base.append("/");
        }
        base.append("kamp-");
        base.append(session);
        let mut out = base.clone();
        out.append(".out");
        let mut err = base;
        err.append(".err");
        proof {
            assert(out@ =~= fifo_path(tmp_dir@, session@, ".out"@));
            assert(err@ =~= fifo_path(tmp_dir@, session@, ".err"@));
        }
        Context {
            session: String::from_str(session),
            client: None,
            fifo_out: out,
            fifo_err: err,
            debug,
        }
    }

    /// Rebinds the client: an empty name clears it, any other name sets it.
    pub fn set_client(&mut self, client: &str)
        ensures
            final(self).spec_client() == if client@.len() == 0 {
                None::<Seq<char>>
            } else {
                Some(client@)
            },
            final(self).spec_session() == old(self).spec_session(),
            final(self).spec_fifo_out() == old(self).spec_fifo_out(),
            final(self).spec_fifo_err() == old(self).spec_fifo_err(),
            final(self).spec_debug() == old(self).spec_debug(),
    {
        if client.is_empty() {
            self.client = None;
        } else {
            self.client = Some(String::from_str(client));
        }
    }

    /// Adopts `client` when one is given; keeps the current binding otherwise.
    pub fn set_client_if_any(&mut self, client: Option<String>)
        ensures
            final(self).spec_client() == match client {
                Some(ref c) => Some(c@),
                None => old(self).spec_client(),
            },
            final(self).spec_session() == old(self).spec_session(),
            final(self).spec_fifo_out() == old(self).spec_fifo_out(),
            final(self).spec_fifo_err() == old(self).spec_fifo_err(),
            final(self).spec_debug() == old(self).spec_debug(),
    {
        if client.is_some() {
            self.client = client;
        }
    }

    /// The bound client name, if any.
    pub fn client(&self) -> (r: Option<String>)
        ensures
            match r {
                Some(c) => self.spec_client() == Some(c@),
                None => self.spec_client() is None,
            },
    {
        match &self.client {
            Some(c) => Some(c.clone()),
            None => None,
        }
    }

    /// The session name.
    pub fn session(&self) -> (r: String)
        ensures
            r@ == self.spec_session(),
    {
        self.session.clone()
    }

    /// A draft context has no client and so cannot scope to a visible window.
    pub fn is_draft(&self) -> (r: bool)
        ensures
            r == (self.spec_client() is None),
    {
        self.client.is_none()
    }

    /// Whether to print what is built before it is sent.
    pub fn debug(&self) -> (r: bool)
        ensures
            r == self.spec_debug(),
    {
        self.debug
    }

    /// One of the two derived FIFO paths: the error path when `err_out`
    /// holds, the output path otherwise.
    pub fn get_out_path(&self, err_out: bool) -> (r: String)
        ensures
            err_out ==> r@ == self.spec_fifo_err(),
            !err_out ==> r@ == self.spec_fifo_out(),
    {
        if err_out {
            self.fifo_err.clone()
        } else {
            self.fifo_out.clone()
        }
    }
}

/// The middle of a framed request: the caller's body under its scoping.  A
/// buffer target wins over a client; with neither, the body stands alone.
/// When the buffer target's count is not exactly one, an end-of-line echo is
/// appended inside the per-buffer block, and the sentinel echo stays outside
/// it either way.
pub open spec fn scoped_body(
    body: Seq<char>,
    buffer: Option<(Seq<char>, int)>,
    client: Option<Seq<char>>,
) -> Seq<char> {
    match buffer {
        Some((b, n)) => "eval -buffer "@ + b + " %\u{1f42b}\n"@ + body + "\n"@ + (if n != 1 {
            "echo -end-of-line -to-file %opt<kamp_out>\n"@
        } else {
            Seq::<char>::empty()
        }) + "\u{1f42b}\n"@,
        None => match client {
            Some(c) => "eval -client "@ + c + " %\u{1f42b}\n"@ + body + "\n"@ + "\u{1f42b}\n"@,
            None => body + "\n"@,
        },
    }
}

/// The tail shared by every piped request: the sentinel echo, then the catch
/// branch that routes an in-body failure to the error FIFO.
pub open spec fn frame_tail() -> Seq<char> {
    "echo -to-file %opt<kamp_out> <<EEND>>\n\u{1f42a} catch %{\necho -debug kamp: %val<error>\necho -to-file %opt<kamp_err> %val<error>\n}"@
}

/// The whole framed script for a piped request.
pub open spec fn framed_send(
    body: Seq<char>,
    buffer: Option<(Seq<char>, int)>,
    client: Option<Seq<char>>,
) -> Seq<char> {
    "try %\u{1f42a}\n"@ + scoped_body(body, buffer, client) + frame_tail()
}

/// The framed script for a connect request: an empty body degenerates to the
/// bare sentinel echo; otherwise the catch branch also quits the new client.
pub open spec fn framed_connect(body: Seq<char>) -> Seq<char> {
    if body.len() == 0 {
        "echo -to-file %opt<kamp_out> <<EEND>>"@
    } else {
        "try %\u{1f42a}\n"@ + body
            + "\necho -to-file %opt<kamp_out> <<EEND>>\n\u{1f42a} catch %{\necho -debug kamp: %val<error>\necho -to-file %opt<kamp_err> %val<error>\nquit\n}"@
    }
}

/// The view of an optional buffer target.
pub open spec fn buffer_view(b: Option<(String, i32)>) -> Option<(Seq<char>, int)> {
    match b {
        Some((s, n)) => Some((s@, n as int)),
        None => None,
    }
}

impl Context {
    /// Frames `body` for a piped request against this context: optional
    /// scoping, the sentinel echo, and the failure-catching wrapper.
    pub fn send(&self, body: &str, buffer_ctx: Option<(String, i32)>) -> (r: String)
        ensures
            r@ == framed_send(body@, buffer_view(buffer_ctx), self.spec_client()),
    {
        let mut buf = String::new();
        buf.append("try %\u{1f42a}\n");
        match buffer_ctx {
            Some((b, n)) => {
                buf.append("eval -buffer ");
                buf.append(b.as_str());
                buf.append(" %\u{1f42b}\n");
                buf.append(body);
                buf.append("\n");
                if n != 1 {
                    buf.append("echo -end-of-line -to-file %opt<kamp_out>\n");
                }
                buf.append("\u{1f42b}\n");
            },
            None => {
                match &self.client {
                    Some(c) => {
                        buf.append("eval -client ");
                        buf.append(c.as_str());
                        buf.append(" %\u{1f42b}\n");
                        buf.append(body);
                        buf.append("\n");
                        buf.append("\u{1f42b}\n");
                    },
                    None => {
                        buf.append(body);
                        buf.append("\n");
                    },
                }
            },
        }
        buf.append(
            "echo -to-file %opt<kamp_out> <<EEND>>\n\u{1f42a} catch %{\necho -debug kamp: %val<error>\necho -to-file %opt<kamp_err> %val<error>\n}",
        );
        proof {
            assert(buf@ =~= framed_send(body@, buffer_view(buffer_ctx), self.spec_client()));
        }
        buf
    }

    /// Frames `body` for a connect request against this context.
    pub fn connect(&self, body: &str) -> (r: String)
        ensures
            r@ == framed_connect(body@),
    {
        let mut buf = String::new();
        if body.is_empty() {
            buf.append("echo -to-file %opt<kamp_out> <<EEND>>");
        } else {
            buf.append("try %\u{1f42a}\n");
            buf.append(body);
            buf.append(
                "\necho -to-file %opt<kamp_out> <<EEND>>\n\u{1f42a} catch %{\necho -debug kamp: %val<error>\necho -to-file %opt<kamp_err> %val<error>\nquit\n}",
            );
        }
        proof {
            assert(buf@ =~= framed_connect(body@));
        }
        buf
    }

    /// The raw kill script for this session: `kill`, with the exit status
    /// appended when one is given.  It is piped without framing, no FIFO
    /// response is awaited.
    pub fn send_kill(&self, exit_status: Option<i32>) -> (r: String)
        ensures
            r@ == match exit_status {
                Some(code) => "kill "@ + int_str(code as int),
                None => "kill"@,
            },
    {
        let mut cmd = String::new();
        match exit_status {
            Some(code) => {
                cmd.append("kill ");
                let digits = i32_to_string(code);
                cmd.append(digits.as_str());
                proof {
                    assert(cmd@ =~= "kill "@ + int_str(code as int));
                }
            },
            None => {
                cmd.append("kill");
            },
        }
        cmd
    }
}

/// For a broadcast buffer target (count other than one) the sentinel echo
/// stands textually after the closing delimiter of the per-buffer eval
/// block: everything from the sentinel on lies outside the iteration.
pub proof fn lemma_sentinel_outside_eval(
    body: Seq<char>,
    b: Seq<char>,
    n: int,
    client: Option<Seq<char>>,
)
    requires
        n != 1,
    ensures
        framed_send(body, Some((b, n)), client) == "try %\u{1f42a}\n"@ + ("eval -buffer "@ + b
            + " %\u{1f42b}\n"@ + body + "\n"@ + "echo -end-of-line -to-file %opt<kamp_out>\n"@
            + "\u{1f42b}\n"@) + frame_tail(),
{
    assert(framed_send(body, Some((b, n)), client) =~= "try %\u{1f42a}\n"@ + ("eval -buffer "@ + b
        + " %\u{1f42b}\n"@ + body + "\n"@ + "echo -end-of-line -to-file %opt<kamp_out>\n"@
        + "\u{1f42b}\n"@) + frame_tail());
}

/// One run of the tolerant list splitter used on map-typed output, with
/// `inq` telling whether a quote stands open.  Unlike the quote lexer it
/// never fails: an unterminated token is dropped.
pub open spec fn klist_from(s: Seq<char>, inq: bool, word: Seq<char>, acc: Seq<Seq<char>>) -> Seq<
    Seq<char>,
>
    decreases s.len(),
{
    if s.len() == 0 {
        acc
    } else {
        let c = s[0];
        let rest = s.drop_first();
        if c == '\'' {
            if inq {
                if rest.len() > 0 && rest[0] == '\'' {
                    klist_from(rest, false, word.push('\''), acc)
                } else {
                    klist_from(rest, false, Seq::empty(), acc.push(word))
                }
            } else {
                klist_from(rest, true, word, acc)
            }
        } else {
            if inq {
                klist_from(rest, inq, word.push(c), acc)
            } else {
                klist_from(rest, inq, word, acc)
            }
        }
    }
}

/// What the tolerant splitter yields on `s`.
pub open spec fn split_kak_list_spec(s: Seq<char>) -> Seq<Seq<char>> {
    klist_from(s, false, Seq::empty(), Seq::empty())
}

/// Splits quoted-list output without ever failing: stray characters between
/// tokens are skipped and an unterminated final token is dropped.
pub fn split_kak_list(input: &str) -> (r: Vec<String>)
    ensures
        r.deep_view() == split_kak_list_spec(input@),
{
    let chars = str_chars(input);
    let n = chars.len();
    let mut inq = false;
    let mut word: Vec<char> = Vec::new();
    let mut res: Vec<String> = Vec::new();
    let mut i: usize = 0;
    proof {
        assert(input@.skip(0) =~= input@);
        assert(word@ =~= Seq::<char>::empty());
        assert(res.deep_view() =~= Seq::<Seq<char>>::empty());
    }
    while i < n
        invariant
            n == chars@.len(),
            chars@ == input@,
            i <= n,
            klist_from(input@.skip(i as int), inq, word@, res.deep_view()) == split_kak_list_spec(
                input@,
            ),
        decreases n - i,
    {
        let c = chars[i];
        proof {
            assert(input@.skip(i as int).len() > 0);
            assert(input@.skip(i as int)[0] == c);
            assert(input@.skip(i as int).drop_first() =~= input@.skip(i as int + 1));
            if i + 1 < n {
                assert(input@.skip(i as int + 1).len() > 0);
                assert(input@.skip(i as int + 1)[0] == input@[i as int + 1]);
            } else {
                assert(input@.skip(i as int + 1).len() == 0);
            }
        }
        let ghost old_res = res.deep_view();
        if c == '\'' {
            if inq {
                if i + 1 < n && chars[i + 1] == '\'' {
                    word.push('\'');
                    inq = false;
                } else {
                    let w = chars_to_string(&word);
                    let ghost wv = w@;
                    res.push(w);
                    word = Vec::new();
                    inq = false;
                    proof {
                        assert(res.deep_view() =~= old_res.push(wv));
                    }
                }
            } else {
                inq = true;
            }
        } else {
            if inq {
                word.push(c);
            }
        }
        i = i + 1;
    }
    proof {
        assert(input@.skip(n as int) =~= Seq::<char>::empty());
    }
    res
}

} // verus!
