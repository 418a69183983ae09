//! The query layer: builds one of four canonical request shapes (named
//! value, named option, named register, shell evaluation) as an `echo
//! -quoting ... -to-file` body, and decodes the raw response per the
//! caller-chosen mode: verbatim, line-split, quoted-list, or a key lookup
//! over a quoted map.

use vstd::prelude::*;
use vstd::string::StringExecFns;

use crate::chars::chars_to_string;
use crate::chars::idx_of;
use crate::chars::lemma_idx_of_absent;
use crate::chars::lemma_idx_of_found;
use crate::chars::push_char;
use crate::chars::str_chars;
use crate::error::Error;
use crate::lex::quote;
use crate::lex::quoted;
use crate::lex::split;
use crate::lex::split_spec;

verus! {

/// Whether an argument must be quoted before it is sent: it holds a space,
/// a double quote or a single quote.
pub open spec fn needs_quoting(x: Seq<char>) -> bool {
    x.contains(' ') || x.contains('"') || x.contains('\'')
}

/// One argument as it is sent: quoted with doubled quotes when it needs
/// quoting or is empty, untouched otherwise.
pub open spec fn arg_escaped(x: Seq<char>) -> Seq<char> {
    if needs_quoting(x) || x.len() == 0 {
        quoted(x)
    } else {
        x
    }
}

/// All arguments escaped and joined with single spaces.
pub open spec fn args_joined(xs: Seq<Seq<char>>) -> Seq<char>
    decreases xs.len(),
{
    if xs.len() == 0 {
        Seq::empty()
    } else if xs.len() == 1 {
        arg_escaped(xs[0])
    } else {
        arg_escaped(xs[0]) + seq![' '] + args_joined(xs.drop_first())
    }
}

/// All arguments joined verbatim with single spaces.
pub open spec fn args_verbatim(xs: Seq<Seq<char>>) -> Seq<char>
    decreases xs.len(),
{
    if xs.len() == 0 {
        Seq::empty()
    } else if xs.len() == 1 {
        xs[0]
    } else {
        xs[0] + seq![' '] + args_verbatim(xs.drop_first())
    }
}

proof fn lemma_args_joined_push(xs: Seq<Seq<char>>, x: Seq<char>)
    ensures
        xs.len() == 0 ==> args_joined(xs.push(x)) == arg_escaped(x),
        xs.len() > 0 ==> args_joined(xs.push(x)) == args_joined(xs) + seq![' '] + arg_escaped(x),
    decreases xs.len(),
{
    if xs.len() == 0 {
        assert(xs.push(x).len() == 1);
        assert(xs.push(x)[0] == x);
    } else {
        lemma_args_joined_push(xs.drop_first(), x);
        assert(xs.push(x).drop_first() =~= xs.drop_first().push(x));
        assert(xs.push(x)[0] == xs[0]);
        if xs.len() == 1 {
            assert(args_joined(xs.push(x)) =~= args_joined(xs) + seq![' '] + arg_escaped(x));
        } else {
            assert(args_joined(xs.push(x)) =~= args_joined(xs) + seq![' '] + arg_escaped(x));
        }
    }
}

proof fn lemma_args_verbatim_push(xs: Seq<Seq<char>>, x: Seq<char>)
    ensures
        xs.len() == 0 ==> args_verbatim(xs.push(x)) == x,
        xs.len() > 0 ==> args_verbatim(xs.push(x)) == args_verbatim(xs) + seq![' '] + x,
    decreases xs.len(),
{
    if xs.len() == 0 {
        assert(xs.push(x).len() == 1);
        assert(xs.push(x)[0] == x);
    } else {
        lemma_args_verbatim_push(xs.drop_first(), x);
        assert(xs.push(x).drop_first() =~= xs.drop_first().push(x));
        assert(xs.push(x)[0] == xs[0]);
        if xs.len() == 1 {
            assert(args_verbatim(xs.push(x)) =~= args_verbatim(xs) + seq![' '] + x);
        } else {
            assert(args_verbatim(xs.push(x)) =~= args_verbatim(xs) + seq![' '] + x);
        }
    }
}

/// Whether `s` holds a character that forces quoting.
fn needs_quoting_exec(s: &str) -> (r: bool)
    ensures
        r == needs_quoting(s@),
{
    let chars = str_chars(s);
    let n = chars.len();
    let mut i: usize = 0;
    while i < n
        invariant
            n == chars@.len(),
            chars@ == s@,
            i <= n,
            forall|j: int| 0 <= j < i ==> s@[j] != ' ' && s@[j] != '"' && s@[j] != '\'',
        decreases n - i,
    {
        let c = chars[i];
        if c == ' ' || c == '"' || c == '\'' {
            return true;
        }
        i = i + 1;
    }
    false
}

/// Joins command arguments into one body: verbatim with plain spaces, or
/// escaping each argument that needs it.
pub fn join_args(args: &Vec<String>, verbatim: bool) -> (r: String)
    ensures
        verbatim ==> r@ == args_verbatim(args.deep_view()),
        !verbatim ==> r@ == args_joined(args.deep_view()),
{
    let mut out = String::new();
    let mut i: usize = 0;
    while i < args.len()
        invariant
            i <= args@.len(),
            verbatim ==> out@ == args_verbatim(args.deep_view().take(i as int)),
            !verbatim ==> out@ == args_joined(args.deep_view().take(i as int)),
        decreases args@.len() - i,
    {
        if i > 0 {
            push_char(&mut out, ' ');
        }
        let item = &args[i];
        if verbatim {
            out.append(item.as_str());
        } else {
            if needs_quoting_exec(item.as_str()) || item.as_str().is_empty() {
                let q = quote(item.as_str());
                out.append(q.as_str());
            } else {
                out.append(item.as_str());
            }
        }
        i = i + 1;
        proof {
            let dv = args.deep_view();
            assert(dv.take(i as int) =~= dv.take(i - 1).push(dv[i - 1]));
            assert(args@[i - 1].deep_view() == dv[i - 1]);
            lemma_args_joined_push(dv.take(i - 1), dv[i - 1]);
            lemma_args_verbatim_push(dv.take(i - 1), dv[i - 1]);
            if verbatim {
                assert(out@ =~= args_verbatim(dv.take(i as int)));
            } else {
                assert(out@ =~= args_joined(dv.take(i as int)));
            }
        }
    }
    proof {
        assert(args.deep_view().take(args@.len() as int) =~= args.deep_view());
    }
    out
}

/// Which named thing a query asks for, or the shell command it evaluates.
#[derive(Debug, Clone)]
pub enum QueryKeyVal {
    Val(String),
    Opt(String),
    Reg(String),
    Shell(Vec<String>, bool),
}

/// The rendered `%val<..>` / `%opt<..>` / `%reg<..>` / `%sh<..>` expansion.
pub open spec fn key_val_spec(kv: &QueryKeyVal) -> Seq<char> {
    match kv {
        QueryKeyVal::Val(v) => "%val<"@ + v@ + ">"@,
        QueryKeyVal::Opt(v) => "%opt<"@ + v@ + ">"@,
        QueryKeyVal::Reg(v) => "%reg<"@ + v@ + ">"@,
        QueryKeyVal::Shell(cmd, verbatim) => "%sh<"@ + (if *verbatim {
            args_verbatim(cmd.deep_view())
        } else {
            args_joined(cmd.deep_view())
        }) + ">"@,
    }
}

impl QueryKeyVal {
    /// Renders the expansion the editor will evaluate.
    pub fn render(&self) -> (r: String)
        ensures
            r@ == key_val_spec(self),
    {
        let mut out = String::new();
        match self {
            QueryKeyVal::Val(v) => {
                out.append("%val<");
                out.append(v.as_str());
                out.append(">");
            },
            QueryKeyVal::Opt(v) => {
                out.append("%opt<");
                out.append(v.as_str());
                out.append(">");
            },
            QueryKeyVal::Reg(v) => {
                out.append("%reg<");
                out.append(v.as_str());
                out.append(">");
            },
            QueryKeyVal::Shell(cmd, verbatim) => {
                out.append("%sh<");
                let body = join_args(cmd, *verbatim);
                out.append(body.as_str());
                out.append(">");
            },
        }
        proof {
            assert(out@ =~= key_val_spec(self));
        }
        out
    }
}

/// How the response is interpreted: taken whole, split as a quoted list, or
/// searched as a quoted map for one key.
#[derive(Debug, Clone)]
pub enum QueryType {
    Plain,
    List,
    Lookup(String),
}

impl QueryType {
    /// Chooses the interpretation: a map key wins over the list switch.
    pub fn new(list: bool, map_key: Option<String>) -> (r: QueryType)
        ensures
            match map_key {
                Some(k) => (r matches QueryType::Lookup(rk) && rk@ == k@),
                None => r == if list {
                    QueryType::List
                } else {
                    QueryType::Plain
                },
            },
    {
        if let Some(key) = map_key {
            QueryType::Lookup(key)
        } else if list {
            QueryType::List
        } else {
            QueryType::Plain
        }
    }
}

/// The quoting style the editor is asked to apply to the response.
#[derive(Debug, Clone)]
pub enum Quoting {
    Raw,
    Kakoune,
    Shell,
}

/// The rendered name of a quoting style.
pub open spec fn quoting_spec(q: &Quoting) -> Seq<char> {
    match q {
        Quoting::Raw => "raw"@,
        Quoting::Kakoune => "kakoune"@,
        Quoting::Shell => "shell"@,
    }
}

impl Quoting {
    /// Renders the quoting style as the editor's switch value.
    pub fn render(&self) -> (r: &'static str)
        ensures
            r@ == quoting_spec(self),
    {
        match self {
            Quoting::Raw => "raw",
            Quoting::Kakoune => "kakoune",
            Quoting::Shell => "shell",
        }
    }
}

/// One query: what to ask, how the editor quotes it, and how the response
/// is decoded.
#[derive(Debug, Clone)]
pub struct QueryContext {
    pub key_val: QueryKeyVal,
    pub qtype: QueryType,
    pub quoting: Quoting,
    pub verbatim: bool,
}

impl QueryContext {
    /// Builds a query from its four parts.
    pub fn new(key_val: QueryKeyVal, qtype: QueryType, quoting: Quoting, verbatim: bool) -> (r:
        QueryContext)
        ensures
            r.key_val == key_val,
            r.qtype == qtype,
            r.quoting == quoting,
            r.verbatim == verbatim,
    {
        QueryContext { key_val, qtype, quoting, verbatim }
    }

    /// Builds a shell-evaluation query: raw quoting, verbatim decode.
    pub fn new_sh(command: Vec<String>, verbatim: bool) -> (r: QueryContext)
        ensures
            (r.key_val matches QueryKeyVal::Shell(cmd, v) && cmd.deep_view() == command.deep_view()
                && v == verbatim),
            r.qtype is Plain,
            r.quoting is Raw,
            r.verbatim == true,
    {
        QueryContext {
            key_val: QueryKeyVal::Shell(command, verbatim),
            qtype: QueryType::Plain,
            quoting: Quoting::Raw,
            verbatim: true,
        }
    }

    /// The request body for this query: an echo of the expansion to the out
    /// FIFO under the chosen quoting.
    pub fn body(&self) -> (r: String)
        ensures
            r@ == "echo -quoting "@ + quoting_spec(&self.quoting) + " -to-file %opt<kamp_out> "@
                + key_val_spec(&self.key_val),
    {
        let mut out = String::new();
        out.append("echo -quoting ");
        out.append(self.quoting.render());
        out.append(" -to-file %opt<kamp_out> ");
        let kv = self.key_val.render();
        out.append(kv.as_str());
        proof {
            assert(out@ =~= "echo -quoting "@ + quoting_spec(&self.quoting)
                + " -to-file %opt<kamp_out> "@ + key_val_spec(&self.key_val));
        }
        out
    }
}

/// The result of searching decoded map items for `key`: the value of the
/// first item of the form `key=value`, or nothing.
pub open spec fn lookup_in(items: Seq<Seq<char>>, key: Seq<char>) -> Seq<Seq<char>>
    decreases items.len(),
{
    if items.len() == 0 {
        Seq::empty()
    } else {
        let it = items[0];
        let i = idx_of(it, '=');
        if i < it.len() && it.subrange(0, i) == key {
            seq![it.subrange(i + 1, it.len() as int)]
        } else {
            lookup_in(items.drop_first(), key)
        }
    }
}

/// One run of the line splitter: `word` is the line being gathered, `acc`
/// the lines already complete.  Splitting keeps empty lines.
pub open spec fn lines_from(s: Seq<char>, word: Seq<char>, acc: Seq<Seq<char>>) -> Seq<Seq<char>>
    decreases s.len(),
{
    if s.len() == 0 {
        acc.push(word)
    } else if s[0] == '\n' {
        lines_from(s.drop_first(), Seq::empty(), acc.push(word))
    } else {
        lines_from(s.drop_first(), word.push(s[0]), acc)
    }
}

/// The response split at newlines, empty parts kept.
pub open spec fn lines_of(s: Seq<char>) -> Seq<Seq<char>> {
    lines_from(s, Seq::empty(), Seq::empty())
}

/// Splits a response at newlines.
pub fn split_lines(s: &str) -> (r: Vec<String>)
    ensures
        r.deep_view() == lines_of(s@),
{
    let chars = str_chars(s);
    let n = chars.len();
    let mut word: Vec<char> = Vec::new();
    let mut res: Vec<String> = Vec::new();
    let mut i: usize = 0;
    proof {
        assert(s@.skip(0) =~= s@);
        assert(word@ =~= Seq::<char>::empty());
        assert(res.deep_view() =~= Seq::<Seq<char>>::empty());
    }
    while i < n
        invariant
            n == chars@.len(),
            chars@ == s@,
            i <= n,
            lines_from(s@.skip(i as int), word@, res.deep_view()) == lines_of(s@),
        decreases n - i,
    {
        let c = chars[i];
        proof {
            assert(s@.skip(i as int).len() > 0);
            assert(s@.skip(i as int)[0] == c);
            assert(s@.skip(i as int).drop_first() =~= s@.skip(i as int + 1));
        }
        let ghost old_res = res.deep_view();
        if c == '\n' {
            let w = chars_to_string(&word);
            let ghost wv = w@;
            res.push(w);
            word = Vec::new();
            proof {
                assert(res.deep_view() =~= old_res.push(wv));
            }
        } else {
            word.push(c);
        }
        i = i + 1;
    }
    proof {
        assert(s@.skip(n as int) =~= Seq::<char>::empty());
    }
    let ghost old_res = res.deep_view();
    let w = chars_to_string(&word);
    let ghost wv = w@;
    res.push(w);
    proof {
        assert(res.deep_view() =~= old_res.push(wv));
    }
    res
}

/// Searches the decoded items for the first `key=value` entry.
fn lookup_items(items: &Vec<String>, key: &str) -> (r: Vec<String>)
    ensures
        r.deep_view() == lookup_in(items.deep_view(), key@),
{
    let mut t: usize = 0;
    let n = items.len();
    proof {
        assert(items.deep_view().skip(0) =~= items.deep_view());
    }
    while t < n
        invariant
            n == items@.len(),
            t <= n,
            lookup_in(items.deep_view().skip(t as int), key@) == lookup_in(
                items.deep_view(),
                key@,
            ),
        decreases n - t,
    {
        let ghost dv = items.deep_view();
        proof {
            assert(dv.skip(t as int).len() > 0);
            assert(dv.skip(t as int)[0] == dv[t as int]);
            assert(dv.skip(t as int).drop_first() =~= dv.skip(t as int + 1));
        }
        let item = &items[t];
        let chs = str_chars(item.as_str());
        let m = chs.len();
        // find the first '=' in the item
        let mut i: usize = 0;
        while i < m && chs[i] != '='
            invariant
                m == chs@.len(),
                chs@ == item@,
                i <= m,
                forall|j: int| 0 <= j < i ==> item@[j] != '=',
            decreases m - i,
        {
            i = i + 1;
        }
        proof {
            if i < m {
                lemma_idx_of_found(item@, '=', i as int);
            } else {
                lemma_idx_of_absent(item@, '=');
            }
        }
        if i < m {
            // compare the key part with the wanted key
            let kchs = str_chars(key);
            let klen = kchs.len();
            let mut matched = false;
            if i == klen {
                let mut j: usize = 0;
                while j < i && chs[j] == kchs[j]
                    invariant
                        i <= m,
                        m == chs@.len(),
                        chs@ == item@,
                        klen == kchs@.len(),
                        kchs@ == key@,
                        i == klen,
                        j <= i,
                        forall|k: int| 0 <= k < j ==> item@[k] == key@[k],
                    decreases i - j,
                {
                    j = j + 1;
                }
                matched = j == i;
                proof {
                    if matched {
                        assert(item@.subrange(0, i as int) =~= key@);
                    } else {
                        assert(item@.subrange(0, i as int)[j as int] != key@[j as int]);
                    }
                }
            } else {
                proof {
                    assert(item@.subrange(0, i as int).len() != key@.len());
                }
            }
            if matched {
                // build the value after the '='
                let mut val: Vec<char> = Vec::new();
                let mut j: usize = i + 1;
                while j < m
                    invariant
                        i < m,
                        m == chs@.len(),
                        chs@ == item@,
                        i + 1 <= j <= m,
                        val@ == item@.subrange(i as int + 1, j as int),
                    decreases m - j,
                {
                    val.push(chs[j]);
                    j = j + 1;
                    proof {
                        assert(val@ =~= item@.subrange(i as int + 1, j as int));
                    }
                }
                let vs = chars_to_string(&val);
                let ghost vv = vs@;
                let mut res: Vec<String> = Vec::new();
                res.push(vs);
                proof {
                    assert(res.deep_view() =~= seq![vv]);
                    assert(lookup_in(items.deep_view().skip(t as int), key@) =~= seq![
                        item@.subrange(i as int + 1, m as int),
                    ]);
                }
                return res;
            }
        }
        proof {
            assert(lookup_in(items.deep_view().skip(t as int), key@) == lookup_in(
                items.deep_view().skip(t as int + 1),
                key@,
            ));
        }
        t = t + 1;
    }
    proof {
        assert(items.deep_view().skip(n as int).len() == 0);
    }
    Vec::new()
}

/// What decoding yields for each mode: the whole payload in verbatim mode,
/// its lines otherwise for a plain query, the lexed quoted list, or the
/// looked-up map value; `None` is a quoted-list decode error.
pub open spec fn decode_spec(qtype: &QueryType, verbatim: bool, s: Seq<char>) -> Option<
    Seq<Seq<char>>,
> {
    match qtype {
        QueryType::List => split_spec(s),
        QueryType::Lookup(k) => match split_spec(s) {
            Some(items) => Some(lookup_in(items, k@)),
            None => None,
        },
        QueryType::Plain => if verbatim {
            Some(seq![s])
        } else {
            Some(lines_of(s))
        },
    }
}

/// Decodes the raw response of a query per its mode.
pub fn parse_query_output(qtype: &QueryType, verbatim: bool, output: String) -> (r: Result<
    Vec<String>,
    Error,
>)
    ensures
        match decode_spec(qtype, verbatim, output@) {
            Some(items) => (r matches Ok(v) && v.deep_view() == items),
            None => (r matches Err(e) && e is Parse),
        },
{
    match qtype {
        QueryType::List => match split(output.as_str()) {
            Ok(items) => Ok(items),
            Err(pe) => Err(Error::Parse(pe)),
        },
        QueryType::Lookup(k) => match split(output.as_str()) {
            Ok(items) => Ok(lookup_items(&items, k.as_str())),
            Err(pe) => Err(Error::Parse(pe)),
        },
        QueryType::Plain => if verbatim {
            let mut res: Vec<String> = Vec::new();
            let ghost ov = output@;
            res.push(output);
            proof {
                assert(res.deep_view() =~= seq![ov]);
            }
            Ok(res)
        } else {
            Ok(split_lines(output.as_str()))
        },
    }
}

/// Mode independence: a verbatim query returns its payload whole, whatever
/// shape it has; the quote lexer plays no part even when the payload would
/// decode as a quoted list.
pub proof fn lemma_verbatim_mode_independent(s: Seq<char>)
    ensures
        decode_spec(&QueryType::Plain, true, s) == Some(seq![s]),
{
}

} // verus!
