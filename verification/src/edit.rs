//! The edit command: classifies the first two arguments as files or one
//! `+line[:column]` coordinate, orders the file arguments as the editor
//! opens them, escapes spaces in paths, and frames the resulting script for
//! a connect or a piped request.  Reading the file system is the caller's
//! part: each argument arrives with the facts the classification needs.

use vstd::prelude::*;
use vstd::string::StrSliceExecFns;
use vstd::string::StringExecFns;

use crate::chars::chars_to_string;
use crate::chars::i32_to_string;
use crate::chars::idx_of;
use crate::chars::int_str;
use crate::chars::lemma_idx_of_absent;
use crate::chars::lemma_idx_of_found;
use crate::chars::parse_i32_chars;
use crate::chars::parse_i32_spec;
use crate::chars::str_chars;
use crate::context::framed_connect;
use crate::context::framed_send;
use crate::context::Context;
use crate::error::Error;
use crate::kamp::Plan;
use crate::kamp::Post;

verus! {

/// What parsing a coordinate argument yields.  The argument is split at the
/// first colon; an empty part ends the coordinate list, a non-empty part
/// must parse as a signed 32-bit decimal.
pub open spec fn coords_spec(s: Seq<char>) -> Option<Seq<int>> {
    let i = idx_of(s, ':');
    if i >= s.len() {
        if s.len() == 0 {
            Some(Seq::empty())
        } else {
            match parse_i32_spec(s) {
                Some(v) => Some(seq![v]),
                None => None,
            }
        }
    } else {
        let a = s.subrange(0, i);
        let b = s.subrange(i + 1, s.len() as int);
        if a.len() == 0 {
            Some(Seq::empty())
        } else {
            match parse_i32_spec(a) {
                None => None,
                Some(va) => if b.len() == 0 {
                    Some(seq![va])
                } else {
                    match parse_i32_spec(b) {
                        Some(vb) => Some(seq![va, vb]),
                        None => None,
                    }
                },
            }
        }
    }
}

/// Parses a coordinate argument such as `+10:3` (the caller has already
/// seen the leading `+`, which parses as a sign).
pub fn parse(coord: &str) -> (r: Result<Vec<i32>, Error>)
    ensures
        match coords_spec(coord@) {
            Some(vals) => (r matches Ok(v) && v@.map_values(|x: i32| x as int) == vals),
            None => (r matches Err(e) && e matches Error::InvalidCoordinates(c) && c@ == coord@),
        },
{
    let chars = str_chars(coord);
    let n = chars.len();
    let mut i: usize = 0;
    while i < n && chars[i] != ':'
        invariant
            n == chars@.len(),
            chars@ == coord@,
            i <= n,
            forall|j: int| 0 <= j < i ==> coord@[j] != ':',
        decreases n - i,
    {
        i = i + 1;
    }
    if i == n {
        proof {
            lemma_idx_of_absent(coord@, ':');
        }
        if n == 0 {
            let r: Vec<i32> = Vec::new();
            proof {
                assert(r@.map_values(|x: i32| x as int) =~= Seq::<int>::empty());
            }
            return Ok(r);
        }
        proof {
            assert(chars@.subrange(0, n as int) =~= coord@);
        }
        match parse_i32_chars(&chars, 0, n) {
            Some(v) => {
                let mut r: Vec<i32> = Vec::new();
                r.push(v);
                proof {
                    assert(r@.map_values(|x: i32| x as int) =~= seq![v as int]);
                }
                Ok(r)
            },
            None => Err(Error::InvalidCoordinates(String::from_str(coord))),
        }
    } else {
        proof {
            lemma_idx_of_found(coord@, ':', i as int);
        }
        if i == 0 {
            let r: Vec<i32> = Vec::new();
            proof {
                assert(coord@.subrange(0, 0).len() == 0);
                assert(r@.map_values(|x: i32| x as int) =~= Seq::<int>::empty());
            }
            return Ok(r);
        }
        match parse_i32_chars(&chars, 0, i) {
            None => Err(Error::InvalidCoordinates(String::from_str(coord))),
            Some(va) => {
                if i + 1 == n {
                    let mut r: Vec<i32> = Vec::new();
                    r.push(va);
                    proof {
                        assert(coord@.subrange(i as int + 1, n as int).len() == 0);
                        assert(r@.map_values(|x: i32| x as int) =~= seq![va as int]);
                    }
                    Ok(r)
                } else {
                    match parse_i32_chars(&chars, i + 1, n) {
                        Some(vb) => {
                            let mut r: Vec<i32> = Vec::new();
                            r.push(va);
                            r.push(vb);
                            proof {
                                assert(r@.map_values(|x: i32| x as int) =~= seq![
                                    va as int,
                                    vb as int,
                                ]);
                            }
                            Ok(r)
                        },
                        None => Err(Error::InvalidCoordinates(String::from_str(coord))),
                    }
                }
            },
        }
    }
}

/// One edit argument with the facts only the file system knows: whether the
/// path names an existing file, and the path to put in the script (the
/// caller canonicalizes a relative path; nothing when the canonical path is
/// not valid text, such an argument is skipped).
#[derive(Debug, Clone)]
pub struct FileArg {
    /// the argument as given
    pub given: String,
    /// whether the path names an existing regular file
    pub is_file: bool,
    /// the path the script opens, or nothing to skip the argument
    pub resolved: Option<String>,
}

/// Whether the argument names a file rather than a coordinate: it exists as
/// a file, or it does not start with a plus.
pub open spec fn is_file_arg(f: &FileArg) -> bool {
    f.is_file || !(f.given@.len() > 0 && f.given@[0] == '+')
}

/// The path the script opens for one argument, or nothing.
pub open spec fn resolved_view(f: &FileArg) -> Option<Seq<char>> {
    match f.resolved {
        Some(ref p) => Some(p@),
        None => None,
    }
}

/// `p` with every space preceded by a backslash.
pub open spec fn escaped_spaces(p: Seq<char>) -> Seq<char>
    decreases p.len(),
{
    if p.len() == 0 {
        Seq::empty()
    } else if p[0] == ' ' {
        seq!['\\', ' '] + escaped_spaces(p.drop_first())
    } else {
        seq![p[0]] + escaped_spaces(p.drop_first())
    }
}

proof fn lemma_escaped_spaces_concat(a: Seq<char>, b: Seq<char>)
    ensures
        escaped_spaces(a + b) == escaped_spaces(a) + escaped_spaces(b),
    decreases a.len(),
{
    if a.len() == 0 {
        assert(a + b =~= b);
        assert(escaped_spaces(a) + escaped_spaces(b) =~= escaped_spaces(b));
    } else {
        assert((a + b)[0] == a[0]);
        assert((a + b).drop_first() =~= a.drop_first() + b);
        lemma_escaped_spaces_concat(a.drop_first(), b);
        assert(escaped_spaces(a + b) =~= escaped_spaces(a) + escaped_spaces(b));
    }
}

proof fn lemma_escaped_spaces_single(c: char)
    ensures
        c == ' ' ==> escaped_spaces(seq![c]) == seq!['\\', ' '],
        c != ' ' ==> escaped_spaces(seq![c]) == seq![c],
{
    assert(seq![c].drop_first() =~= Seq::<char>::empty());
    assert(escaped_spaces(Seq::<char>::empty()) == Seq::<char>::empty());
    if c == ' ' {
        assert(escaped_spaces(seq![c]) =~= seq!['\\', ' ']);
    } else {
        assert(escaped_spaces(seq![c]) =~= seq![c]);
    }
}

/// Escapes each space in a path.
fn escape_spaces(p: &str) -> (r: String)
    ensures
        r@ == escaped_spaces(p@),
{
    let chars = str_chars(p);
    let n = chars.len();
    let mut out: Vec<char> = Vec::new();
    let mut i: usize = 0;
    proof {
        assert(p@.take(0) =~= Seq::<char>::empty());
        assert(out@ =~= escaped_spaces(p@.take(0)));
    }
    while i < n
        invariant
            n == chars@.len(),
            chars@ == p@,
            i <= n,
            out@ == escaped_spaces(p@.take(i as int)),
        decreases n - i,
    {
        let c = chars[i];
        if c == ' ' {
            out.push('\\');
            out.push(' ');
        } else {
            out.push(c);
        }
        i = i + 1;
        proof {
            let pre = p@.take(i - 1);
            let cc = p@[i - 1];
            assert(p@.take(i as int) =~= pre + seq![cc]);
            lemma_escaped_spaces_concat(pre, seq![cc]);
            lemma_escaped_spaces_single(cc);
            assert(out@ =~= escaped_spaces(p@.take(i as int)));
        }
    }
    proof {
        assert(p@.take(n as int) =~= p@);
    }
    chars_to_string(&out)
}

/// The text one chain element contributes at position `at`: nothing when it
/// was skipped; otherwise an `edit -existing` line, on a new line except at
/// the front of the chain.
pub open spec fn edit_part(p: Option<Seq<char>>, at: int) -> Seq<char> {
    match p {
        Some(path) => (if at != 0 {
            "\n"@
        } else {
            Seq::<char>::empty()
        }) + "edit -existing "@ + escaped_spaces(path),
        None => Seq::empty(),
    }
}

/// The text of a whole chain of elements starting at position `at`.
pub open spec fn edit_parts_from(rs: Seq<Option<Seq<char>>>, at: int) -> Seq<char>
    decreases rs.len(),
{
    if rs.len() == 0 {
        Seq::empty()
    } else {
        edit_part(rs[0], at) + edit_parts_from(rs.drop_first(), at + 1)
    }
}

proof fn lemma_edit_parts_push(rs: Seq<Option<Seq<char>>>, x: Option<Seq<char>>, at: int)
    ensures
        edit_parts_from(rs.push(x), at) == edit_parts_from(rs, at) + edit_part(x, at + rs.len()),
    decreases rs.len(),
{
    if rs.len() == 0 {
        assert(rs.push(x)[0] == x);
        assert(rs.push(x).drop_first() =~= rs);
        assert(edit_parts_from(rs, at) == Seq::<char>::empty());
        assert(edit_parts_from(rs, at + 1) == Seq::<char>::empty());
        assert(edit_parts_from(rs.push(x), at) =~= edit_parts_from(rs, at) + edit_part(x, at));
    } else {
        lemma_edit_parts_push(rs.drop_first(), x, at + 1);
        assert(rs.push(x)[0] == rs[0]);
        assert(rs.push(x).drop_first() =~= rs.drop_first().push(x));
        assert(edit_parts_from(rs.push(x), at) =~= edit_parts_from(rs, at) + edit_part(
            x,
            at + rs.len(),
        ));
    }
}

/// The chain of arguments in the order the script opens them: everything
/// after the first two in reverse, then the second and the first when they
/// are files.  Coordinates never enter the chain.
pub open spec fn chain_spec(fs: Seq<FileArg>) -> Seq<Option<Seq<char>>> {
    let tail_len: nat = if fs.len() >= 2 {
        (fs.len() - 2) as nat
    } else {
        0
    };
    let tail = Seq::new(tail_len, |i: int| resolved_view(&fs[fs.len() - 1 - i]));
    let second: Seq<Option<Seq<char>>> = if fs.len() >= 2 && is_file_arg(&fs[1]) {
        seq![resolved_view(&fs[1])]
    } else {
        Seq::empty()
    };
    let first: Seq<Option<Seq<char>>> = if fs.len() >= 1 && is_file_arg(&fs[0]) {
        seq![resolved_view(&fs[0])]
    } else {
        Seq::empty()
    };
    tail + second + first
}

/// The coordinate argument among the first two, if any.
pub open spec fn edit_coords_arg(fs: Seq<FileArg>) -> Option<Seq<char>> {
    if fs.len() >= 1 && !is_file_arg(&fs[0]) {
        Some(fs[0].given@)
    } else if fs.len() >= 2 && !is_file_arg(&fs[1]) {
        Some(fs[1].given@)
    } else {
        None
    }
}

/// The coordinates appended to the last opened file's line.
pub open spec fn coords_suffix(cs: Seq<int>) -> Seq<char>
    decreases cs.len(),
{
    if cs.len() == 0 {
        Seq::empty()
    } else {
        seq![' '] + int_str(cs[0]) + coords_suffix(cs.drop_first())
    }
}

proof fn lemma_coords_suffix_push(cs: Seq<int>, x: int)
    ensures
        coords_suffix(cs.push(x)) == coords_suffix(cs) + (seq![' '] + int_str(x)),
    decreases cs.len(),
{
    if cs.len() == 0 {
        assert(cs.push(x)[0] == x);
        assert(cs.push(x).drop_first() =~= cs);
        assert(coords_suffix(cs.push(x)) =~= coords_suffix(cs) + (seq![' '] + int_str(x)));
    } else {
        lemma_coords_suffix_push(cs.drop_first(), x);
        assert(cs.push(x)[0] == cs[0]);
        assert(cs.push(x).drop_first() =~= cs.drop_first().push(x));
        assert(coords_suffix(cs.push(x)) =~= coords_suffix(cs) + (seq![' '] + int_str(x)));
    }
}

/// Whether the first two arguments classify without error: at most one
/// coordinate, and it parses.
pub open spec fn edit_args_ok(fs: Seq<FileArg>) -> bool {
    &&& (fs.len() >= 1 && !is_file_arg(&fs[0]) ==> coords_spec(fs[0].given@) is Some)
    &&& !(fs.len() >= 2 && !is_file_arg(&fs[0]) && !is_file_arg(&fs[1]))
    &&& (fs.len() >= 2 && is_file_arg(&fs[0]) && !is_file_arg(&fs[1]) ==> coords_spec(
        fs[1].given@,
    ) is Some)
}

/// The inner script the edit command runs, before framing: the opened
/// files with the coordinates on the last line, or a scratch buffer.
pub open spec fn edit_script_spec(fs: Seq<FileArg>) -> Seq<char> {
    let body = edit_parts_from(chain_spec(fs), 0);
    if body.len() == 0 {
        "edit -scratch"@
    } else {
        body + (match edit_coords_arg(fs) {
            Some(c) => coords_suffix(coords_spec(c)->Some_0),
            None => Seq::empty(),
        })
    }
}

/// Whether the chain produces no text at all.
pub open spec fn edit_is_scratch(fs: Seq<FileArg>) -> bool {
    edit_parts_from(chain_spec(fs), 0).len() == 0
}

fn is_file_arg_exec(f: &FileArg) -> (r: bool)
    ensures
        r == is_file_arg(f),
{
    if f.is_file {
        return true;
    }
    let n = f.given.as_str().unicode_len();
    if n == 0 {
        return true;
    }
    f.given.as_str().get_char(0) != '+'
}

fn append_part(body: &mut String, f: &FileArg, at: usize)
    ensures
        final(body)@ == old(body)@ + edit_part(resolved_view(f), at as int),
{
    match &f.resolved {
        Some(p) => {
            if at != 0 {
                body.append("\n");
            }
            body.append("edit -existing ");
            let esc = escape_spaces(p.as_str());
            body.append(esc.as_str());
            proof {
                assert(body@ =~= old(body)@ + edit_part(resolved_view(f), at as int));
            }
        },
        None => {
            proof {
                assert(body@ =~= old(body)@ + edit_part(resolved_view(f), at as int));
            }
        },
    }
}

/// Builds the edit command's action against `ctx`: a connect when a new
/// client is asked for or none is bound, a piped request otherwise; the
/// second result tells whether a scratch buffer was opened in place of any
/// file.
pub fn edit(ctx: &Context, new: bool, focus: bool, files: Vec<FileArg>) -> (r: Result<
    (Plan, bool),
    Error,
>)
    ensures
        edit_args_ok(files@) ==> (r matches Ok((plan, scratch)) && scratch == edit_is_scratch(
            files@,
        ) && (if new || ctx.spec_client() is None {
            plan matches Plan::Connect { script } && script@ == framed_connect(
                edit_script_spec(files@),
            )
        } else {
            plan matches Plan::Pipe { script, post } && script@ == framed_send(
                edit_script_spec(files@) + (if focus {
                    "\nfocus"@
                } else {
                    Seq::<char>::empty()
                }),
                None,
                ctx.spec_client(),
            ) && post is Discard
        })),
        files@.len() >= 1 && !is_file_arg(&files@[0]) && coords_spec(files@[0].given@) is None
            ==> (r matches Err(e) && e matches Error::InvalidCoordinates(c) && c@
            == files@[0].given@),
        files@.len() >= 2 && !is_file_arg(&files@[0]) && coords_spec(files@[0].given@) is Some
            && !is_file_arg(&files@[1]) ==> (r matches Err(e) && e matches
            Error::UnexpectedCoordPosition(c) && c@ == files@[1].given@),
        files@.len() >= 2 && is_file_arg(&files@[0]) && !is_file_arg(&files@[1]) && coords_spec(
            files@[1].given@,
        ) is None ==> (r matches Err(e) && e matches Error::InvalidCoordinates(c) && c@
            == files@[1].given@),
{
    let n = files.len();
    // classify the first two arguments; at most one may be a coordinate
    let mut coord: Option<Vec<i32>> = None;
    if n >= 1 {
        if !is_file_arg_exec(&files[0]) {
            match parse(files[0].given.as_str()) {
                Ok(c) => {
                    coord = Some(c);
                },
                Err(e) => {
                    return Err(e);
                },
            }
        }
    }
    if n >= 2 {
        if !is_file_arg_exec(&files[1]) {
            if coord.is_some() {
                return Err(Error::UnexpectedCoordPosition(files[1].given.clone()));
            }
            match parse(files[1].given.as_str()) {
                Ok(c) => {
                    coord = Some(c);
                },
                Err(e) => {
                    return Err(e);
                },
            }
        }
    }
    let ghost chain = chain_spec(files@);
    let ghost tail_len: int = if files@.len() >= 2 {
        files@.len() - 2
    } else {
        0
    };
    // build the body: arguments after the first two in reverse order
    let mut body = String::new();
    let mut at: usize = 0;
    let mut j = n;
    proof {
        assert(chain.take(0) =~= Seq::<Option<Seq<char>>>::empty());
    }
    while j > 2
        invariant
            2 <= n || j == n,
            j <= n == files@.len(),
            chain == chain_spec(files@),
            tail_len == if files@.len() >= 2 {
                files@.len() - 2
            } else {
                0
            },
            at == n - j,
            at <= tail_len,
            body@ == edit_parts_from(chain.take(at as int), 0),
        decreases j,
    {
        j = j - 1;
        append_part(&mut body, &files[j], at);
        at = at + 1;
        proof {
            assert(chain.take(at as int) =~= chain.take(at - 1).push(chain[at - 1]));
            assert(chain[at - 1] == resolved_view(&files@[j as int]));
            lemma_edit_parts_push(chain.take(at - 1), chain[at - 1], 0);
            assert(body@ =~= edit_parts_from(chain.take(at as int), 0));
        }
    }
    // then the second and the first argument, when they are files
    if n >= 2 {
        if is_file_arg_exec(&files[1]) {
            append_part(&mut body, &files[1], at);
            proof {
                assert(chain.take(at + 1) =~= chain.take(at as int).push(chain[at as int]));
                assert(chain[at as int] == resolved_view(&files@[1]));
                lemma_edit_parts_push(chain.take(at as int), chain[at as int], 0);
            }
            at = at + 1;
        }
    }
    if n >= 1 {
        if is_file_arg_exec(&files[0]) {
            append_part(&mut body, &files[0], at);
            proof {
                assert(chain.take(at + 1) =~= chain.take(at as int).push(chain[at as int]));
                assert(chain[at as int] == resolved_view(&files@[0]));
                lemma_edit_parts_push(chain.take(at as int), chain[at as int], 0);
            }
            at = at + 1;
        }
    }
    proof {
        assert(chain.take(at as int) =~= chain);
    }
    // a silent chain opens a scratch buffer; otherwise the coordinates go
    // on the last line
    let mut scratch = false;
    if body.as_str().is_empty() {
        body.append("edit -scratch");
        scratch = true;
        proof {
            assert(body@ =~= edit_script_spec(files@));
        }
    } else {
        if let Some(cs) = &coord {
            let mut k: usize = 0;
            let ghost base = body@;
            proof {
                assert(cs@.map_values(|x: i32| x as int).take(0) =~= Seq::<int>::empty());
            }
            while k < cs.len()
                invariant
                    k <= cs@.len(),
                    body@ == base + coords_suffix(
                        cs@.map_values(|x: i32| x as int).take(k as int),
                    ),
                decreases cs@.len() - k,
            {
                crate::chars::push_char(&mut body, ' ');
                let digits = i32_to_string(cs[k]);
                body.append(digits.as_str());
                k = k + 1;
                proof {
                    let m = cs@.map_values(|x: i32| x as int);
                    assert(m.take(k as int) =~= m.take(k - 1).push(m[k - 1]));
                    lemma_coords_suffix_push(m.take(k - 1), m[k - 1]);
                    assert(body@ =~= base + coords_suffix(m.take(k as int)));
                }
            }
            proof {
                let m = cs@.map_values(|x: i32| x as int);
                assert(m.take(cs@.len() as int) =~= m);
            }
        }
        proof {
            assert(body@ =~= edit_script_spec(files@));
        }
    }
    // frame it: connect for a new or unbound client, else a piped request
    if new || ctx.is_draft() {
        Ok((Plan::Connect { script: ctx.connect(body.as_str()) }, scratch))
    } else {
        if focus {
            body.append("\nfocus");
        }
        Ok(
            (
                Plan::Pipe { script: ctx.send(body.as_str(), None), post: Post::Discard },
                scratch,
            ),
        )
    }
}

} // verus!
