//! The quote lexer: decodes Kakoune's single-quote list encoding, in which
//! each element stands between single quotes, an embedded quote is doubled,
//! and anything between quoted tokens is ignored.  Reaching the end of the
//! input while still inside a quote is an error.
//!
//! The module also holds the matching encoder and the proofs that tie the
//! two together: encoding any list of strings and decoding the result gives
//! the original list back, and an unterminated quote always fails.

use vstd::prelude::*;
use vstd::string::StringExecFns;

use crate::chars::chars_to_string;
use crate::chars::str_chars;

verus! {

/// Decoding failed: the input ended inside a quoted token.
#[derive(Clone, Copy, Debug, PartialEq, Eq, Structural)]
pub struct ParseError;

impl ParseError {
    /// The diagnostic text for this error.
    pub fn message(&self) -> (r: &'static str)
        ensures
            r@ == "missing closing quote"@,
    {
        "missing closing quote"
    }
}

/// The three scanning states: between tokens, just after a closing quote,
/// and inside a quoted token.
#[derive(Clone, Copy, Debug)]
pub enum LexState {
    Delimiter,
    Unquoted,
    Quoted,
}

/// One run of the lexer over `s`, starting in state `st` with the partial
/// token `word` and the tokens `acc` already decoded.  `None` is the
/// missing-closing-quote error.
pub open spec fn lex_from(s: Seq<char>, st: LexState, word: Seq<char>, acc: Seq<Seq<char>>) -> Option<
    Seq<Seq<char>>,
>
    decreases s.len(),
{
    if s.len() == 0 {
        match st {
            LexState::Delimiter => Some(acc),
            LexState::Unquoted => Some(acc.push(word)),
            LexState::Quoted => None,
        }
    } else {
        let c = s[0];
        let rest = s.drop_first();
        match st {
            LexState::Delimiter => if c == '\'' {
                lex_from(rest, LexState::Quoted, word, acc)
            } else {
                lex_from(rest, LexState::Delimiter, word, acc)
            },
            LexState::Unquoted => if c == '\'' {
                lex_from(rest, LexState::Quoted, word.push('\''), acc)
            } else {
                lex_from(rest, LexState::Delimiter, Seq::empty(), acc.push(word))
            },
            LexState::Quoted => if c == '\'' {
                lex_from(rest, LexState::Unquoted, word, acc)
            } else {
                lex_from(rest, LexState::Quoted, word.push(c), acc)
            },
        }
    }
}

/// What decoding `s` yields: the ordered decoded tokens, or `None` for a
/// missing closing quote.
pub open spec fn split_spec(s: Seq<char>) -> Option<Seq<Seq<char>>> {
    lex_from(s, LexState::Delimiter, Seq::empty(), Seq::empty())
}

/// Splits output produced with `echo -quoting kakoune` into its elements.
pub fn split(s: &str) -> (r: Result<Vec<String>, ParseError>)
    ensures
        match r {
            Ok(words) => split_spec(s@) == Some(words.deep_view()),
            Err(_) => split_spec(s@) is None,
        },
{
    let chars = str_chars(s);
    let n = chars.len();
    let mut st = LexState::Delimiter;
    let mut word: Vec<char> = Vec::new();
    let mut words: Vec<String> = Vec::new();
    let mut i: usize = 0;
    proof {
        assert(s@.skip(0) =~= s@);
        assert(word@ =~= Seq::<char>::empty());
        assert(words.deep_view() =~= Seq::<Seq<char>>::empty());
    }
    while i < n
        invariant
            n == chars@.len(),
            chars@ == s@,
            i <= n,
            lex_from(s@.skip(i as int), st, word@, words.deep_view()) == split_spec(s@),
        decreases n - i,
    {
        let c = chars[i];
        proof {
            assert(s@.skip(i as int).len() > 0);
            assert(s@.skip(i as int)[0] == c);
            assert(s@.skip(i as int).drop_first() =~= s@.skip(i as int + 1));
        }
        let ghost old_words = words.deep_view();
        match st {
            LexState::Delimiter => {
                if c == '\'' {
                    st = LexState::Quoted;
                }
            },
            LexState::Unquoted => {
                if c == '\'' {
                    word.push('\'');
                    st = LexState::Quoted;
                } else {
                    let w = chars_to_string(&word);
                    let ghost wv = w@;
                    words.push(w);
                    word = Vec::new();
                    st = LexState::Delimiter;
                    proof {
                        assert(words.deep_view() =~= old_words.push(wv));
                    }
                }
            },
            LexState::Quoted => {
                if c == '\'' {
                    st = LexState::Unquoted;
                } else {
                    word.push(c);
                }
            },
        }
        i = i + 1;
    }
    proof {
        assert(s@.skip(n as int) =~= Seq::<char>::empty());
    }
    match st {
        LexState::Delimiter => Ok(words),
        LexState::Unquoted => {
            let ghost old_words = words.deep_view();
            let w = chars_to_string(&word);
            let ghost wv = w@;
            words.push(w);
            proof {
                assert(words.deep_view() =~= old_words.push(wv));
            }
            Ok(words)
        },
        LexState::Quoted => Err(ParseError),
    }
}

/// `w` with every single quote doubled.
pub open spec fn doubled(w: Seq<char>) -> Seq<char>
    decreases w.len(),
{
    if w.len() == 0 {
        Seq::empty()
    } else if w[0] == '\'' {
        seq!['\'', '\''] + doubled(w.drop_first())
    } else {
        seq![w[0]] + doubled(w.drop_first())
    }
}

/// `w` encoded as one quoted token.
pub open spec fn quoted(w: Seq<char>) -> Seq<char> {
    seq!['\''] + doubled(w) + seq!['\'']
}

/// The whole list encoded: each element quoted, elements joined by one space.
pub open spec fn encoded_list(items: Seq<Seq<char>>) -> Seq<char>
    decreases items.len(),
{
    if items.len() == 0 {
        Seq::empty()
    } else if items.len() == 1 {
        quoted(items[0])
    } else {
        quoted(items[0]) + seq![' '] + encoded_list(items.drop_first())
    }
}

/// Doubling a single character yields it doubled when it is a quote, and
/// unchanged otherwise.
proof fn lemma_doubled_single(c: char)
    ensures
        c == '\'' ==> doubled(seq![c]) == seq!['\'', '\''],
        c != '\'' ==> doubled(seq![c]) == seq![c],
{
    assert(seq![c].drop_first() =~= Seq::<char>::empty());
    assert(doubled(Seq::<char>::empty()) == Seq::<char>::empty());
    if c == '\'' {
        assert(doubled(seq![c]) =~= seq!['\'', '\'']);
    } else {
        assert(doubled(seq![c]) =~= seq![c]);
    }
}

/// Doubling distributes over concatenation.
proof fn lemma_doubled_concat(a: Seq<char>, b: Seq<char>)
    ensures
        doubled(a + b) == doubled(a) + doubled(b),
    decreases a.len(),
{
    if a.len() == 0 {
        assert(a + b =~= b);
        assert(doubled(a) + doubled(b) =~= doubled(b));
    } else {
        assert((a + b)[0] == a[0]);
        assert((a + b).drop_first() =~= a.drop_first() + b);
        lemma_doubled_concat(a.drop_first(), b);
        if a[0] == '\'' {
            assert(doubled(a + b) =~= doubled(a) + doubled(b));
        } else {
            assert(doubled(a + b) =~= doubled(a) + doubled(b));
        }
    }
}

/// Encodes one element as a quoted token, doubling its quotes.
pub fn quote(s: &str) -> (r: String)
    ensures
        r@ == quoted(s@),
{
    let chars = str_chars(s);
    let n = chars.len();
    let mut out: Vec<char> = Vec::new();
    out.push('\'');
    let mut i: usize = 0;
    while i < n
        invariant
            n == chars@.len(),
            chars@ == s@,
            i <= n,
            out@ == seq!['\''] + doubled(s@.take(i as int)),
        decreases n - i,
    {
        let c = chars[i];
        if c == '\'' {
            out.push('\'');
            out.push('\'');
        } else {
            out.push(c);
        }
        i = i + 1;
        proof {
            let pre = s@.take(i - 1);
            let cc = s@[i - 1];
            assert(s@.take(i as int) =~= pre + seq![cc]);
            lemma_doubled_concat(pre, seq![cc]);
            lemma_doubled_single(cc);
            assert(out@ =~= seq!['\''] + doubled(s@.take(i as int)));
        }
    }
    out.push('\'');
    proof {
        assert(s@.take(n as int) =~= s@);
        assert(out@ =~= quoted(s@));
    }
    chars_to_string(&out)
}

/// Appending one more element extends the encoding by a space and one token.
proof fn lemma_encoded_push(items: Seq<Seq<char>>, x: Seq<char>)
    ensures
        items.len() == 0 ==> encoded_list(items.push(x)) == quoted(x),
        items.len() > 0 ==> encoded_list(items.push(x)) == encoded_list(items) + seq![' ']
            + quoted(x),
    decreases items.len(),
{
    if items.len() == 0 {
        assert(items.push(x).len() == 1);
        assert(items.push(x)[0] == x);
    } else {
        lemma_encoded_push(items.drop_first(), x);
        assert(items.push(x).drop_first() =~= items.drop_first().push(x));
        assert(items.push(x)[0] == items[0]);
        if items.len() == 1 {
            assert(items.drop_first().len() == 0);
            assert(encoded_list(items.push(x)) =~= encoded_list(items) + seq![' '] + quoted(x));
        } else {
            assert(encoded_list(items.push(x)) =~= encoded_list(items) + seq![' '] + quoted(x));
        }
    }
}

/// Encodes a list of elements, joining the quoted tokens with single spaces.
pub fn encode_list(items: &Vec<String>) -> (r: String)
    ensures
        r@ == encoded_list(items.deep_view()),
{
    let mut out = String::new();
    let mut i: usize = 0;
    while i < items.len()
        invariant
            i <= items@.len(),
            out@ == encoded_list(items.deep_view().take(i as int)),
        decreases items@.len() - i,
    {
        if i > 0 {
            crate::chars::push_char(&mut out, ' ');
        }
        let q = quote(items[i].as_str());
        let qs: &str = q.as_str();
        out.append(qs);
        i = i + 1;
        proof {
            let dv = items.deep_view();
            assert(dv.take(i as int) =~= dv.take(i - 1).push(dv[i - 1]));
            lemma_encoded_push(dv.take(i - 1), dv[i - 1]);
            assert(items@[i - 1].deep_view() == dv[i - 1]);
            assert(out@ =~= encoded_list(dv.take(i as int)));
        }
    }
    proof {
        assert(items.deep_view().take(items@.len() as int) =~= items.deep_view());
    }
    out
}

/// Inside a quote, reading the doubled form of `w` keeps the lexer inside the
/// quote and appends exactly `w` to the token being built.
proof fn lemma_lex_doubled(w: Seq<char>, rest: Seq<char>, word: Seq<char>, acc: Seq<Seq<char>>)
    ensures
        lex_from(doubled(w) + rest, LexState::Quoted, word, acc) == lex_from(
            rest,
            LexState::Quoted,
            word + w,
            acc,
        ),
    decreases w.len(),
{
    if w.len() == 0 {
        assert(doubled(w) + rest =~= rest);
        assert(word + w =~= word);
    } else {
        let c = w[0];
        let w2 = w.drop_first();
        let t = doubled(w) + rest;
        if c == '\'' {
            let t1 = seq!['\''] + (doubled(w2) + rest);
            assert(t.len() > 0 && t[0] == '\'' && t.drop_first() =~= t1);
            assert(lex_from(t, LexState::Quoted, word, acc) == lex_from(
                t1,
                LexState::Unquoted,
                word,
                acc,
            ));
            assert(t1.len() > 0 && t1[0] == '\'' && t1.drop_first() =~= doubled(w2) + rest);
            assert(lex_from(t1, LexState::Unquoted, word, acc) == lex_from(
                doubled(w2) + rest,
                LexState::Quoted,
                word.push('\''),
                acc,
            ));
            lemma_lex_doubled(w2, rest, word.push('\''), acc);
            assert(word.push('\'') + w2 =~= word + w);
        } else {
            assert(t.len() > 0 && t[0] == c && t.drop_first() =~= doubled(w2) + rest);
            assert(lex_from(t, LexState::Quoted, word, acc) == lex_from(
                doubled(w2) + rest,
                LexState::Quoted,
                word.push(c),
                acc,
            ));
            lemma_lex_doubled(w2, rest, word.push(c), acc);
            assert(word.push(c) + w2 =~= word + w);
        }
    }
}

/// Decoding an encoded list appends exactly its elements to what was decoded
/// before it.
proof fn lemma_lex_encoded(items: Seq<Seq<char>>, acc: Seq<Seq<char>>)
    ensures
        lex_from(encoded_list(items), LexState::Delimiter, Seq::empty(), acc) == Some(acc + items),
    decreases items.len(),
{
    if items.len() == 0 {
        assert(encoded_list(items).len() == 0);
        assert(acc + items =~= acc);
    } else {
        let w = items[0];
        let e = encoded_list(items);
        if items.len() == 1 {
            let t1: Seq<char> = seq!['\''];
            assert(e.len() > 0 && e[0] == '\'' && e.drop_first() =~= doubled(w) + t1) by {
                assert(e =~= seq!['\''] + (doubled(w) + t1));
            }
            assert(lex_from(e, LexState::Delimiter, Seq::empty(), acc) == lex_from(
                doubled(w) + t1,
                LexState::Quoted,
                Seq::empty(),
                acc,
            ));
            lemma_lex_doubled(w, t1, Seq::empty(), acc);
            assert(Seq::<char>::empty() + w =~= w);
            assert(t1.len() > 0 && t1[0] == '\'' && t1.drop_first() =~= Seq::<char>::empty());
            assert(lex_from(t1, LexState::Quoted, w, acc) == lex_from(
                Seq::<char>::empty(),
                LexState::Unquoted,
                w,
                acc,
            ));
            assert(lex_from(Seq::<char>::empty(), LexState::Unquoted, w, acc) == Some(acc.push(w)));
            assert(acc + items =~= acc.push(w));
        } else {
            let rest = items.drop_first();
            let t1 = seq!['\''] + (seq![' '] + encoded_list(rest));
            assert(e.len() > 0 && e[0] == '\'' && e.drop_first() =~= doubled(w) + t1) by {
                assert(e =~= seq!['\''] + (doubled(w) + t1));
            }
            assert(lex_from(e, LexState::Delimiter, Seq::empty(), acc) == lex_from(
                doubled(w) + t1,
                LexState::Quoted,
                Seq::empty(),
                acc,
            ));
            lemma_lex_doubled(w, t1, Seq::empty(), acc);
            assert(Seq::<char>::empty() + w =~= w);
            let t2 = seq![' '] + encoded_list(rest);
            assert(t1.len() > 0 && t1[0] == '\'' && t1.drop_first() =~= t2);
            assert(lex_from(t1, LexState::Quoted, w, acc) == lex_from(
                t2,
                LexState::Unquoted,
                w,
                acc,
            ));
            assert(t2.len() > 0 && t2[0] == ' ' && t2.drop_first() =~= encoded_list(rest));
            assert(lex_from(t2, LexState::Unquoted, w, acc) == lex_from(
                encoded_list(rest),
                LexState::Delimiter,
                Seq::empty(),
                acc.push(w),
            ));
            lemma_lex_encoded(rest, acc.push(w));
            assert(acc.push(w) + rest =~= acc + items);
        }
    }
}

/// Round trip: encoding any list of strings and decoding the result yields
/// the original list.
pub proof fn lemma_round_trip(items: Seq<Seq<char>>)
    ensures
        split_spec(encoded_list(items)) == Some(items),
{
    lemma_lex_encoded(items, Seq::empty());
    assert(Seq::<Seq<char>>::empty() + items =~= items);
}

/// Inside a quote, input without a closing quote never completes.
proof fn lemma_quoted_runs_dry(t: Seq<char>, word: Seq<char>, acc: Seq<Seq<char>>)
    requires
        forall|i: int| 0 <= i < t.len() ==> t[i] != '\'',
    ensures
        lex_from(t, LexState::Quoted, word, acc) is None,
    decreases t.len(),
{
    if t.len() > 0 {
        lemma_quoted_runs_dry(t.drop_first(), word.push(t[0]), acc);
    }
}

/// An unterminated quote always fails to decode: an opening quote followed
/// by any content without a closing quote yields the error.
pub proof fn lemma_unterminated_quote(t: Seq<char>)
    requires
        forall|i: int| 0 <= i < t.len() ==> t[i] != '\'',
    ensures
        split_spec(seq!['\''] + t) is None,
{
    let s = seq!['\''] + t;
    assert(s[0] == '\'');
    assert(s.drop_first() =~= t);
    lemma_quoted_runs_dry(t, Seq::empty(), Seq::empty());
}

/// Between tokens, characters other than a quote are skipped without effect.
pub proof fn lemma_noise_skipped(noise: Seq<char>, rest: Seq<char>, acc: Seq<Seq<char>>)
    requires
        forall|i: int| 0 <= i < noise.len() ==> noise[i] != '\'',
    ensures
        lex_from(noise + rest, LexState::Delimiter, Seq::empty(), acc) == lex_from(
            rest,
            LexState::Delimiter,
            Seq::empty(),
            acc,
        ),
    decreases noise.len(),
{
    if noise.len() == 0 {
        assert(noise + rest =~= rest);
    } else {
        let t = noise + rest;
        assert(t[0] == noise[0]);
        assert(t.drop_first() =~= noise.drop_first() + rest);
        lemma_noise_skipped(noise.drop_first(), rest, acc);
    }
}

} // verus!
