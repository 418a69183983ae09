//! Character and string helpers shared by the framer, the lexers and the
//! error messages: conversion between `String` and `Vec<char>`, string
//! equality, trimming, and decimal rendering and parsing of integers.

use vstd::prelude::*;
use vstd::string::StrSliceExecFns;
use vstd::string::StringExecFns;

verus! {

/// Relies on `String::push`: appends exactly the one character to the string.
#[verifier::external_body]
pub(crate) fn push_char(s: &mut String, c: char)
    ensures
        final(s)@ == old(s)@.push(c),
{
    s.push(c)
}

/// Builds a `String` holding exactly the characters of `v`.
pub fn chars_to_string(v: &Vec<char>) -> (r: String)
    ensures
        r@ == v@,
{
    let mut r = String::new();
    let mut i: usize = 0;
    while i < v.len()
        invariant
            i <= v@.len(),
            r@ == v@.subrange(0, i as int),
        decreases v@.len() - i,
    {
        push_char(&mut r, v[i]);
        i = i + 1;
        proof {
            assert(r@ =~= v@.subrange(0, i as int));
        }
    }
    proof {
        assert(r@ =~= v@);
    }
    r
}

/// Collects the characters of `s` into a vector.
pub fn str_chars(s: &str) -> (v: Vec<char>)
    ensures
        v@ == s@,
{
    let n = s.unicode_len();
    let mut v: Vec<char> = Vec::new();
    let mut i: usize = 0;
    while i < n
        invariant
            n == s@.len(),
            i <= n,
            v@ == s@.subrange(0, i as int),
        decreases n - i,
    {
        v.push(s.get_char(i));
        i = i + 1;
        proof {
            assert(v@ =~= s@.subrange(0, i as int));
        }
    }
    proof {
        assert(v@ =~= s@);
    }
    v
}

/// Compares two string slices character by character.
pub fn str_eq(a: &str, b: &str) -> (r: bool)
    ensures
        r == (a@ == b@),
{
    let na = a.unicode_len();
    let nb = b.unicode_len();
    if na != nb {
        proof {
            assert(a@.len() != b@.len());
        }
        return false;
    }
    let mut i: usize = 0;
    while i < na
        invariant
            na == a@.len(),
            na == b@.len(),
            i <= na,
            forall|j: int| 0 <= j < i ==> a@[j] == b@[j],
        decreases na - i,
    {
        if a.get_char(i) != b.get_char(i) {
            return false;
        }
        i = i + 1;
    }
    proof {
        assert(a@ =~= b@);
    }
    true
}

/// The decimal digits of `n`, most significant first.
pub open spec fn dec_digits(n: nat) -> Seq<char>
    decreases n,
{
    if n < 10 {
        seq![digit_char(n)]
    } else {
        dec_digits(n / 10).push(digit_char(n % 10))
    }
}

/// The character for one decimal digit.
pub open spec fn digit_char(d: nat) -> char {
    if d == 0 {
        '0'
    } else if d == 1 {
        '1'
    } else if d == 2 {
        '2'
    } else if d == 3 {
        '3'
    } else if d == 4 {
        '4'
    } else if d == 5 {
        '5'
    } else if d == 6 {
        '6'
    } else if d == 7 {
        '7'
    } else if d == 8 {
        '8'
    } else {
        '9'
    }
}

/// The decimal rendering of a signed integer, `-` first when negative.
pub open spec fn int_str(i: int) -> Seq<char> {
    if i < 0 {
        seq!['-'] + dec_digits((-i) as nat)
    } else {
        dec_digits(i as nat)
    }
}

fn digit_to_char(d: u64) -> (c: char)
    requires
        d < 10,
    ensures
        c == digit_char(d as nat),
{
    if d == 0 {
        '0'
    } else if d == 1 {
        '1'
    } else if d == 2 {
        '2'
    } else if d == 3 {
        '3'
    } else if d == 4 {
        '4'
    } else if d == 5 {
        '5'
    } else if d == 6 {
        '6'
    } else if d == 7 {
        '7'
    } else if d == 8 {
        '8'
    } else {
        '9'
    }
}

fn push_dec(n: u64, out: &mut String)
    ensures
        final(out)@ == old(out)@ + dec_digits(n as nat),
    decreases n,
{
    if n < 10 {
        push_char(out, digit_to_char(n));
        proof {
            assert(out@ =~= old(out)@ + dec_digits(n as nat));
        }
    } else {
        push_dec(n / 10, out);
        push_char(out, digit_to_char(n % 10));
        proof {
            assert(out@ =~= old(out)@ + dec_digits(n as nat));
        }
    }
}

/// Renders a signed 32-bit integer in decimal, as `ToString` would.
pub fn i32_to_string(x: i32) -> (r: String)
    ensures
        r@ == int_str(x as int),
{
    let mut out = String::new();
    if x < 0 {
        push_char(&mut out, '-');
        let m: u64 = (-(x as i64)) as u64;
        push_dec(m, &mut out);
        proof {
            assert(out@ =~= int_str(x as int));
        }
    } else {
        push_dec(x as u64, &mut out);
        proof {
            assert(out@ =~= int_str(x as int));
        }
    }
    out
}

/// The index of the first occurrence of `c` in `s`, or `s.len()` when `c`
/// does not occur.
pub open spec fn idx_of(s: Seq<char>, c: char) -> int
    decreases s.len(),
{
    if s.len() == 0 {
        0
    } else if s[0] == c {
        0
    } else {
        1 + idx_of(s.drop_first(), c)
    }
}

pub(crate) proof fn lemma_idx_of_found(s: Seq<char>, c: char, i: int)
    requires
        0 <= i < s.len(),
        s[i] == c,
        forall|j: int| 0 <= j < i ==> s[j] != c,
    ensures
        idx_of(s, c) == i,
    decreases i,
{
    if i > 0 {
        lemma_idx_of_found(s.drop_first(), c, i - 1);
    }
}

pub(crate) proof fn lemma_idx_of_absent(s: Seq<char>, c: char)
    requires
        forall|j: int| 0 <= j < s.len() ==> s[j] != c,
    ensures
        idx_of(s, c) == s.len(),
    decreases s.len(),
{
    if s.len() > 0 {
        lemma_idx_of_absent(s.drop_first(), c);
    }
}

/// Whether the character has the Unicode White_Space property.
pub uninterp spec fn is_unicode_space(c: char) -> bool;

/// Relies on char::is_whitespace: true exactly for characters with the
/// Unicode White_Space property; the result depends on the character alone.
/// The blank, tab, newline and carriage-return characters have the property;
/// no other printable ASCII character does.
#[verifier::external_body]
pub(crate) fn char_is_space(c: char) -> (r: bool)
    ensures
        r == is_unicode_space(c),
        (c == ' ' || c == '\t' || c == '\n' || c == '\r') ==> r,
        ('!' <= c && c <= '~') ==> !r,
{
    c.is_whitespace()
}

/// `s` with leading and trailing white space removed.
pub open spec fn trimmed_space(s: Seq<char>) -> Seq<char>
    decreases s.len(),
{
    if s.len() > 0 && is_unicode_space(s[0]) {
        trimmed_space(s.drop_first())
    } else if s.len() > 0 && is_unicode_space(s.last()) {
        trimmed_space(s.drop_last())
    } else {
        s
    }
}

/// A character the key-value parser strips from values.
pub open spec fn is_kv_quote(c: char) -> bool {
    c == '\'' || c == '"'
}

/// `s` with leading and trailing quote characters removed.
pub open spec fn trimmed_quotes(s: Seq<char>) -> Seq<char>
    decreases s.len(),
{
    if s.len() > 0 && is_kv_quote(s[0]) {
        trimmed_quotes(s.drop_first())
    } else if s.len() > 0 && is_kv_quote(s.last()) {
        trimmed_quotes(s.drop_last())
    } else {
        s
    }
}

proof fn lemma_trimmed_space_range(s: Seq<char>, lo: int, hi: int)
    requires
        0 <= lo <= hi <= s.len(),
        forall|j: int| 0 <= j < lo ==> is_unicode_space(s[j]),
        forall|j: int| hi <= j < s.len() ==> is_unicode_space(s[j]),
        lo < hi ==> !is_unicode_space(s[lo]) && !is_unicode_space(s[hi - 1]),
    ensures
        trimmed_space(s) == s.subrange(lo, hi),
    decreases s.len(),
{
    if lo == hi {
        if s.len() == 0 {
            assert(trimmed_space(s) =~= s.subrange(lo, hi));
        } else {
            assert(is_unicode_space(s[0]));
            let t = s.drop_first();
            lemma_trimmed_space_range(t, 0, 0);
            assert(t.subrange(0, 0) =~= s.subrange(lo, hi));
        }
    } else if lo > 0 {
        assert(is_unicode_space(s[0]));
        let t = s.drop_first();
        lemma_trimmed_space_range(t, lo - 1, hi - 1);
        assert(t.subrange(lo - 1, hi - 1) =~= s.subrange(lo, hi));
    } else if hi < s.len() {
        assert(is_unicode_space(s.last()));
        assert(!is_unicode_space(s[0]));
        let t = s.drop_last();
        lemma_trimmed_space_range(t, 0, hi);
        assert(t.subrange(0, hi) =~= s.subrange(lo, hi));
    } else {
        assert(!is_unicode_space(s[0]) && !is_unicode_space(s.last()));
        assert(s.subrange(lo, hi) =~= s);
    }
}

proof fn lemma_trimmed_quotes_range(s: Seq<char>, lo: int, hi: int)
    requires
        0 <= lo <= hi <= s.len(),
        forall|j: int| 0 <= j < lo ==> is_kv_quote(s[j]),
        forall|j: int| hi <= j < s.len() ==> is_kv_quote(s[j]),
        lo < hi ==> !is_kv_quote(s[lo]) && !is_kv_quote(s[hi - 1]),
    ensures
        trimmed_quotes(s) == s.subrange(lo, hi),
    decreases s.len(),
{
    if lo == hi {
        if s.len() == 0 {
            assert(trimmed_quotes(s) =~= s.subrange(lo, hi));
        } else {
            assert(is_kv_quote(s[0]));
            let t = s.drop_first();
            lemma_trimmed_quotes_range(t, 0, 0);
            assert(t.subrange(0, 0) =~= s.subrange(lo, hi));
        }
    } else if lo > 0 {
        assert(is_kv_quote(s[0]));
        let t = s.drop_first();
        lemma_trimmed_quotes_range(t, lo - 1, hi - 1);
        assert(t.subrange(lo - 1, hi - 1) =~= s.subrange(lo, hi));
    } else if hi < s.len() {
        assert(is_kv_quote(s.last()));
        assert(!is_kv_quote(s[0]));
        let t = s.drop_last();
        lemma_trimmed_quotes_range(t, 0, hi);
        assert(t.subrange(0, hi) =~= s.subrange(lo, hi));
    } else {
        assert(!is_kv_quote(s[0]) && !is_kv_quote(s.last()));
        assert(s.subrange(lo, hi) =~= s);
    }
}

/// Removes leading and trailing white space.
pub fn trim(s: &str) -> (r: String)
    ensures
        r@ == trimmed_space(s@),
{
    let chars = str_chars(s);
    let n = chars.len();
    let mut lo: usize = 0;
    while lo < n && char_is_space(chars[lo])
        invariant
            n == chars@.len(),
            chars@ == s@,
            lo <= n,
            forall|j: int| 0 <= j < lo ==> is_unicode_space(s@[j]),
        decreases n - lo,
    {
        lo = lo + 1;
    }
    let mut hi: usize = n;
    while hi > lo && char_is_space(chars[hi - 1])
        invariant
            n == chars@.len(),
            chars@ == s@,
            lo <= hi <= n,
            forall|j: int| 0 <= j < lo ==> is_unicode_space(s@[j]),
            forall|j: int| hi <= j < n ==> is_unicode_space(s@[j]),
            lo < n ==> !is_unicode_space(s@[lo as int]),
        decreases hi,
    {
        hi = hi - 1;
    }
    proof {
        lemma_trimmed_space_range(s@, lo as int, hi as int);
    }
    let sub = s.substring_char(lo, hi);
    String::from_str(sub)
}

/// Removes leading and trailing single and double quotes.
pub fn trim_quotes(s: &str) -> (r: String)
    ensures
        r@ == trimmed_quotes(s@),
{
    let chars = str_chars(s);
    let n = chars.len();
    let mut lo: usize = 0;
    while lo < n && (chars[lo] == '\'' || chars[lo] == '"')
        invariant
            n == chars@.len(),
            chars@ == s@,
            lo <= n,
            forall|j: int| 0 <= j < lo ==> is_kv_quote(s@[j]),
        decreases n - lo,
    {
        lo = lo + 1;
    }
    let mut hi: usize = n;
    while hi > lo && (chars[hi - 1] == '\'' || chars[hi - 1] == '"')
        invariant
            n == chars@.len(),
            chars@ == s@,
            lo <= hi <= n,
            forall|j: int| 0 <= j < lo ==> is_kv_quote(s@[j]),
            forall|j: int| hi <= j < n ==> is_kv_quote(s@[j]),
            lo < n ==> !is_kv_quote(s@[lo as int]),
        decreases hi,
    {
        hi = hi - 1;
    }
    proof {
        lemma_trimmed_quotes_range(s@, lo as int, hi as int);
    }
    let sub = s.substring_char(lo, hi);
    String::from_str(sub)
}

/// Whether the character is a decimal digit.
pub open spec fn is_digit(c: char) -> bool {
    '0' <= c && c <= '9'
}

/// The value of a digit character.
pub open spec fn digit_val(c: char) -> int {
    c as int - '0' as int
}

/// Whether every character of `s` is a decimal digit.
pub open spec fn all_digits(s: Seq<char>) -> bool {
    forall|i: int| 0 <= i < s.len() ==> is_digit(s[i])
}

/// The value of a digit string, most significant digit first.
pub open spec fn digits_val(s: Seq<char>) -> int
    decreases s.len(),
{
    if s.len() == 0 {
        0
    } else {
        digits_val(s.drop_last()) * 10 + digit_val(s.last())
    }
}

/// The `n`-th power of ten.
pub open spec fn pow10(n: nat) -> int
    decreases n,
{
    if n == 0 {
        1
    } else {
        10 * pow10((n - 1) as nat)
    }
}

/// What parsing a signed 32-bit decimal yields: an optional sign, then one
/// or more digits, and the value must fit the type; anything else fails.
pub open spec fn parse_i32_spec(s: Seq<char>) -> Option<int> {
    let neg = s.len() > 0 && s[0] == '-';
    let body = if s.len() > 0 && (s[0] == '+' || s[0] == '-') {
        s.drop_first()
    } else {
        s
    };
    if body.len() > 0 && all_digits(body) {
        let v = if neg {
            -digits_val(body)
        } else {
            digits_val(body)
        };
        if i32::MIN <= v <= i32::MAX {
            Some(v)
        } else {
            None
        }
    } else {
        None
    }
}

proof fn lemma_digits_val_bounds(s: Seq<char>)
    requires
        all_digits(s),
    ensures
        0 <= digits_val(s) < pow10(s.len()),
    decreases s.len(),
{
    if s.len() > 0 {
        let t = s.drop_last();
        assert(all_digits(t));
        lemma_digits_val_bounds(t);
        assert(0 <= digit_val(s.last()) <= 9);
    }
}

proof fn lemma_digits_val_zeros(s: Seq<char>)
    requires
        forall|j: int| 0 <= j < s.len() ==> s[j] == '0',
    ensures
        digits_val(s) == 0,
    decreases s.len(),
{
    if s.len() > 0 {
        lemma_digits_val_zeros(s.drop_last());
    }
}

proof fn lemma_digits_val_skip_zeros(s: Seq<char>, k: int)
    requires
        0 <= k <= s.len(),
        forall|j: int| 0 <= j < k ==> s[j] == '0',
    ensures
        digits_val(s) == digits_val(s.skip(k)),
    decreases s.len(),
{
    if s.len() == k {
        lemma_digits_val_zeros(s);
        assert(s.skip(k).len() == 0);
    } else {
        let t = s.drop_last();
        lemma_digits_val_skip_zeros(t, k);
        assert(s.skip(k).drop_last() =~= t.skip(k));
        assert(s.skip(k).last() == s.last());
    }
}

proof fn lemma_pow10_pos(n: nat)
    ensures
        pow10(n) >= 1,
    decreases n,
{
    if n > 0 {
        lemma_pow10_pos((n - 1) as nat);
    }
}

proof fn lemma_pow10_mono(a: nat, b: nat)
    requires
        a <= b,
    ensures
        pow10(a) <= pow10(b),
    decreases b,
{
    if a < b {
        lemma_pow10_mono(a, (b - 1) as nat);
        lemma_pow10_pos((b - 1) as nat);
    }
}

proof fn lemma_first_digit_min(s: Seq<char>)
    requires
        all_digits(s),
        s.len() > 0,
        s[0] != '0',
    ensures
        digits_val(s) >= pow10((s.len() - 1) as nat),
    decreases s.len(),
{
    if s.len() == 1 {
        assert(s.drop_last() =~= Seq::<char>::empty());
        assert(digits_val(Seq::<char>::empty()) == 0);
        assert(s.last() == s[0]);
        assert(digits_val(s) == digit_val(s[0]));
        assert(is_digit(s[0]));
        assert(s[0] != '0' && '0' <= s[0] ==> '1' <= s[0]);
        assert(digit_val(s[0]) >= 1);
        assert(pow10(0) == 1);
    } else {
        let t = s.drop_last();
        assert(all_digits(t));
        assert(t[0] == s[0]);
        lemma_first_digit_min(t);
        assert(digits_val(t) >= pow10((s.len() - 2) as nat));
        assert(digits_val(t) * 10 >= pow10((s.len() - 2) as nat) * 10);
        assert(pow10((s.len() - 1) as nat) == 10 * pow10((s.len() - 2) as nat));
        assert(is_digit(s.last()));
        assert(digit_val(s.last()) >= 0);
    }
}

proof fn lemma_pow10_ten()
    ensures
        pow10(10) == 10_000_000_000,
{
    reveal_with_fuel(pow10, 11);
}

/// Parses the characters `chs[from..to]` as a signed 32-bit decimal.
pub fn parse_i32_chars(chs: &Vec<char>, from: usize, to: usize) -> (r: Option<i32>)
    requires
        from <= to <= chs@.len(),
    ensures
        match parse_i32_spec(chs@.subrange(from as int, to as int)) {
            Some(v) => (r matches Some(x) && x as int == v),
            None => r is None,
        },
{
    let ghost s = chs@.subrange(from as int, to as int);
    if from == to {
        return None;
    }
    let c0 = chs[from];
    let neg = c0 == '-';
    let start = if c0 == '-' || c0 == '+' {
        from + 1
    } else {
        from
    };
    let ghost body = if c0 == '-' || c0 == '+' {
        s.drop_first()
    } else {
        s
    };
    proof {
        assert(body =~= chs@.subrange(start as int, to as int));
    }
    if start == to {
        return None;
    }
    // every remaining character must be a digit
    let mut i: usize = start;
    while i < to && '0' <= chs[i] && chs[i] <= '9'
        invariant
            start <= i <= to <= chs@.len(),
            forall|j: int| start <= j < i ==> is_digit(chs@[j]),
        decreases to - i,
    {
        i = i + 1;
    }
    if i < to {
        proof {
            assert(!is_digit(body[i - start]));
        }
        return None;
    }
    proof {
        assert(all_digits(body));
    }
    // skip leading zeros; they do not change the value
    let mut z: usize = start;
    while z < to && chs[z] == '0'
        invariant
            start <= z <= to <= chs@.len(),
            forall|j: int| start <= j < z ==> chs@[j] == '0',
        decreases to - z,
    {
        z = z + 1;
    }
    proof {
        lemma_digits_val_skip_zeros(body, z - start);
        assert(body.skip(z - start) =~= chs@.subrange(z as int, to as int));
    }
    let ghost digits = chs@.subrange(z as int, to as int);
    if z == to {
        proof {
            lemma_digits_val_zeros(digits);
        }
        return Some(0);
    }
    if to - z > 10 {
        // at least eleven significant digits: out of range either way
        proof {
            lemma_first_digit_min(digits);
            lemma_pow10_mono(10, (digits.len() - 1) as nat);
            lemma_pow10_ten();
        }
        return None;
    }
    let mut acc: u64 = 0;
    let mut k: usize = z;
    proof {
        assert(chs@.subrange(z as int, z as int) =~= Seq::<char>::empty());
        lemma_pow10_ten();
    }
    while k < to
        invariant
            z <= k <= to <= chs@.len(),
            to - z <= 10,
            all_digits(chs@.subrange(z as int, to as int)),
            acc as int == digits_val(chs@.subrange(z as int, k as int)),
            (acc as int) < pow10((k - z) as nat),
            pow10(10) == 10_000_000_000,
        decreases to - k,
    {
        let c = chs[k];
        proof {
            assert(is_digit(chs@.subrange(z as int, to as int)[k - z]));
            assert(is_digit(c));
            lemma_pow10_mono(((k - z) + 1) as nat, 10);
        }
        let d: u64 = (c as u32 - 48) as u64;
        acc = acc * 10 + d;
        k = k + 1;
        proof {
            let pre = chs@.subrange(z as int, k - 1);
            let cur = chs@.subrange(z as int, k as int);
            assert(cur.drop_last() =~= pre);
            assert(cur.last() == c);
        }
    }
    proof {
        assert(digits == chs@.subrange(z as int, to as int));
        assert(acc as int == digits_val(body));
        lemma_digits_val_bounds(digits);
    }
    if neg {
        if acc > 2_147_483_648 {
            return None;
        }
        if acc == 2_147_483_648 {
            return Some(i32::MIN);
        }
        Some(-(acc as i32))
    } else {
        if acc > 2_147_483_647 {
            return None;
        }
        Some(acc as i32)
    }
}

} // verus!
