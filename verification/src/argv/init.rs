//! Options of the init subcommand, and the `KEY=VALUE` pairs it exports.

use vstd::prelude::*;
use vstd::string::StrSliceExecFns;
use vstd::string::StringExecFns;

use crate::chars::idx_of;
use crate::chars::lemma_idx_of_absent;
use crate::chars::lemma_idx_of_found;
use crate::chars::str_chars;
use crate::chars::trim;
use crate::chars::trim_quotes;
use crate::chars::trimmed_quotes;
use crate::chars::trimmed_space;

verus! {

/// Print the init script for the editor's configuration.
#[derive(Debug, Clone)]
pub struct Options {
    /// also alias `connect` to `kamp-connect`
    pub alias: bool,
    /// inject `export KEY=VALUE` lines into `kamp-connect`
    pub export: Vec<KeyValue>,
}

/// One exported environment pair.
#[derive(Debug, Clone)]
pub struct KeyValue {
    pub key: String,
    pub value: String,
}

/// What parsing a `KEY=VALUE` argument yields: the key trimmed of white
/// space and the value trimmed of quotes, split at the first `=`; or
/// nothing when no `=` occurs.
pub open spec fn key_value_spec(value: Seq<char>) -> Option<(Seq<char>, Seq<char>)> {
    let i = idx_of(value, '=');
    if i >= value.len() {
        None
    } else {
        Some(
            (
                trimmed_space(value.subrange(0, i)),
                trimmed_quotes(value.subrange(i + 1, value.len() as int)),
            ),
        )
    }
}

impl KeyValue {
    /// Parses a `KEY=VALUE` argument.
    pub fn from_arg_value(value: &str) -> (r: Result<KeyValue, String>)
        ensures
            match key_value_spec(value@) {
                Some((k, v)) => (r matches Ok(kv) && kv.key@ == k && kv.value@ == v),
                None => (r matches Err(m) && m@ == "invalid KEY=VALUE pair"@),
            },
    {
        let chars = str_chars(value);
        let n = chars.len();
        let mut i: usize = 0;
        while i < n && chars[i] != '='
            invariant
                n == chars@.len(),
                chars@ == value@,
                i <= n,
                forall|j: int| 0 <= j < i ==> value@[j] != '=',
            decreases n - i,
        {
            i = i + 1;
        }
        if i < n {
            proof {
                lemma_idx_of_found(value@, '=', i as int);
            }
            let key_part = value.substring_char(0, i);
            let val_part = value.substring_char(i + 1, n);
            Ok(KeyValue { key: trim(key_part), value: trim_quotes(val_part) })
        } else {
            proof {
                lemma_idx_of_absent(value@, '=');
            }
            let mut m = String::new();
            m.append("invalid KEY=VALUE pair");
            Err(m)
        }
    }
}

} // verus!
