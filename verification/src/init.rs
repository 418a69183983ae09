//! The editor-side init script: the `kamp-connect` command with the
//! caller's exported variables spliced in, the hooks that create and remove
//! the session FIFOs, and the optional alias.

use vstd::prelude::*;
use vstd::string::StringExecFns;

use crate::argv::init::KeyValue;

verus! {

/// The head of the connect command, up to the spliced exports.
pub const CONNECT_HEAD: &'static str = "define-command -override kamp-connect -params 1.. -command-completion %{\n    %arg{1} sh -c %{\n        ";

/// The rest of the connect command after the spliced exports.
pub const CONNECT_TAIL: &'static str = "export KAKOUNE_SESSION=\"$1\"\n        export KAKOUNE_CLIENT=\"$2\"\n        shift 3\n\n        [ $# = 0 ] && set \"$SHELL\"\n\n        \"$@\"\n    } -- %val{session} %val{client} %arg{@}\n} -docstring 'run Kakoune command in connected context'\n";

/// The hooks that create the two FIFOs when a session starts and remove
/// them when it ends.  The out and err paths are `<tmp>/kamp-<session>.out`
/// and `.err`; the core's path derivation must match them exactly.
pub const INIT_HOOKS: &'static str = "\ndefine-command -hidden -override kamp-init %{\n    declare-option -hidden str kamp_out\n    declare-option -hidden str kamp_err\n    evaluate-commands %sh{\n        kamp_out=\"${TMPDIR:-/tmp/}kamp-${kak_session}.out\"\n        kamp_err=\"${TMPDIR:-/tmp/}kamp-${kak_session}.err\"\n        mkfifo \"$kamp_out\" \"$kamp_err\"\n        echo \"set-option global kamp_out '$kamp_out'\"\n        echo \"set-option global kamp_err '$kamp_err'\"\n    }\n}\n\ndefine-command -hidden -override kamp-end %{\n    nop %sh{ rm -f \"$kak_opt_kamp_out\" \"$kak_opt_kamp_err\" }\n}\n\nhook global KakBegin .* kamp-init\nhook global KakEnd .* kamp-end\n";

/// The alias line added on request.
pub const ALIAS_LINE: &'static str = "alias global connect kamp-connect\n";

/// The exported variables as they are spliced into the connect command, one
/// `export` line per pair, each followed by the body's indentation.
pub open spec fn exports_text(kvs: Seq<KeyValue>) -> Seq<char>
    decreases kvs.len(),
{
    if kvs.len() == 0 {
        Seq::empty()
    } else {
        "export "@ + kvs[0].key@ + "=\""@ + kvs[0].value@ + "\"\n        "@ + exports_text(
            kvs.drop_first(),
        )
    }
}

/// The whole init script.
pub open spec fn init_text(kvs: Seq<KeyValue>, alias: bool) -> Seq<char> {
    CONNECT_HEAD@ + exports_text(kvs) + CONNECT_TAIL@ + INIT_HOOKS@ + (if alias {
        ALIAS_LINE@
    } else {
        Seq::empty()
    })
}

proof fn lemma_exports_text_push(kvs: Seq<KeyValue>, kv: KeyValue)
    ensures
        exports_text(kvs.push(kv)) == exports_text(kvs) + ("export "@ + kv.key@ + "=\""@
            + kv.value@ + "\"\n        "@),
    decreases kvs.len(),
{
    if kvs.len() == 0 {
        assert(kvs.push(kv)[0] == kv);
        assert(kvs.push(kv).drop_first() =~= kvs);
        assert(exports_text(kvs) == Seq::<char>::empty());
        assert(exports_text(kvs.push(kv)) =~= exports_text(kvs) + ("export "@ + kv.key@ + "=\""@
            + kv.value@ + "\"\n        "@));
    } else {
        lemma_exports_text_push(kvs.drop_first(), kv);
        assert(kvs.push(kv)[0] == kvs[0]);
        assert(kvs.push(kv).drop_first() =~= kvs.drop_first().push(kv));
        assert(exports_text(kvs.push(kv)) =~= exports_text(kvs) + ("export "@ + kv.key@ + "=\""@
            + kv.value@ + "\"\n        "@));
    }
}

/// Renders the init script for the editor's configuration file.
pub fn init(export: Vec<KeyValue>, alias: bool) -> (r: String)
    ensures
        r@ == init_text(export@, alias),
{
    let mut user_exports = String::new();
    let mut i: usize = 0;
    proof {
        assert(export@.take(0) =~= Seq::<KeyValue>::empty());
    }
    while i < export.len()
        invariant
            i <= export@.len(),
            user_exports@ == exports_text(export@.take(i as int)),
        decreases export@.len() - i,
    {
        let kv = &export[i];
        user_exports.append("export ");
        user_exports.append(kv.key.as_str());
        user_exports.append("=\"");
        user_exports.append(kv.value.as_str());
        user_exports.append("\"\n        ");
        i = i + 1;
        proof {
            assert(export@.take(i as int) =~= export@.take(i - 1).push(export@[i - 1]));
            lemma_exports_text_push(export@.take(i - 1), export@[i - 1]);
            assert(user_exports@ =~= exports_text(export@.take(i as int)));
        }
    }
    proof {
        assert(export@.take(export@.len() as int) =~= export@);
    }
    let mut out = String::new();
    out.append(CONNECT_HEAD);
    out.append(user_exports.as_str());
    out.append(CONNECT_TAIL);
    out.append(INIT_HOOKS);
    if alias {
        out.append(ALIAS_LINE);
    }
    proof {
        assert(out@ =~= init_text(export@, alias));
    }
    out
}

} // verus!
