//! The quote lexer: the strict splitter, the tolerant splitter, the
//! encoder, and the round trip between them.

use kamp::encode_list;
use kamp::quote;
use kamp::split;
use kamp::split_kak_list;

fn split_ok(cases: &[(&str, &[&str])]) {
    for &(input, expected) in cases {
        let actual = split(input).unwrap();
        assert!(
            expected == actual.as_slice(),
            "split({input:?}).unwrap()\nexpected: {expected:?}\n  actual: {actual:?}\n",
        );
    }
}

#[test]
#[should_panic(expected = "ParseError")]
fn split_unterminated() {
    split_ok(&[("'", &[])]);
}

#[test]
fn split_empty() {
    split_ok(&[("", &[])]);
    split_ok(&[(" ", &[])]);
    split_ok(&[("a", &[])]);
    split_ok(&[(" a", &[])]);
    split_ok(&[("ab", &[])]);
    split_ok(&[(" ab", &[])]);
    split_ok(&[("a b", &[])]);
    split_ok(&[(" a b", &[])]);
}

#[test]
fn split_single() {
    split_ok(&[("''a", &[""])]);
    split_ok(&[("'' a", &[""])]);
    split_ok(&[("'a'", &["a"])]);
    split_ok(&[("'''''a'", &["''a"])]);
    split_ok(&[("'''a'''", &["'a'"])]);
    split_ok(&[(" '''a'''", &["'a'"])]);
    split_ok(&[("\n'''a'''", &["'a'"])]);
    split_ok(&[(r#"'echo "''ok''"'"#, &[r#"echo "'ok'""#])]);
}

#[test]
fn split_multi() {
    split_ok(&[("'' ' '", &["", " "])]);
    split_ok(&[("'a' 'b'", &["a", "b"])]);
    split_ok(&[(
        "'echo ok''s' 'edit ''sp buf.txt'''",
        &["echo ok's", "edit 'sp buf.txt'"],
    )]);
    split_ok(&[(
        "'echo ok''s'\n'edit ''sp buf.txt'''",
        &["echo ok's", "edit 'sp buf.txt'"],
    )]);
}

#[test]
fn test_split_kak_list_1() {
    let input = r#"'''a''' '''a' 'b' 'echo pop' 'echo "''ok''"'"#;
    let expected = vec!["'a'", "'a", "b", "echo pop", r#"echo "'ok'""#]
        .into_iter()
        .map(String::from)
        .collect::<Vec<_>>();

    assert_eq!(split_kak_list(input), expected);
}

#[test]
fn test_split_kak_list_2() {
    let input = r#"'enter-user-mode pokemon' 'edit ''sp buf.txt'''"#;
    let expected = vec!["enter-user-mode pokemon", "edit 'sp buf.txt'"]
        .into_iter()
        .map(String::from)
        .collect::<Vec<_>>();

    assert_eq!(split_kak_list(input), expected);
}

#[test]
fn quote_doubles_embedded_quotes() {
    assert_eq!(quote("a'b"), "'a''b'");
    assert_eq!(quote(""), "''");
    assert_eq!(quote("plain"), "'plain'");
}

#[test]
fn encode_then_decode_round_trips() {
    let items: Vec<String> = vec!["a'b", "", "c"].into_iter().map(String::from).collect();
    let encoded = encode_list(&items);
    assert_eq!(encoded, "'a''b' '' 'c'");
    assert_eq!(split(&encoded).unwrap(), items);

    let tricky: Vec<String> = vec!["echo 'x'", " ", "''", "end"]
        .into_iter()
        .map(String::from)
        .collect();
    assert_eq!(split(&encode_list(&tricky)).unwrap(), tricky);
}

#[test]
fn unterminated_quote_is_an_error() {
    assert!(split("'abc").is_err());
    assert!(split("'a' 'b").is_err());
    assert!(split("x'").is_err());
}

#[test]
fn noise_between_tokens_is_ignored() {
    assert_eq!(split(" 'a' \n'b' ").unwrap(), vec!["a", "b"]);
}
