//! The protocol engine: path derivation, sentinel handling, the FIFO race,
//! exit-status classification, query decoding, and the init script.

use kamp::argv::get::QuotingMethod;
use kamp::argv::init::KeyValue;
use kamp::check_status;
use kamp::ctx;
use kamp::init;
use kamp::parse_query_output;
use kamp::sentinel_complete;
use kamp::strip_sentinel;
use kamp::version;
use kamp::Context;
use kamp::Error;
use kamp::ExitKind;
use kamp::FifoEvent;
use kamp::QueryType;
use kamp::Race;

#[test]
fn fifo_paths_derive_from_the_session_name() {
    let c = Context::new("/tmp", "myroom", false);
    assert_eq!(c.get_out_path(false), "/tmp/kamp-myroom.out");
    assert_eq!(c.get_out_path(true), "/tmp/kamp-myroom.err");
    // the same name always yields the same paths
    let again = Context::new("/tmp", "myroom", true);
    assert_eq!(again.get_out_path(false), c.get_out_path(false));
    assert_eq!(again.get_out_path(true), c.get_out_path(true));
    // a trailing separator is not doubled
    let slashed = Context::new("/tmp/", "myroom", false);
    assert_eq!(slashed.get_out_path(false), "/tmp/kamp-myroom.out");
}

#[test]
fn context_rebinds_clients_without_mutating_the_session() {
    let mut c = Context::new("/tmp", "s", false);
    assert!(c.is_draft());
    c.set_client("alpha");
    assert_eq!(c.client(), Some("alpha".to_string()));
    assert!(!c.is_draft());
    c.set_client("");
    assert!(c.is_draft());
    assert_eq!(c.session(), "s");
    c.set_client_if_any(Some("beta".to_string()));
    assert_eq!(c.client(), Some("beta".to_string()));
    c.set_client_if_any(None);
    assert_eq!(c.client(), Some("beta".to_string()));
    assert_eq!(ctx(&c), "session: s\nclient: beta\n");
}

#[test]
fn sentinel_marks_a_complete_response() {
    assert!(sentinel_complete("payload<<EEND>>"));
    assert!(sentinel_complete("<<EEND>>"));
    assert!(!sentinel_complete("payload"));
    assert!(!sentinel_complete("<<EEND>>trailing"));
    assert!(!sentinel_complete("<<EEND"));
}

#[test]
fn sentinel_is_stripped_with_repetitions() {
    assert_eq!(strip_sentinel("hello<<EEND>>"), "hello");
    assert_eq!(strip_sentinel("hello<<EEND>><<EEND>>"), "hello");
    assert_eq!(strip_sentinel("plain"), "plain");
    assert_eq!(strip_sentinel("<<EEND>>"), "");
}

#[test]
fn out_channel_first_reports_success() {
    let mut race = Race::new();
    assert!(!race.is_decided());
    race.on_event(FifoEvent::OutReady("payload".to_string()));
    assert!(race.is_decided());
    // a later event on the other channel is discarded
    race.on_event(FifoEvent::ErrReady("late".to_string()));
    assert_eq!(race.outcome(ExitKind::Code(0)), Ok("payload".to_string()));
}

#[test]
fn err_channel_first_reports_the_script_error() {
    let mut race = Race::new();
    race.on_event(FifoEvent::ErrReady("no such command".to_string()));
    race.on_event(FifoEvent::OutReady("late".to_string()));
    assert_eq!(
        race.outcome(ExitKind::Code(0)),
        Err(Error::KakEvalCatch("no such command".to_string()))
    );
}

#[test]
fn nonzero_exit_wins_over_the_race() {
    let mut race = Race::new();
    race.on_event(FifoEvent::OutReady("payload".to_string()));
    assert_eq!(
        race.outcome(ExitKind::Code(3)),
        Err(Error::KakUnexpectedExit(3))
    );
}

#[test]
fn exit_status_classifies() {
    assert_eq!(check_status(ExitKind::Code(0)), Ok(()));
    assert_eq!(check_status(ExitKind::Code(1)), Err(Error::KakUnexpectedExit(1)));
    match check_status(ExitKind::Signal) {
        Err(e) => assert_eq!(e.message(), "kak terminated by signal"),
        other => panic!("expected an error, got {other:?}"),
    }
}

#[test]
fn error_messages_render() {
    assert_eq!(
        Error::InvalidContext("session is required").message(),
        "invalid context: session is required"
    );
    assert_eq!(Error::CommandRequired.message(), "command is required");
    assert_eq!(
        Error::KakUnexpectedExit(-1).message(),
        "kak exited with code: -1"
    );
    assert_eq!(
        Error::KakEvalCatch("boom".to_string()).message(),
        "kak eval error: boom"
    );
}

#[test]
fn verbatim_mode_returns_the_payload_whole() {
    // quote-list-shaped payload, untouched in verbatim mode
    let r = parse_query_output(&QueryType::Plain, true, "'a' 'b'".to_string()).unwrap();
    assert_eq!(r, vec!["'a' 'b'"]);
}

#[test]
fn plain_mode_splits_lines() {
    let r = parse_query_output(&QueryType::Plain, false, "a\nb".to_string()).unwrap();
    assert_eq!(r, vec!["a", "b"]);
    let empty = parse_query_output(&QueryType::Plain, false, "".to_string()).unwrap();
    assert_eq!(empty, vec![""]);
}

#[test]
fn list_mode_lexes_the_payload() {
    let r = parse_query_output(&QueryType::List, false, "'a b' 'c'".to_string()).unwrap();
    assert_eq!(r, vec!["a b", "c"]);
    match parse_query_output(&QueryType::List, false, "'broken".to_string()) {
        Err(Error::Parse(_)) => {}
        other => panic!("expected a parse error, got {other:?}"),
    }
}

#[test]
fn lookup_mode_finds_the_first_matching_key() {
    let r = parse_query_output(
        &QueryType::Lookup("b".to_string()),
        false,
        "'a=1' 'b=2' 'b=3'".to_string(),
    )
    .unwrap();
    assert_eq!(r, vec!["2"]);
    let missing = parse_query_output(
        &QueryType::Lookup("z".to_string()),
        false,
        "'a=1'".to_string(),
    )
    .unwrap();
    assert!(missing.is_empty());
}

#[test]
fn init_splices_exports_and_alias() {
    let kv = KeyValue::from_arg_value("EDITOR=vi").unwrap();
    let script = init(vec![kv], true);
    assert!(script.contains("export EDITOR=\"vi\"\n"));
    assert!(script.contains("define-command -override kamp-connect"));
    assert!(script.contains("mkfifo \"$kamp_out\" \"$kamp_err\""));
    assert!(script.contains("kamp-${kak_session}.out"));
    assert!(script.ends_with("alias global connect kamp-connect\n"));
    let bare = init(vec![], false);
    assert!(!bare.contains("alias global connect"));
    assert!(!bare.contains("export EDITOR"));
}

#[test]
fn key_value_parses_and_trims() {
    let kv = KeyValue::from_arg_value("  KEY  ='quoted value'").unwrap();
    assert_eq!(kv.key, "KEY");
    assert_eq!(kv.value, "quoted value");
    assert!(KeyValue::from_arg_value("no pair here").is_err());
}

#[test]
fn quoting_method_parses_by_name() {
    assert!(matches!(
        QuotingMethod::from_arg_value("raw"),
        Ok(QuotingMethod::Raw)
    ));
    assert!(matches!(
        QuotingMethod::from_arg_value("kakoune"),
        Ok(QuotingMethod::Kakoune)
    ));
    assert!(matches!(
        QuotingMethod::from_arg_value("shell"),
        Ok(QuotingMethod::Shell)
    ));
    match QuotingMethod::from_arg_value("json") {
        Err(m) => assert_eq!(m, "expected one of 'raw', 'kakoune', 'shell'"),
        other => panic!("expected a refusal, got {other:?}"),
    }
}

#[test]
fn list_flow_walks_the_conversation() {
    let ctx = Context::new("/tmp", "sess", false);
    let (mut flow, first) = kamp::list_current(ctx);
    assert!(first.contains("%val<client_list>"));
    assert!(!flow.wants_verbatim());
    let second = flow.step(vec!["cl1".to_string(), "cl2".to_string()]).unwrap();
    assert!(second.contains("%val<bufname>"));
    assert!(second.contains("eval -client cl1"));
    let third = flow.step(vec!["buf1".to_string()]).unwrap();
    assert!(third.contains("eval -client cl2"));
    let fourth = flow.step(vec!["buf2".to_string()]).unwrap();
    assert!(fourth.contains("%sh<pwd>"));
    assert!(flow.wants_verbatim());
    assert!(flow.step(vec!["/work".to_string()]).is_none());
    let session = flow.result().unwrap();
    let text = format!("{session:?}");
    assert!(text.contains("sess") && text.contains("/work") && text.contains("buf2"));
}

#[test]
fn list_flow_without_clients_goes_straight_to_pwd() {
    let ctx = Context::new("/tmp", "sess", false);
    let (mut flow, _first) = kamp::list_current(ctx);
    let next = flow.step(vec![]).unwrap();
    assert!(next.contains("%sh<pwd>"));
    assert!(flow.step(vec!["/work".to_string()]).is_none());
    assert!(flow.result().is_some());
}

#[test]
fn version_names_the_tool() {
    assert_eq!(version(), "kamp 0.1.0\n");
}
