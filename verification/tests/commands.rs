//! The command side: buffer targets, coordinate parsing, dispatch, and the
//! scripts the framer builds for each subcommand.

use kamp::argv;
use kamp::argv::SubCommand;
use kamp::cat;
use kamp::edit;
use kamp::kill;
use kamp::parse;
use kamp::to_buffer_ctx;
use kamp::Context;
use kamp::Error;
use kamp::FileArg;
use kamp::Plan;
use kamp::Post;

fn test_ctx(client: Option<&str>) -> Context {
    let mut ctx = Context::new("/tmp", "sess", false);
    if let Some(c) = client {
        ctx.set_client(c);
    }
    ctx
}

const FRAME_TAIL: &str = "echo -to-file %opt<kamp_out> <<EEND>>\n\u{1f42a} catch %{\necho -debug kamp: %val<error>\necho -to-file %opt<kamp_err> %val<error>\n}";

#[test]
fn test_to_buffer_ctx() {
    assert_eq!(to_buffer_ctx(vec![]), None);
    assert_eq!(to_buffer_ctx(vec!["*".into()]), Some(("'*'".into(), 0)));
    assert_eq!(
        to_buffer_ctx(vec!["*".into(), "a".into()]),
        Some(("'*'".into(), 0))
    );
    assert_eq!(
        to_buffer_ctx(vec!["a".into(), "*".into()]),
        Some(("'a'".into(), 1))
    );
    assert_eq!(
        to_buffer_ctx(vec!["a".into(), "*".into(), "b".into()]),
        Some(("'a,b'".into(), 2))
    );
    assert_eq!(to_buffer_ctx(vec!["a".into()]), Some(("'a'".into(), 1)));
    assert_eq!(
        to_buffer_ctx(vec!["a".into(), "b".into()]),
        Some(("'a,b'".into(), 2))
    );
}

#[test]
fn test_parse_ok() {
    assert_eq!(parse("+1").unwrap(), vec![1]);
    assert_eq!(parse("+1:").unwrap(), vec![1]);
    assert_eq!(parse("+1:1").unwrap(), vec![1, 1]);
}

#[test]
fn test_parse_err() {
    assert!(parse("+").is_err());
    assert!(parse("+:").is_err());
    assert!(parse("+:+").is_err());
    assert!(parse("+:1").is_err());
    assert!(parse("++").is_err());
    assert!(parse("++:").is_err());
    assert!(parse("++:1").is_err());
    assert!(parse("++1:").is_err());
    assert!(parse("++1:1").is_err());
    assert!(parse("+a").is_err());
    assert!(parse("+a:").is_err());
    assert!(parse("+a:1").is_err());
    assert!(parse("+1:a").is_err());
}

#[test]
fn parse_handles_signs_zeros_and_bounds() {
    assert_eq!(parse("+0000000000012").unwrap(), vec![12]);
    assert_eq!(parse("-3:+4").unwrap(), vec![-3, 4]);
    assert_eq!(parse("+2147483647").unwrap(), vec![i32::MAX]);
    assert_eq!(parse("-2147483648").unwrap(), vec![i32::MIN]);
    assert!(parse("+2147483648").is_err());
    assert!(parse("-2147483649").is_err());
    assert!(parse("+99999999999999999999999").is_err());
}

#[test]
fn kill_renders_extreme_exit_codes() {
    let ctx = test_ctx(None);
    assert_eq!(kill(&ctx, Some(i32::MIN)), "kill -2147483648");
    assert_eq!(kill(&ctx, Some(i32::MAX)), "kill 2147483647");
    assert_eq!(kill(&ctx, Some(0)), "kill 0");
}

#[test]
fn parse_error_carries_the_coordinate() {
    match parse("+a:1") {
        Err(Error::InvalidCoordinates(c)) => assert_eq!(c, "+a:1"),
        other => panic!("expected an invalid-coordinates error, got {other:?}"),
    }
}

#[test]
fn send_scopes_to_the_client() {
    let ctx = test_ctx(Some("cl"));
    let script = ctx.send("info", None);
    assert_eq!(
        script,
        format!("try %\u{1f42a}\neval -client cl %\u{1f42b}\ninfo\n\u{1f42b}\n{FRAME_TAIL}")
    );
}

#[test]
fn send_without_scope_keeps_the_body_bare() {
    let ctx = test_ctx(None);
    let script = ctx.send("info", None);
    assert_eq!(script, format!("try %\u{1f42a}\ninfo\n{FRAME_TAIL}"));
}

#[test]
fn buffer_target_wins_over_the_client() {
    let ctx = test_ctx(Some("cl"));
    let script = ctx.send("info", Some(("'a'".to_string(), 1)));
    assert_eq!(
        script,
        format!("try %\u{1f42a}\neval -buffer 'a' %\u{1f42b}\ninfo\n\u{1f42b}\n{FRAME_TAIL}")
    );
}

#[test]
fn broadcast_target_keeps_the_sentinel_outside_the_block() {
    let ctx = test_ctx(None);
    let script = ctx.send("info", Some(("'*'".to_string(), 0)));
    assert_eq!(
        script,
        format!(
            "try %\u{1f42a}\neval -buffer '*' %\u{1f42b}\ninfo\n\
             echo -end-of-line -to-file %opt<kamp_out>\n\u{1f42b}\n{FRAME_TAIL}"
        )
    );
    // the sentinel echo stands after the block's closing delimiter
    let close = script.rfind('\u{1f42b}').unwrap();
    let sentinel = script.find("echo -to-file %opt<kamp_out> <<EEND>>").unwrap();
    assert!(sentinel > close);
}

#[test]
fn connect_with_empty_body_is_just_the_sentinel() {
    let ctx = test_ctx(None);
    assert_eq!(ctx.connect(""), "echo -to-file %opt<kamp_out> <<EEND>>");
}

#[test]
fn connect_catch_branch_quits() {
    let ctx = test_ctx(None);
    let script = ctx.connect("buffer 'b'");
    assert_eq!(
        script,
        "try %\u{1f42a}\nbuffer 'b'\necho -to-file %opt<kamp_out> <<EEND>>\n\u{1f42a} catch %{\n\
         echo -debug kamp: %val<error>\necho -to-file %opt<kamp_err> %val<error>\nquit\n}"
    );
}

#[test]
fn kill_script_carries_the_exit_status() {
    let ctx = test_ctx(None);
    assert_eq!(kill(&ctx, None), "kill");
    assert_eq!(kill(&ctx, Some(7)), "kill 7");
    assert_eq!(kill(&ctx, Some(-2)), "kill -2");
}

#[test]
fn cat_needs_a_client_or_a_buffer() {
    let ctx = test_ctx(None);
    match cat(&ctx, None) {
        Err(Error::InvalidContext(m)) => assert_eq!(m, "either client or buffer is required"),
        other => panic!("expected an invalid-context error, got {other:?}"),
    }
    assert!(cat(&test_ctx(Some("cl")), None).is_ok());
    assert!(cat(&ctx, Some(("'a'".to_string(), 1))).is_ok());
}

#[test]
fn dispatch_send_requires_a_command() {
    let ctx = test_ctx(None);
    let cmd = SubCommand::Send(argv::send::Options {
        verbatim: false,
        buffers: vec![],
        command: vec![],
    });
    match ctx.dispatch(cmd) {
        Err(Error::CommandRequired) => {}
        other => panic!("expected the command-required error, got {other:?}"),
    }
}

#[test]
fn dispatch_send_escapes_arguments() {
    let ctx = test_ctx(None);
    let cmd = SubCommand::Send(argv::send::Options {
        verbatim: false,
        buffers: vec![],
        command: vec!["echo".to_string(), "a b".to_string(), "".to_string()],
    });
    match ctx.dispatch(cmd) {
        Ok(Plan::Pipe { script, post: Post::Discard }) => {
            assert_eq!(
                script,
                format!("try %\u{1f42a}\necho 'a b' ''\n{FRAME_TAIL}")
            );
        }
        other => panic!("expected a piped plan, got {other:?}"),
    }
}

#[test]
fn dispatch_get_builds_a_query() {
    let ctx = test_ctx(None);
    let cmd = SubCommand::Get(argv::get::Options {
        buffers: vec![],
        zplit: false,
        subcommand: argv::get::SubCommand::Value(argv::get::value::Options {
            quoting: argv::get::QuotingMethod::Kakoune,
            list: true,
            map_key: None,
            verbatim: false,
            name: "buflist".to_string(),
        }),
    });
    match ctx.dispatch(cmd) {
        Ok(Plan::Pipe { script, post: Post::Query { verbatim, zplit, .. } }) => {
            assert_eq!(
                script,
                format!(
                    "try %\u{1f42a}\necho -quoting kakoune -to-file %opt<kamp_out> %val<buflist>\n{FRAME_TAIL}"
                )
            );
            assert!(!verbatim);
            assert!(!zplit);
        }
        other => panic!("expected a query plan, got {other:?}"),
    }
}

#[test]
fn dispatch_ctx_requires_a_client_when_asked() {
    let ctx = test_ctx(None);
    let refused = ctx.dispatch(SubCommand::Ctx(argv::ctx::Options { client: true }));
    assert!(matches!(refused, Err(Error::InvalidContext(_))));
    let printed = test_ctx(Some("cl")).dispatch(SubCommand::Ctx(argv::ctx::Options {
        client: true,
    }));
    match printed {
        Ok(Plan::Output(s)) => assert_eq!(s, "session: sess\nclient: cl\n"),
        other => panic!("expected printed context, got {other:?}"),
    }
}

#[test]
fn edit_opens_files_with_coordinates() {
    let ctx = test_ctx(Some("cl"));
    let files = vec![
        FileArg {
            given: "foo.txt".to_string(),
            is_file: true,
            resolved: Some("/work/foo.txt".to_string()),
        },
        FileArg {
            given: "+1:2".to_string(),
            is_file: false,
            resolved: None,
        },
    ];
    match edit(&ctx, false, false, files) {
        Ok((Plan::Pipe { script, post: Post::Discard }, scratch)) => {
            assert!(!scratch);
            assert_eq!(
                script,
                format!(
                    "try %\u{1f42a}\neval -client cl %\u{1f42b}\n\
                     edit -existing /work/foo.txt 1 2\n\u{1f42b}\n{FRAME_TAIL}"
                )
            );
        }
        other => panic!("expected a piped edit, got {other:?}"),
    }
}

#[test]
fn edit_without_files_opens_a_scratch_buffer() {
    let ctx = test_ctx(None);
    match edit(&ctx, false, false, vec![]) {
        Ok((Plan::Connect { script }, scratch)) => {
            assert!(scratch);
            assert!(script.contains("edit -scratch"));
        }
        other => panic!("expected a connect plan, got {other:?}"),
    }
}

#[test]
fn edit_rejects_a_second_coordinate() {
    let ctx = test_ctx(None);
    let coord = |s: &str| FileArg {
        given: s.to_string(),
        is_file: false,
        resolved: None,
    };
    match edit(&ctx, false, false, vec![coord("+1"), coord("+2")]) {
        Err(Error::UnexpectedCoordPosition(c)) => assert_eq!(c, "+2"),
        other => panic!("expected the coordinate-position error, got {other:?}"),
    }
}

#[test]
fn edit_escapes_spaces_in_paths() {
    let ctx = test_ctx(None);
    let files = vec![FileArg {
        given: "a b.txt".to_string(),
        is_file: true,
        resolved: Some("/w d/a b.txt".to_string()),
    }];
    match edit(&ctx, true, false, files) {
        Ok((Plan::Connect { script }, _)) => {
            assert!(script.contains("edit -existing /w\\ d/a\\ b.txt"));
        }
        other => panic!("expected a connect plan, got {other:?}"),
    }
}
