use tcl_runtime::calls::{proc_usage, proc_usage_words, Param};
use tcl_runtime::code::Code;
use tcl_runtime::errors::{MethodFrameWhat, ProcFrame};
use tcl_runtime::frames::{CmdFrame, FrameKind, Location};
use tcl_runtime::lines::{count_newlines, line_of, scan_list_offsets, ListElement};
use tcl_runtime::order::{insert_word, rank, sorted_words, Rank};
use tcl_runtime::state::Interp;
use tcl_runtime::words::{error_code_list, invoked_word, join_words, normalize_colons};

fn b(s: &str) -> Vec<u8> {
    s.as_bytes().to_vec()
}

fn words(ws: &[&str]) -> Vec<Vec<u8>> {
    ws.iter().map(|w| b(w)).collect()
}

#[test]
fn errors_carry_their_code() {
    let mut i = Interp::new();
    assert_eq!(i.error(b"boom"), Code::Error);
    assert_eq!(i.result_bytes(), b"boom");
    assert_eq!(i.error_code(), b"NONE");
    assert_eq!(i.error_info(), b"boom");
    i.error(b"wrong # args: should be \"p\"");
    assert_eq!(i.error_code(), b"TCL WRONGARGS");
    i.error_with_code(b"m", b"A B");
    assert_eq!(i.error_code(), b"A B");
}

#[test]
fn the_trace_grows_as_the_error_unwinds() {
    let mut i = Interp::new();
    i.error(b"boom");
    assert_eq!(
        i.log_command_bytes(3, b"inner", 0, 0),
        Some(b("boom\n    while executing\n\"inner\""))
    );
    // The command is logged once.
    assert_eq!(i.log_command_bytes(3, b"inner", 0, 0), None);
    assert_eq!(i.state.error_line, 3);
    i.make_proc_error(&ProcFrame::Proc(b("p")));
    assert_eq!(
        i.log_command_bytes(1, b"p", 0, 0),
        Some(b(
            "boom\n    while executing\n\"inner\"\n    (procedure \"p\" line 3)\n    invoked from within\n\"p\""
        ))
    );
    let (info, code) = i.publish_error();
    assert!(info.ends_with(b"\"p\""));
    assert_eq!(code, b"NONE");
    // The error stands until it is written.
    assert_eq!(i.state.exc.info, Some(info));
    assert!(!i.state.reset_error_stack);
    i.set_during(b("-code 1"));
    i.end_error();
    assert_eq!(i.state.exc.info, None);
    assert_eq!(i.state.during, None);
    assert!(i.state.reset_error_stack);
}

#[test]
fn frames_name_what_failed() {
    let mut i = Interp::new();
    i.error(b"e");
    i.make_proc_error(&ProcFrame::Lambda(b("{} {error e}")));
    assert_eq!(i.error_info(), b"e\n    (lambda term \"{} {error e}\" line 1)");
    let mut i = Interp::new();
    i.error(b"e");
    i.make_proc_error(&ProcFrame::Method {
        kind: b("class"),
        owner: b("::C"),
        what: MethodFrameWhat::Constructor,
    });
    assert_eq!(i.error_info(), b"e\n    (class \"::C\" constructor line 1)");
    let mut i = Interp::new();
    i.error(b"e");
    i.append_frame_noline(b"note");
    assert_eq!(i.error_info(), b"e\n    (note)");
    let mut i = Interp::new();
    i.error(b"e");
    i.append_body_frame(b"eval");
    assert_eq!(i.error_info(), b"e\n    (\"eval\" body line 1)");
}

#[test]
fn an_error_survives_what_runs_in_between() {
    let mut i = Interp::new();
    i.raise_with_info(b"m", b"INFO", b"CODE");
    let whole = i.error_snapshot();
    let part = i.snapshot_error();
    i.error(b"other");
    i.error_restore(whole);
    assert_eq!(i.result_bytes(), b"m");
    assert_eq!(i.error_info(), b"INFO");
    assert_eq!(i.error_code(), b"CODE");
    i.error(b"other");
    i.restore_error(part);
    assert_eq!(i.result_bytes(), b"other");
    assert_eq!(i.error_info(), b"INFO");
}

#[test]
fn the_error_stack_is_rebuilt_for_each_error() {
    let mut i = Interp::new();
    i.error(b"boom");
    i.log_command_bytes(1, b"inner", 1, 1);
    assert_eq!(i.state.error_stack, words(&["INNER", "inner"]));
    i.error_stack_push_call(b"p 1");
    assert_eq!(i.state.error_stack, words(&["INNER", "inner", "CALL", "p 1"]));
    i.mark_error_stack_reset();
    i.error(b"again");
    i.log_command_bytes(1, b"second", 1, 1);
    assert_eq!(i.state.error_stack, words(&["INNER", "second"]));
}

#[test]
fn usage_messages() {
    let params = vec![
        Param { name: b("a"), default: None },
        Param { name: b("b"), default: Some(b("1")) },
        Param { name: b("args"), default: None },
    ];
    assert_eq!(
        proc_usage(b"p q", b"{p q}", &params, true),
        b"wrong # args: should be \"{p q} a ?b? ?arg ...?\""
    );
    assert_eq!(
        proc_usage(b"p q", b"{p q}", &params, false),
        b"wrong # args: should be \"p q a ?b? ?arg ...?\""
    );
    assert_eq!(
        proc_usage_words(&words(&["obj", "method"]), &params, 1),
        b"wrong # args: should be \"obj method ?b? ?arg ...?\""
    );
}

#[test]
fn words_and_names() {
    assert_eq!(join_words(&words(&["a", "", "b c"])), b"a  b c");
    assert_eq!(join_words(&[]), b"");
    assert_eq!(error_code_list(&words(&["TCL", "LOOKUP", "{a b}"])), b"TCL LOOKUP {a b}");
    assert_eq!(invoked_word(&words(&["cmd", "x"])), b"cmd");
    assert_eq!(invoked_word(&[]), b"");
    assert_eq!(normalize_colons(b":::a:::::b:c"), b"::a::b:c");
    assert_eq!(normalize_colons(b"::"), b"::");
}

#[test]
fn lines_are_counted() {
    assert_eq!(count_newlines(b"a\n\nb\n"), 3);
    assert_eq!(line_of(b"a\nb\nc", 0), 1);
    assert_eq!(line_of(b"a\nb\nc", 4), 3);
    let elements = Some(vec![
        ListElement { start: 0, literal: true },
        ListElement { start: 4, literal: false },
    ]);
    let offsets = scan_list_offsets(b"a\n\n b", &elements).unwrap();
    assert_eq!(offsets[0].newlines, 0);
    assert_eq!(offsets[1].newlines, 2);
    assert!(offsets[0].literal && !offsets[1].literal);
    assert!(scan_list_offsets(b"{", &None).is_none());
    assert!(scan_list_offsets(b"a\n\n \xff", &elements).is_none());
}

#[test]
fn words_are_ordered_by_their_bytes() {
    assert_eq!(rank(b"a", b"b"), Rank::Before);
    assert_eq!(rank(b"a", b"a"), Rank::Same);
    assert_eq!(rank(b"ab", b"a"), Rank::After);
    assert_eq!(sorted_words(&words(&["b", "a", "b", "", "ab"])), words(&["", "a", "ab", "b"]));
    let mut ws = words(&["a", "c"]);
    insert_word(&mut ws, b"b");
    insert_word(&mut ws, b"b");
    assert_eq!(ws, words(&["a", "b", "c"]));
}

#[test]
fn frames_report_their_place() {
    let mut top = CmdFrame::root();
    top.kind = FrameKind::Source;
    top.file = Some(b("f.tcl"));
    top.line = 9;
    top.level = 2;
    let stack = vec![top];
    let inner = CmdFrame::inherited_cmd_frame(&stack);
    assert_eq!(inner.kind, FrameKind::Source);
    assert_eq!(inner.line_base, 8);
    assert_eq!(inner.level, 2);
    let dynamic = CmdFrame::unlocated_frame(&stack);
    assert_eq!(dynamic.kind, FrameKind::Eval);
    assert_eq!(dynamic.file, None);
    assert_eq!(dynamic.line_base, 0);
    let ns = CmdFrame::namespace_body_frame(
        &Some(Location { file: Some(b("n.tcl")), line: 3 }),
        1,
        4,
    );
    assert_eq!((ns.line_base, ns.level, ns.frame_index), (2, 1, 4));
    assert_eq!(ns.proc_name, None);
    assert_eq!(FrameKind::Proc.as_bytes(), b"proc");
}
