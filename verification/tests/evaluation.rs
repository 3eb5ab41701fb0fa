use tcl_runtime::argv::{ParsedWord, WordOutcome, WordsRun, WordsStep};
use tcl_runtime::bodies::{BodyPlan, ScriptRun};
use tcl_runtime::calls::{CallMeta, Param, VarLink};
use tcl_runtime::code::Code;
use tcl_runtime::coro::{CoroContext, Coroutine};
use tcl_runtime::errors::ProcFrame;
use tcl_runtime::eval::ArgBuilder;
use tcl_runtime::frames::{CmdFrame, FrameKind, Location};
use tcl_runtime::lines::ElementOffset;
use tcl_runtime::native::{may_run_native, NativeOutcome};
use tcl_runtime::state::{Interp, NATIVE_EVAL_DEPTH_LIMIT};
use tcl_runtime::subst::{Answer, Ask, Substitution, VarRead, WordBody, WordPart};
use tcl_runtime::traces::{read_miss_msg, StepActive};

fn begun(r: Result<ScriptRun, Code>) -> ScriptRun {
    match r {
        Ok(run) => run,
        Err(c) => panic!("refused with {:?}", c),
    }
}

/// Nests `levels` bodies, each in a frame of its own, and unwinds again.
fn nest(i: &mut Interp, levels: usize) -> Code {
    if levels == 0 {
        i.set_result_bytes(b"1");
        return Code::Okay;
    }
    match i.begin_script_run(Some(CmdFrame::root()), false, 1) {
        Err(c) => c,
        Ok(mut run) => {
            let code = nest(i, levels - 1);
            run.ended(code);
            i.end_script_run(run)
        }
    }
}

#[test]
fn deeply_nested_foreach_errors_instead_of_crashing() {
    let mut i = Interp::new();
    assert_eq!(nest(&mut i, 300), Code::Error);
    assert_eq!(i.result_bytes(), b"too many nested evaluations (infinite loop?)");
    assert_eq!(i.state.eval_depth, 0);
    assert!(i.state.cmd_frames.is_empty());
}

#[test]
fn moderately_nested_foreach_still_runs() {
    let mut i = Interp::new();
    assert_eq!(nest(&mut i, 50), Code::Okay);
    assert_eq!(i.result_bytes(), b"1");
    assert_eq!(nest(&mut i, NATIVE_EVAL_DEPTH_LIMIT as usize), Code::Okay);
    assert_eq!(nest(&mut i, NATIVE_EVAL_DEPTH_LIMIT as usize + 1), Code::Error);
}

fn plain_call(name: &str) -> CallMeta {
    CallMeta {
        err: ProcFrame::Proc(name.as_bytes().to_vec()),
        fqn: Some(format!("::{}", name).into_bytes()),
        source: None,
        body_line_base: 0,
        link_vars: vec![],
        same_level: false,
        keep_loop_codes: false,
        usage_prefix: None,
        level_words: None,
        quote_name: true,
        native: None,
    }
}

fn recurse(i: &mut Interp, depth: usize) -> Code {
    assert!(depth < 2000);
    let meta = plain_call("r");
    let call = match i.begin_call(&[], 0, &[], b"r", b"r", &meta) {
        Err(c) => return c,
        Ok(call) => call,
    };
    let code = match i.begin_script_run(Some(CmdFrame::root()), false, 1) {
        Err(c) => c,
        Ok(mut run) => {
            let code = recurse(i, depth + 1);
            run.ended(code);
            i.end_script_run(run)
        }
    };
    assert!(i.leave_body(depth + 1, &[], call.saved_ns).is_empty());
    i.end_call(code, &meta.err, false, &Some(b"r".to_vec()))
}

#[test]
fn unbounded_proc_recursion_errors_instead_of_crashing() {
    let mut i = Interp::new();
    assert_eq!(recurse(&mut i, 0), Code::Error);
    assert_eq!(i.result_bytes(), b"too many nested evaluations (infinite loop?)");
    assert_eq!(i.state.recursion_depth, 0);
    assert_eq!(i.state.eval_depth, 0);
}

#[test]
fn the_recursion_limit_counts_calls() {
    let mut i = Interp::new();
    assert_eq!(i.recursion_limit_apply(&Some(b"2".to_vec())), Ok(2));
    let meta = plain_call("p");
    assert!(i.begin_call(&[], 0, &[], b"p", b"p", &meta).is_ok());
    assert!(i.begin_call(&[], 0, &[], b"p", b"p", &meta).is_ok());
    assert_eq!(i.begin_call(&[], 0, &[], b"p", b"p", &meta).err(), Some(Code::Error));
    assert_eq!(i.result_bytes(), b"too many nested evaluations (infinite loop?)");
    assert_eq!(i.state.recursion_depth, 2);
}

#[test]
fn calls_bind_their_parameters() {
    let mut i = Interp::new();
    let params = vec![
        Param { name: b"a".to_vec(), default: None },
        Param { name: b"b".to_vec(), default: Some(b"7".to_vec()) },
        Param { name: b"args".to_vec(), default: None },
    ];
    let meta = plain_call("p");
    let call = i.begin_call(&params, 3, &[b"1".to_vec()], b"p", b"p", &meta).ok().unwrap();
    assert_eq!(i.state.current_ns, 3);
    assert_eq!(call.saved_ns, 0);
    let bound: Vec<(Vec<u8>, Vec<u8>)> =
        call.bindings.iter().map(|b| (b.name.clone(), b.value.clone())).collect();
    assert_eq!(
        bound,
        vec![(b"a".to_vec(), b"1".to_vec()), (b"b".to_vec(), b"7".to_vec())]
    );
    assert_eq!(call.rest, Some(vec![]));
    assert_eq!(call.words, vec![b"p".to_vec(), b"1".to_vec()]);

    let mut j = Interp::new();
    assert_eq!(j.begin_call(&params, 0, &[], b"p", b"p", &meta).err(), Some(Code::Error));
    assert_eq!(j.result_bytes(), b"wrong # args: should be \"p a ?b? ?arg ...?\"");
    assert_eq!(j.error_code(), b"TCL WRONGARGS");
}

#[test]
fn loop_codes_do_not_escape_a_procedure() {
    let meta = plain_call("p");
    for (code, message) in [
        (Code::Break, "invoked \"break\" outside of a loop"),
        (Code::Continue, "invoked \"continue\" outside of a loop"),
    ] {
        let mut i = Interp::new();
        assert!(i.begin_call(&[], 0, &[], b"p", b"p", &meta).is_ok());
        assert_eq!(i.end_call(code, &meta.err, false, &None), Code::Error);
        assert_eq!(i.result_bytes(), message.as_bytes());
    }
    let mut i = Interp::new();
    assert!(i.begin_call(&[], 0, &[], b"p", b"p", &meta).is_ok());
    assert_eq!(i.end_call(Code::Break, &meta.err, true, &None), Code::Break);
    // `return -code break` propagates the code unchanged.
    let mut i = Interp::new();
    assert!(i.begin_call(&[], 0, &[], b"p", b"p", &meta).is_ok());
    i.set_return_state(1, Code::Break);
    assert_eq!(i.end_call(Code::Return, &meta.err, false, &None), Code::Break);
}

#[test]
fn return_sets_code() {
    let mut i = Interp::new();
    let mut run = begun(i.eval_str(1));
    assert_eq!(run.next(), Some(0));
    i.set_result_bytes(b"done");
    run.ended(Code::Return);
    assert_eq!(run.next(), None);
    assert_eq!(i.end_script_run(run), Code::Return);
    assert_eq!(i.result_bytes(), b"done");
}

#[test]
fn multi_command_script() {
    let mut i = Interp::new();
    let mut run = begun(i.eval_str(3));
    for (at, value) in [b"1".as_slice(), b"2", b"12"].iter().enumerate() {
        assert_eq!(run.next(), Some(at));
        i.set_result_bytes(value);
        run.ended(Code::Okay);
    }
    assert_eq!(run.next(), None);
    assert_eq!(i.end_script_run(run), Code::Okay);
    assert_eq!(i.result_bytes(), b"12");
}

#[test]
fn a_script_without_commands_has_an_empty_result() {
    let mut i = Interp::new();
    i.set_result_bytes(b"stale");
    let run = begun(i.eval_str(0));
    assert_eq!(run.next(), None);
    assert_eq!(i.end_script_run(run), Code::Okay);
    assert_eq!(i.result_bytes(), b"");
}

#[test]
fn a_nested_script_shares_the_frame() {
    let mut i = Interp::new();
    let outer = begun(i.eval_str(1));
    assert!(outer.scope.pushed && outer.scope.owns_frame);
    assert_eq!(i.state.cmd_frames.len(), 1);
    let inner = begun(i.eval_str(1));
    assert!(!inner.scope.pushed && !inner.scope.owns_frame);
    assert_eq!(i.state.cmd_frames.len(), 1);
    i.end_script_run(inner);
    i.end_script_run(outer);
    assert!(i.state.cmd_frames.is_empty());
}

/// Runs one sourced file whose only command leaves `code` and `result`.
fn source(i: &mut Interp, name: &[u8], code: Code, result: &[u8]) -> Code {
    let mut run = begun(i.eval_sourced(name, 1));
    assert_eq!(i.current_script(), name);
    assert_eq!(i.current_source_file(), Some(name.to_vec()));
    i.set_result_bytes(result);
    run.ended(code);
    i.end_sourced(run)
}

#[test]
fn sourced_completion_settles_return_before_snapshot_and_publication() {
    let mut i = Interp::new();
    i.set_return_state(1, Code::Okay);
    assert_eq!(source(&mut i, b"ordinary.tcl", Code::Return, b"VALUE"), Code::Okay);
    assert_eq!(i.result_bytes(), b"VALUE");
    assert_eq!(i.state.return_level, 0);

    i.set_return_state(1, Code::Other(37));
    assert_eq!(source(&mut i, b"other-code.tcl", Code::Return, b"VALUE"), Code::Other(37));
    assert_eq!(i.result_bytes(), b"VALUE");

    i.set_return_state(1, Code::Error);
    i.process_return_error(&Some(b"SOURCE INFO".to_vec()), &Some(b"SOURCE CODE".to_vec()), None);
    assert_eq!(source(&mut i, b"error-code.tcl", Code::Return, b"FAILURE"), Code::Error);
    assert_eq!(i.result_bytes(), b"FAILURE");
    assert_eq!(i.error_code(), b"SOURCE CODE");
    assert_eq!(i.error_info(), b"SOURCE INFO");
    let tail = i.finish_outermost_eval(Code::Error);
    assert_eq!(tail.published, Some((b"SOURCE INFO".to_vec(), b"SOURCE CODE".to_vec())));
    assert_eq!(i.current_script(), b"");
    assert_eq!(i.current_source_file(), None);
}

#[test]
fn only_the_outermost_evaluation_publishes() {
    let mut i = Interp::new();
    assert!(i.codegen_activation_enter());
    assert!(i.codegen_activation_enter());
    i.error(b"boom");
    i.report_bg_error(b"late", b"-code 1");
    let inner = i.codegen_activation_leave(Code::Error);
    assert_eq!(inner.published, None);
    assert!(!i.end_outermost_eval(&inner));
    assert_eq!(i.error_info(), b"boom");
    let outer = i.codegen_activation_leave(Code::Error);
    assert_eq!(outer.published, Some((b"boom".to_vec(), b"NONE".to_vec())));
    assert!(i.end_outermost_eval(&outer));
    assert_eq!(i.state.exc.info, None);
}

#[test]
fn what_a_callback_does_during_publication_counts() {
    let mut i = Interp::new();
    i.error(b"boom");
    let tail = i.finish_outermost_eval(Code::Error);
    // A callback of the published variables sees the error, fails, and queues
    // another one.
    assert_eq!(i.error_info(), b"boom");
    i.error(b"callback");
    i.set_during(b"-code 1".to_vec());
    i.report_bg_error(b"late", b"-code 1");
    assert!(i.end_outermost_eval(&tail));
    assert_eq!(i.state.exc.info, None);
    assert_eq!(i.state.during, None);
    let quiet = i.finish_outermost_eval(Code::Okay);
    assert_eq!(quiet.published, None);
    assert!(i.end_outermost_eval(&quiet));
}

#[test]
fn a_method_of_a_chain_runs_at_the_level_of_its_caller() {
    let mut i = Interp::new();
    let mut meta = plain_call("m");
    let call = i.begin_call(&[], 0, &[], b"m", b"m", &meta).unwrap_or_else(|_| panic!());
    assert!(!call.same_level && call.links.is_empty());
    meta.same_level = true;
    meta.link_vars = vec![
        VarLink { local: b"v".to_vec(), target: b"v".to_vec() },
        VarLink { local: b"w".to_vec(), target: b"1 : w".to_vec() },
    ];
    let call = i.begin_call(&[], 0, &[], b"m", b"m", &meta).unwrap_or_else(|_| panic!());
    assert!(call.same_level);
    assert_eq!(call.links.len(), 2);
    assert_eq!(call.links[0].local, b"v");
    assert_eq!(call.links[1].local, b"w");
    assert_eq!(call.links[1].target, b"1 : w");
}

#[test]
fn direct_dispatch_resets_the_prior_result_at_the_central_boundary() {
    let mut i = Interp::new();
    i.set_result_bytes(b"prior");
    assert!(!i.begin_dispatch());
    assert_eq!(i.result_bytes(), b"");
    assert_eq!(i.state.cmd_count, 1);
}

#[test]
fn a_body_runs_as_planned() {
    let mut i = Interp::new();
    let mut outer = CmdFrame::root();
    outer.line_base = 4;
    outer.line = 6;
    outer.cmd = b"if 1 body".to_vec();
    i.state.cmd_frames.push(outer);
    let shared = i.begin_body(BodyPlan::Shared { line_base: 9 }, 1);
    assert!(begun(shared.begun).scope.owns_frame);
    assert_eq!(i.state.cmd_frames.len(), 1);
    i.begin_command(b"\nzap", 1, 4, true);
    assert_eq!(i.state.cmd_frames[0].line, 11);
    i.end_shared(shared.saved);
    assert_eq!(i.state.cmd_frames[0].line_base, 4);
    assert_eq!(i.state.cmd_frames[0].line, 6);
    assert_eq!(i.state.cmd_frames[0].cmd, b"if 1 body");
    let inline = i.begin_body(BodyPlan::Inline, 1);
    assert!(inline.saved.is_none());
    assert!(!begun(inline.begun).scope.owns_frame);
    let mut own = CmdFrame::root();
    own.line_base = 20;
    let framed = i.begin_body(BodyPlan::Framed(own), 0);
    assert!(framed.saved.is_none());
    assert!(begun(framed.begun).scope.pushed);
    assert_eq!(i.state.cmd_frames[1].proc_line_base, 20);
    let mut i = Interp::new();
    let nowhere = i.begin_body(BodyPlan::Shared { line_base: 9 }, 1);
    assert!(nowhere.saved.is_none());
    assert!(!begun(nowhere.begun).scope.owns_frame);
}

#[test]
fn a_substitution_reports_the_lines_around_it() {
    let mut i = Interp::new();
    i.state.cmd_frames.push(CmdFrame::root());
    let src = b"set a\nset [b]";
    i.begin_command(src, 6, 13, true);
    assert!(i.begin_command_subst(src, 14).is_none());
    let saved = i.begin_command_subst(src, 11);
    assert!(saved.is_some());
    assert_eq!(i.state.cmd_frames[0].line_base, 1);
    assert_eq!(i.state.cmd_frames[0].cmd, b"");
    i.end_shared(saved);
    assert_eq!(i.state.cmd_frames[0].line_base, 0);
    assert_eq!(i.state.cmd_frames[0].cmd, b"set [b]");
    i.end_shared(None);
    assert_eq!(i.state.cmd_frames[0].line, 2);
}

fn word(start: usize, literal: bool, expand: bool) -> ParsedWord {
    ParsedWord { start, literal, expand }
}

/// Carries out the steps of a command: a word's value is its number, and its
/// list has the elements given for it. Gives the arguments.
fn carry_out(words: Vec<ParsedWord>, src: &[u8], lists: &[(u64, Vec<u64>)]) -> Vec<u64> {
    let mut i = Interp::new();
    let mut run: WordsRun = i.eval_words(&None, words).ok().unwrap();
    loop {
        let outcome = match run.step() {
            WordsStep::Substitute(n) => WordOutcome::Value(lists[n].0),
            WordsStep::Expand(n) => {
                WordOutcome::Elements { values: Ok(lists[n].1.clone()), offsets: None }
            }
            WordsStep::Dispatch | WordsStep::Done => return run.args.values,
        };
        assert_eq!(i.word_done(&mut run, src, &outcome), None);
    }
}

#[test]
fn expand_marker_splits_arguments() {
    let src = b"record {*}$lst tail";
    let lists = [(10, vec![10]), (7, vec![1, 2, 3]), (4, vec![4])];
    let marked = vec![word(0, true, false), word(7, false, true), word(15, true, false)];
    assert_eq!(carry_out(marked, src, &lists), vec![10, 1, 2, 3, 4]);
    let plain = vec![word(0, true, false), word(7, false, false), word(15, true, false)];
    assert_eq!(carry_out(plain, src, &lists), vec![10, 7, 4]);
    let nothing = [(10, vec![]), (7, vec![]), (4, vec![])];
    let marked = vec![word(0, true, true), word(7, false, true), word(15, true, true)];
    assert!(carry_out(marked, src, &nothing).is_empty());
}

#[test]
fn expand_split_error_names_the_right_failure() {
    let mut i = Interp::new();
    let words = vec![word(0, true, false), word(5, false, true)];
    let mut run = i.eval_words(&None, words).ok().unwrap();
    assert_eq!(run.step(), WordsStep::Substitute(0));
    assert_eq!(i.word_done(&mut run, b"list {*}$s", &WordOutcome::Value(1)), None);
    assert_eq!(run.step(), WordsStep::Expand(1));
    let bad = WordOutcome::Elements {
        values: Err(b"unmatched open quote in list".to_vec()),
        offsets: None,
    };
    assert_eq!(i.word_done(&mut run, b"list {*}$s", &bad), Some(Code::Error));
    assert_eq!(i.result_bytes(), b"unmatched open quote in list");
}

#[test]
fn a_command_that_cannot_be_parsed_runs_nothing() {
    let mut i = Interp::new();
    let r = i.eval_words(&Some(b"extra characters after close-brace".to_vec()), vec![]);
    assert_eq!(r.err(), Some(Code::Error));
    assert_eq!(i.result_bytes(), b"extra characters after close-brace");
    let run = i.eval_words(&None, vec![]).ok().unwrap();
    assert_eq!(run.step(), WordsStep::Done);
}

#[test]
fn literal_arguments_are_located() {
    let mut i = Interp::new();
    let mut frame = CmdFrame::root();
    frame.file = Some(b"f.tcl".to_vec());
    frame.line = 5;
    i.state.cmd_frames.push(frame);
    let src = b"if 1 {\n a\n} \\\n{*}{b\nc}";
    let words = vec![
        word(0, true, false),
        word(3, true, false),
        word(5, true, false),
        word(14, true, true),
    ];
    let mut run = i.eval_words(&None, words).ok().unwrap();
    for v in [1, 2, 3] {
        assert_eq!(i.word_done(&mut run, src, &WordOutcome::Value(v)), None);
    }
    let elements = WordOutcome::Elements {
        values: Ok(vec![4, 5]),
        offsets: Some(vec![
            ElementOffset { newlines: 0, literal: true },
            ElementOffset { newlines: 1, literal: false },
        ]),
    };
    assert_eq!(i.word_done(&mut run, src, &elements), None);
    assert_eq!(run.args.lines, vec![5, 5, 5, 8, 9]);
    let pushed = i.begin_arguments(&run.args);
    assert_eq!(pushed, 4);
    assert_eq!(i.arg_loc(4).map(|l| l.line), Some(8));
    assert!(i.arg_loc(5).is_none());
    assert_eq!(i.arg_line(3), 8);
    assert_eq!(i.arg_line(99), 5);
    i.end_arguments(pushed);
    assert!(i.arg_loc(4).is_none());
    assert!(i.state.arg_locs.is_empty());
}

#[test]
fn arguments_outside_a_file_have_no_location() {
    let mut i = Interp::new();
    let mut b = ArgBuilder::begin(&i, 0);
    b.push_word(1, 0, true);
    assert_eq!(i.begin_arguments(&b), 0);
}

fn literal(s: &str) -> WordPart {
    WordPart::Text(s.as_bytes().to_vec())
}

fn variable(name: &str, index: Option<Vec<WordPart>>) -> WordPart {
    WordPart::Variable { name: name.as_bytes().to_vec(), index }
}

fn script(s: &str) -> WordPart {
    WordPart::Command(s.as_bytes().to_vec())
}

fn ran(code: Code, result: &str) -> Answer {
    Answer::Ran { code, result: result.as_bytes().to_vec() }
}

fn value(v: &str) -> Answer {
    Answer::Read(VarRead::Value(v.as_bytes().to_vec()))
}

fn done(s: Substitution) -> Vec<u8> {
    match s {
        Substitution::Done { bytes, .. } => bytes,
        other => panic!("{:?}", other),
    }
}

fn failed(s: Substitution) -> Code {
    match s {
        Substitution::Failed(c) => c,
        other => panic!("{:?}", other),
    }
}

#[test]
fn undefined_variable_is_an_error() {
    let mut i = Interp::new();
    let body = WordBody::Parts(vec![variable("nope", None)]);
    let missing = VarRead::Missing { is_array: false, exists_there: false };
    let answers = vec![Answer::Traced(None), Answer::Read(missing)];
    assert_eq!(failed(i.substitute_word(&body, &answers)), Code::Error);
    assert_eq!(i.result_bytes(), b"can't read \"nope\": no such variable");
}

#[test]
fn scalar_read_of_array_reports_variable_is_array() {
    assert_eq!(
        read_miss_msg(b"a", &None, true, true),
        b"can't read \"a\": variable is array"
    );
    let key = Some(b"k".to_vec());
    assert_eq!(
        read_miss_msg(b"a", &key, true, true),
        b"can't read \"a(k)\": no such element in array"
    );
    assert_eq!(
        read_miss_msg(b"a", &key, false, true),
        b"can't read \"a(k)\": variable isn't array"
    );
    assert_eq!(
        read_miss_msg(b"a", &key, false, false),
        b"can't read \"a(k)\": no such variable"
    );
}

#[test]
fn command_substitution_propagates_non_error_codes() {
    let mut i = Interp::new();
    let body = WordBody::Parts(vec![script("return foo")]);
    for code in [Code::Return, Code::Break, Code::Continue, Code::Error, Code::Other(9)] {
        assert_eq!(failed(i.substitute_word(&body, &[ran(code, "foo")])), code);
    }
}

#[test]
fn substitution_asks_in_order() {
    let mut i = Interp::new();
    // a$x([set k])b
    let index = Some(vec![script("set k")]);
    let body = WordBody::Parts(vec![literal("a"), variable("x", index), literal("b")]);
    match i.substitute_word(&body, &[]) {
        Substitution::Ask(Ask::Eval { script, located }) => {
            assert_eq!(script, b"set k");
            assert!(!located);
        }
        other => panic!("{:?}", other),
    }
    match i.substitute_word(&body, &[ran(Code::Okay, "key")]) {
        Substitution::Ask(Ask::FireRead { name, index }) => {
            assert_eq!(name, b"x");
            assert_eq!(index, Some(b"key".to_vec()));
        }
        other => panic!("{:?}", other),
    }
    match i.substitute_word(&body, &[ran(Code::Okay, "key"), Answer::Traced(None)]) {
        Substitution::Ask(Ask::ReadVar { name, index }) => {
            assert_eq!(name, b"x");
            assert_eq!(index, Some(b"key".to_vec()));
        }
        other => panic!("{:?}", other),
    }
    let all = [ran(Code::Okay, "key"), Answer::Traced(None), value("V")];
    assert_eq!(done(i.substitute_word(&body, &all)), b"aVb");
    // A further answer changes nothing.
    let more = [ran(Code::Okay, "key"), Answer::Traced(None), value("V"), value("W")];
    assert_eq!(done(i.substitute_word(&body, &more)), b"aVb");
    // A read trace that fails ends the word with its code.
    let refused = [ran(Code::Okay, "key"), Answer::Traced(Some(Code::Error))];
    assert_eq!(failed(i.substitute_word(&body, &refused)), Code::Error);
    // So does a script in the index that does not succeed.
    assert_eq!(failed(i.substitute_word(&body, &[ran(Code::Break, "")])), Code::Break);
}

#[test]
fn a_single_value_is_passed_through() {
    let mut i = Interp::new();
    let one = WordBody::Parts(vec![script("list")]);
    match i.substitute_word(&one, &[ran(Code::Okay, "1 2")]) {
        Substitution::Done { bytes, same_value } => {
            assert_eq!(bytes, b"1 2");
            assert!(same_value);
        }
        other => panic!("{:?}", other),
    }
    let two = WordBody::Parts(vec![script("list"), literal("")]);
    match i.substitute_word(&two, &[ran(Code::Okay, "1 2")]) {
        Substitution::Done { bytes, same_value } => {
            assert_eq!(bytes, b"1 2");
            assert!(!same_value);
        }
        other => panic!("{:?}", other),
    }
}

#[test]
fn subst_reads_its_codes() {
    let mut i = Interp::new();
    let body = WordBody::Parts(vec![literal("a"), script("x"), literal("b")]);
    assert_eq!(done(i.do_subst(&body, &[ran(Code::Okay, "1")])), b"a1b");
    assert_eq!(done(i.do_subst(&body, &[ran(Code::Return, "1")])), b"a1b");
    assert_eq!(done(i.do_subst(&body, &[ran(Code::Other(7), "1")])), b"a1b");
    assert_eq!(done(i.do_subst(&body, &[ran(Code::Break, "1")])), b"a");
    assert_eq!(done(i.do_subst(&body, &[ran(Code::Continue, "1")])), b"ab");
    assert_eq!(failed(i.do_subst(&body, &[ran(Code::Error, "1")])), Code::Error);

    // In an index: `return` stands for the variable, `continue` leaves it out.
    let indexed = WordBody::Parts(vec![
        literal("a"),
        variable("v", Some(vec![literal("k"), script("x")])),
        literal("b"),
    ]);
    assert_eq!(done(i.do_subst(&indexed, &[ran(Code::Return, "R")])), b"aRb");
    assert_eq!(done(i.do_subst(&indexed, &[ran(Code::Continue, "R")])), b"ab");
    assert_eq!(done(i.do_subst(&indexed, &[ran(Code::Break, "R")])), b"a");
    assert_eq!(failed(i.do_subst(&indexed, &[ran(Code::Error, "R")])), Code::Error);
}

#[test]
fn a_parse_error_comes_after_the_parts_before_it() {
    let mut i = Interp::new();
    let body = WordBody::Parts(vec![
        script("x"),
        WordPart::ParseError(b"missing close-bracket".to_vec()),
    ]);
    assert!(matches!(i.do_subst(&body, &[]), Substitution::Ask(Ask::Eval { .. })));
    assert_eq!(failed(i.do_subst(&body, &[ran(Code::Okay, "1")])), Code::Error);
    assert_eq!(i.result_bytes(), b"missing close-bracket");
    let plain = WordBody::Literal(b"as it is".to_vec());
    assert_eq!(done(i.do_subst(&plain, &[])), b"as it is");
}

#[test]
fn an_index_fires_no_read_traces() {
    let mut i = Interp::new();
    let body = WordBody::Parts(vec![variable("a", Some(vec![variable("k", None)]))]);
    assert!(matches!(
        i.substitute_word(&body, &[]),
        Substitution::Ask(Ask::ReadVar { name, .. }) if name == b"k"
    ));
}

#[test]
fn a_located_subst_gives_its_frame_back() {
    let mut i = Interp::new();
    let mut frame = CmdFrame::root();
    frame.file = Some(b"f.tcl".to_vec());
    frame.line_base = 3;
    i.state.cmd_frames.push(frame);
    let saved = i.begin_located_subst(&Some(Location { file: Some(b"g.tcl".to_vec()), line: 10 }));
    assert_eq!(i.state.cmd_frames[0].line_base, 9);
    assert_eq!(i.state.cmd_frames[0].file, Some(b"g.tcl".to_vec()));
    i.end_located_subst(saved);
    assert_eq!(i.state.cmd_frames[0].line_base, 3);
    assert_eq!(i.state.cmd_frames[0].file, Some(b"f.tcl".to_vec()));
    assert!(i.begin_located_subst(&None).is_none());
    assert_eq!(i.push_cond_line_base(0), Some(3));
    assert_eq!(i.state.cmd_frames[0].line_base, 0);
    i.restore_line_base(3);
    assert_eq!(i.state.cmd_frames[0].line_base, 3);
}

#[test]
fn bodies_find_their_frames() {
    let mut i = Interp::new();
    let loc = Some(Location { file: Some(b"f.tcl".to_vec()), line: 4 });
    assert!(matches!(i.eval_control_body(true, &loc, true), BodyPlan::List(_)));
    assert!(matches!(i.eval_control_body(false, &loc, true), BodyPlan::Framed(f) if f.kind == FrameKind::Eval));
    let mut frame = CmdFrame::root();
    frame.file = Some(b"f.tcl".to_vec());
    frame.kind = FrameKind::Source;
    frame.line = 7;
    i.state.cmd_frames.push(frame);
    assert!(matches!(
        i.eval_control_body(false, &loc, true),
        BodyPlan::Shared { line_base: 3 }
    ));
    assert!(matches!(
        i.eval_control_body(false, &loc, false),
        BodyPlan::Framed(f) if f.kind == FrameKind::Source && f.line_base == 3
    ));
    assert!(matches!(
        i.eval_control_body(false, &None, true),
        BodyPlan::Framed(f) if f.kind == FrameKind::Eval && f.file.is_none() && f.line_base == 0
    ));
    assert!(matches!(
        i.eval_body_obj(false, &loc),
        BodyPlan::Framed(f) if f.file == Some(b"f.tcl".to_vec()) && f.line_base == 3
    ));
    let (saved, plan) = i.eval_uplevel_obj(2, 5, false, &None);
    assert_eq!(saved, 0);
    assert_eq!(i.state.current_ns, 5);
    assert!(matches!(plan, BodyPlan::Framed(f) if f.level == 2 && f.omit_level));
    assert!(matches!(i.eval_def_body(&None), BodyPlan::Inline));
    assert!(matches!(
        i.eval_def_body(&Some((b"d.tcl".to_vec(), 11))),
        BodyPlan::Framed(f) if f.line_base == 11 && f.kind == FrameKind::Source
    ));
}

#[test]
fn a_list_body_is_one_command() {
    let mut i = Interp::new();
    let r = i.begin_list_command(Err(b"bad list".to_vec()), b"{", CmdFrame::root());
    assert_eq!(r, Some(Code::Error));
    assert_eq!(i.result_bytes(), b"bad list");
    assert_eq!(i.begin_list_command(Ok(0), b"", CmdFrame::root()), Some(Code::Okay));
    assert_eq!(i.result_bytes(), b"");
    assert_eq!(i.begin_list_command(Ok(2), b"set x", CmdFrame::root()), None);
    assert_eq!(i.state.cmd_frames[0].cmd, b"set x");
    assert_eq!(i.state.cmd_frames[0].line, 1);
    i.end_list_command();
    assert!(i.state.cmd_frames.is_empty());
}

#[test]
fn a_dying_namespace_cannot_be_entered() {
    let mut i = Interp::new();
    assert_eq!(i.begin_ns_eval(&Some(b"::n".to_vec()), 4), Err(Code::Error));
    assert_eq!(i.result_bytes(), b"can't create namespace \"::n\": already exists");
    assert_eq!(i.begin_ns_eval(&None, 4), Ok(0));
    assert_eq!(i.state.current_ns, 4);
    i.error(b"boom");
    i.end_ns_eval(Code::Error, true, b"::n", 0);
    assert_eq!(i.state.current_ns, 0);
    assert_eq!(
        i.error_info(),
        b"boom\n    (in namespace eval \"::n\" script line 1)"
    );
}

#[test]
fn a_handoff_is_its_own_inverse() {
    let mut i = Interp::new();
    i.set_result_bytes(b"shared");
    i.set_return_state(2, Code::Break);
    i.state.eval_depth = 3;
    let mut coros = vec![Coroutine { name: b"::c".to_vec(), context: CoroContext::fresh(7) }];
    i.coro_swap_named(&mut coros, b"::c");
    assert_eq!(i.state.current_ns, 7);
    assert_eq!(i.state.eval_depth, 0);
    assert_eq!(i.state.return_level, 1);
    assert_eq!(i.result_bytes(), b"shared");
    assert_eq!(coros[0].context.eval_depth, 3);
    assert_eq!(coros[0].context.return_code, Code::Break);
    i.coro_swap_named(&mut coros, b"::gone");
    assert_eq!(i.state.current_ns, 7);
    i.coro_swap_named(&mut coros, b"::c");
    assert_eq!(i.state.current_ns, 0);
    assert_eq!(i.state.eval_depth, 3);
    assert_eq!(i.state.return_level, 2);
    assert_eq!(coros[0].context.current_ns, 7);
    assert_eq!(CoroContext::placeholder().current_ns, 0);
}

#[test]
fn compiled_bodies_stand_in_for_their_source() {
    let mut i = Interp::new();
    assert!(may_run_native(&i, true));
    assert!(!may_run_native(&i, false));
    i.set_result_bytes(b"caller");
    assert!(i.begin_native_body(CmdFrame::root()));
    assert_eq!(i.result_bytes(), b"");
    assert_eq!(i.state.cmd_frames.len(), 1);
    let out = i.end_native_body(NativeOutcome::Completed { code: 2, result: Some(b"v".to_vec()) });
    assert!(matches!(out, Ok(Code::Return)));
    let tail = i.leave_native_body(&out);
    assert_eq!(tail.published, None);
    assert_eq!(i.result_bytes(), b"v");
    assert_eq!(i.state.native_proc_dispatches, 1);
    assert_eq!(i.state.eval_depth, 0);

    let mut frame = CmdFrame::root();
    frame.level = 9;
    assert!(i.begin_native_body(frame));
    let declined = i.end_native_body(NativeOutcome::Declined);
    i.leave_native_body(&declined);
    assert_eq!(i.state.eval_depth, 0);
    match declined {
        Err(f) => assert_eq!(f.level, 9),
        Ok(c) => panic!("{:?}", c),
    }
    assert_eq!(i.state.native_proc_dispatches, 1);
    i.state.traces.step_active.push(StepActive {
        owner: b"::p".to_vec(),
        enterstep: true,
        leavestep: false,
        command: b"cb".to_vec(),
    });
    assert!(!may_run_native(&i, true));
}

#[test]
fn exit_unwinds_once() {
    let mut i = Interp::new();
    assert!(!i.exit_pending());
    i.set_exit(3);
    assert!(i.exit_pending());
    assert_eq!(i.take_exit(), Some(3));
    assert_eq!(i.take_exit(), None);
}
