use tcl_runtime::bodies::ScriptRun;
use tcl_runtime::calls::{proc_body_frame, CallMeta, Param};
use tcl_runtime::code::Code;
use tcl_runtime::commands::{Command, ImportToken};
use tcl_runtime::dispatch::NamedCommand;
use tcl_runtime::ensemble::{
    DeletedMessages, EnsembleStep, EnsembleUnknown, HandlerCall, HandlerResult, HandlerStep, Layout,
    Span,
};
use tcl_runtime::errors::{MethodFrameWhat, ProcFrame};
use tcl_runtime::frames::{cmd_frame_info, CmdFrame, FrameKind, Location};
use tcl_runtime::globals::{
    rebootstrap_host_globals, scrub_host_globals_for_safe, set_startup_globals,
    write_release_globals, GlobalStep, HostGlobals, Pair,
};
use tcl_runtime::lines::ElementOffset;
use tcl_runtime::listing::{level_words, listed_namespace};
use tcl_runtime::namespaces::{retained_teardown_ids, Descendant};
use tcl_runtime::rename::{DeletionPhase, RenameOutcome};
use tcl_runtime::state::{ArgLoc, GuardDomain, Interp, GLOBAL};
use tcl_runtime::teardown::unset_callback_operands;
use tcl_runtime::traces::{CmdOps, CmdTrace, TeardownCallback, VarOps, VarTrace};

fn b(s: &str) -> Vec<u8> {
    s.as_bytes().to_vec()
}

fn words(ws: &[&str]) -> Vec<Vec<u8>> {
    ws.iter().map(|w| b(w)).collect()
}

fn host() -> HostGlobals {
    HostGlobals {
        arrays: words(&["tcl_platform", "env"]),
        paths: words(&["tcl_library"]),
        library: b("/lib"),
        platform: vec![Pair { key: b("os"), value: b("Linux") }],
        environment: vec![Pair { key: b("HOME"), value: b("/h") }],
    }
}

fn shown(steps: &[GlobalStep]) -> Vec<String> {
    let s = |v: &Vec<u8>| String::from_utf8(v.clone()).unwrap();
    steps
        .iter()
        .map(|g| match g {
            GlobalStep::Write { name, value } => format!("set {}={}", s(name), s(value)),
            GlobalStep::WriteRaw { name, value } => format!("raw {}={}", s(name), s(value)),
            GlobalStep::WriteElementRaw { array, key, value } => {
                format!("raw {}({})={}", s(array), s(key), s(value))
            }
            GlobalStep::MakeArray(name) => format!("array {}", s(name)),
            GlobalStep::Unset(name) => format!("unset {}", s(name)),
            GlobalStep::UnsetElement { array, key } => format!("unset {}({})", s(array), s(key)),
            GlobalStep::UnsetRaw(name) => format!("rawunset {}", s(name)),
        })
        .collect()
}

#[test]
fn globals_tell_of_the_release_and_the_host() {
    assert_eq!(
        shown(&write_release_globals(b"9.0", b"9.0.4")),
        ["set ::tcl_version=9.0", "set ::tcl_patchLevel=9.0.4"]
    );
    let told = [
        "rawunset ::tcl_platform",
        "rawunset ::env",
        "rawunset ::tcl_library",
        "array ::tcl_platform",
        "array ::env",
        "raw ::tcl_library=/lib",
        "raw ::auto_path=",
        "raw ::tcl_platform(os)=Linux",
        "raw ::env(HOME)=/h",
    ];
    assert_eq!(shown(&rebootstrap_host_globals(&host())), told);
    let all = shown(&set_startup_globals(b"8.6", b"8.6.16", &host()));
    assert_eq!(
        all[..6],
        [
            "set ::tcl_version=8.6",
            "set ::tcl_patchLevel=8.6.16",
            "set ::tcl_interactive=0",
            "set ::argv=",
            "set ::argv0=",
            "set ::argc=0",
        ]
    );
    assert_eq!(all[6..], told);
}

/// What the variables hold after some steps, as `name=value`.
fn held(steps: &[GlobalStep], before: &[&str]) -> Vec<String> {
    let mut vars: Vec<String> = before.iter().map(|v| v.to_string()).collect();
    for step in shown(steps) {
        let (verb, what) = step.split_once(' ').unwrap();
        match verb {
            "set" | "raw" => {
                let name = what.split('=').next().unwrap().to_string() + "=";
                vars.retain(|v| !v.starts_with(&name));
                vars.push(what.to_string());
            }
            "unset" | "rawunset" => vars.retain(|v| {
                !v.starts_with(&format!("{}=", what)) && !v.starts_with(&format!("{}(", what))
            }),
            _ => {}
        }
    }
    vars.sort();
    vars
}

#[test]
fn selected_host_bootstrap_and_rebind_replace_all_host_globals() {
    let (mut i, steps) = Interp::with_host(b"9.0", b"9.0.4", &host());
    let vars = held(&steps, &[]);
    assert!(vars.contains(&"::tcl_platform(os)=Linux".to_string()));
    assert!(vars.contains(&"::env(HOME)=/h".to_string()));
    assert!(vars.contains(&"::tcl_version=9.0".to_string()));
    let second = HostGlobals {
        library: b("/second/lib"),
        platform: vec![Pair { key: b("user"), value: b("second-user") }],
        environment: vec![Pair { key: b("SECOND_ONLY"), value: b("fresh") }],
        ..host()
    };
    let stale = ["::env(EMBEDDER_STALE)=old", "::tcl_platform(os)=Linux", "::tcl_library=/lib"];
    assert_eq!(
        held(&i.set_host(&second, &words(&["user"])), &stale),
        [
            "::auto_path=",
            "::env(SECOND_ONLY)=fresh",
            "::tcl_library=/second/lib",
            "::tcl_platform(user)=second-user",
        ]
    );
    i.state.is_safe = true;
    assert_eq!(held(&i.set_host(&second, &words(&["user"])), &stale), ["::auto_path="]);
}

#[test]
fn a_safe_interpreter_is_scrubbed() {
    assert_eq!(
        shown(&scrub_host_globals_for_safe(&words(&["os", "user"]), &words(&["auto_path"]))),
        [
            "unset ::tcl_platform(os)",
            "unset ::tcl_platform(user)",
            "unset ::env",
            "unset ::auto_path",
        ]
    );
}

#[test]
fn commands_and_functions_are_listed() {
    let i = Interp::new();
    let entry = |name: &str, visible: bool| NamedCommand {
        name: b(name),
        command: Some(Command::Builtin(1)),
        visible,
    };
    assert_eq!(i.command_names(&[entry("lpop", false), entry("set", true)]), words(&["set"]));
    assert_eq!(i.commands_in_namespace(&None), words(&[]));
    assert_eq!(i.commands_in_namespace(&Some(vec![entry("abs", true)])), words(&["abs"]));
    let built_in = words(&["sin"]);
    assert_eq!(i.mathfunc_names(false, &built_in, &Some(vec![entry("abs", true)])), built_in);
    assert_eq!(
        i.mathfunc_names(true, &built_in, &Some(vec![entry("abs", true)])),
        words(&["abs"])
    );
    assert_eq!(i.mathfunc_names(true, &built_in, &None), words(&[]));
    assert_eq!(listed_namespace(b"", None), Some(GLOBAL));
    assert_eq!(listed_namespace(b"a", Some(4)), Some(4));
    assert_eq!(listed_namespace(b"a", None), None);
    assert_eq!(level_words(&Some(words(&["p", "1"]))), Some(words(&["p", "1"])));
    assert_eq!(level_words(&Some(vec![])), None);
    assert_eq!(level_words(&None), None);
}

#[test]
fn teardown_callbacks_keep_the_result() {
    let mut i = Interp::new();
    let c = TeardownCallback { name: b("v"), elem: b(""), command: b("cb"), old_style: true };
    assert_eq!(unset_callback_operands(&c), words(&["v", "", "u"]));
    i.set_result(b("mine"));
    assert_eq!(i.begin_unset_callbacks(&[]), None);
    let saved = i.begin_unset_callbacks(&[c]).unwrap();
    i.set_result(b("theirs"));
    i.end_unset_callbacks(saved);
    assert_eq!(i.get_obj_result(), b"mine");
    let shared = b("shared");
    i.set_obj_result(&shared);
    assert_eq!(i.get_obj_result(), &shared);
    assert!(!i.has_var_traces());
}

fn ran(i: &mut Interp, code: Code, result: &[u8]) -> ScriptRun {
    let mut run = match i.eval_str(1) {
        Ok(run) => run,
        Err(c) => panic!("refused with {:?}", c),
    };
    i.set_result_bytes(result);
    run.ended(code);
    run
}

#[test]
fn script_completion_preserves_non_utf8_success_and_error_values() {
    let value: &[u8] = &[0xff, 0x00, b'A', 0x80];
    let mut i = Interp::new();
    let run = ran(&mut i, Code::Okay, value);
    let (done, tail) = i.eval_completion(run);
    assert_eq!(done.code, Code::Okay);
    assert_eq!(done.result, value);
    assert!(done.error.is_none());
    assert_eq!(tail.published, None);

    let mut run = match i.eval_sourced(b"binary-error.tcl", 1) {
        Ok(run) => run,
        Err(c) => panic!("refused with {:?}", c),
    };
    i.set_result_bytes(value);
    run.ended(Code::Error);
    let (failed, _) = i.eval_sourced_completion(run);
    assert_eq!(failed.code, Code::Error);
    assert_eq!(failed.result, value);
    assert_eq!(failed.error.unwrap().info, value);
}

#[test]
fn completion_captures_live_error_options_before_publishing_globals() {
    let value: &[u8] = &[0xff, 0x00, b'A', 0x80];
    let mut i = Interp::new();
    let run = ran(&mut i, Code::Error, value);
    i.process_return_error(&Some(b("CUSTOM INFO")), &Some(b("CUSTOM CODE")), None);
    let (done, tail) = i.eval_completion(run);
    assert_eq!(done.code, Code::Error);
    assert_eq!(done.result, value);
    assert_eq!(done.option_code, 1);
    assert_eq!(done.level, 0);
    let error = done.error.unwrap();
    assert_eq!(error.code, b"CUSTOM CODE");
    assert_eq!(error.info, b"CUSTOM INFO");
    // The error is published as well.
    assert_eq!(tail.published, Some((b("CUSTOM INFO"), b("CUSTOM CODE"))));
    assert_eq!(i.error_code(), b"CUSTOM CODE");
    assert!(!i.end_outermost_eval(&tail));
    assert_eq!(i.error_code(), b"NONE");
}

#[test]
fn completion_preserves_the_during_chain_before_publication() {
    let mut i = Interp::new();
    let run = ran(&mut i, Code::Error, b"OUTER");
    i.set_during(b("-errorcode {INNER CODE}"));
    i.process_return_error(&Some(b("OUTER INFO")), &Some(b("OUTER CODE")), None);
    let (done, tail) = i.eval_completion(run);
    assert_eq!(done.result, b"OUTER");
    let error = done.error.unwrap();
    assert_eq!(error.code, b"OUTER CODE");
    assert_eq!(error.info, b"OUTER INFO");
    assert_eq!(error.during, Some(b("-errorcode {INNER CODE}")));
    i.end_outermost_eval(&tail);
    assert_eq!(i.state.during, None);
}

#[test]
fn completion_exposes_every_tcl_completion_code_and_return_options() {
    let cases: [(Code, &[u8], i64, usize); 4] = [
        (Code::Return, b"VALUE", 0, 1),
        (Code::Break, b"", 3, 0),
        (Code::Continue, b"", 4, 0),
        (Code::Other(37), b"VALUE", 37, 0),
    ];
    for (code, result, option_code, level) in cases {
        let mut i = Interp::new();
        let run = ran(&mut i, code, result);
        if code == Code::Return {
            i.set_return_state(1, Code::Okay);
        }
        let (done, tail) = i.eval_completion(run);
        assert_eq!(done.code, code);
        assert_eq!(done.result, result);
        assert_eq!(done.option_code, option_code);
        assert_eq!(done.level, level);
        assert_eq!(tail.published, None);
    }
}

#[test]
fn a_sourced_return_is_settled_before_it_is_captured() {
    let mut i = Interp::new();
    let mut run = match i.eval_sourced(b"f.tcl", 1) {
        Ok(run) => run,
        Err(c) => panic!("refused with {:?}", c),
    };
    i.set_return_state(1, Code::Other(37));
    i.set_result_bytes(b"VALUE");
    run.ended(Code::Return);
    let (done, _) = i.eval_sourced_completion(run);
    assert_eq!(done.code, Code::Other(37));
    assert_eq!(done.option_code, 37);
    assert_eq!(done.level, 0);
    assert_eq!(i.current_script(), b"");
}

fn meta(err: ProcFrame) -> CallMeta {
    CallMeta {
        err,
        fqn: Some(b("::p")),
        source: Some(b("f.tcl")),
        body_line_base: 4,
        link_vars: vec![],
        same_level: false,
        keep_loop_codes: false,
        usage_prefix: None,
        level_words: None,
        quote_name: true,
        native: None,
    }
}

#[test]
fn a_call_that_cannot_bind_is_given_up() {
    let mut i = Interp::new();
    let params = [
        Param { name: b("a"), default: None },
        Param { name: b("b"), default: Some(b("2")) },
        Param { name: b("c"), default: None },
    ];
    let m = meta(ProcFrame::Proc(b("p")));
    let call = match i.begin_call(&params, 3, &words(&["x", "y"]), b"p", b"p", &m) {
        Ok(call) => call,
        Err(c) => panic!("refused with {:?}", c),
    };
    assert!(call.short);
    assert_eq!(i.state.current_ns, 3);
    assert_eq!(i.state.recursion_depth, 1);
    assert_eq!(call.bindings.len(), 2);
    assert_eq!(i.abandon_call(&params, 2, b"p", b"p", &m, call.saved_ns, true), Code::Error);
    assert_eq!(i.result_bytes(), b"wrong # args: should be \"p a ?b? c\"");
    assert_eq!(i.state.current_ns, GLOBAL);
    assert_eq!(i.state.recursion_depth, 0);
    i.state.recursion_depth = 1;
    assert_eq!(i.abandon_call(&params, 1, b"p", b"p", &m, 0, false), Code::Error);
    assert_eq!(i.result_bytes(), b"proc parameter binding failed");
}

#[test]
fn a_body_frame_knows_what_it_runs() {
    let f = proc_body_frame(&meta(ProcFrame::Proc(b("p"))), 2, 5);
    assert_eq!(f.kind, FrameKind::Source);
    assert_eq!(f.file, Some(b("f.tcl")));
    assert_eq!((f.level, f.frame_index, f.line_base), (2, 5, 4));
    let method = meta(ProcFrame::Method {
        kind: b("object"),
        owner: b("::o"),
        what: MethodFrameWhat::Named(b("go")),
    });
    assert_eq!(proc_body_frame(&method, 1, 1).oo.unwrap().method, b"go");
    let lambda = meta(ProcFrame::Lambda(b("{x} {}")));
    assert_eq!(proc_body_frame(&lambda, 1, 1).lambda, Some(b("{x} {}")));
}

#[test]
fn frames_follow_the_commands() {
    let mut i = Interp::new();
    i.state.cmd_frames.push(CmdFrame::root());
    let src = b"set a\nset b";
    i.begin_command(src, 6, 11, true);
    assert_eq!(i.state.cmd_frames[0].cmd, b"set b");
    assert_eq!(i.state.cmd_frames[0].line, 2);
    assert_eq!(i.subst_line_base(src, 7), Some(1));
    assert_eq!(i.subst_line_base(src, 12), None);
    let saved = i.share_frame(9).unwrap();
    assert_eq!(i.state.cmd_frames[0].line_base, 9);
    i.begin_command(b"inner", 0, 5, true);
    assert_eq!(i.state.cmd_frames[0].line, 10);
    i.restore_frame(saved);
    assert_eq!(i.state.cmd_frames[0].cmd, b"set b");
    assert_eq!(i.state.cmd_frames[0].line, 2);
    let info = cmd_frame_info(&i.state.cmd_frames, 1, &[], 0).unwrap();
    assert_eq!(info[0].key, b"type");
    assert_eq!(info[0].value, b"eval");
    assert!(info.iter().any(|e| e.key == b"line" && e.value == b"2"));
    assert!(info.iter().any(|e| e.key == b"cmd" && e.value == b"set b"));
    assert!(cmd_frame_info(&i.state.cmd_frames, 2, &[], 0).is_none());
    assert!(cmd_frame_info(&i.state.cmd_frames, 0, &[], 0).is_some());
    assert!(Interp::new().share_frame(1).is_none());
}

#[test]
fn scripts_and_elements_have_their_place() {
    let mut i = Interp::new();
    i.set_current_script(b"a.tcl");
    assert_eq!(i.current_script(), b"a.tcl");
    i.set_current_script(b"b.tcl");
    assert_eq!(i.state.script_stack.len(), 1);
    assert_eq!(i.current_script(), b"b.tcl");
    i.state.arg_locs.push(ArgLoc {
        value: 7,
        loc: Location { file: Some(b("b.tcl")), line: 10 },
    });
    let offsets = Some(vec![
        ElementOffset { newlines: 0, literal: true },
        ElementOffset { newlines: 3, literal: true },
    ]);
    assert_eq!(i.list_element_location(7, &offsets, 1).unwrap().line, 13);
    assert!(i.list_element_location(7, &offsets, 2).is_none());
    assert!(i.list_element_location(8, &offsets, 1).is_none());
}

#[test]
fn the_time_limit_is_polled_now_and_then() {
    let mut i = Interp::new();
    assert_eq!(i.limit_check_tick(0), None);
    assert_eq!(i.state.limit_tick, 0);
    i.state.limits.time_value = Some((1, 0));
    i.state.limit_tick = 4094;
    assert_eq!(i.limit_check_tick(5000), None);
    assert_eq!(i.limit_check_tick(5000), Some(Code::Error));
    assert_eq!(i.result_bytes(), b"time limit exceeded");
    i.state.limit_tick = 4095;
    assert_eq!(i.limit_check_tick(900), None);
}

fn cmd_trace(id: u64, name: &str) -> CmdTrace {
    CmdTrace {
        id,
        name: b(name),
        ops: CmdOps {
            rename: true,
            delete: true,
            enter: false,
            leave: false,
            enterstep: false,
            leavestep: false,
        },
        command: b("cb"),
        token: None,
    }
}

#[test]
fn a_rename_takes_the_traces_along() {
    let mut i = Interp::new();
    i.state.traces.cmd_traces = vec![cmd_trace(1, "::a"), cmd_trace(2, "::z")];
    i.begin_rename();
    i.move_bound_command(b"::a", b"::b", None);
    assert_eq!(i.state.traces.cmd_traces[0].name, b"::b");
    assert_eq!(i.state.traces.cmd_traces[1].name, b"::z");
    assert_eq!(i.renamed_cmd_key(b"::a"), Some(b("::b")));
    assert_eq!(i.renamed_cmd_key(b"::z"), None);
    assert_eq!(i.state.invalidations.last(), Some(&GuardDomain::CommandTrace));
    i.end_rename_window();
    assert_eq!(i.renamed_cmd_key(b"::a"), None);
    assert!(i.has_cmd_traces(b"::b"));
    let origins = i.delete_bound_command(b"::b", None, &None);
    assert_eq!(origins, words(&["::b"]));
    assert!(!i.has_cmd_traces(b"::b"));
    assert!(i.has_cmd_traces(b"::z"));
}

fn import(id: u64) -> Command {
    Command::Imported { source: b("::s"), ensemble: None, import: ImportToken { id } }
}

#[test]
fn a_deletion_spares_what_a_callback_bound() {
    let mut i = Interp::new();
    i.state.traces.cmd_traces = vec![cmd_trace(1, "::a")];
    let mut d = i.begin_deletion(Some(Command::Builtin(1)), Some(b("::a")), None);
    assert_eq!(d.phase, DeletionPhase::Fire);
    assert_eq!(i.begin_deletion_firing(&d).is_some(), i.state.traces.cmd_traces[0].ops.delete);
    d.fired();
    assert_eq!(d.phase, DeletionPhase::EndCoroutine);
    d.coroutine_ended();
    assert_eq!(d.phase, DeletionPhase::Look);
    d.looked(&Some(Command::Builtin(2)));
    assert_eq!(d.phase, DeletionPhase::Sweep);
    let sweep = i.sweep_deleted(&mut d);
    assert_eq!(sweep.origins, words(&["::a"]));
    assert!(i.state.traces.cmd_traces.is_empty());
    assert_eq!(d.phase, DeletionPhase::Over(RenameOutcome::Deleted));
}

#[test]
fn a_deletion_takes_what_was_bound() {
    let mut i = Interp::new();
    let ensemble = Command::Ensemble { token: 9, ns: 1 };
    let mut d = i.begin_deletion(Some(ensemble), Some(b("::e")), None);
    assert_eq!(d.phase, DeletionPhase::EndCoroutine);
    d.coroutine_ended();
    d.looked(&Some(Command::Ensemble { token: 9, ns: 1 }));
    assert_eq!(d.phase, DeletionPhase::TakeEntry);
    d.entry_taken(false);
    assert_eq!(d.phase, DeletionPhase::Sweep);
    assert_eq!(i.sweep_deleted(&mut d).tokens, [9]);

    let mut d = i.begin_deletion(Some(import(4)), Some(b("::n::i")), None);
    d.coroutine_ended();
    assert_eq!(d.phase, DeletionPhase::TakeImport);
    d.import_taken(Some(b("::m::i")));
    d.looked(&None);
    assert_eq!(d.phase, DeletionPhase::Sweep);
    assert_eq!(i.sweep_deleted(&mut d).origins, words(&["::n::i", "::m::i"]));

    let mut d = i.begin_deletion(None, None, None);
    assert_eq!(d.phase, DeletionPhase::Look);
    d.looked(&None);
    d.entry_taken(false);
    assert_eq!(d.phase, DeletionPhase::Over(RenameOutcome::NoSuchCommand));
}

fn handler() -> HandlerCall {
    HandlerCall { call: b("h ::e zap"), first: Some(Span { start: 0, end: 9 }), top: 0, active: 0 }
}

fn decided(step: HandlerStep) -> EnsembleUnknown {
    match step {
        HandlerStep::Decided(u) => u,
        HandlerStep::Logged(t) => panic!("logged {:?}", t),
    }
}

fn left(words: Vec<Vec<u8>>) -> HandlerResult {
    HandlerResult { deleted: false, split: Ok(words) }
}

#[test]
fn an_unknown_handler_is_taken_at_its_word() {
    let mut i = Interp::new();
    let gone = DeletedMessages { message: b("gone"), code: b("GONE") };
    let argv = words(&["e", "zap", "1"]);
    let layout = Layout { parameters_from: 1, parameters_to: 1, subcommand: 1, arguments: 2 };
    let u = decided(i.ensemble_unknown(Code::Okay, left(words(&["t", "x"])), &gone, &handler()));
    match i.resume_ensemble(u, &argv, &Some(layout), &[]) {
        Ok(EnsembleStep::Target { prefix, source, default_name }) => {
            assert_eq!(prefix, words(&["t", "x"]));
            assert_eq!(source, argv);
            assert_eq!(default_name, None);
        }
        _ => panic!("no target"),
    }
    let u = decided(i.ensemble_unknown(Code::Okay, left(vec![]), &gone, &handler()));
    assert!(matches!(
        i.resume_ensemble(u, &argv, &Some(layout), &[]),
        Ok(EnsembleStep::Reparse)
    ));
    let u = decided(i.ensemble_unknown(Code::Okay, left(words(&["t"])), &gone, &handler()));
    assert!(matches!(
        i.resume_ensemble(u, &argv, &None, &words(&["p", "q", "r"])),
        Ok(EnsembleStep::Failed)
    ));
    assert_eq!(i.result_bytes(), b"wrong # args: should be \"e p q r subcommand ?arg ...?\"");
    let u = decided(i.ensemble_unknown(Code::Break, left(vec![]), &gone, &handler()));
    assert!(matches!(i.resume_ensemble(u, &argv, &None, &[]), Err(Code::Error)));
    assert_eq!(i.result_bytes(), b"unknown subcommand handler returned bad code: break");
    let mut i = Interp::new();
    i.error(b"boom");
    match i.ensemble_unknown(Code::Error, left(vec![]), &gone, &handler()) {
        HandlerStep::Logged(t) => {
            assert_eq!(t, Some(b("boom\n    while executing\n\"h ::e zap\"")))
        }
        HandlerStep::Decided(_) => panic!("not logged"),
    }
    // Whoever watches the trace sees it without the note.
    assert_eq!(i.error_info(), b"boom\n    while executing\n\"h ::e zap\"");
    assert!(matches!(i.ensemble_unknown_error(), EnsembleUnknown::Failed(Code::Error)));
    assert_eq!(
        i.error_info(),
        b"boom\n    while executing\n\"h ::e zap\"\n    (ensemble unknown subcommand handler)"
    );
    // The first command of the list is what is logged, at its line.
    let mut i = Interp::new();
    i.error(b"boom");
    let first = Some(Span { start: 1, end: 2 });
    let call = HandlerCall { call: b("\nh;x"), first, top: 0, active: 0 };
    match i.ensemble_unknown(Code::Error, left(vec![]), &gone, &call) {
        HandlerStep::Logged(t) => assert_eq!(t, Some(b("boom\n    while executing\n\"h\""))),
        HandlerStep::Decided(_) => panic!("not logged"),
    }
    assert_eq!(i.state.error_line, 2);
    let none = HandlerCall { first: None, ..handler() };
    let mut i = Interp::new();
    i.error(b"boom");
    assert!(matches!(
        i.ensemble_unknown(Code::Error, left(vec![]), &gone, &none),
        HandlerStep::Logged(None)
    ));
    assert_eq!(i.error_info(), b"boom");
}

#[test]
fn calls_that_go_wrong_say_so() {
    let mut i = Interp::new();
    i.unknown_command(b"zap");
    assert_eq!(i.result_bytes(), b"unknown command \"zap\"");
    i.wrong_args(b"zap x");
    assert_eq!(i.result_bytes(), b"wrong # args: should be \"zap x\"");
    assert_eq!(
        i.eval_math_call(b"sin", &words(&["1"]), true, b"sin"),
        Some(words(&["tcl::mathfunc::sin", "1"]))
    );
    assert_eq!(i.eval_math_call(b"zap", &[], false, b"tcl::mathfunc::zap"), None);
    assert_eq!(i.result_bytes(), b"invalid command name \"tcl::mathfunc::zap\"");
    assert_eq!(i.error_code(), b"TCL LOOKUP COMMAND tcl::mathfunc::zap");
}

#[test]
fn an_ensemble_call_is_rewritten() {
    let mut i = Interp::new();
    let argv = words(&["ens", "p", "sub", "x"]);
    let layout = Layout { parameters_from: 1, parameters_to: 2, subcommand: 2, arguments: 3 };
    let (call, is_root) =
        i.begin_ensemble_target(&words(&["::ns::sub"]), &argv, layout, argv.clone());
    assert!(is_root);
    assert_eq!(call, words(&["::ns::sub", "p", "x"]));
    let r = i.state.ensemble_rewrite.as_ref().unwrap();
    assert_eq!((r.removed, r.inserted), (3, 2));
    i.set_result_bytes(b"fine");
    i.end_ensemble_target(Code::Okay, b"::ns::sub", &None, true, is_root);
    assert!(i.state.ensemble_rewrite.is_none());
    assert_eq!(i.result_bytes(), b"fine");
    let own = Some(b("sub"));
    i.set_result_bytes(b"invalid command name \"::ns::sub\"");
    i.end_ensemble_target(Code::Error, b"::ns::sub", &own, true, true);
    assert_eq!(i.result_bytes(), b"invalid command name \"::ns::sub\"");
    i.end_ensemble_target(Code::Error, b"::ns::sub", &own, false, true);
    assert_eq!(i.result_bytes(), b"invalid command name \"sub\"");
}

#[test]
fn errors_note_where_they_pass() {
    let mut i = Interp::new();
    i.error(b"boom");
    assert_eq!(
        i.log_command_info(b"set a\nzap", 6, 9, 0, 0),
        Some(b("boom\n    while executing\n\"zap\""))
    );
    assert_eq!(i.log_command_info(b"set a\nzap", 6, 9, 0, 0), None);
    let mut i = Interp::new();
    i.error(b"boom");
    assert_eq!(i.end_command(Code::Return, b"set a\nzap", 6, 9, 0, 0), None);
    assert_eq!(i.error_info(), b"boom");
    assert_eq!(
        i.end_command(Code::Error, b"set a\nzap", 6, 9, 0, 0),
        Some(b("boom\n    while executing\n\"zap\""))
    );
    i.append_lambda_parse_frame(b"l");
    assert!(i.error_info().ends_with(b"\n    (parsing lambda expression \"l\")"));
    let mut i = Interp::new();
    i.error_with_code(b"m", b"");
    i.mark_error_code_explicit();
    assert_eq!(i.error_code(), b"");
    let mut i = Interp::new();
    i.error(b"boom");
    i.ensemble_unknown_error();
    assert_eq!(i.error_info(), b"boom\n    (ensemble unknown subcommand handler)");
    i.set_during(b("-code 1"));
    assert_eq!(i.state.during, Some(b("-code 1")));
    i.clear_during();
    assert_eq!(i.state.during, None);
}

#[test]
fn the_error_stack_is_a_list() {
    let mut i = Interp::new();
    i.state.error_stack = words(&["INNER", "a b"]);
    assert_eq!(i.error_stack_value(&words(&["INNER", "{a b}"])), b"INNER {a b}");
}

#[test]
fn a_teardown_leaves_out_what_waits() {
    let below = [
        Descendant { ns: 1, deferred: false },
        Descendant { ns: 2, deferred: true },
        Descendant { ns: 3, deferred: false },
    ];
    assert_eq!(retained_teardown_ids(&below), [1, 3]);
}

#[test]
fn compiled_reads_wait_for_no_trace() {
    let mut i = Interp::new();
    assert_eq!(i.codegen_slot_scalar(Some(4)), Some(4));
    assert_eq!(i.codegen_slot_scalar(None), None);
    i.state.traces.traces.push(VarTrace {
        id: 1,
        base: b("v"),
        elem: None,
        ns: Some(0),
        frame_level: None,
        ops: VarOps { read: true, write: false, unset: false, array: false },
        command: b("cb"),
        old_style: false,
    });
    assert!(i.has_var_traces());
    assert_eq!(i.codegen_slot_scalar(Some(4)), None);
}
