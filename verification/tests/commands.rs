use tcl_runtime::arena::CmdArena;
use tcl_runtime::calls::{proc_body_frame, Param, ProcDef};
use tcl_runtime::code::Code;
use tcl_runtime::commands::{Command, CommandVisibilityOutcome, HiddenCommand, ImportToken};
use tcl_runtime::child::CommandVisibilityOp;
use tcl_runtime::definitions::{
    alias_info, call_proc, import_metadata_at, init_path,
    invoke, Displacement, Invocation,
};
use tcl_runtime::dispatch::{
    alias_target_path, cmdtype, ensemble_hop, fqn_for, imported_command_tails,
    origin_hop, proc_hop, unknown_handler, AliasStep, ImportHop, MissStep, NamedCommand,
    MAX_ALIAS_DISPATCH_DEPTH, MAX_IMPORT_HOPS,
};
use tcl_runtime::ensemble::{
    ensemble_subcommands, unknown_handler_words, DeletedMessages, EnsembleConfig, EnsembleStep,
    EnsembleUnknown, HandlerResult, Layout, ListError, MapEntry,
};
use tcl_runtime::frames::Location;
use tcl_runtime::globals::HostGlobals;
use tcl_runtime::guards::{GuardRefusal, Intrinsic};
use tcl_runtime::imports::{HiddenKey, ImportAction, ImportSweep, ImportVictim};
use tcl_runtime::limits::{CommandsOption, LimitType};
use tcl_runtime::rename::{
    deletion_outcome, entry_is_due, rename_command, RenameOutcome, RenameStep,
};
use tcl_runtime::release::{DialectProfile, ReleaseChange, TclVersion};
use tcl_runtime::serve::ChildRequest;
use tcl_runtime::state::{GuardDomain, Interp};
use tcl_runtime::traces::{CmdOps, CmdTrace, VarOps, VarTrace};

const GUARDED: u64 = 71;

fn b(s: &str) -> Vec<u8> {
    s.as_bytes().to_vec()
}

fn words(ws: &[&str]) -> Vec<Vec<u8>> {
    ws.iter().map(|w| b(w)).collect()
}

fn guarded() -> Option<Vec<u8>> {
    Some(b("::guarded"))
}

fn unwatched() -> CmdTrace {
    CmdTrace {
        id: 0,
        name: vec![],
        ops: CmdOps {
            rename: false,
            delete: true,
            enter: false,
            leave: false,
            enterstep: false,
            leavestep: false,
        },
        command: b("cb"),
        token: None,
    }
}

fn alias(target: &str, prefix: &[&str], identity: u64) -> Command {
    Command::Alias { target: b(target), prefix: words(prefix), identity }
}

/// How often guards over `d` were staled.
fn staled(i: &Interp, d: GuardDomain) -> usize {
    i.state.invalidations.iter().filter(|x| **x == d).count()
}

#[test]
fn command_guard_checks_identity_and_exact_lifecycle() {
    let mut i = Interp::new();
    i.register_guarded_builtin(&guarded(), GUARDED);
    let domains = [GuardDomain::CommandEnvironment];
    // Another identity is expected: the attested one is what is observed, which
    // the guard manager holds against it.
    assert_eq!(i.prepare_command_guard(&guarded(), 72, &domains), Ok(Some(GUARDED)));
    assert_eq!(i.prepare_command_guard(&guarded(), GUARDED, &domains), Ok(Some(GUARDED)));
    assert!(i.check_command_guard(&guarded(), &[GUARDED]));
    // A guard that was released is accepted for no identity.
    assert!(!i.check_command_guard(&guarded(), &[]));
    assert!(!i.check_command_guard(&guarded(), &[72]));
    assert!(!i.check_command_guard(&None, &[GUARDED]));
    assert!(i.check_command_guard_identity(&guarded(), GUARDED, true));
    assert!(!i.check_command_guard_identity(&guarded(), GUARDED, false));
    assert!(!i.check_command_guard_identity(&guarded(), 72, true));
}

#[test]
fn command_mutation_invalidates_guard_and_identity_attestation() {
    let mut i = Interp::new();
    i.register_guarded_builtin(&guarded(), GUARDED);
    let before = staled(&i, GuardDomain::CommandEnvironment);
    i.register_builtin();
    assert_eq!(staled(&i, GuardDomain::CommandEnvironment), before + 1);
    assert!(!i.check_command_guard(&guarded(), &[GUARDED]));
    let domains = [GuardDomain::CommandEnvironment];
    assert_eq!(i.prepare_command_guard(&guarded(), GUARDED, &domains), Ok(None));
}

#[test]
fn a_command_with_several_identities() {
    let mut i = Interp::new();
    i.register_spec_builtin(&guarded(), &[9, 3, 9, 5]);
    assert_eq!(i.state.guarded_commands[0].identities, vec![3, 5, 9]);
    assert_eq!(i.prepare_command_guard(&guarded(), 5, &[]), Ok(Some(5)));
    assert_eq!(i.prepare_command_guard(&guarded(), 6, &[]), Ok(Some(3)));
    i.register_spec_builtin(&guarded(), &[]);
    assert_eq!(i.prepare_command_guard(&guarded(), 5, &[]), Ok(None));
    i.register_spec_builtin(&None, &[1]);
    assert!(i.state.guarded_commands.is_empty());
}

#[test]
fn traces_refuse_guards_that_assume_none() {
    let mut i = Interp::new();
    i.register_guarded_builtin(&guarded(), GUARDED);
    i.state.traces.cmd_traces.push(CmdTrace {
        id: 1,
        name: b("::guarded"),
        ops: CmdOps {
            rename: true,
            delete: false,
            enter: false,
            leave: false,
            enterstep: false,
            leavestep: false,
        },
        command: b("callback"),
        token: None,
    });
    assert_eq!(
        i.prepare_command_guard(&guarded(), GUARDED, &[GuardDomain::CommandTrace]),
        Err(GuardRefusal::PrerequisiteUnsatisfied)
    );
    assert!(i.prepare_command_guard(&guarded(), GUARDED, &[GuardDomain::VariableTrace]).is_ok());
    i.state.traces.traces.push(VarTrace {
        id: 2,
        base: b("watched"),
        elem: None,
        ns: Some(0),
        frame_level: None,
        ops: VarOps { read: false, write: true, unset: false, array: false },
        command: b("callback"),
        old_style: false,
    });
    assert_eq!(
        i.prepare_command_guard(&guarded(), GUARDED, &[GuardDomain::VariableTrace]),
        Err(GuardRefusal::PrerequisiteUnsatisfied)
    );
}

#[test]
fn visibility_safety_and_topology_mutations_stale_interpreter_guards() {
    let mut i = Interp::new();
    let mut seen = 0;
    let mut stale = |i: &Interp| {
        let n = staled(i, GuardDomain::Interpreter);
        let grew = n > seen;
        seen = n;
        grew
    };
    assert_eq!(
        i.hide_command(b"set", Some(Command::Builtin(1)), false, &Some(b("::set")), None),
        CommandVisibilityOutcome::Moved
    );
    assert!(stale(&i));
    let (outcome, back) = i.expose_command(b"set", false, b"::set", &None, None);
    assert_eq!(outcome, CommandVisibilityOutcome::Moved);
    assert!(matches!(back, Some(Command::Builtin(1))));
    assert!(stale(&i));
    assert_eq!(i.create_child(Some(b("child")), false), b"child");
    assert!(stale(&i));
    assert!(i.delete_child(b"child"));
    assert!(stale(&i));
    i.begin_make_safe();
    assert!(stale(&i));
    assert!(matches!(i.end_make_safe(9), Command::ParentAlias { target, .. } if target == b"clock"));
    assert!(i.state.is_safe);
    i.mark_trusted();
    assert!(!i.state.is_safe);
    assert!(stale(&i));
}

fn tcl_8_6() -> DialectProfile {
    DialectProfile { id: 86, version: TclVersion { major: 8, minor: 6 }, fallback: false }
}

#[test]
fn a_child_is_of_the_release_of_its_parent() {
    let mut i = Interp::new();
    assert_eq!(i.dialect_profile(), DialectProfile::lenient());
    assert_eq!(i.runtime_version(), TclVersion { major: 9, minor: 0 });
    i.create_child(Some(b("new")), false);
    i.set_dialect_profile(tcl_8_6());
    i.create_child(Some(b("old")), false);
    assert_eq!(i.children[0].interp.dialect_profile(), DialectProfile::lenient());
    assert_eq!(i.children[1].interp.dialect_profile(), tcl_8_6());
    assert_eq!(i.children[1].interp.runtime_version(), TclVersion { major: 8, minor: 6 });
    assert_eq!(i.set_dialect_profile(DialectProfile::lenient()), ReleaseChange::Rewrite);
    assert_eq!(i.runtime_version(), TclVersion { major: 9, minor: 0 });
}

#[test]
fn child_parent_association_stales_interpreter_guard() {
    let mut i = Interp::new();
    i.create_child(Some(b("child")), false);
    let at = i.find_child(b"child").unwrap();
    let before = staled(&i.children[at].interp, GuardDomain::Interpreter);
    assert!(i.with_child(b"child", &ChildRequest::Visit).is_some());
    assert_eq!(i.children[at].interp.state.eval_active, 0);
    assert_eq!(staled(&i.children[at].interp, GuardDomain::Interpreter), before + 2);
}

#[test]
fn execution_policy_and_runtime_version_mutations_stale_interpreter_guards() {
    let mut i = Interp::new();
    let mut seen = 0;
    let mut stale = |i: &Interp| {
        let n = staled(i, GuardDomain::Interpreter);
        let grew = n > seen;
        seen = n;
        grew
    };
    let host = HostGlobals {
        arrays: vec![],
        paths: vec![],
        library: vec![],
        platform: vec![],
        environment: vec![],
    };
    assert_eq!(i.set_host(&host, &[]).len(), 4);
    assert!(stale(&i));
    assert_eq!(i.bgerror_apply(&Some(b("handler")), 1), Ok(b("handler")));
    assert!(stale(&i));
    assert!(i.debug_apply(&words(&["-frame", "1"]), &Ok(true)).is_ok());
    assert!(stale(&i));
    assert_eq!(i.recursion_limit_apply(&Some(b("250"))), Ok(250));
    assert!(stale(&i));
    let kind = Ok(LimitType::Commands(vec![Ok(CommandsOption::Value)]));
    assert!(i.limit_apply(&kind, &words(&["-value", "100"])).is_ok());
    assert_eq!(i.state.limits.cmd_value, Some(100));
    assert!(stale(&i));
    assert_eq!(i.set_runtime_version(tcl_8_6()), ReleaseChange::Rewrite);
    assert!(stale(&i));
    assert_eq!(i.runtime_version(), TclVersion { major: 8, minor: 6 });
    assert_eq!(i.set_dialect_profile(tcl_8_6()), ReleaseChange::Nothing);
    assert!(!stale(&i));
}

#[test]
fn intrinsics_answer_or_decline() {
    let mut i = Interp::new();
    assert_eq!(i.execute_intrinsic(Intrinsic::StringLength, &[12]), Some(Code::Okay));
    assert_eq!(i.result_bytes(), b"12");
    assert_eq!(i.execute_intrinsic(Intrinsic::StringLength, &[1, 2]), None);
    assert_eq!(i.execute_intrinsic(Intrinsic::Another, &[1]), None);
    assert_eq!(i.result_bytes(), b"12");
}

#[test]
fn a_planted_alias_cycle_errors_instead_of_exhausting_the_stack() {
    let mut i = Interp::new();
    let argv = words(&["loop_a"]);
    let target = || Some(alias("loop_a", &[], 2));
    match i.dispatch_alias(MAX_ALIAS_DISPATCH_DEPTH - 1, target(), true, b"loop_b", &[], &argv) {
        Ok(AliasStep::Invoke { words: ws, .. }) => assert_eq!(ws, words(&["loop_b"])),
        other => panic!("{:?}", other),
    }
    assert!(matches!(
        i.dispatch_alias(MAX_ALIAS_DISPATCH_DEPTH, target(), true, b"loop_b", &[], &argv),
        Err(Code::Error)
    ));
    assert_eq!(i.result_bytes(), b"too many nested alias invocations (infinite loop?)");
}

#[test]
fn unknown_command_is_an_error() {
    let mut i = Interp::new();
    let argv = words(&["frobnicate", "a", "b"]);
    assert!(matches!(i.dispatch_miss(&argv, &None, false), MissStep::Failed));
    assert_eq!(i.result_bytes(), b"invalid command name \"frobnicate\"");
}

/// Calls an alias whose target is missing, in namespace 3, and looks for its
/// words: what `dispatch_miss` makes of them, and the namespace it ran in.
fn call_missing(
    i: &mut Interp,
    prefix: &[&str],
    argv: &[&str],
    handlers: &[(usize, &str)],
    has_unknown: bool,
) -> (MissStep, usize) {
    i.state.current_ns = 3;
    let step = i.dispatch_alias(0, None, true, b"nosuch", &words(prefix), &words(argv));
    let (called, saved) = match step {
        Ok(AliasStep::Fallback { words, saved }) => (words, saved),
        other => panic!("{:?}", other),
    };
    let ran_in = i.state.current_ns;
    let own = |ns: usize| handlers.iter().find(|h| h.0 == ns).map(|h| b(h.1));
    let handler = unknown_handler(ran_in, &own(ran_in), &own(0)).map(|h| vec![h]);
    let miss = i.dispatch_miss(&called, &handler, has_unknown);
    i.end_alias_fallback(saved);
    assert_eq!(i.state.current_ns, 3);
    (miss, ran_in)
}

#[test]
fn missing_alias_target_uses_custom_unknown_with_target_and_args() {
    let mut i = Interp::new();
    match call_missing(&mut i, &[], &["la", "a", "b"], &[], true).0 {
        MissStep::Unknown(ws) => assert_eq!(ws, words(&["unknown", "nosuch", "a", "b"])),
        _ => panic!("no handler"),
    }
}

#[test]
fn missing_alias_target_without_unknown_preserves_target_error_identity() {
    let mut i = Interp::new();
    let (miss, _) = call_missing(&mut i, &[], &["la", "a", "b"], &[], false);
    assert!(matches!(miss, MissStep::Failed));
    assert_eq!(i.result_bytes(), b"invalid command name \"nosuch\"");
}

#[test]
fn missing_alias_target_preserves_prefix_arguments_for_unknown() {
    let mut i = Interp::new();
    match call_missing(&mut i, &["prefix"], &["la", "one", "two"], &[], true).0 {
        MissStep::Unknown(ws) => {
            assert_eq!(ws, words(&["unknown", "nosuch", "prefix", "one", "two"]))
        }
        _ => panic!("no handler"),
    }
}

#[test]
fn missing_alias_target_uses_global_unknown_not_caller_namespace_unknown() {
    let mut i = Interp::new();
    let (miss, ran_in) = call_missing(&mut i, &[], &["la", "x"], &[(3, "u")], true);
    assert_eq!(ran_in, 0);
    match miss {
        MissStep::Unknown(ws) => assert_eq!(ws, words(&["unknown", "nosuch", "x"])),
        _ => panic!("the caller's handler was asked"),
    }
    match call_missing(&mut i, &[], &["la", "x"], &[(3, "u"), (0, "g")], true).0 {
        MissStep::Dispatch(ws) => assert_eq!(ws, words(&["g", "nosuch", "x"])),
        _ => panic!("no handler"),
    }
}

#[test]
fn missing_alias_unknown_cycle_is_bounded() {
    let mut i = Interp::new();
    let params = [
        Param { name: b("cmd"), default: None },
        Param { name: b("args"), default: None },
    ];
    let def = ProcDef {
        params: vec![],
        body: b("la"),
        ns: 0,
        fqn: b("::unknown"),
        source: None,
        body_line_base: 0,
        native: None,
    };
    let meta = call_proc(&def, b"unknown");
    assert!(i.eval_str(1).is_ok());
    let mut depth: u32 = 0;
    let code = loop {
        let step = i.dispatch_alias(depth, None, true, b"nosuch", &[], &words(&["la"]));
        let called = match step {
            Ok(AliasStep::Fallback { words, .. }) => words,
            other => panic!("{:?}", other),
        };
        let call = match i.dispatch_miss(&called, &None, true) {
            MissStep::Unknown(ws) => ws,
            _ => panic!("no handler"),
        };
        assert_eq!(call, words(&["unknown", "nosuch"]));
        assert!(i.begin_call(&params, 0, &call[1..], b"unknown", b"unknown", &meta).is_ok());
        if let Err(code) = i.begin_framed_run(proc_body_frame(&meta, 1, 1), 1) {
            break code;
        }
        depth += 1;
    };
    assert_eq!(code, Code::Error);
    assert_eq!(i.result_bytes(), b"too many nested evaluations (infinite loop?)");
}

#[test]
fn the_release_command_surface_gates_alias_and_import_dispatch() {
    let lassign = || Some(Command::Builtin(5));
    let argv = words(&["la", "a b", "x", "y"]);
    // Without the command, and by a chain of aliases.
    let mut i = Interp::new();
    for (target, resolved, visible) in
        [("lassign", lassign(), false), ("la", Some(alias("lassign", &[], 1)), true)]
    {
        match i.dispatch_alias(0, resolved, visible, target.as_bytes(), &[], &argv) {
            Ok(AliasStep::Invoke { command, words: ws }) => {
                assert_eq!(ws, words(&["la", "a b", "x", "y"]));
                match invoke(&command, false) {
                    Invocation::Alias { target, .. } => assert_eq!(target, b"lassign"),
                    _ => panic!("no alias"),
                }
                match i.dispatch_alias(1, lassign(), false, b"lassign", &[], &ws) {
                    Ok(AliasStep::Fallback { words, .. }) => {
                        assert!(matches!(i.dispatch_miss(&words, &None, false), MissStep::Failed));
                    }
                    other => panic!("{:?}", other),
                }
            }
            Ok(AliasStep::Fallback { words, .. }) => {
                assert!(matches!(i.dispatch_miss(&words, &None, false), MissStep::Failed));
            }
            Err(c) => panic!("{:?}", c),
        }
        assert_eq!(i.result_bytes(), b"invalid command name \"lassign\"");
    }
    // With it.
    match i.dispatch_alias(0, lassign(), true, b"lassign", &[], &argv) {
        Ok(AliasStep::Invoke { words: ws, .. }) => {
            assert_eq!(ws, words(&["lassign", "a b", "x", "y"]))
        }
        other => panic!("{:?}", other),
    }
    // By an import.
    let import = imported("::lassign", None, 3);
    match invoke(&import, false) {
        Invocation::Redirect(source) => assert_eq!(source, b"::lassign"),
        _ => panic!("no import"),
    }
    assert!(i.dispatch_import(b"::lassign", lassign(), true).is_ok());
    assert!(i.dispatch_import(b"::lassign", lassign(), false).is_err());
    assert_eq!(i.result_bytes(), b"invalid command name \"::lassign\"");
    // By its own name.
    assert!(i.resolve_dispatchable(lassign(), false).is_none());
    let direct = words(&["lassign", "a b", "x", "y"]);
    assert!(matches!(i.dispatch_miss(&direct, &None, false), MissStep::Failed));
    assert_eq!(i.result_bytes(), b"invalid command name \"lassign\"");
    assert!(i.resolve_dispatchable(lassign(), true).is_some());
}

#[test]
fn the_release_command_surface_gates_rename_and_hide() {
    let lassign = || Some(Command::Builtin(5));
    let mut i = Interp::new();
    let carried = i.resolve_dispatchable(lassign(), false).is_some();
    assert!(matches!(
        rename_command(false, None, true, carried, b"lz"),
        RenameStep::Refused(RenameOutcome::NoSuchCommand)
    ));
    assert!(matches!(
        i.dispatch_miss(&words(&["lz", "a b", "x", "y"]), &None, false),
        MissStep::Failed
    ));
    assert_eq!(i.result_bytes(), b"invalid command name \"lz\"");
    let hide = |i: &mut Interp, visible: bool| {
        let resolved = i.resolve_dispatchable(lassign(), visible);
        let outcome = i.hide_command(b"lassign", resolved, false, &Some(b("::lassign")), None);
        let op = CommandVisibilityOp::Hide;
        i.finish_command_visibility(op, b"lassign", b"lassign", b"lassign", outcome)
    };
    assert_eq!(hide(&mut i, false), Code::Error);
    assert_eq!(i.result_bytes(), b"unknown command \"lassign\"");
    assert_eq!(i.invoke_hidden(b"lassign"), Err(Code::Error));
    assert_eq!(i.result_bytes(), b"invalid hidden command name \"lassign\"");
    assert_eq!(hide(&mut i, false), Code::Error);
    assert_eq!(i.result_bytes(), b"unknown command \"lassign\"");
    let carried = i.resolve_dispatchable(lassign(), true).is_some();
    assert!(matches!(rename_command(false, None, true, carried, b"lz"), RenameStep::Move));
    assert_eq!(hide(&mut i, true), Code::Okay);
    assert_eq!(i.invoke_hidden(b"lassign"), Ok(0));
}

#[test]
fn release_hidden_alias_target_uses_unknown_under_tcl84() {
    let mut i = Interp::new();
    let argv = words(&["la", "a b", "x", "y"]);
    let hidden = Some(Command::Builtin(5));
    let called = match i.dispatch_alias(0, hidden, false, b"lassign", &[], &argv) {
        Ok(AliasStep::Fallback { words, .. }) => words,
        other => panic!("{:?}", other),
    };
    match i.dispatch_miss(&called, &None, true) {
        MissStep::Unknown(ws) => {
            assert_eq!(ws, words(&["unknown", "lassign", "a b", "x", "y"]))
        }
        _ => panic!("no handler"),
    }
}

#[test]
fn an_unknown_that_is_unknown_is_an_error() {
    let mut i = Interp::new();
    let argv = words(&["unknown", "x"]);
    assert!(matches!(i.dispatch_miss(&argv, &Some(words(&["h"])), true), MissStep::Failed));
    assert_eq!(i.result_bytes(), b"invalid command name \"unknown\"");
    match i.dispatch_miss(&words(&["x", "y"]), &Some(words(&["h", "1"])), true) {
        MissStep::Dispatch(ws) => assert_eq!(ws, words(&["h", "1", "x", "y"])),
        _ => panic!("no handler"),
    }
    assert_eq!(unknown_handler(3, &Some(b("own")), &Some(b("all"))), Some(b("own")));
    assert_eq!(unknown_handler(3, &None, &Some(b("all"))), Some(b("all")));
}

#[test]
fn cross_interpreter_calls_are_bounded() {
    let mut i = Interp::new();
    let argv = words(&["x", "1"]);
    assert_eq!(i.dispatch_parent_alias(false, 0, b"t", &[], &argv).err(), Some(Code::Error));
    assert_eq!(
        i.result_bytes(),
        b"cannot invoke a parent alias from the root interpreter"
    );
    assert_eq!(i.dispatch_parent_alias(true, 80, b"t", &[], &argv).err(), Some(Code::Error));
    assert_eq!(i.result_bytes(), b"too many nested cross-interpreter calls");
    assert_eq!(
        i.dispatch_parent_alias(true, 79, b"t", &words(&["p"]), &argv).ok(),
        Some(words(&["t", "p", "1"]))
    );
}

#[test]
fn names_are_qualified() {
    assert_eq!(fqn_for(b"::", b"x"), b"::x");
    assert_eq!(fqn_for(b"::n", b"x"), b"::n::x");
    assert_eq!(fqn_for(b"::n", b":::a::::b"), b"::a::b");
}

#[test]
fn renaming_is_refused_in_order() {
    assert_eq!(
        rename_command(true, Some(false), true, false, b"new"),
        RenameStep::Refused(RenameOutcome::AliasLoop)
    );
    assert_eq!(
        rename_command(false, Some(false), true, false, b"new"),
        RenameStep::Refused(RenameOutcome::TargetExists)
    );
    assert_eq!(
        rename_command(false, Some(true), true, false, b"new"),
        RenameStep::Refused(RenameOutcome::NoSuchCommand)
    );
    assert_eq!(rename_command(false, None, true, true, b""), RenameStep::Delete);
    assert_eq!(rename_command(false, None, false, false, b"new"), RenameStep::Move);
    assert_eq!(deletion_outcome(true, true), RenameOutcome::Deleted);
    assert_eq!(deletion_outcome(false, false), RenameOutcome::NoSuchCommand);
}

#[test]
fn a_replaced_entry_is_another_command() {
    let a = Some(alias("t", &[], 1));
    let again = Some(alias("t", &[], 1));
    let other = Some(alias("t", &[], 2));
    assert!(entry_is_due(&a, &again));
    assert!(!entry_is_due(&a, &other));
    assert!(entry_is_due(&a, &None));
    assert!(!entry_is_due(&Some(imported("::s", None, 1)), &None));
    assert!(alias("t", &[], 1).is_same_binding(&alias("u", &["p"], 1)));
    assert!(!Command::Builtin(1).is_same_binding(&Command::Builtin(2)));
}

#[test]
fn hiding_and_exposing_are_refused() {
    let mut i = Interp::new();
    assert_eq!(
        i.hide_command(b"x", None, false, &None, None),
        CommandVisibilityOutcome::Missing
    );
    assert_eq!(
        i.hide_command(b"x", Some(Command::Builtin(1)), true, &None, None),
        CommandVisibilityOutcome::NonGlobal
    );
    assert_eq!(
        i.hide_command(b"x", Some(Command::Builtin(1)), false, &None, None),
        CommandVisibilityOutcome::Moved
    );
    assert!(i.is_hidden(b"x"));
    assert_eq!(i.hidden_names(), words(&["x"]));
    assert_eq!(
        i.hide_command(b"x", Some(Command::Builtin(2)), false, &None, None),
        CommandVisibilityOutcome::Collision
    );
    assert_eq!(i.expose_command(b"y", false, b"::y", &None, None).0, CommandVisibilityOutcome::Missing);
    assert_eq!(i.expose_command(b"x", true, b"::x", &None, None).0, CommandVisibilityOutcome::Collision);
    assert_eq!(i.invoke_hidden(b"x"), Ok(0));
    assert_eq!(i.invoke_hidden(b"nope"), Err(Code::Error));
    assert_eq!(i.result_bytes(), b"invalid hidden command name \"nope\"");
    let c = i.finish_command_visibility(
        CommandVisibilityOp::Hide,
        b"x",
        b"x",
        b"x",
        CommandVisibilityOutcome::Collision,
    );
    assert_eq!(c, Code::Error);
    assert_eq!(i.result_bytes(), b"hidden command named \"x\" already exists");
    assert_eq!(i.error_code(), b"TCL HIDE ALREADY_HIDDEN");
    i.finish_command_visibility(
        CommandVisibilityOp::Expose,
        b"z",
        b"z",
        b"z",
        CommandVisibilityOutcome::Missing,
    );
    assert_eq!(i.result_bytes(), b"unknown hidden command \"z\"");
    assert_eq!(i.error_code(), b"TCL LOOKUP HIDDENTOKEN z");
}

fn imported(source: &str, ensemble: Option<u64>, id: u64) -> Command {
    Command::Imported { source: b(source), ensemble, import: ImportToken { id } }
}

#[test]
fn hidden_imports_lose_their_source() {
    let mut i = Interp::new();
    i.state.hidden.push(HiddenCommand { name: b("a"), command: imported("::src", None, 1) });
    i.state.hidden.push(HiddenCommand { name: b("b"), command: imported("::other", Some(7), 2) });
    i.state.hidden.push(HiddenCommand {
        name: b("c"),
        command: Command::Ensemble { token: 7, ns: 4 },
    });
    let victims = i.hidden_imports_of(&words(&["::src"]), &[7]);
    let shown: Vec<(Vec<u8>, u64)> =
        victims.iter().map(|v| (v.fqn.clone(), v.identity.id)).collect();
    assert_eq!(shown, vec![(b("::a"), 1), (b("::b"), 2)]);
    assert_eq!(i.hidden_ensembles_of(&[4], &[]).len(), 1);
    assert_eq!(i.hidden_ensembles_of(&[4], &[7]).len(), 0);
    i.retarget_imports_to_ensemble(b"::src", Some(7), 8);
    assert!(matches!(
        &i.state.hidden[1].command,
        Command::Imported { source, ensemble: Some(8), .. } if source == b"::src"
    ));
    let key = HiddenKey::Import(ImportToken { id: 1 });
    assert_eq!(i.remove_hidden(key), Some(b("::a")));
    assert_eq!(i.remove_hidden(key), None);
}

fn victim(fqn: &str, id: u64) -> ImportVictim {
    ImportVictim { fqn: b(fqn), identity: ImportToken { id } }
}

#[test]
fn imports_of_what_is_gone_go_round_by_round() {
    let mut i = Interp::new();
    i.state.hidden.push(HiddenCommand { name: b("h"), command: imported("::src", None, 2) });
    i.state.hidden.push(HiddenCommand { name: b("k"), command: imported("::moved", None, 3) });
    let trace = |id: u64, name: &str| CmdTrace { id, name: b(name), ..unwatched() };
    i.state.traces.cmd_traces = vec![trace(1, "::moved"), trace(2, "::v"), trace(3, "::z")];
    let mut sweep = ImportSweep::begin(words(&["::src"]), vec![]);
    assert!(matches!(sweep.action(), ImportAction::Look));
    // The visible import comes before the hidden one, and fires before it goes.
    sweep.looked(&i, vec![victim("::v", 1)]);
    assert!(matches!(sweep.action(), ImportAction::Fire(f) if f == b"::v"));
    sweep.fired();
    assert!(matches!(sweep.action(), ImportAction::Take(ImportToken { id: 1 })));
    // It was moved by a callback: its traces there go unfired.
    i.take_import(&mut sweep, Some(b("::moved")));
    let left: Vec<u64> = i.state.traces.cmd_traces.iter().map(|t| t.id).collect();
    assert_eq!(left, vec![2, 3]);
    assert!(matches!(sweep.action(), ImportAction::Fire(f) if f == b"::h"));
    sweep.fired();
    i.take_import(&mut sweep, None);
    assert_eq!(sweep.origins, words(&["::src", "::moved", "::h"]));
    assert_eq!(i.hidden_names(), words(&["k"]));
    // What imported the import is next.
    assert!(matches!(sweep.action(), ImportAction::Look));
    sweep.looked(&i, vec![]);
    assert!(matches!(sweep.action(), ImportAction::Fire(f) if f == b"::k"));
    sweep.fired();
    i.take_import(&mut sweep, None);
    assert!(i.hidden_names().is_empty());
    sweep.looked(&i, vec![victim("::gone", 9)]);
    sweep.fired();
    i.take_import(&mut sweep, None);
    assert!(matches!(sweep.action(), ImportAction::Over));
}

#[test]
fn an_import_of_nothing_is_an_invalid_name() {
    let mut i = Interp::new();
    assert!(matches!(
        i.dispatch_import(b"::src", Some(Command::ChildInterp(b("c"))), true),
        Ok(Command::ChildInterp(_))
    ));
    assert!(matches!(
        i.dispatch_import(b"::src", Some(Command::Builtin(1)), false),
        Err(Code::Error)
    ));
    assert_eq!(i.result_bytes(), b"invalid command name \"::src\"");
    assert!(matches!(i.dispatch_import(b"::x", None, true), Err(Code::Error)));
    assert_eq!(i.result_bytes(), b"invalid command name \"::x\"");
}

#[test]
fn a_retired_ensemble_loses_its_traces_where_it_stood() {
    let mut i = Interp::new();
    let trace = |id: u64, name: &str| CmdTrace { id, name: b(name), ..unwatched() };
    i.state.traces.cmd_traces = vec![trace(1, "::e"), trace(2, "::h")];
    assert_eq!(i.on_command_replaced(b"::h"), Displacement::FireDelete);
    assert_eq!(i.on_command_replaced(b"::other"), Displacement::Silent);
    assert_eq!(i.on_bound_command_replaced(b"::h", None), Displacement::Silent);
    i.state.hidden.push(HiddenCommand {
        name: b("h"),
        command: Command::Ensemble { token: 7, ns: 4 },
    });
    assert_eq!(i.retire_ensemble_identity(b"::e", None, 7), Some(b("::h")));
    assert!(i.state.hidden.is_empty());
    assert_eq!(i.state.traces.cmd_traces.len(), 1);
    assert_eq!(i.state.traces.cmd_traces[0].id, 1);
    assert_eq!(i.retire_ensemble_identity(b"::e", None, 7), None);
    assert_eq!(i.retire_ensemble_identity(b"::e", Some(b("::e")), 8), Some(b("::e")));
    assert_eq!(i.state.traces.cmd_traces.len(), 1);
}

#[test]
fn import_chains_are_followed_and_bounded() {
    let e = Command::Ensemble { token: 5, ns: 0 };
    assert!(matches!(ensemble_hop(0, &e, false), ImportHop::Ensemble(5)));
    assert!(matches!(
        ensemble_hop(0, &imported("::s", Some(6), 1), false),
        ImportHop::Ensemble(6)
    ));
    assert!(matches!(
        ensemble_hop(0, &imported("::s", Some(6), 1), true),
        ImportHop::Follow(s) if s == b"::s"
    ));
    assert!(matches!(ensemble_hop(MAX_IMPORT_HOPS, &e, false), ImportHop::Stop));
    assert!(matches!(proc_hop(0, &imported("::s", None, 1), false), ImportHop::Follow(_)));
    assert!(matches!(proc_hop(0, &Command::Builtin(1), false), ImportHop::Stop));
    assert_eq!(
        origin_hop(0, &Some(imported("::s", None, 1)), &None),
        Some(b("::s"))
    );
    assert_eq!(origin_hop(0, &Some(Command::Builtin(1)), &None), None);
    let path = words(&["a", "b"]);
    assert_eq!(alias_target_path(&path, &Some(alias("t", &[], 1))), Some(path.clone()));
    let up = Command::ParentAlias { target: b("t"), prefix: vec![], identity: 1 };
    assert_eq!(alias_target_path(&path, &Some(up)), Some(words(&["a"])));
    assert_eq!(alias_target_path(&path, &None), None);
}

#[test]
fn command_types() {
    assert_eq!(cmdtype(&Some(Command::Builtin(1)), false, &None), Some(b("native")));
    assert_eq!(cmdtype(&Some(Command::Builtin(1)), true, &None), Some(b("coroutine")));
    assert_eq!(cmdtype(&Some(alias("t", &[], 1)), false, &None), Some(b("alias")));
    assert_eq!(cmdtype(&Some(imported("::s", None, 1)), false, &None), Some(b("import")));
    assert_eq!(cmdtype(&None, false, &None), None);
    let entries = vec![
        NamedCommand { name: b("z"), command: Some(imported("::s", None, 1)), visible: true },
        NamedCommand { name: b("a"), command: Some(imported("::s", None, 2)), visible: true },
        NamedCommand { name: b("m"), command: Some(Command::Builtin(1)), visible: false },
    ];
    assert_eq!(imported_command_tails(&entries), words(&["a", "z"]));
    assert_eq!(Interp::new().visible_command_names_in(&entries), words(&["z", "a"]));
}

#[test]
fn the_release_gates_its_own_commands_only() {
    let mut i = Interp::new();
    i.declare_registry_object_root(b"::oo::configurable");
    assert!(i.is_gate_hidden_object_root(b"::oo::configurable", false));
    assert!(!i.is_gate_hidden_object_root(b"::oo::configurable", true));
    let root = Command::OoObject(b("::oo::configurable"));
    assert!(i.is_release_gated(&root));
    assert!(i.resolve_dispatchable(Some(root), false).is_none());
    assert!(i.resolve_dispatchable(Some(alias("t", &[], 1)), false).is_some());
    i.ns_register(b"::oo::configurable");
    assert!(!i.is_gate_hidden_object_root(b"::oo::configurable", false));
    assert!(i.builtin_command_visible_for_surface(b"lpop", true, true, false));
    i.set_dialect_profile(tcl_8_6());
    assert!(i.builtin_command_visible_for_surface(&[0xff], false, true, false));
    assert!(!i.builtin_command_visible_for_surface(b"lpop", true, true, false));
    assert!(!i.builtin_command_visible_for_surface(b"lpop", false, true, true));
    assert!(i.builtin_command_visible_for_surface(b"lpop", true, true, true));
    assert!(i.profile_admits_registry_builtin(false, false));
    assert!(!i.profile_admits_registry_builtin(true, false));
}

#[test]
fn calls_go_where_the_command_leads() {
    assert!(matches!(invoke(&Command::Builtin(4), false), Invocation::Native(4)));
    assert!(matches!(
        invoke(&imported("::s", Some(6), 1), false),
        Invocation::Ensemble(6)
    ));
    assert!(matches!(
        invoke(&imported("::s", Some(6), 1), true),
        Invocation::Redirect(s) if s == b"::s"
    ));
    assert!(matches!(
        invoke(&alias("t", &["p"], 1), false),
        Invocation::Alias { target, prefix } if target == b"t" && prefix == words(&["p"])
    ));
    assert!(matches!(
        invoke(&Command::ChildInterp(b("c")), false),
        Invocation::Child(n) if n == b"c"
    ));
    assert_eq!(alias_info(&Some(alias("t", &["p"], 1))), Some((b("t"), words(&["p"]))));
    assert_eq!(alias_info(&Some(Command::Builtin(1))), None);
    assert_eq!(
        import_metadata_at(Some(b("::e")), &Some(Command::Ensemble { token: 3, ns: 0 })),
        Some((b("::e"), Some(3)))
    );
    assert_eq!(
        import_metadata_at(Some(b("::e")), &Some(Command::Builtin(3))),
        Some((b("::e"), None))
    );
    assert_eq!(import_metadata_at(None, &None), None);
}

#[test]
fn procedures_keep_their_place() {
    let mut i = Interp::new();
    let loc = Some(Location { file: Some(b("f.tcl")), line: 12 });
    let def: ProcDef = i.define_proc_native(3, b"::n", b"p", vec![], b"body", &loc, Some(5));
    assert_eq!(def.fqn, b"::n::p");
    assert_eq!(def.source, Some(b("f.tcl")));
    assert_eq!(def.body_line_base, 11);
    let meta = call_proc(&def, b"p");
    assert_eq!(meta.fqn, Some(b("::n::p")));
    assert_eq!(meta.native, Some(5));
    assert!(meta.quote_name && !meta.keep_loop_codes);
    let params = vec![Param { name: b("x"), default: None }];
    let dynamic = i.define_proc_native(0, b"::", b"q", params, b"", &None, None);
    assert_eq!(dynamic.fqn, b"::q");
    assert_eq!(dynamic.source, None);
    assert_eq!(dynamic.body_line_base, 0);
    assert_eq!(i.bind_command_replacement(b"::q", Some(1)), Displacement::Silent);
}

#[test]
fn an_alias_loop_is_refused_by_name() {
    let mut i = Interp::new();
    assert_eq!(i.install_alias(&Some(b("x")), true), Err(b("x")));
    assert_eq!(i.install_alias(&Some(b("x")), false), Ok(()));
    assert_eq!(i.install_alias(&None, true), Ok(()));
    let staled_before = staled(&i, GuardDomain::CommandEnvironment);
    i.begin_delete_command();
    assert_eq!(staled(&i, GuardDomain::CommandEnvironment), staled_before + 1);
    let sweep = i.delete_command(&Some(b("::e")), Some(4), true).unwrap();
    assert_eq!(sweep.origins, words(&["::e"]));
    assert_eq!(sweep.tokens, vec![4]);
    assert!(i.delete_command(&Some(b("::e")), None, false).is_none());
    let made = i.create_ensemble(b"::n", b"e", &Some(Command::Ensemble { token: 2, ns: 1 }));
    assert_eq!(made.fqn, b"::n::e");
    assert_eq!(made.retire, Some(2));
    assert_eq!(made.displaced, Displacement::Silent);
    i.state.traces.cmd_traces.push(CmdTrace { name: b("::n::e"), ..unwatched() });
    let made = i.create_ensemble(b"::n", b"e", &None);
    assert_eq!(made.retire, None);
    assert_eq!(made.displaced, Displacement::FireDelete);
}

#[test]
fn the_library_is_found_or_missed() {
    let mut i = Interp::new();
    assert_eq!(init_path(b"/lib"), b"/lib/init.tcl");
    assert_eq!(i.init_library(b"/lib", None).err(), Some(Code::Error));
    assert_eq!(i.result_bytes(), b"can't find /lib/init.tcl (set TCL_LIBRARY)");
    assert!(i.init_library(b"/lib", Some(2)).is_ok());
    assert_eq!(i.current_script(), b"/lib/init.tcl");
}

#[test]
fn numbers_belong_to_names() {
    let mut a = CmdArena::new();
    assert_eq!(a.intern_cmd(b"::set"), 0);
    assert_eq!(a.intern_cmd(b"::incr"), 1);
    assert_eq!(a.intern_cmd(b"::set"), 0);
    assert_eq!(a.find_command_id(&Some(b("::list"))), Some(2));
    assert_eq!(a.find_command_id(&None), None);
    assert_eq!(a.command_fqn(1), Some(b("::incr")));
    assert_eq!(a.command_fqn(3), None);
}

fn config(map: Option<Vec<MapEntry>>, subs: Option<Vec<Vec<u8>>>, unknown: &[&str]) -> EnsembleConfig {
    EnsembleConfig {
        ns: 1,
        subcommands: subs,
        map,
        prefixes: true,
        parameters: vec![],
        unknown: words(unknown),
    }
}

#[test]
fn ensembles_forward_their_words() {
    let mut i = Interp::new();
    let argv = words(&["e", "sub", "1"]);
    let layout = Some(Layout { parameters_from: 1, parameters_to: 1, subcommand: 1, arguments: 2 });
    let subs = words(&["subcommand"]);
    let cfg = config(None, None, &[]);
    match i.dispatch_ensemble(&cfg, &argv, &layout, &subs, Some(0), b"::e", false, &[], b"", b"") {
        EnsembleStep::Target { prefix, source, default_name } => {
            assert_eq!(prefix, words(&["::e::subcommand"]));
            assert_eq!(source, words(&["e", "subcommand", "1"]));
            assert_eq!(default_name, Some(b("subcommand")));
        }
        _ => panic!("no target"),
    }
    let miss = b"unknown subcommand \"x\"";
    let step =
        i.dispatch_ensemble(&cfg, &argv, &layout, &subs, None, b"::e", false, &[], b"x", miss);
    assert!(matches!(step, EnsembleStep::Failed));
    assert_eq!(i.result_bytes(), miss);
    assert_eq!(i.error_code(), b"TCL LOOKUP SUBCOMMAND x");
    let asking = config(None, None, &["h"]);
    let step =
        i.dispatch_ensemble(&asking, &argv, &layout, &subs, None, b"::e", false, &[], b"x", miss);
    assert!(matches!(step, EnsembleStep::AskUnknown));
    let step =
        i.dispatch_ensemble(&asking, &argv, &layout, &subs, None, b"::e", true, &[], b"x", miss);
    assert!(matches!(step, EnsembleStep::Failed));
    assert_eq!(
        unknown_handler_words(&words(&["h"]), b"::e", &argv),
        words(&["h", "::e", "sub", "1"])
    );
}

#[test]
fn ensemble_subcommands_come_from_the_first_source() {
    let entry = MapEntry { key: b("m"), prefix: words(&["::t"]) };
    let exported = words(&["z", "a"]);
    let both = config(Some(vec![entry]), Some(words(&["s", "r"])), &[]);
    assert_eq!(ensemble_subcommands(&both, &exported), words(&["r", "s"]));
    let none = config(None, None, &[]);
    assert_eq!(ensemble_subcommands(&none, &exported), words(&["a", "z"]));
}

#[test]
fn unknown_handlers_are_judged() {
    let gone = DeletedMessages { message: b("gone"), code: b("TCL GONE") };
    let mut i = Interp::new();
    let reply = |ws: Vec<Vec<u8>>| HandlerResult { deleted: false, split: Ok(ws) };
    assert!(matches!(
        i.ensemble_unknown_okay(reply(words(&["::t", "p"])), &gone),
        EnsembleUnknown::Prefix(p) if p == words(&["::t", "p"])
    ));
    assert!(matches!(i.ensemble_unknown_okay(reply(vec![]), &gone), EnsembleUnknown::Reparse));
    let dead = HandlerResult { deleted: true, split: Ok(vec![]) };
    assert!(matches!(i.ensemble_unknown_okay(dead, &gone), EnsembleUnknown::Failed(Code::Error)));
    assert_eq!(i.result_bytes(), b"gone");
    let bad = HandlerResult {
        deleted: false,
        split: Err((ListError::UnmatchedBrace, b("unmatched open brace in list"))),
    };
    assert!(matches!(i.ensemble_unknown_okay(bad, &gone), EnsembleUnknown::Failed(Code::Error)));
    assert_eq!(i.error_code(), b"TCL VALUE LIST BRACE");
    assert!(matches!(
        i.ensemble_unknown_bad_code(Code::Break, b"h ::e x"),
        EnsembleUnknown::Failed(Code::Error)
    ));
    assert_eq!(i.result_bytes(), b"unknown subcommand handler returned bad code: break");
    assert_eq!(i.error_code(), b"TCL ENSEMBLE UNKNOWN_RESULT");
}

#[test]
fn nested_rewrites_keep_the_written_words() {
    let mut i = Interp::new();
    assert!(i.begin_ensemble_rewrite(words(&["e", "s", "x"]), 2, 1));
    assert!(!i.begin_ensemble_rewrite(words(&["t", "x"]), 1, 3));
    {
        let r = i.state.ensemble_rewrite.as_ref().unwrap();
        assert_eq!(r.source, words(&["e", "s", "x"]));
        assert_eq!((r.removed, r.inserted), (2, 3));
    }
    i.clear_ensemble_rewrite();
    assert!(i.state.ensemble_rewrite.is_none());
}
