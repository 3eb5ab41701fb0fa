use tcl_runtime::cmd_traces::{cmd_callback_operands, cmd_trace_owned_by, CmdEvent, ExecEvent};
use tcl_runtime::code::Code;
use tcl_runtime::definitions::Displacement;
use tcl_runtime::exec_traces::{first_phase, next_phase, step_callback_done, DispatchPhase};
use tcl_runtime::state::{GuardDomain, Interp};
use tcl_runtime::teardown::{
    group_newest_first_per_entity, simple_tail, Local, UnsetPhase, UnsetTarget,
};
use tcl_runtime::traces::{
    shown_variable, trace_access, CmdOps, CmdTrace, SlotFlag, TeardownCallback, TraceAccess,
    TraceHome, VarOp, VarOps, VarTrace,
};
use tcl_runtime::variables::{
    callback_op_word, callback_script, resolve_var_target, var_callback_operands, StoreError,
};

fn b(s: &str) -> Vec<u8> {
    s.as_bytes().to_vec()
}

fn ops(s: &str) -> VarOps {
    VarOps {
        read: s.contains('r'),
        write: s.contains('w'),
        unset: s.contains('u'),
        array: s.contains('a'),
    }
}

fn trace(id: u64, base: &str, elem: Option<&str>, watched: &str, command: &str) -> VarTrace {
    VarTrace {
        id,
        base: b(base),
        elem: elem.map(b),
        ns: Some(0),
        frame_level: None,
        ops: ops(watched),
        command: b(command),
        old_style: false,
    }
}

fn home(base: &str) -> TraceHome {
    TraceHome { ns: Some(0), level: None, base: b(base), link_elem: None }
}

fn access(base: &str, elem: Option<&str>) -> TraceAccess {
    let e = elem.map(b);
    trace_access(base.as_bytes(), base.as_bytes(), &e, &home(base), false, true)
}

/// The callbacks that an access fires, in order.
fn fired(i: &mut Interp, base: &str, elem: Option<&str>, op: VarOp) -> Vec<String> {
    let a = access(base, elem);
    let mut out = Vec::new();
    if let Some(mut f) = i.begin_var_firing(&home(base), &a, op) {
        while let Some(c) = i.next_var_callback(&mut f) {
            out.push(String::from_utf8(c.command).unwrap());
        }
        i.end_var_firing(f);
    }
    out
}

#[test]
fn array_traces_fire_before_those_of_the_element_newest_first() {
    let mut i = Interp::new();
    i.state.traces.traces.push(trace(1, "a", None, "w", "A1"));
    i.state.traces.traces.push(trace(2, "a", Some("k"), "w", "E1"));
    i.state.traces.traces.push(trace(3, "a", None, "w", "A2"));
    i.state.traces.traces.push(trace(4, "a", Some("k"), "w", "E2"));
    i.state.traces.traces.push(trace(5, "a", Some("other"), "w", "X"));
    i.state.traces.traces.push(trace(6, "a", None, "r", "R"));
    assert_eq!(fired(&mut i, "a", Some("k"), VarOp::Write), ["A2", "A1", "E2", "E1"]);
    assert_eq!(fired(&mut i, "a", None, VarOp::Write), ["A2", "A1"]);
    assert_eq!(fired(&mut i, "a", None, VarOp::Read), ["R"]);
    assert!(fired(&mut i, "b", None, VarOp::Write).is_empty());
}

#[test]
fn a_callback_fires_nothing_on_its_own_variable() {
    let mut i = Interp::new();
    i.state.traces.traces.push(trace(1, "v", None, "w", "cb"));
    i.state.traces.traces.push(trace(2, "w", None, "w", "other"));
    i.set_result_bytes(b"mine");
    let a = access("v", None);
    let mut f = i.begin_var_firing(&home("v"), &a, VarOp::Write).unwrap();
    assert!(i.next_var_callback(&mut f).is_some());
    assert!(i.begin_var_firing(&home("v"), &a, VarOp::Write).is_none());
    assert_eq!(fired(&mut i, "w", None, VarOp::Write), ["other"]);
    i.set_result_bytes(b"callback's");
    i.end_var_firing(f);
    assert_eq!(i.result_bytes(), b"mine");
    assert!(i.state.traces.active_var_scopes.is_empty());
}

#[test]
fn a_trace_that_was_removed_does_not_fire() {
    let mut i = Interp::new();
    i.state.traces.traces.push(trace(1, "v", None, "w", "old"));
    i.state.traces.traces.push(trace(2, "v", None, "w", "new"));
    let a = access("v", None);
    let mut f = i.begin_var_firing(&home("v"), &a, VarOp::Write).unwrap();
    assert_eq!(i.next_var_callback(&mut f).unwrap().command, b"new");
    i.state.traces.traces.remove(0);
    assert!(i.next_var_callback(&mut f).is_none());
}

#[test]
fn a_failing_callback_fails_the_access() {
    let mut i = Interp::new();
    i.state.traces.traces.push(trace(1, "v", None, "rw", "cb"));
    let a = access("v", Some("k"));
    i.error(b"no");
    assert!(!i.var_callback_done(VarOp::Unset, &a, Code::Error));
    assert!(!i.var_callback_done(VarOp::Read, &a, Code::Return));
    assert!(i.var_callback_done(VarOp::Read, &a, Code::Error));
    assert_eq!(
        i.fire_read_trace(b"v", &None, &Some(b("k")), true),
        Some(Code::Error)
    );
    assert_eq!(i.result_bytes(), b"can't read \"v(k)\": no");
    assert_eq!(i.error_code(), b"TCL READ VARNAME");
    assert_eq!(i.error_info(), b"no\n    (read trace on \"v(k)\")");
    assert_eq!(i.state.traces.pending_err, None);
    assert_eq!(i.fire_read_trace(b"v", &None, &None, false), None);
}

#[test]
fn access_errors_have_their_verbs() {
    let mut i = Interp::new();
    i.var_trace_error(b"x", VarOp::Write, b"why");
    assert_eq!(i.result_bytes(), b"can't set \"x\": why");
    assert_eq!(i.error_code(), b"TCL WRITE VARNAME");
    i.state.traces.pending_err = Some(b("why"));
    assert_eq!(i.fire_array_trace(b"a", true), Some(Code::Error));
    assert_eq!(i.result_bytes(), b"can't trace array \"a\": why");
    assert_eq!(i.fire_array_trace(b"a", false), None);
    i.state.traces.pending_err = Some(b("why"));
    assert_eq!(
        i.fire_var_traces_for(b"x", VarOp::Write, true),
        Some(b("can't set \"x\": why"))
    );
    assert_eq!(i.fire_var_traces_for(b"x", VarOp::Read, false), None);
    i.state.traces.pending_err = Some(b("why"));
    assert_eq!(i.fire_var_traces_for(b"a", VarOp::Array, true), None);
    assert_eq!(i.state.traces.pending_err, None);
    assert_eq!(shown_variable(b"a", &Some(b("k"))), b"a(k)");
}

#[test]
fn array_traces_fire_for_arrays_and_for_nothing() {
    let mut i = Interp::new();
    assert!(!i.array_trace_due(&None, true, true));
    i.state.traces.traces.push(trace(1, "a", None, "a", "cb"));
    assert!(i.array_trace_due(&None, true, true));
    assert!(i.array_trace_due(&None, false, false));
    assert!(!i.array_trace_due(&None, false, true));
    assert!(!i.array_trace_due(&Some(b("k")), true, true));
}

#[test]
fn a_read_for_update_swallows_the_error() {
    let mut i = Interp::new();
    assert_eq!(i.read_for_update(false, Some(b("1"))), Some(b("1")));
    i.state.traces.pending_err = Some(b("why"));
    assert_eq!(i.read_for_update(true, Some(b("1"))), None);
    assert_eq!(i.state.traces.pending_err, None);
    assert_eq!(i.var_set(true, true), Err(StoreError::TraceError));
    assert_eq!(i.var_set(false, true), Err(StoreError::Refused));
    assert_eq!(i.var_set(true, false), Ok(()));
    i.set_result_bytes(b"before");
    assert_eq!(
        i.store_var_result(Err(StoreError::Refused), &Some(b("v"))),
        Err(StoreError::Refused)
    );
    assert_eq!(i.result_bytes(), b"before");
    assert_eq!(i.store_var_result(Ok(()), &Some(b("v"))), Ok(()));
    assert_eq!(i.result_bytes(), b"v");
    assert_eq!(i.store_var_result(Ok(()), &None), Ok(()));
    assert_eq!(i.result_bytes(), b"");
}

#[test]
fn a_callback_that_removed_the_last_trace_still_fails_the_access() {
    let mut i = Interp::new();
    i.state.traces.traces.push(trace(1, "x", None, "rw", "cb"));
    let access = trace_access(b"x", b"x", &None, &home("x"), false, true);
    let mut f = i.begin_var_firing(&home("x"), &access, VarOp::Read).unwrap();
    assert!(i.next_var_callback(&mut f).is_some());
    i.state.traces.traces.clear();
    i.error(b"why");
    assert!(i.var_callback_done(VarOp::Read, &access, Code::Error));
    i.end_var_firing(f);
    assert!(!i.has_var_traces());
    assert_eq!(i.fire_read_trace(b"x", &None, &None, true), Some(Code::Error));
    assert_eq!(i.result_bytes(), b"can't read \"x\": why");
    assert_eq!(i.state.traces.pending_err, None);
    assert_eq!(i.var_set(true, true), Err(StoreError::TraceError));
    i.state.traces.pending_err = Some(b("why"));
    assert_eq!(i.read_for_update(true, Some(b("1"))), None);
    assert_eq!(i.state.traces.pending_err, None);
}

#[test]
fn constants_are_not_written() {
    let mut i = Interp::new();
    assert_eq!(i.const_write_check(b"c", false, true), Some(Code::Error));
    assert_eq!(i.result_bytes(), b"can't set \"c\": variable is a constant");
    assert_eq!(i.const_write_check(b"c(k)", true, true), None);
    assert_eq!(i.const_write_check(b"c", false, false), None);
    assert_eq!(resolve_var_target(3, b"x", false, None), Some((3, b("x"))));
    assert_eq!(resolve_var_target(3, b"::n::x", true, None), None);
}

#[test]
fn callbacks_are_told_what_happened() {
    assert_eq!(callback_op_word(VarOp::Unset, false), b"unset");
    assert_eq!(callback_op_word(VarOp::Unset, true), b"u");
    assert_eq!(callback_op_word(VarOp::Array, true), b"a");
    assert_eq!(callback_script(b"cb 1", b"x {} unset"), b"cb 1 x {} unset");
}

#[test]
fn an_unset_drops_the_traces_it_dooms() {
    let mut i = Interp::new();
    i.state.traces.traces.push(trace(1, "a", None, "u", "A"));
    i.state.traces.traces.push(trace(2, "a", Some("k"), "u", "K"));
    i.state.traces.traces.push(trace(3, "b", None, "u", "B"));
    let plan = i.begin_unset(true);
    assert!(plan.resolve && !plan.list_elements);
    assert!(plan.fires(true) && !plan.fires(false));
    assert!(i.begin_unset(false).list_elements);
    let epoch = i.state.var_trace_epoch;
    i.finish_unset(&home("a"), &Some(b("k")));
    assert_eq!(i.state.traces.traces.iter().map(|t| t.id).collect::<Vec<_>>(), [1, 3]);
    assert_eq!(i.state.var_trace_epoch, epoch + 1);
    i.finish_unset(&home("a"), &None);
    assert_eq!(i.state.traces.traces.iter().map(|t| t.id).collect::<Vec<_>>(), [3]);
    assert!(i.state.invalidations.contains(&GuardDomain::VariableTrace));
}

#[test]
fn an_unset_reports_the_array_before_its_elements() {
    let mut i = Interp::new();
    i.state.traces.traces.push(trace(1, "a", None, "u", "A"));
    i.state.traces.traces.push(trace(2, "a", Some("k"), "u", "K"));
    i.state.traces.traces.push(trace(3, "b", None, "u", "B"));
    let target = |elem: Option<&str>, key: Option<&str>| UnsetTarget {
        home: home("a"),
        access: trace_access(b"a", b"a", &elem.map(b), &home("a"), true, true),
        elements: vec![b("k"), b("other")],
        key: key.map(b),
    };
    let plan = i.begin_unset(false);
    assert!(plan.begin(false, Some(target(None, None))).is_none());
    let mut run = plan.begin(true, Some(target(None, None))).unwrap();
    assert_eq!(run.phase, UnsetPhase::Variable);
    run.variable_fired();
    let callbacks = i.unset_elements(&mut run);
    assert_eq!(callbacks.iter().map(|c| c.command.clone()).collect::<Vec<_>>(), [b("K")]);
    assert_eq!(run.phase, UnsetPhase::Drop);
    i.end_unset(&run);
    assert_eq!(i.state.traces.traces.iter().map(|t| t.id).collect::<Vec<_>>(), [3]);
    i.state.traces.traces.push(trace(4, "a", None, "u", "A"));
    i.state.traces.traces.push(trace(5, "a", Some("k"), "u", "K"));
    let mut run =
        i.begin_unset(true).begin(true, Some(target(Some("k"), Some("k")))).unwrap();
    run.variable_fired();
    assert!(i.unset_elements(&mut run).is_empty());
    i.end_unset(&run);
    assert_eq!(i.state.traces.traces.iter().map(|t| t.id).collect::<Vec<_>>(), [3, 4]);
}

#[test]
fn a_left_body_takes_its_variables_along() {
    let mut i = Interp::new();
    let mut local = trace(1, "v", None, "u", "one");
    local.ns = None;
    local.frame_level = Some(2);
    i.state.traces.traces.push(local);
    i.state.traces.traces.push(trace(2, "v", None, "u", "global"));
    i.state.current_ns = 5;
    let locals = [Local { name: b("v"), elements: vec![] }];
    let callbacks = i.leave_body(2, &locals, 3);
    assert_eq!(callbacks.iter().map(|c| c.command.clone()).collect::<Vec<_>>(), [b("one")]);
    assert_eq!(i.state.traces.traces.iter().map(|t| t.id).collect::<Vec<_>>(), [2]);
    assert_eq!(i.state.current_ns, 3);
}

#[test]
fn a_frame_takes_its_traces_along() {
    let mut i = Interp::new();
    let mut local = trace(1, "v", None, "u", "one");
    local.ns = None;
    local.frame_level = Some(2);
    i.state.traces.traces.push(local);
    let mut newer = trace(2, "v", None, "u", "two");
    newer.ns = None;
    newer.frame_level = Some(2);
    i.state.traces.traces.push(newer);
    i.state.traces.traces.push(trace(3, "v", None, "u", "global"));
    let callbacks =
        i.frame_teardown_unset_traces(2, &[Local { name: b("v"), elements: vec![] }]);
    let shown: Vec<Vec<u8>> = callbacks.iter().map(|c| c.command.clone()).collect();
    assert_eq!(shown, [b("two"), b("one")]);
    i.clear_frame_var_traces(2);
    assert_eq!(i.state.traces.traces.len(), 1);
}

#[test]
fn a_namespace_takes_its_unset_traces_along() {
    let mut i = Interp::new();
    let mut t = trace(1, "::n::x", Some("k"), "u", "cb");
    t.ns = Some(4);
    i.state.traces.traces.push(t);
    i.state.traces.traces.push(trace(2, "y", None, "u", "stays"));
    let callbacks = i.take_ns_unset_traces(4, b"::n");
    assert_eq!(callbacks.len(), 1);
    assert_eq!(callbacks[0].name, b"::n::x(k)");
    assert_eq!(callbacks[0].elem, b"");
    assert_eq!(i.state.traces.traces.len(), 1);
    assert_eq!(simple_tail(b"::n::x"), b"x");
    assert_eq!(simple_tail(b"x"), b"x");
}

#[test]
fn callbacks_of_one_entity_stay_together() {
    let cb = |name: &str, command: &str| TeardownCallback {
        name: b(name),
        elem: vec![],
        command: b(command),
        old_style: false,
    };
    let grouped = group_newest_first_per_entity(vec![
        cb("A", "A1"),
        cb("B", "B1"),
        cb("A", "A2"),
        cb("B", "B2"),
    ]);
    let order: Vec<Vec<u8>> = grouped.into_iter().map(|c| c.command).collect();
    assert_eq!(order, [b("A2"), b("A1"), b("B2"), b("B1")]);
}

fn cmd_ops(s: &str) -> CmdOps {
    CmdOps {
        rename: s.contains('r'),
        delete: s.contains('d'),
        enter: s.contains('e'),
        leave: s.contains('l'),
        enterstep: s.contains('E'),
        leavestep: s.contains('L'),
    }
}

fn cmd_trace(id: u64, name: &str, watched: &str, command: &str, token: Option<u64>) -> CmdTrace {
    CmdTrace { id, name: b(name), ops: cmd_ops(watched), command: b(command), token }
}

#[test]
fn delete_traces_fire_for_the_dying_command_only() {
    let mut i = Interp::new();
    i.state.traces.cmd_traces.push(cmd_trace(1, "::c", "d", "old", Some(1)));
    i.state.traces.cmd_traces.push(cmd_trace(2, "::c", "d", "new", Some(2)));
    let mut f = i.begin_cmd_firing(b"::c", CmdEvent::Delete, Some(1)).unwrap();
    assert_eq!(i.next_cmd_callback(&mut f), Some(b("old")));
    assert_eq!(i.next_cmd_callback(&mut f), None);
    assert!(i.begin_cmd_firing(b"::c", CmdEvent::Delete, Some(2)).is_none());
    i.end_cmd_firing(f, false);
    i.remove_cmd_traces_of_token(b"::c", Some(1));
    assert_eq!(i.state.traces.cmd_traces.len(), 1);
    assert!(i.begin_dispatch());
    let all = i.begin_rename_firing(b"::c");
    assert!(all.is_none());
    assert!(i.begin_displacement(b"::c", Some(2), Displacement::Silent).is_none());
    i.end_displacement(b"::c", Some(2), Displacement::Silent);
    assert_eq!(i.state.traces.cmd_traces.len(), 1);
    let f = i.begin_displacement(b"::c", Some(2), Displacement::FireDelete).unwrap();
    assert_eq!(f.entries.len(), 1);
    i.end_cmd_firing(f, false);
    i.end_displacement(b"::c", Some(2), Displacement::FireDelete);
    assert!(i.state.traces.cmd_traces.is_empty());
    assert!(cmd_trace_owned_by(None, Some(3)));
    assert!(cmd_trace_owned_by(Some(3), None));
    assert!(cmd_trace_owned_by(Some(2), Some(3)));
    assert!(!cmd_trace_owned_by(Some(4), Some(3)));
}

#[test]
fn traces_travel_with_a_rename() {
    let mut i = Interp::new();
    i.state.traces.cmd_traces.push(cmd_trace(1, "::old", "r", "cb", Some(5)));
    i.move_cmd_traces(b"::old", b"::new", Some(5));
    assert_eq!(i.state.traces.cmd_traces[0].name, b"::new");
    assert!(i.has_cmd_traces(b"::new"));
    assert!(!i.has_cmd_traces(b"::old"));
}

#[test]
fn leave_traces_fire_oldest_first() {
    let mut i = Interp::new();
    i.state.traces.cmd_traces.push(cmd_trace(1, "::p", "el", "one", None));
    i.state.traces.cmd_traces.push(cmd_trace(2, "::p", "el", "two", None));
    let order = |i: &mut Interp, event: ExecEvent| {
        let mut out = Vec::new();
        let mut f = i.begin_exec_firing(b"::p", event).unwrap();
        while let Some(c) = i.next_exec_callback(&mut f) {
            out.push(String::from_utf8(c).unwrap());
            assert_eq!(i.exec_callback_done(Code::Okay), None);
        }
        i.end_exec_firing(f.saved, None);
        out
    };
    assert_eq!(order(&mut i, ExecEvent::Enter), ["two", "one"]);
    assert_eq!(order(&mut i, ExecEvent::Leave), ["one", "two"]);
    assert_eq!(i.live_cmd_trace(1), Some(b("one")));
    assert_eq!(i.live_cmd_trace(9), None);
    let mut f = i.begin_exec_firing(b"::p", ExecEvent::Enter).unwrap();
    assert_eq!(i.next_exec_callback(&mut f), Some(b("two")));
    assert_eq!(i.exec_callback_done(Code::Break), Some(Code::Break));
    assert!(i.state.traces.firing_exec_traces.is_empty());
    assert_eq!(step_callback_done(Code::Error), Some(Code::Error));
    assert_eq!(step_callback_done(Code::Okay), None);
}

#[test]
fn callbacks_learn_what_was_accessed() {
    assert_eq!(
        var_callback_operands(&access("a", Some("k")), VarOp::Write, false),
        [b("a"), b("k"), b("write")]
    );
    assert_eq!(
        var_callback_operands(&access("v", None), VarOp::Read, true),
        [b("v"), b(""), b("r")]
    );
}

#[test]
fn callbacks_learn_what_befell_a_command() {
    assert_eq!(
        cmd_callback_operands(b"::a", b"::b", CmdEvent::Rename),
        [b("::a"), b("::b"), b("rename")]
    );
    assert_eq!(
        cmd_callback_operands(b"::a", b"", CmdEvent::Delete),
        [b("::a"), b(""), b("delete")]
    );
    let mut i = Interp::new();
    i.set_result_bytes(b"r");
    assert_eq!(
        i.exec_callback_operands(b"f 1", ExecEvent::Enter, false, Code::Okay),
        [b("f 1"), b("enter")]
    );
    assert_eq!(
        i.exec_callback_operands(b"f 1", ExecEvent::Leave, true, Code::Break),
        [b("f 1"), b("3"), b("r"), b("leavestep")]
    );
}

#[test]
fn phases_of_a_traced_call() {
    let mut i = Interp::new();
    i.state.traces.cmd_traces.push(cmd_trace(1, "::p", "el", "cb", None));
    let plan = i.trace_plan(&Some(b("::p")));
    let mut p = first_phase(plan);
    assert_eq!(p, DispatchPhase::Enter);
    p = next_phase(plan, p, None);
    assert_eq!(p, DispatchPhase::Run);
    p = next_phase(plan, p, Some(Code::Break));
    assert_eq!(p, DispatchPhase::Leave(Code::Break));
    assert_eq!(next_phase(plan, p, None), DispatchPhase::Done(Code::Break));
    // An enter callback that fails keeps the command from running.
    let refused = next_phase(plan, DispatchPhase::Enter, Some(Code::Error));
    assert!(refused != DispatchPhase::Run);
}

#[test]
fn step_traces_are_balanced() {
    let mut i = Interp::new();
    i.state.traces.cmd_traces.push(cmd_trace(1, "::p", "E", "step", None));
    let n = i.install_step_traces(b"::p");
    assert_eq!(n, 1);
    assert_eq!(i.state.traces.step_active.len(), 1);
    let f = i.begin_step_firing(ExecEvent::Enter).unwrap();
    assert_eq!(f.commands, [b("step")]);
    assert!(i.begin_step_firing(ExecEvent::Leave).is_none());
    i.remove_installed_step_traces(n);
    assert!(i.state.traces.step_active.is_empty());
}

#[test]
fn traced_variables_are_remembered_by_epoch() {
    let mut i = Interp::new();
    let h = Some(home("v"));
    let (traced, flag) = i.codegen_slot_is_traced(None, &h);
    assert!(!traced);
    assert_eq!(flag, Some(SlotFlag { epoch: 1, traced: false }));
    i.state.traces.traces.push(trace(1, "v", None, "w", "cb"));
    // What is remembered counts until the epoch moves on.
    assert!(!i.codegen_slot_is_traced(flag, &h).0);
    i.invalidate_guard_domain(GuardDomain::VariableTrace);
    assert!(i.codegen_slot_is_traced(flag, &h).0);
    assert!(i.var_is_traced(&home("v")));
    assert!(i.errorinfo_has_write_trace(&home("v")));
    assert!(!i.errorinfo_has_write_trace(&home("w")));
    i.state.var_trace_epoch = u64::MAX;
    i.invalidate_guard_domain(GuardDomain::VariableTrace);
    assert_eq!(i.state.var_trace_epoch, 1);
}
