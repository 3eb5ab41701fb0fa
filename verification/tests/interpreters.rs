use tcl_runtime::child::{ChildOption, ChildStep};
use tcl_runtime::code::Code;
use tcl_runtime::imports::EnsembleVictim;
use tcl_runtime::limits::{check_debug_opt, CommandsOption, LimitType, Reply, TimeOption};
use tcl_runtime::namespaces::{
    delete_namespace_token, DeletionStep, OwnedEnsembles, Slot, Sweep, SweepAction, SweepEvent,
    TableAction, TableEntry, TableEvent, TableTeardown,
};
use tcl_runtime::serve::ChildRequest;
use tcl_runtime::state::Interp;

fn b(s: &str) -> Vec<u8> {
    s.as_bytes().to_vec()
}

fn words(ws: &[&str]) -> Vec<Vec<u8>> {
    ws.iter().map(|w| b(w)).collect()
}

#[test]
fn children_are_named_and_found() {
    let mut i = Interp::new();
    assert_eq!(i.create_child(None, false), b"interp0");
    assert_eq!(i.create_child(Some(b("a")), true), b"a");
    assert_eq!(i.create_child(None, false), b"interp1");
    assert_eq!(i.child_names(), words(&["a", "interp0", "interp1"]));
    let at = i.find_child(b"a").unwrap();
    assert!(i.children[at].interp.state.debug_frame);
    i.children[at].interp.create_child(Some(b("deep")), false);
    let visit = ChildRequest::Visit;
    assert!(i.with_child_path(&words(&["a", "deep"]), &visit).is_some());
    assert!(i.with_child_path(&words(&["deep"]), &visit).is_none());
    assert!(i.with_child_path(&words(&["a", "deeper"]), &visit).is_none());
    assert!(i.with_child_path(&[], &visit).is_some());
    assert!(i.child_exists(b"interp0"));
    assert!(i.delete_child(b"interp0"));
    assert!(!i.delete_child(b"interp0"));
}

#[test]
fn a_running_child_is_deleted_when_it_ends() {
    let mut i = Interp::new();
    i.create_child(Some(b("c")), false);
    let at = i.find_child(b"c").unwrap();
    i.enter_child(at);
    assert!(i.delete_child(b"c"));
    assert!(i.children[at].interp.state.pending_delete);
    assert!(i.leave_child(at));
    assert!(!i.child_exists(b"c"));
}

#[test]
fn child_results_come_back() {
    let mut i = Interp::new();
    assert_eq!(i.finish_child_eval(b"c", Some((Code::Break, b("v")))), Code::Break);
    assert_eq!(i.result_bytes(), b"v");
    assert_eq!(i.finish_child_eval(b"c", None), Code::Error);
    assert_eq!(i.result_bytes(), b"could not find interpreter \"c\"");
}

fn ask(i: &mut Interp, name: &[u8], q: &ChildRequest) -> (Code, Vec<u8>) {
    let a = i.with_child(name, q);
    let (c, list) = i.answer_child_call(q, a);
    match list {
        None => (c, i.result_bytes()),
        Some(ws) => (c, ws.join(&b' ')),
    }
}

#[test]
fn a_child_answers_requests() {
    let mut i = Interp::new();
    i.create_child(Some(b("s")), false);
    i.children[0].interp.state.is_safe = true;
    assert_eq!(ask(&mut i, b"s", &ChildRequest::Issafe), (Code::Okay, b("1")));
    assert_eq!(ask(&mut i, b"s", &ChildRequest::Marktrusted), (Code::Okay, b("")));
    assert_eq!(ask(&mut i, b"s", &ChildRequest::Issafe), (Code::Okay, b("0")));
    assert_eq!(ask(&mut i, b"t", &ChildRequest::Issafe), (Code::Okay, b("0")));
    assert_eq!(ask(&mut i, b"t", &ChildRequest::Hidden), (Code::Okay, b("")));
    assert_eq!(ask(&mut i, b"t", &ChildRequest::Marktrusted), (Code::Okay, b("")));
    let aliases = ChildRequest::Aliases { names: words(&["p", "q"]) };
    assert_eq!(ask(&mut i, b"s", &aliases), (Code::Okay, b("p q")));
    let limit = ChildRequest::Recursionlimit(Some(b("40")));
    assert_eq!(ask(&mut i, b"s", &limit), (Code::Okay, b("40")));
    assert_eq!(i.children[0].interp.state.recursion_limit, 40);
    assert_eq!(ask(&mut i, b"s", &ChildRequest::Recursionlimit(None)), (Code::Okay, b("40")));
    let bad = ChildRequest::Recursionlimit(Some(b("0")));
    assert_eq!(ask(&mut i, b"s", &bad), (Code::Error, b("recursion limit must be > 0")));
    assert_eq!(ask(&mut i, b"t", &limit), (Code::Error, b("could not find interpreter")));
    let handler = ChildRequest::Bgerror { prefix: Some(b("h x")), length: 2 };
    assert_eq!(ask(&mut i, b"s", &handler), (Code::Okay, b("h x")));
    let debug = ChildRequest::Debug { opts: words(&["-frame", "on"]), truth: Ok(true) };
    assert_eq!(ask(&mut i, b"s", &debug), (Code::Okay, b("1")));
    let debug = ChildRequest::Debug { opts: words(&["-frame", "off"]), truth: Ok(false) };
    assert_eq!(ask(&mut i, b"s", &debug), (Code::Okay, b("1")));
    let limits = ChildRequest::Limit {
        kind: Ok(LimitType::Commands(vec![Ok(CommandsOption::Value)])),
        opts: words(&["-value", "7"]),
    };
    assert_eq!(ask(&mut i, b"s", &limits), (Code::Okay, b("")));
    assert_eq!(i.children[0].interp.state.limits.cmd_value, Some(7));
    i.children[0].interp.declare_registry_object_root(b"::o");
    assert!(i.with_child(b"s", &ChildRequest::Register { name: b("::o") }).is_some());
    assert!(i.children[0].interp.state.registry_object_roots.is_empty());
}

#[test]
fn a_child_command_is_taken_apart() {
    let mut i = Interp::new();
    assert!(matches!(
        i.dispatch_child(&words(&["c"]), &Err(vec![])),
        ChildStep::Failed
    ));
    assert_eq!(i.result_bytes(), b"wrong # args: should be \"c cmd ?arg ...?\"");
    match i.dispatch_child(&words(&["c", "eval", "set", "x"]), &Ok(ChildOption::Eval)) {
        ChildStep::Eval { script } => assert_eq!(script, b"set x"),
        _ => panic!("no script"),
    }
    assert!(matches!(
        i.dispatch_child(&words(&["c", "eval"]), &Ok(ChildOption::Eval)),
        ChildStep::Failed
    ));
    assert_eq!(i.result_bytes(), b"wrong # args: should be \"c eval arg ?arg ...?\"");
    assert!(matches!(
        i.dispatch_child(&words(&["c", "zap"]), &Err(b("bad option \"zap\""))),
        ChildStep::Failed
    ));
    assert_eq!(i.result_bytes(), b"bad option \"zap\"");
    match i.dispatch_child(
        &words(&["c", "limit", "time", "-seconds", "1"]),
        &Ok(ChildOption::Limit),
    ) {
        ChildStep::Limit { ltype, opts } => {
            assert_eq!(ltype, b"time");
            assert_eq!(opts, words(&["-seconds", "1"]));
        }
        _ => panic!("no limit"),
    }
    i.state.is_safe = true;
    assert!(matches!(
        i.dispatch_child(&words(&["c", "hide", "x"]), &Ok(ChildOption::Hide)),
        ChildStep::Failed
    ));
    assert_eq!(
        i.result_bytes(),
        b"permission denied: safe interpreter cannot hide commands"
    );
}

fn says(r: Result<Reply, Vec<u8>>) -> Vec<u8> {
    match r {
        Ok(Reply::Text(t)) => t,
        other => panic!("{:?}", other),
    }
}

#[test]
fn time_limits_are_normalised() {
    let mut i = Interp::new();
    let opts = words(&["-seconds", "10", "-milliseconds", "2500"]);
    let chosen = [Ok(TimeOption::Seconds), Ok(TimeOption::Milliseconds)];
    assert_eq!(says(i.limit_time(&opts, &chosen)), b"");
    assert_eq!(i.state.limits.time_value, Some((12, 500)));
    assert!(i.has_time_limit());
    assert!(!i.time_limit_exceeded(12_499));
    assert!(i.time_limit_exceeded(12_501));
    assert_eq!(says(i.limit_time(&words(&["-seconds"]), &[Ok(TimeOption::Seconds)])), b"12");
    match i.limit_time(&[], &[]) {
        Ok(Reply::List(ws)) => assert_eq!(
            ws,
            words(&["-command", "", "-granularity", "10", "-milliseconds", "500", "-seconds", "12"])
        ),
        other => panic!("{:?}", other),
    }
    let late = words(&["-seconds", "9223372036854775807", "-milliseconds", "999"]);
    assert!(i.deadline_fits(&late, &chosen));
    let later = words(&["-seconds", "9223372036854775807", "-milliseconds", "1000"]);
    assert!(!i.deadline_fits(&later, &chosen));
    assert!(i.deadline_fits(&words(&["-seconds", "-1"]), &[Ok(TimeOption::Seconds)]));
    let bad = i.limit_time(&words(&["-seconds", "-1"]), &[Ok(TimeOption::Seconds)]);
    assert_eq!(bad.err(), Some(b("seconds must be non-negative")));
    let bad = i.limit_time(&words(&["-milliseconds", "-1"]), &[Ok(TimeOption::Milliseconds)]);
    assert_eq!(bad.err(), Some(b("milliseconds must be non-negative")));
    let bad = i.limit_time(&words(&["-granularity", "0"]), &[Ok(TimeOption::Granularity)]);
    assert_eq!(bad.err(), Some(b("granularity must be at least 1")));
}

#[test]
fn command_limits_are_set_and_read() {
    let mut i = Interp::new();
    let set = [Ok(CommandsOption::Value), Ok(CommandsOption::Granularity)];
    assert_eq!(
        says(i.limit_commands(&words(&["-value", "100", "-granularity", "5"]), &set)),
        b""
    );
    assert_eq!(i.state.limits.cmd_value, Some(100));
    assert_eq!(i.state.limits.cmd_granularity, 5);
    assert_eq!(says(i.limit_commands(&words(&["-value"]), &[Ok(CommandsOption::Value)])), b"100");
    let odd = [Ok(CommandsOption::Value), Ok(CommandsOption::Value)];
    assert_eq!(
        i.limit_commands(&words(&["-value", "1", "-value"]), &odd).err(),
        Some(b("wrong # args: should be \"interp limit path commands ?-option value ...?\""))
    );
    let unknown: Result<LimitType, Vec<u8>> = Err(b("bad limit type"));
    assert_eq!(i.limit_apply(&unknown, &[]).err(), Some(b("bad limit type")));
}

#[test]
fn the_debug_flag_is_a_latch() {
    let mut i = Interp::new();
    let opts = words(&["-frame", "1"]);
    assert_eq!(says(i.debug_apply(&opts, &Ok(true))), b"1");
    assert_eq!(says(i.debug_apply(&opts, &Ok(false))), b"1");
    assert_eq!(says(i.debug_apply(&words(&["-frame"]), &Ok(false))), b"1");
    assert!(check_debug_opt(b"-frame").is_ok());
    assert!(check_debug_opt(b"-fr").is_ok());
    assert!(check_debug_opt(b"-x").is_err());
    assert_eq!(i.debug_apply(&opts, &Err(b("expected boolean"))).err(), Some(b("expected boolean")));
}

#[test]
fn recursion_limits_are_per_interpreter() {
    let mut i = Interp::new();
    i.create_child(Some(b("c")), false);
    assert_eq!(i.recursion_limit_apply(&None), Ok(1000));
    let at = i.find_child(b"c").unwrap();
    assert_eq!(i.children[at].interp.recursion_limit_apply(&Some(b("5"))), Ok(5));
    assert_eq!(i.recursion_limit_apply(&None), Ok(1000));
    assert_eq!(
        i.recursion_limit_apply(&Some(b("0"))),
        Err(b("recursion limit must be > 0"))
    );
}

#[test]
fn background_errors_reach_the_handler() {
    let mut i = Interp::new();
    assert_eq!(
        i.bgerror_apply(&Some(vec![]), 0),
        Err(b("cmdPrefix must be list of length >= 1"))
    );
    i.report_bg_error(b"dropped", b"");
    let mut run = i.process_bg_errors();
    assert_eq!(i.next_bg_call(&mut run, &[]), None);
    assert!(i.state.bg_queue.is_empty());
    let handler = words(&["h", "1"]);
    assert_eq!(i.bgerror_apply(&Some(b("h 1")), 2), Ok(b("h 1")));
    i.report_bg_error(b"m", b"-code 1");
    i.report_bg_error(b"n", b"-code 1");
    i.set_result_bytes(b"mine");
    let mut run = i.process_bg_errors();
    assert!(i.state.bg_queue.is_empty());
    assert_eq!(i.next_bg_call(&mut run, &handler), Some(words(&["h", "1", "m", "-code 1"])));
    i.set_result_bytes(b"theirs");
    i.report_bg_error(b"o", b"");
    assert_eq!(i.next_bg_call(&mut run, &handler), Some(words(&["h", "1", "n", "-code 1"])));
    assert_eq!(i.result_bytes(), b"mine");
    assert_eq!(i.next_bg_call(&mut run, &handler), Some(words(&["h", "1", "o", ""])));
    assert_eq!(i.next_bg_call(&mut run, &handler), None);
    assert_eq!(i.result_bytes(), b"mine");
}

fn victim(fqn: &str, token: u64) -> EnsembleVictim {
    EnsembleVictim { fqn: b(fqn), token }
}

fn slot(ns: usize, tail: &str) -> Slot {
    Slot { ns, tail: b(tail) }
}

#[test]
fn namespaces_go_in_steps() {
    let mut i = Interp::new();
    assert_eq!(
        i.delete_namespace_by_id(true),
        vec![DeletionStep::RetireEnsembles, DeletionStep::Defer]
    );
    let steps = i.delete_namespace_by_id(false);
    assert_eq!(steps.first(), Some(&DeletionStep::TakeUnsetTraces));
    assert_eq!(steps.last(), Some(&DeletionStep::Finish));
    assert_eq!(delete_namespace_token(false).last(), Some(&DeletionStep::DeleteChildren));
}

#[test]
fn a_sweep_goes_round_until_nothing_is_new() {
    let i = Interp::new();
    let mut s = Sweep::begin(&[1, 2, 3], &[2]);
    assert_eq!(s.ids, vec![1, 3]);
    assert!(matches!(s.action(), SweepAction::ListNamespaces));
    // An answer to something else changes nothing.
    s.answer(&i, SweepEvent::Done);
    assert!(matches!(s.action(), SweepAction::ListNamespaces));
    s.answer(&i, SweepEvent::Namespaces(vec![3, 4]));
    assert_eq!(s.ids, vec![1, 3, 4]);
    s.answer(&i, SweepEvent::Ensembles(vec![victim("::e", 7), victim("::alias", 7)]));
    assert!(matches!(s.action(), SweepAction::Retire(v) if v.token == 7 && v.fqn == b"::e"));
    s.answer(&i, SweepEvent::Retired(Some(b("::moved"))));
    assert!(matches!(s.action(), SweepAction::ListSlots));
    s.answer(&i, SweepEvent::Slots(vec![slot(1, "x")]));
    assert!(matches!(s.action(), SweepAction::Replace(t) if t.ns == 1 && t.tail == b"x"));
    s.answer(&i, SweepEvent::Done);
    s.answer(&i, SweepEvent::Namespaces(vec![]));
    s.answer(&i, SweepEvent::Commands(words(&["::n::x"])));
    assert!(matches!(s.action(), SweepAction::RemoveImports));
    assert_eq!(s.origins, words(&["::e", "::moved", "::n::x"]));
    s.answer(&i, SweepEvent::Done);
    s.answer(&i, SweepEvent::Slots(vec![slot(1, "x")]));
    // Something was new, so there is a second round.
    assert!(matches!(s.action(), SweepAction::ListNamespaces));
    s.answer(&i, SweepEvent::Namespaces(vec![]));
    s.answer(&i, SweepEvent::Ensembles(vec![victim("::e", 7)]));
    assert!(matches!(s.action(), SweepAction::ListSlots));
    s.answer(&i, SweepEvent::Slots(vec![slot(1, "x")]));
    s.answer(&i, SweepEvent::Namespaces(vec![]));
    s.answer(&i, SweepEvent::Commands(vec![]));
    s.answer(&i, SweepEvent::Done);
    s.answer(&i, SweepEvent::Slots(vec![slot(1, "x")]));
    s.answer(&i, SweepEvent::Namespaces(vec![5]));
    s.answer(&i, SweepEvent::Commands(vec![]));
    s.answer(&i, SweepEvent::Done);
    assert!(matches!(s.action(), SweepAction::Clear));
    s.answer(&i, SweepEvent::Done);
    assert!(matches!(s.action(), SweepAction::Nothing));
    assert_eq!(s.ids, vec![1, 3, 4, 5]);
    assert_eq!(s.tokens, vec![7]);
}

#[test]
fn owned_ensembles_are_retired_once() {
    let i = Interp::new();
    let mut owned = OwnedEnsembles::of(&i, 4, &[victim("::a", 1), victim("::b", 1), victim("::c", 2)]);
    assert_eq!(owned.victims.len(), 2);
    owned.retired(&None);
    owned.retired(&Some(b("::a")));
    assert_eq!(owned.origins, words(&["::a", "::c"]));
    assert_eq!(owned.tokens, vec![1, 2]);
}

#[test]
fn a_command_table_goes_snapshot_by_snapshot() {
    let entry = |tail: &str, generation: u64| TableEntry { tail: b(tail), generation };
    let mut t = TableTeardown::begin();
    assert!(matches!(t.action(), TableAction::TakeSnapshot));
    t.answer(TableEvent::Entries(vec![entry("a", 1), entry("b", 2), entry("c", 3)]));
    // `a` is deleted in the ordinary way.
    assert!(matches!(t.action(), TableAction::ReadGeneration(n) if n == b"a"));
    t.answer(TableEvent::Generation(Some(1)));
    assert!(matches!(t.action(), TableAction::FireDelete(n) if n == b"a"));
    t.answer(TableEvent::Done);
    t.answer(TableEvent::Generation(Some(1)));
    assert!(matches!(t.action(), TableAction::Remove(n) if n == b"a"));
    t.answer(TableEvent::Done);
    // `b` is gone already.
    t.answer(TableEvent::Generation(None));
    // `c` is replaced by its own callback, and left to the next snapshot.
    t.answer(TableEvent::Generation(Some(3)));
    t.answer(TableEvent::Done);
    t.answer(TableEvent::Generation(Some(9)));
    assert!(matches!(t.action(), TableAction::TakeSnapshot));
    t.answer(TableEvent::Entries(vec![entry("c", 9)]));
    t.answer(TableEvent::Generation(None));
    assert!(matches!(t.action(), TableAction::Nothing));
}
