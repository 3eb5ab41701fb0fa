//! Execution traces: what fires round the execution of a command, and in what
//! order.

use vstd::prelude::*;

use crate::bytes::{copied, lit, same, text, views};
use crate::cmd_traces::{cmd_trace_views, CmdTraceView, ExecEvent};
use crate::code::Code;
use crate::number::{decimal, decimal_i64};
use crate::state::{Interp, InterpState};
use crate::traces::{CmdTrace, StepActive, TraceTable};

verus! {

/// Whether a trace fires when the command `fqn` begins or ends.
pub open spec fn watches(t: CmdTraceView, fqn: Seq<u8>, event: ExecEvent) -> bool {
    t.name == fqn && match event {
        ExecEvent::Enter => t.ops.enter,
        ExecEvent::Leave => t.ops.leave,
    }
}

/// The traces on a command that watch for `event`, the oldest first.
pub open spec fn watching(ts: Seq<CmdTraceView>, fqn: Seq<u8>, event: ExecEvent) -> Seq<u64>
    decreases ts.len(),
{
    if ts.len() == 0 {
        Seq::empty()
    } else {
        let before = watching(ts.drop_last(), fqn, event);
        if watches(ts.last(), fqn, event) {
            before.push(ts.last().id)
        } else {
            before
        }
    }
}

/// The order execution traces fire in: the newest first as a command begins,
/// the oldest first as it ends.
pub open spec fn exec_order(ts: Seq<CmdTraceView>, fqn: Seq<u8>, event: ExecEvent) -> Seq<u64> {
    match event {
        ExecEvent::Enter => watching(ts, fqn, event).reverse(),
        ExecEvent::Leave => watching(ts, fqn, event),
    }
}

/// A walk over execution traces.
pub struct ExecFiring {
    pub order: Vec<u64>,
    pub next: usize,
    /// The result that comes back when the walk is over.
    pub saved: Vec<u8>,
}

/// The command of the first trace with the identity `id`.
pub open spec fn live_command(ts: Seq<CmdTraceView>, id: u64) -> Option<Seq<u8>>
    decreases ts.len(),
{
    if ts.len() == 0 {
        None
    } else if ts[0].id == id {
        Some(ts[0].command)
    } else {
        live_command(ts.skip(1), id)
    }
}

/// The first position from `from` on whose trace is still set and whose
/// callback is not running.
pub open spec fn next_ready(
    ts: Seq<CmdTraceView>,
    running: Seq<u64>,
    order: Seq<u64>,
    from: int,
) -> int
    decreases order.len() - from,
{
    if from >= order.len() {
        order.len() as int
    } else if !running.contains(order[from]) && live_command(ts, order[from]) is Some {
        from
    } else {
        next_ready(ts, running, order, from + 1)
    }
}

fn trace_watches(t: &CmdTrace, fqn: &[u8], event: ExecEvent) -> (r: bool)
    ensures
        r == watches(t@, fqn@, event),
{
    same(&t.name, fqn) && match event {
        ExecEvent::Enter => t.ops.enter,
        ExecEvent::Leave => t.ops.leave,
    }
}

fn reversed_ids(ids: &[u64]) -> (r: Vec<u64>)
    ensures
        r@ == ids@.reverse(),
{
    let mut out: Vec<u64> = Vec::new();
    let mut n: usize = ids.len();
    while n > 0
        invariant
            n <= ids@.len(),
            out@.len() == ids@.len() - n,
            forall|j: int| 0 <= j < out@.len() ==> out@[j] == ids@[ids@.len() - 1 - j],
        decreases n,
    {
        out.push(ids[n - 1]);
        n = n - 1;
    }
    assert(out@ =~= ids@.reverse());
    out
}

fn running_id(ids: &[u64], id: u64) -> (r: bool)
    ensures
        r == ids@.contains(id),
{
    let mut i: usize = 0;
    while i < ids.len()
        invariant
            i <= ids@.len(),
            forall|j: int| 0 <= j < i ==> ids@[j] != id,
        decreases ids@.len() - i,
    {
        if ids[i] == id {
            return true;
        }
        i = i + 1;
    }
    false
}

fn find_command(ts: &[CmdTrace], id: u64) -> (r: Option<Vec<u8>>)
    ensures
        crate::bytes::opt_view(r) == live_command(cmd_trace_views(ts@), id),
{
    let ghost vs = cmd_trace_views(ts@);
    let mut i: usize = 0;
    assert(vs.skip(0) =~= vs);
    while i < ts.len()
        invariant
            i <= ts@.len(),
            vs == cmd_trace_views(ts@),
            live_command(vs, id) == live_command(vs.skip(i as int), id),
        decreases ts@.len() - i,
    {
        assert(vs.skip(i as int)[0] == ts@[i as int]@);
        if ts[i].id == id {
            return Some(copied(&ts[i].command));
        }
        assert(vs.skip(i as int).skip(1) =~= vs.skip(i + 1));
        i = i + 1;
    }
    None
}

/// A walk of execution callbacks begins; `saved` is the result before it.
pub open spec fn exec_walk_begun(before: Interp, after: Interp, saved: Vec<u8>) -> bool {
    &&& saved@ == before.state.result@
    &&& after == (Interp {
        state: InterpState {
            traces: TraceTable {
                exec_firing: (before.state.traces.exec_firing + 1) as usize,
                ..before.state.traces
            },
            ..before.state
        },
        ..before
    })
}

/// A walk of execution callbacks ends. A callback that objected leaves its own
/// result.
pub open spec fn exec_walk_ended(
    before: Interp,
    after: Interp,
    saved: Vec<u8>,
    objection: Option<Code>,
) -> bool {
    after == (Interp {
        state: InterpState {
            result: if objection is Some {
                before.state.result
            } else {
                saved
            },
            traces: TraceTable {
                exec_firing: (before.state.traces.exec_firing - 1) as usize,
                ..before.state.traces
            },
            ..before.state
        },
        ..before
    })
}

/// Execution callbacks that do not object leave the result of the command as it
/// was, and the walk is over, if the callbacks kept their own walks balanced.
pub proof fn exec_callbacks_keep_the_result(
    before: Interp,
    inside: Interp,
    ran: Interp,
    after: Interp,
    saved: Vec<u8>,
)
    requires
        before.state.traces.exec_firing < usize::MAX,
        exec_walk_begun(before, inside, saved),
        ran.state.traces.exec_firing == inside.state.traces.exec_firing,
        exec_walk_ended(ran, after, saved, None),
    ensures
        after.state.result@ == before.state.result@,
        after.state.traces.exec_firing == before.state.traces.exec_firing,
{
}

/// The objection of a callback that ended with `code`: any end but okay is one.
pub open spec fn objection_of(code: Code) -> Option<Code> {
    if code == Code::Okay {
        None
    } else {
        Some(code)
    }
}

/// The objection of the callback of a step trace that ended with `code`, which
/// ends the walk.
pub fn step_callback_done(code: Code) -> (objection: Option<Code>)
    ensures
        objection == objection_of(code),
{
    if code == Code::Okay {
        None
    } else {
        Some(code)
    }
}

impl Interp {
    /// The callback of a command trace that is still set.
    pub fn live_cmd_trace(&self, id: u64) -> (r: Option<Vec<u8>>)
        ensures
            crate::bytes::opt_view(r) == live_command(
                cmd_trace_views(self.state.traces.cmd_traces@),
                id,
            ),
    {
        find_command(&self.state.traces.cmd_traces, id)
    }

    /// Begins to fire the execution traces of a command. `None` where there is
    /// none.
    pub fn begin_exec_firing(&mut self, fqn: &[u8], event: ExecEvent) -> (r: Option<ExecFiring>)
        requires
            old(self).state.traces.exec_firing < usize::MAX,
        ensures
            exec_firing_begins(*old(self), *final(self), fqn@, event, r),
    {
        let ts = &self.state.traces.cmd_traces;
        let ghost vs = cmd_trace_views(ts@);
        let mut ids: Vec<u64> = Vec::new();
        let mut i: usize = 0;
        assert(ids@ =~= watching(vs.take(0), fqn@, event));
        while i < ts.len()
            invariant
                i <= ts@.len(),
                vs == cmd_trace_views(ts@),
                ids@ == watching(vs.take(i as int), fqn@, event),
            decreases ts@.len() - i,
        {
            assert(vs.take(i + 1).last() == ts@[i as int]@);
            assert(vs.take(i + 1).drop_last() =~= vs.take(i as int));
            if trace_watches(&ts[i], fqn, event) {
                ids.push(ts[i].id);
            }
            i = i + 1;
        }
        assert(vs.take(i as int) =~= vs);
        let order: Vec<u64> = match event {
            ExecEvent::Enter => reversed_ids(&ids),
            ExecEvent::Leave => ids,
        };
        if order.len() == 0 {
            return None;
        }
        let saved = self.result_bytes();
        self.state.traces.exec_firing = self.state.traces.exec_firing + 1;
        Some(ExecFiring { order, next: 0, saved })
    }

    /// The next callback of a walk over execution traces; the trace counts as
    /// running until it is done. One that was removed does not fire, nor does
    /// one whose own callback is running.
    pub fn next_exec_callback(&mut self, f: &mut ExecFiring) -> (r: Option<Vec<u8>>)
        requires
            old(f).next <= old(f).order@.len(),
        ensures
            final(f).next <= final(f).order@.len(),
            *final(f) == (ExecFiring { next: final(f).next, ..*old(f) }),
            ({
                let tt = old(self).state.traces;
                let vs = cmd_trace_views(tt.cmd_traces@);
                let at = next_ready(
                    vs,
                    tt.firing_exec_traces@,
                    old(f).order@,
                    old(f).next as int,
                );
                match r {
                    Some(c) => {
                        &&& at < old(f).order@.len()
                        &&& final(f).next == at + 1
                        &&& live_command(vs, old(f).order@[at]) == Some(c@)
                        &&& final(self).state.traces.firing_exec_traces@
                            == tt.firing_exec_traces@.push(old(f).order@[at])
                        &&& *final(self) == (Interp {
                            state: InterpState {
                                traces: TraceTable {
                                    firing_exec_traces: final(
                                        self).state.traces.firing_exec_traces,
                                    ..tt
                                },
                                ..old(self).state
                            },
                            ..*old(self)
                        })
                    },
                    None => at == old(f).order@.len() && final(f).next == at && *final(self)
                        == *old(self),
                }
            }),
    {
        let ghost vs = cmd_trace_views(self.state.traces.cmd_traces@);
        let ghost running = self.state.traces.firing_exec_traces@;
        let ghost start = f.next as int;
        while f.next < f.order.len()
            invariant
                f.next <= f.order@.len(),
                start == old(f).next,
                *f == (ExecFiring { next: f.next, ..*old(f) }),
                *self == *old(self),
                vs == cmd_trace_views(self.state.traces.cmd_traces@),
                running == self.state.traces.firing_exec_traces@,
                next_ready(vs, running, f.order@, start) == next_ready(
                    vs,
                    running,
                    f.order@,
                    f.next as int,
                ),
            decreases f.order@.len() - f.next,
        {
            let id = f.order[f.next];
            f.next = f.next + 1;
            if !running_id(&self.state.traces.firing_exec_traces, id) {
                if let Some(c) = self.live_cmd_trace(id) {
                    self.state.traces.firing_exec_traces.push(id);
                    return Some(c);
                }
            }
        }
        None
    }

    /// Notes that the running callback of an execution trace ended with `code`.
    /// Returns its objection, which ends the walk.
    pub fn exec_callback_done(&mut self, code: Code) -> (objection: Option<Code>)
        ensures
            objection == objection_of(code),
            final(self).state.traces.firing_exec_traces@ == if old(
                self).state.traces.firing_exec_traces@.len() == 0 {
                old(self).state.traces.firing_exec_traces@
            } else {
                old(self).state.traces.firing_exec_traces@.drop_last()
            },
            *final(self) == (Interp {
                state: InterpState {
                    traces: TraceTable {
                        firing_exec_traces: final(self).state.traces.firing_exec_traces,
                        ..old(self).state.traces
                    },
                    ..old(self).state
                },
                ..*old(self)
            }),
    {
        self.state.traces.firing_exec_traces.pop();
        step_callback_done(code)
    }

    /// Ends a walk over execution or step traces. `objection` is the completion
    /// of a callback that did not end okay: its result then stands, otherwise
    /// the result is back.
    pub fn end_exec_firing(&mut self, saved: Vec<u8>, objection: Option<Code>)
        requires
            old(self).state.traces.exec_firing > 0,
        ensures
            exec_walk_ended(*old(self), *final(self), saved, objection),
    {
        self.state.traces.exec_firing = self.state.traces.exec_firing - 1;
        if objection.is_none() {
            self.state.result = saved;
        }
    }
}

/// What a [`StepActive`] holds.
pub struct StepView {
    pub owner: Seq<u8>,
    pub enterstep: bool,
    pub leavestep: bool,
    pub command: Seq<u8>,
}

impl View for StepActive {
    type V = StepView;

    open spec fn view(&self) -> StepView {
        StepView {
            owner: self.owner@,
            enterstep: self.enterstep,
            leavestep: self.leavestep,
            command: self.command@,
        }
    }
}

/// The step traces in force as plain values.
pub open spec fn step_views(ss: Seq<StepActive>) -> Seq<StepView> {
    Seq::new(ss.len(), |i: int| ss[i]@)
}

/// Whether a step trace of `fqn` with the callback `command` is in force.
pub open spec fn in_force(ss: Seq<StepView>, fqn: Seq<u8>, command: Seq<u8>) -> bool {
    exists|i: int|
        0 <= i < ss.len() && (#[trigger] ss[i]).owner == fqn && ss[i].command == command
}

/// The step traces that come into force as the command `fqn` begins: those on
/// it that an outer call of it has not put in force.
pub open spec fn steps_installed(
    ts: Seq<CmdTraceView>,
    ss: Seq<StepView>,
    fqn: Seq<u8>,
) -> Seq<StepView>
    decreases ts.len(),
{
    if ts.len() == 0 {
        Seq::empty()
    } else {
        let before = steps_installed(ts.drop_last(), ss, fqn);
        let t = ts.last();
        if t.name == fqn && (t.ops.enterstep || t.ops.leavestep) && !in_force(
            ss,
            fqn,
            t.command,
        ) {
            before.push(
                StepView {
                    owner: fqn,
                    enterstep: t.ops.enterstep,
                    leavestep: t.ops.leavestep,
                    command: t.command,
                },
            )
        } else {
            before
        }
    }
}

/// The callbacks of the step traces in force that watch for `event`, in the
/// order they came into force.
pub open spec fn step_commands(ss: Seq<StepView>, event: ExecEvent) -> Seq<Seq<u8>>
    decreases ss.len(),
{
    if ss.len() == 0 {
        Seq::empty()
    } else {
        let before = step_commands(ss.drop_last(), event);
        if match event {
            ExecEvent::Enter => ss.last().enterstep,
            ExecEvent::Leave => ss.last().leavestep,
        } {
            before.push(ss.last().command)
        } else {
            before
        }
    }
}

/// The order step traces fire in: the newest first as a command begins, the
/// oldest first as it ends.
pub open spec fn step_order(ss: Seq<StepView>, event: ExecEvent) -> Seq<Seq<u8>> {
    match event {
        ExecEvent::Enter => step_commands(ss, event).reverse(),
        ExecEvent::Leave => step_commands(ss, event),
    }
}

fn step_in_force(ss: &[StepActive], count: usize, fqn: &[u8], command: &[u8]) -> (r: bool)
    requires
        count <= ss@.len(),
    ensures
        r == in_force(step_views(ss@).take(count as int), fqn@, command@),
{
    let ghost vs = step_views(ss@).take(count as int);
    let mut i: usize = 0;
    while i < count
        invariant
            i <= count <= ss@.len(),
            vs == step_views(ss@).take(count as int),
            forall|j: int|
                0 <= j < i ==> !((#[trigger] vs[j]).owner == fqn@ && vs[j].command == command@),
        decreases count - i,
    {
        assert(vs[i as int] == ss@[i as int]@);
        if same(&ss[i].owner, fqn) && same(&ss[i].command, command) {
            return true;
        }
        i = i + 1;
    }
    false
}

fn reversed_words(ws: &[Vec<u8>]) -> (r: Vec<Vec<u8>>)
    ensures
        views(r@) == views(ws@).reverse(),
{
    let mut out: Vec<Vec<u8>> = Vec::new();
    let mut n: usize = ws.len();
    while n > 0
        invariant
            n <= ws@.len(),
            out@.len() == ws@.len() - n,
            forall|j: int|
                0 <= j < out@.len() ==> #[trigger] out@[j]@ == ws@[ws@.len() - 1 - j]@,
        decreases n,
    {
        out.push(copied(&ws[n - 1]));
        n = n - 1;
    }
    assert(views(out@) =~= views(ws@).reverse());
    out
}

/// A walk over the step traces in force.
pub struct StepFiring {
    pub commands: Vec<Vec<u8>>,
    pub saved: Vec<u8>,
}

impl Interp {
    /// Puts the step traces of a command in force. Returns how many there are.
    pub fn install_step_traces(&mut self, fqn: &[u8]) -> (n: usize)
        ensures
            step_traces_put_in_force(*old(self), *final(self), fqn@, n),
    {
        let count = self.state.traces.step_active.len();
        let ghost ss = step_views(self.state.traces.step_active@);
        let ghost vs = cmd_trace_views(self.state.traces.cmd_traces@);
        let mut i: usize = 0;
        let mut n: usize = 0;
        assert(step_views(self.state.traces.step_active@) =~= ss + steps_installed(
            vs.take(0),
            ss,
            fqn@,
        ));
        while i < self.state.traces.cmd_traces.len()
            invariant
                i <= vs.len(),
                vs.len() == self.state.traces.cmd_traces@.len(),
                n <= i,
                count == ss.len(),
                ss == step_views(old(self).state.traces.step_active@),
                vs == cmd_trace_views(self.state.traces.cmd_traces@),
                n == steps_installed(vs.take(i as int), ss, fqn@).len(),
                step_views(self.state.traces.step_active@) == ss + steps_installed(
                    vs.take(i as int),
                    ss,
                    fqn@,
                ),
                *self == (Interp {
                    state: InterpState {
                        traces: TraceTable {
                            step_active: self.state.traces.step_active,
                            ..old(self).state.traces
                        },
                        ..old(self).state
                    },
                    ..*old(self)
                }),
            decreases vs.len() - i,
        {
            let t = &self.state.traces.cmd_traces[i];
            assert(vs.take(i + 1).last() == t@);
            assert(vs.take(i + 1).drop_last() =~= vs.take(i as int));
            let ghost now = step_views(self.state.traces.step_active@);
            assert(now.len() == self.state.traces.step_active@.len());
            assert(now.take(count as int) =~= ss);
            if same(&t.name, fqn) && (t.ops.enterstep || t.ops.leavestep) && !step_in_force(
                &self.state.traces.step_active,
                count,
                fqn,
                &t.command,
            ) {
                let s = StepActive {
                    owner: copied(fqn),
                    enterstep: t.ops.enterstep,
                    leavestep: t.ops.leavestep,
                    command: copied(&t.command),
                };
                let ghost v = s@;
                self.state.traces.step_active.push(s);
                assert(step_views(self.state.traces.step_active@) =~= now.push(v));
                assert(now.push(v) =~= ss + steps_installed(vs.take(i as int), ss, fqn@).push(v));
                n = n + 1;
            }
            i = i + 1;
        }
        assert(vs.take(i as int) =~= vs);
        n
    }

    /// Takes the last `n` step traces out of force.
    pub fn remove_installed_step_traces(&mut self, n: usize)
        requires
            n <= old(self).state.traces.step_active@.len(),
        ensures
            final(self).state.traces.step_active@ == old(self).state.traces.step_active@.take(
                old(self).state.traces.step_active@.len() - n,
            ),
            *final(self) == (Interp {
                state: InterpState {
                    traces: TraceTable {
                        step_active: final(self).state.traces.step_active,
                        ..old(self).state.traces
                    },
                    ..old(self).state
                },
                ..*old(self)
            }),
    {
        let keep = self.state.traces.step_active.len() - n;
        self.state.traces.step_active.truncate(keep);
        assert(self.state.traces.step_active@ =~= old(self).state.traces.step_active@.take(
            keep as int,
        ));
    }

    /// Begins to fire the step traces in force. `None` where there is none.
    pub fn begin_step_firing(&mut self, event: ExecEvent) -> (r: Option<StepFiring>)
        requires
            old(self).state.traces.exec_firing < usize::MAX,
        ensures
            ({
                let tt = old(self).state.traces;
                let order = step_order(step_views(tt.step_active@), event);
                match r {
                    None => order.len() == 0 && *final(self) == *old(self),
                    Some(f) => {
                        &&& order.len() > 0
                        &&& views(f.commands@) == order
                        &&& exec_walk_begun(*old(self), *final(self), f.saved)
                    },
                }
            }),
    {
        let ss = &self.state.traces.step_active;
        let ghost vs = step_views(ss@);
        let mut cmds: Vec<Vec<u8>> = Vec::new();
        let mut i: usize = 0;
        assert(views(cmds@) =~= step_commands(vs.take(0), event));
        while i < ss.len()
            invariant
                i <= ss@.len(),
                vs == step_views(ss@),
                views(cmds@) == step_commands(vs.take(i as int), event),
            decreases ss@.len() - i,
        {
            assert(vs.take(i + 1).last() == ss@[i as int]@);
            assert(vs.take(i + 1).drop_last() =~= vs.take(i as int));
            let ghost before = views(cmds@);
            let wanted = match event {
                ExecEvent::Enter => ss[i].enterstep,
                ExecEvent::Leave => ss[i].leavestep,
            };
            if wanted {
                cmds.push(copied(&ss[i].command));
                assert(views(cmds@) =~= before.push(ss@[i as int].command@));
            }
            i = i + 1;
        }
        assert(vs.take(i as int) =~= vs);
        let commands: Vec<Vec<u8>> = match event {
            ExecEvent::Enter => reversed_words(&cmds),
            ExecEvent::Leave => cmds,
        };
        assert(views(commands@).len() == commands@.len());
        if commands.len() == 0 {
            return None;
        }
        let saved = self.result_bytes();
        self.state.traces.exec_firing = self.state.traces.exec_firing + 1;
        Some(StepFiring { commands, saved })
    }
}

/// Taking the step traces of a command out of force undoes putting them in.
pub proof fn steps_leave_no_trace(before: Interp, inside: Interp, after: Interp, fqn: Seq<u8>)
    requires
        step_views(inside.state.traces.step_active@) == step_views(
            before.state.traces.step_active@,
        ) + steps_installed(
            cmd_trace_views(before.state.traces.cmd_traces@),
            step_views(before.state.traces.step_active@),
            fqn,
        ),
        after.state.traces.step_active@ == inside.state.traces.step_active@.take(
            inside.state.traces.step_active@.len() - steps_installed(
                cmd_trace_views(before.state.traces.cmd_traces@),
                step_views(before.state.traces.step_active@),
                fqn,
            ).len(),
        ),
    ensures
        step_views(after.state.traces.step_active@) == step_views(
            before.state.traces.step_active@,
        ),
{
    let b = step_views(before.state.traces.step_active@);
    let i = step_views(inside.state.traces.step_active@);
    assert(i.len() == inside.state.traces.step_active@.len());
    let a = step_views(after.state.traces.step_active@);
    assert(a.len() == b.len());
    assert forall|k: int| 0 <= k < b.len() implies a[k] == b[k] by {
        assert(a[k] == i[k]);
        assert(i[k] == b[k]);
    }
    assert(a =~= b);
}

/// What is to fire round one command.
#[derive(Debug, Clone, Copy, PartialEq, Eq, Structural)]
pub struct TracePlan {
    pub enter: bool,
    pub leave: bool,
    pub step: bool,
    /// Whether step traces are in force and no execution callback is running.
    pub stepping: bool,
}

/// Whether a trace on `fqn` has one of the operations that `wanted` picks.
pub open spec fn some_trace(ts: Seq<CmdTraceView>, fqn: Seq<u8>, kind: TraceKind) -> bool {
    exists|i: int| 0 <= i < ts.len() && (#[trigger] ts[i]).name == fqn && has_kind(ts[i], kind)
}

/// The kinds of execution trace.
#[derive(Debug, Clone, Copy, PartialEq, Eq, Structural)]
pub enum TraceKind {
    Enter,
    Leave,
    Step,
}

/// Whether a trace is of a kind.
pub open spec fn has_kind(t: CmdTraceView, kind: TraceKind) -> bool {
    match kind {
        TraceKind::Enter => t.ops.enter,
        TraceKind::Leave => t.ops.leave,
        TraceKind::Step => t.ops.enterstep || t.ops.leavestep,
    }
}

impl Interp {
    /// What is to fire round a command, which is `None` where its name names
    /// nothing.
    pub fn trace_plan(&self, fqn: &Option<Vec<u8>>) -> (p: TracePlan)
        ensures
            planned(self.state, *fqn, p),
    {
        let stepping = self.state.traces.step_active.len() > 0 && self.state.traces.exec_firing
            == 0;
        let mut p = TracePlan { enter: false, leave: false, step: false, stepping };
        if let Some(f) = fqn {
            let ts = &self.state.traces.cmd_traces;
            let ghost vs = cmd_trace_views(ts@);
            let mut i: usize = 0;
            while i < ts.len()
                invariant
                    i <= ts@.len(),
                    vs == cmd_trace_views(ts@),
                    p.stepping == stepping,
                    p.enter == some_trace(vs.take(i as int), f@, TraceKind::Enter),
                    p.leave == some_trace(vs.take(i as int), f@, TraceKind::Leave),
                    p.step == some_trace(vs.take(i as int), f@, TraceKind::Step),
                decreases ts@.len() - i,
            {
                let t = &ts[i];
                let ghost was = vs.take(i as int);
                let ghost now = vs.take(i + 1);
                assert(now[i as int] == t@);
                assert forall|kind: TraceKind| #[trigger]
                    some_trace(now, f@, kind) == (some_trace(was, f@, kind) || (t.name@ == f@
                        && has_kind(t@, kind))) by {
                    if some_trace(was, f@, kind) {
                        let k = choose|k: int|
                            0 <= k < was.len() && (#[trigger] was[k]).name == f@ && has_kind(
                                was[k],
                                kind,
                            );
                        assert(now[k] == was[k]);
                    }
                    if some_trace(now, f@, kind) {
                        let k = choose|k: int|
                            0 <= k < now.len() && (#[trigger] now[k]).name == f@ && has_kind(
                                now[k],
                                kind,
                            );
                        if k < i {
                            assert(was[k] == now[k]);
                        }
                    }
                }
                if same(&t.name, f) {
                    p.enter = p.enter || t.ops.enter;
                    p.leave = p.leave || t.ops.leave;
                    p.step = p.step || t.ops.enterstep || t.ops.leavestep;
                }
                i = i + 1;
            }
            assert(vs.take(i as int) =~= vs);
        }
        p
    }
}

/// The operands that a callback is told of the execution of a command by: a
/// callback at the end also learns the completion and the result. `step` is for
/// step traces.
pub open spec fn exec_operands(
    i: Interp,
    command: Seq<u8>,
    event: ExecEvent,
    step: bool,
    code: Code,
) -> Seq<Seq<u8>> {
    match event {
        ExecEvent::Enter => seq![
            command,
            if step {
                text("enterstep")
            } else {
                text("enter")
            },
        ],
        ExecEvent::Leave => seq![
            command,
            decimal(code.number()),
            i.state.result@,
            if step {
                text("leavestep")
            } else {
                text("leave")
            },
        ],
    }
}

impl Interp {
    /// The operands that a callback is told of the execution of a command by:
    /// they become a list behind the callback's command. `command` is the list
    /// of the words of the command.
    pub fn exec_callback_operands(
        &self,
        command: &[u8],
        event: ExecEvent,
        step: bool,
        code: Code,
    ) -> (r: Vec<Vec<u8>>)
        ensures
            views(r@) == exec_operands(*self, command@, event, step, code),
    {
        let mut out: Vec<Vec<u8>> = Vec::new();
        out.push(copied(command));
        match event {
            ExecEvent::Enter => {
                out.push(
                    if step {
                        lit("enterstep")
                    } else {
                        lit("enter")
                    },
                );
            },
            ExecEvent::Leave => {
                out.push(decimal_i64(code.as_int()));
                out.push(self.result_bytes());
                out.push(
                    if step {
                        lit("leavestep")
                    } else {
                        lit("leave")
                    },
                );
            },
        }
        assert(views(out@) =~= exec_operands(*self, command@, event, step, code));
        out
    }
}

/// Where the dispatch of a traced command stands.
#[derive(Debug, Clone, Copy, PartialEq, Eq, Structural)]
pub enum DispatchPhase {
    /// Fire the step traces in force.
    EnterStep,
    /// Fire the command's own traces.
    Enter,
    /// Put the command's step traces in force, run it, take them out again.
    Run,
    /// Fire the command's own traces, told this completion.
    Leave(Code),
    /// Fire the step traces in force, told this completion.
    LeaveStep(Code),
    /// The command has completed.
    Done(Code),
}

/// The phases up to the command's run that a plan still asks for, after those
/// before `from`.
pub open spec fn phase_before_run(plan: TracePlan, entered: bool) -> DispatchPhase {
    if plan.stepping && !entered {
        DispatchPhase::EnterStep
    } else if plan.enter {
        DispatchPhase::Enter
    } else {
        DispatchPhase::Run
    }
}

/// The phase after the command's own traces were told `code`.
pub open spec fn phase_before_end(plan: TracePlan, code: Code) -> DispatchPhase {
    if plan.stepping {
        DispatchPhase::LeaveStep(code)
    } else {
        DispatchPhase::Done(code)
    }
}

/// The phase after `phase`. `outcome` is the completion of the run, or that of
/// a callback which did not end okay: such a one ends the dispatch before the
/// run, and replaces the completion after it.
pub open spec fn phase_after(
    plan: TracePlan,
    phase: DispatchPhase,
    outcome: Option<Code>,
) -> DispatchPhase {
    match (phase, outcome) {
        (DispatchPhase::EnterStep, Some(c)) => DispatchPhase::Done(c),
        (DispatchPhase::EnterStep, None) => phase_before_run(plan, true),
        (DispatchPhase::Enter, Some(c)) => DispatchPhase::Done(c),
        (DispatchPhase::Enter, None) => DispatchPhase::Run,
        (DispatchPhase::Run, Some(c)) => if plan.leave {
            DispatchPhase::Leave(c)
        } else {
            phase_before_end(plan, c)
        },
        (DispatchPhase::Run, None) => DispatchPhase::Run,
        (DispatchPhase::Leave(_), Some(c)) => phase_before_end(plan, c),
        (DispatchPhase::Leave(c), None) => phase_before_end(plan, c),
        (DispatchPhase::LeaveStep(_), Some(c)) => DispatchPhase::Done(c),
        (DispatchPhase::LeaveStep(c), None) => DispatchPhase::Done(c),
        (DispatchPhase::Done(c), _) => DispatchPhase::Done(c),
    }
}

/// Begins the dispatch of a traced command.
pub fn first_phase(plan: TracePlan) -> (p: DispatchPhase)
    ensures
        p == phase_before_run(plan, false),
{
    if plan.stepping {
        DispatchPhase::EnterStep
    } else if plan.enter {
        DispatchPhase::Enter
    } else {
        DispatchPhase::Run
    }
}

/// Takes the dispatch of a traced command one phase on.
pub fn next_phase(plan: TracePlan, phase: DispatchPhase, outcome: Option<Code>) -> (p:
    DispatchPhase)
    ensures
        p == phase_after(plan, phase, outcome),
{
    match phase {
        DispatchPhase::EnterStep => match outcome {
            Some(c) => DispatchPhase::Done(c),
            None => if plan.enter {
                DispatchPhase::Enter
            } else {
                DispatchPhase::Run
            },
        },
        DispatchPhase::Enter => match outcome {
            Some(c) => DispatchPhase::Done(c),
            None => DispatchPhase::Run,
        },
        DispatchPhase::Run => match outcome {
            Some(c) => if plan.leave {
                DispatchPhase::Leave(c)
            } else if plan.stepping {
                DispatchPhase::LeaveStep(c)
            } else {
                DispatchPhase::Done(c)
            },
            None => DispatchPhase::Run,
        },
        DispatchPhase::Leave(told) => {
            let c: Code = match outcome {
                Some(c) => c,
                None => told,
            };
            if plan.stepping {
                DispatchPhase::LeaveStep(c)
            } else {
                DispatchPhase::Done(c)
            }
        },
        DispatchPhase::LeaveStep(told) => match outcome {
            Some(c) => DispatchPhase::Done(c),
            None => DispatchPhase::Done(told),
        },
        DispatchPhase::Done(c) => DispatchPhase::Done(c),
    }
}

/// A command whose callbacks all end okay completes as its run did, however it
/// is traced.
pub proof fn okay_callbacks_change_nothing(plan: TracePlan, code: Code)
    ensures
        ({
            let after_run = phase_after(plan, DispatchPhase::Run, Some(code));
            let after_leave = if after_run is Leave {
                phase_after(plan, after_run, None)
            } else {
                after_run
            };
            let end = if after_leave is LeaveStep {
                phase_after(plan, after_leave, None)
            } else {
                after_leave
            };
            end == DispatchPhase::Done(code)
        }),
{
}

/// The traces on a command that watch for its beginning or its end: of those
/// for the beginning the one that was set last fires first, of those for the
/// end the one that was set last fires last.
pub proof fn traces_nest_around_the_command(
    ts: Seq<CmdTraceView>,
    t: CmdTraceView,
    fqn: Seq<u8>,
)
    ensures
        exec_order(ts.push(t), fqn, ExecEvent::Enter) == if t.name == fqn && t.ops.enter {
            seq![t.id] + exec_order(ts, fqn, ExecEvent::Enter)
        } else {
            exec_order(ts, fqn, ExecEvent::Enter)
        },
        exec_order(ts.push(t), fqn, ExecEvent::Leave) == if t.name == fqn && t.ops.leave {
            exec_order(ts, fqn, ExecEvent::Leave) + seq![t.id]
        } else {
            exec_order(ts, fqn, ExecEvent::Leave)
        },
        exec_order(Seq::empty(), fqn, ExecEvent::Enter).len() == 0,
        exec_order(Seq::empty(), fqn, ExecEvent::Leave).len() == 0,
{
    assert(ts.push(t).drop_last() =~= ts);
    let enter = watching(ts, fqn, ExecEvent::Enter);
    assert(enter.push(t.id).reverse() =~= seq![t.id] + enter.reverse());
    let leave = watching(ts, fqn, ExecEvent::Leave);
    assert(leave.push(t.id) =~= leave + seq![t.id]);
}

/// Step traces nest in the same way, by when they came into force.
pub proof fn step_traces_nest_around_the_command(ss: Seq<StepView>, s: StepView)
    ensures
        step_order(ss.push(s), ExecEvent::Enter) == if s.enterstep {
            seq![s.command] + step_order(ss, ExecEvent::Enter)
        } else {
            step_order(ss, ExecEvent::Enter)
        },
        step_order(ss.push(s), ExecEvent::Leave) == if s.leavestep {
            step_order(ss, ExecEvent::Leave) + seq![s.command]
        } else {
            step_order(ss, ExecEvent::Leave)
        },
        step_order(Seq::empty(), ExecEvent::Enter).len() == 0,
        step_order(Seq::empty(), ExecEvent::Leave).len() == 0,
{
    assert(ss.push(s).drop_last() =~= ss);
    let enter = step_commands(ss, ExecEvent::Enter);
    assert(enter.push(s.command).reverse() =~= seq![s.command] + enter.reverse());
    let leave = step_commands(ss, ExecEvent::Leave);
    assert(leave.push(s.command) =~= leave + seq![s.command]);
}

/// The step traces on a command come into force as it begins, in the order they
/// were set in, each with the steps it was set for. One that is in force for an
/// outer call of the command does not come into force again.
pub proof fn a_step_trace_comes_into_force_once(
    ts: Seq<CmdTraceView>,
    t: CmdTraceView,
    ss: Seq<StepView>,
    fqn: Seq<u8>,
)
    ensures
        ({
            let outer = exists|i: int|
                0 <= i < ss.len() && (#[trigger] ss[i]).owner == fqn && ss[i].command == t.command;
            steps_installed(ts.push(t), ss, fqn) == if t.name == fqn && (t.ops.enterstep
                || t.ops.leavestep) && !outer {
                steps_installed(ts, ss, fqn) + seq![
                    StepView {
                        owner: fqn,
                        enterstep: t.ops.enterstep,
                        leavestep: t.ops.leavestep,
                        command: t.command,
                    },
                ]
            } else {
                steps_installed(ts, ss, fqn)
            }
        }),
        steps_installed(Seq::empty(), ss, fqn).len() == 0,
{
    assert(ts.push(t).drop_last() =~= ts);
    let was = steps_installed(ts, ss, fqn);
    let s = StepView {
        owner: fqn,
        enterstep: t.ops.enterstep,
        leavestep: t.ops.leavestep,
        command: t.command,
    };
    assert(was.push(s) =~= was + seq![s]);
}

/// A walk goes on at the next trace in its order that is still set and whose
/// callback is not running.
pub proof fn an_exec_walk_skips_what_is_gone_or_running(
    ts: Seq<CmdTraceView>,
    running: Seq<u64>,
    order: Seq<u64>,
    from: int,
)
    requires
        0 <= from <= order.len(),
    ensures
        ({
            let at = next_ready(ts, running, order, from);
            &&& from <= at <= order.len()
            &&& forall|k: int|
                from <= k < at ==> running.contains(#[trigger] order[k]) || (forall|i: int|
                    0 <= i < ts.len() ==> (#[trigger] ts[i]).id != order[k])
            &&& at < order.len() ==> !running.contains(order[at]) && exists|i: int|
                0 <= i < ts.len() && (#[trigger] ts[i]).id == order[at]
        }),
    decreases order.len() - from,
{
    if from < order.len() {
        a_live_trace_is_found(ts, order[from]);
        if running.contains(order[from]) || live_command(ts, order[from]) is None {
            an_exec_walk_skips_what_is_gone_or_running(ts, running, order, from + 1);
        }
    }
}

/// An identity finds the callback of the trace that has it.
pub proof fn a_live_trace_is_found(ts: Seq<CmdTraceView>, id: u64)
    ensures
        match live_command(ts, id) {
            Some(c) => exists|i: int|
                0 <= i < ts.len() && (#[trigger] ts[i]).id == id && ts[i].command == c,
            None => forall|i: int| 0 <= i < ts.len() ==> (#[trigger] ts[i]).id != id,
        },
    decreases ts.len(),
{
    if ts.len() > 0 {
        if ts[0].id == id {
            assert(ts[0].command == live_command(ts, id)->0);
        } else {
            let rest = ts.skip(1);
            a_live_trace_is_found(rest, id);
            match live_command(rest, id) {
                Some(c) => {
                    let i = choose|i: int|
                        0 <= i < rest.len() && (#[trigger] rest[i]).id == id && rest[i].command
                            == c;
                    assert(ts[i + 1] == rest[i]);
                },
                None => {
                    assert forall|i: int| 0 <= i < ts.len() implies (#[trigger] ts[i]).id
                        != id by {
                        if i > 0 {
                            assert(rest[i - 1] == ts[i]);
                        }
                    }
                },
            }
        }
    }
}

/// A callback is told the command first and the event last. Between them one at
/// the end is told the number of the completion and the result.
pub proof fn a_callback_is_told_how_the_command_ended(
    i: Interp,
    command: Seq<u8>,
    step: bool,
    code: Code,
)
    ensures
        exec_operands(i, command, ExecEvent::Enter, step, code) == seq![
            command,
            if step {
                text("enterstep")
            } else {
                text("enter")
            },
        ],
        ({
            let told = exec_operands(i, command, ExecEvent::Leave, step, code);
            &&& told.len() == 4
            &&& told[0] == command
            &&& told[1] == decimal(code.number())
            &&& told[2] == i.state.result@
            &&& told[3] == if step {
                text("leavestep")
            } else {
                text("leave")
            }
        }),
{
}

/// A dispatch that no callback objects to runs the command once, tells the step
/// traces and then the command's own before it, tells the command's own and
/// then the step traces after it, leaves out whoever does not watch, and ends as
/// the run did.
pub proof fn a_dispatch_goes_through_its_phases(plan: TracePlan, code: Code)
    ensures
        ({
            let start = phase_before_run(plan, false);
            &&& plan.stepping ==> start is EnterStep
            &&& !plan.stepping && plan.enter ==> start is Enter
            &&& !plan.stepping && !plan.enter ==> start is Run
        }),
        plan.enter ==> phase_after(plan, DispatchPhase::EnterStep, None) is Enter,
        !plan.enter ==> phase_after(plan, DispatchPhase::EnterStep, None) is Run,
        phase_after(plan, DispatchPhase::Enter, None) is Run,
        plan.leave ==> phase_after(plan, DispatchPhase::Run, Some(code)) == DispatchPhase::Leave(
            code,
        ),
        !plan.leave && plan.stepping ==> phase_after(plan, DispatchPhase::Run, Some(code))
            == DispatchPhase::LeaveStep(code),
        !plan.leave && !plan.stepping ==> phase_after(plan, DispatchPhase::Run, Some(code))
            == DispatchPhase::Done(code),
        plan.stepping ==> phase_after(plan, DispatchPhase::Leave(code), None)
            == DispatchPhase::LeaveStep(code),
        !plan.stepping ==> phase_after(plan, DispatchPhase::Leave(code), None)
            == DispatchPhase::Done(code),
        phase_after(plan, DispatchPhase::LeaveStep(code), None) == DispatchPhase::Done(code),
        phase_after(plan, DispatchPhase::Done(code), None) == DispatchPhase::Done(code),
{
}

/// A callback that objects before the run ends the dispatch with its code, and
/// the command is not run. One that objects after it gives its code in place of
/// the run's.
pub proof fn an_objection_takes_the_place_of_the_run(plan: TracePlan, ran: Code, objection: Code)
    ensures
        phase_after(plan, DispatchPhase::EnterStep, Some(objection)) == DispatchPhase::Done(
            objection,
        ),
        phase_after(plan, DispatchPhase::Enter, Some(objection)) == DispatchPhase::Done(objection),
        phase_after(plan, DispatchPhase::Leave(ran), Some(objection)) == phase_after(
            plan,
            DispatchPhase::Leave(objection),
            None,
        ),
        phase_after(plan, DispatchPhase::LeaveStep(ran), Some(objection)) == DispatchPhase::Done(
            objection,
        ),
        objection_of(Code::Okay) is None,
        objection != Code::Okay ==> objection_of(objection) == Some(objection),
{
}

/// Whether `r` is the walk over the traces of the command `fqn` for `event`:
/// none where none watches.
pub open spec fn exec_firing_begins(
    before: Interp,
    after: Interp,
    fqn: Seq<u8>,
    event: ExecEvent,
    r: Option<ExecFiring>,
) -> bool {
    let tt = before.state.traces;
    let order = exec_order(cmd_trace_views(tt.cmd_traces@), fqn, event);
    match r {
        None => order.len() == 0 && after == before,
        Some(f) => {
            &&& order.len() > 0
            &&& f.order@ == order
            &&& f.next == 0
            &&& exec_walk_begun(before, after, f.saved)
        },
    }
}

/// The step traces on the command `fqn` come into force; they are `n`.
pub open spec fn step_traces_put_in_force(
    before: Interp,
    after: Interp,
    fqn: Seq<u8>,
    n: usize,
) -> bool {
    let tt = before.state.traces;
    let ss = step_views(tt.step_active@);
    let new = steps_installed(cmd_trace_views(tt.cmd_traces@), ss, fqn);
    &&& n == new.len()
    &&& step_views(after.state.traces.step_active@) == ss + new
    &&& after == (Interp {
        state: InterpState {
            traces: TraceTable { step_active: after.state.traces.step_active, ..tt },
            ..before.state
        },
        ..before
    })
}

/// Whether `p` says which traces a dispatch of the command `fqn` has to tell.
pub open spec fn planned(s: InterpState, fqn: Option<Vec<u8>>, p: TracePlan) -> bool {
    let vs = cmd_trace_views(s.traces.cmd_traces@);
    &&& p.enter == (fqn matches Some(f) && some_trace(vs, f@, TraceKind::Enter))
    &&& p.leave == (fqn matches Some(f) && some_trace(vs, f@, TraceKind::Leave))
    &&& p.step == (fqn matches Some(f) && some_trace(vs, f@, TraceKind::Step))
    &&& p.stepping == (s.traces.step_active@.len() > 0 && s.traces.exec_firing == 0)
}

/// A walk begins exactly if a trace watches, with all that do, in their order
/// and from the first; the result is kept for its end.
pub proof fn an_exec_walk_goes_through_all_that_watch(
    before: Interp,
    after: Interp,
    fqn: Seq<u8>,
    event: ExecEvent,
    r: Option<ExecFiring>,
)
    requires
        before.state.traces.exec_firing < usize::MAX,
        exec_firing_begins(before, after, fqn, event, r),
    ensures
        r is Some <==> exec_order(
            cmd_trace_views(before.state.traces.cmd_traces@),
            fqn,
            event,
        ).len() > 0,
        r matches Some(f) ==> f.order@ == exec_order(
            cmd_trace_views(before.state.traces.cmd_traces@),
            fqn,
            event,
        ) && f.next == 0 && f.saved@ == before.state.result@,
        r is Some ==> after.state.traces.exec_firing == before.state.traces.exec_firing + 1,
        r is None ==> after == before,
{
}

/// The step traces that come into force do so behind those that are, which stay.
pub proof fn step_traces_in_force_stay(before: Interp, after: Interp, fqn: Seq<u8>, n: usize)
    requires
        step_traces_put_in_force(before, after, fqn, n),
    ensures
        after.state.traces.step_active@.len() == before.state.traces.step_active@.len() + n,
        step_views(after.state.traces.step_active@).take(
            before.state.traces.step_active@.len() as int,
        ) == step_views(before.state.traces.step_active@),
        step_views(after.state.traces.step_active@).skip(
            before.state.traces.step_active@.len() as int,
        ) == steps_installed(
            cmd_trace_views(before.state.traces.cmd_traces@),
            step_views(before.state.traces.step_active@),
            fqn,
        ),
        after.state.result == before.state.result,
{
    let ss = step_views(before.state.traces.step_active@);
    let all = step_views(after.state.traces.step_active@);
    assert(ss.len() == before.state.traces.step_active@.len());
    assert(all.len() == after.state.traces.step_active@.len());
    assert(all.take(ss.len() as int) =~= ss);
    assert(all.skip(ss.len() as int) =~= steps_installed(
        cmd_trace_views(before.state.traces.cmd_traces@),
        ss,
        fqn,
    ));
}

/// A dispatch tells the traces on its command that watch for its beginning or
/// its end, each exactly if there is one; and the step traces in force, unless
/// it is itself part of a callback.
pub proof fn a_dispatch_tells_whoever_watches(
    s: InterpState,
    fqn: Option<Vec<u8>>,
    p: TracePlan,
)
    requires
        planned(s, fqn, p),
    ensures
        p.enter <==> fqn is Some && exists|i: int|
            0 <= i < s.traces.cmd_traces@.len() && (#[trigger] s.traces.cmd_traces@[i]).name@
                == fqn->0@ && s.traces.cmd_traces@[i].ops.enter,
        p.leave <==> fqn is Some && exists|i: int|
            0 <= i < s.traces.cmd_traces@.len() && (#[trigger] s.traces.cmd_traces@[i]).name@
                == fqn->0@ && s.traces.cmd_traces@[i].ops.leave,
        p.stepping <==> s.traces.step_active@.len() > 0 && s.traces.exec_firing == 0,
{
    let ts = s.traces.cmd_traces@;
    let vs = cmd_trace_views(ts);
    if let Some(f) = fqn {
        assert(forall|i: int| 0 <= i < ts.len() ==> (#[trigger] vs[i]).name == ts[i].name@);
        assert(forall|i: int|
            0 <= i < ts.len() ==> vs[i].name == (#[trigger] ts[i]).name@ && vs[i].ops
                == ts[i].ops);
        if exists|i: int| 0 <= i < ts.len() && (#[trigger] ts[i]).name@ == f@ && ts[i].ops.enter {
            let i = choose|i: int|
                0 <= i < ts.len() && (#[trigger] ts[i]).name@ == f@ && ts[i].ops.enter;
            assert(vs[i].name == f@ && has_kind(vs[i], TraceKind::Enter));
        }
        if exists|i: int| 0 <= i < ts.len() && (#[trigger] ts[i]).name@ == f@ && ts[i].ops.leave {
            let i = choose|i: int|
                0 <= i < ts.len() && (#[trigger] ts[i]).name@ == f@ && ts[i].ops.leave;
            assert(vs[i].name == f@ && has_kind(vs[i], TraceKind::Leave));
        }
        if p.enter {
            let i = choose|i: int|
                0 <= i < vs.len() && (#[trigger] vs[i]).name == f@ && has_kind(
                    vs[i],
                    TraceKind::Enter,
                );
            assert(ts[i].name@ == f@);
        }
        if p.leave {
            let i = choose|i: int|
                0 <= i < vs.len() && (#[trigger] vs[i]).name == f@ && has_kind(
                    vs[i],
                    TraceKind::Leave,
                );
            assert(ts[i].name@ == f@);
        }
    }
}

} // verus!
