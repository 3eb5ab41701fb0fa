//! Variable traces: which fire for an access, in what order, and what becomes
//! of an access whose callback fails.

use vstd::prelude::*;

use crate::bytes::{
    append, append_text, copied, copied_opt, framed, lit, opt_view, same, same_opt, text,
};
use crate::code::Code;
use crate::errors::{noted_error, ExceptionView};
use crate::state::{Interp, InterpState, NsId};

verus! {

/// What a variable trace watches for.
#[derive(Debug, Clone, Copy, PartialEq, Eq, Structural)]
pub enum VarOp {
    Read,
    Write,
    Unset,
    Array,
}

impl VarOp {
    /// The word for the operation.
    pub open spec fn word(self) -> Seq<u8> {
        match self {
            VarOp::Read => text("read"),
            VarOp::Write => text("write"),
            VarOp::Unset => text("unset"),
            VarOp::Array => text("array"),
        }
    }

    /// The word for the operation.
    pub fn name(self) -> (r: &'static str)
        ensures
            text(r) == self.word(),
    {
        match self {
            VarOp::Read => "read",
            VarOp::Write => "write",
            VarOp::Unset => "unset",
            VarOp::Array => "array",
        }
    }
}

/// The operations a trace watches for.
#[derive(Debug, Clone, Copy, PartialEq, Eq, Structural)]
pub struct VarOps {
    pub read: bool,
    pub write: bool,
    pub unset: bool,
    pub array: bool,
}

impl VarOps {
    /// Whether `op` is among them.
    pub open spec fn has(self, op: VarOp) -> bool {
        match op {
            VarOp::Read => self.read,
            VarOp::Write => self.write,
            VarOp::Unset => self.unset,
            VarOp::Array => self.array,
        }
    }

    fn holds(self, op: VarOp) -> (r: bool)
        ensures
            r == self.has(op),
    {
        match op {
            VarOp::Read => self.read,
            VarOp::Write => self.write,
            VarOp::Unset => self.unset,
            VarOp::Array => self.array,
        }
    }
}

/// A trace on a variable, or on one element of it.
#[derive(Debug)]
pub struct VarTrace {
    /// Never used again for another trace.
    pub id: u64,
    /// The variable: its simple name, and the namespace or the call frame that
    /// holds it.
    pub base: Vec<u8>,
    pub elem: Option<Vec<u8>>,
    pub ns: Option<NsId>,
    pub frame_level: Option<usize>,
    pub ops: VarOps,
    /// The callback's command prefix.
    pub command: Vec<u8>,
    /// Whether the trace was set with the old form of the command.
    pub old_style: bool,
}

/// The variable that an access reaches.
#[derive(Debug)]
pub struct TraceHome {
    pub ns: Option<NsId>,
    pub level: Option<usize>,
    pub base: Vec<u8>,
    /// The element that a link leads to.
    pub link_elem: Option<Vec<u8>>,
}

/// The variable that a [`TraceHome`] is.
pub struct HomeView {
    pub ns: Option<NsId>,
    pub level: Option<usize>,
    pub base: Seq<u8>,
}

impl View for TraceHome {
    type V = HomeView;

    open spec fn view(&self) -> HomeView {
        HomeView { ns: self.ns, level: self.level, base: self.base@ }
    }
}

/// A variable cell whose traces are firing.
#[derive(Debug)]
pub struct VarScope {
    pub base: Vec<u8>,
    pub elem: Option<Vec<u8>>,
    pub ns: Option<NsId>,
    pub level: Option<usize>,
}

/// What a [`VarScope`] holds.
pub struct ScopeView {
    pub base: Seq<u8>,
    pub elem: Option<Seq<u8>>,
    pub ns: Option<NsId>,
    pub level: Option<usize>,
}

impl View for VarScope {
    type V = ScopeView;

    open spec fn view(&self) -> ScopeView {
        ScopeView {
            base: self.base@,
            elem: opt_view(self.elem),
            ns: self.ns,
            level: self.level,
        }
    }
}

/// The scopes as plain values.
pub open spec fn scope_views(ss: Seq<VarScope>) -> Seq<ScopeView> {
    Seq::new(ss.len(), |i: int| ss[i]@)
}

/// How one access presents itself to the traces.
#[derive(Debug)]
pub struct TraceAccess {
    /// The name the callback is told.
    pub reported: Vec<u8>,
    /// The element that traces are matched against.
    pub match_elem: Option<Vec<u8>>,
    /// The element the callback is told.
    pub report_elem: Option<Vec<u8>>,
    /// The element that the access was spelled with.
    pub spelling_elem: Option<Vec<u8>>,
    /// Whether the traces on the whole array take part.
    pub whole_array: bool,
}

/// A step trace that is in force while the command it is on runs.
#[derive(Debug)]
pub struct StepActive {
    pub owner: Vec<u8>,
    pub enterstep: bool,
    pub leavestep: bool,
    pub command: Vec<u8>,
}

/// What a command trace watches for.
#[derive(Debug, Clone, Copy, PartialEq, Eq, Structural)]
pub struct CmdOps {
    pub rename: bool,
    pub delete: bool,
    pub enter: bool,
    pub leave: bool,
    pub enterstep: bool,
    pub leavestep: bool,
}

/// A trace on a command.
#[derive(Debug)]
pub struct CmdTrace {
    /// Never used again for another trace.
    pub id: u64,
    /// The qualified name of the command.
    pub name: Vec<u8>,
    pub ops: CmdOps,
    pub command: Vec<u8>,
    /// Which binding of the name it is on, in the order bindings were made.
    pub token: Option<u64>,
}

/// A rename whose callbacks are running: the name being left still answers, as
/// the command under the new one.
#[derive(Debug)]
pub struct RenameWindow {
    pub from: Vec<u8>,
    pub to: Vec<u8>,
}

/// The traces of an interpreter, in the order they were set.
#[derive(Debug)]
pub struct TraceTable {
    pub traces: Vec<VarTrace>,
    pub cmd_traces: Vec<CmdTrace>,
    pub step_active: Vec<StepActive>,
    /// The variable cells whose traces are firing.
    pub active_var_scopes: Vec<VarScope>,
    /// The message of the callback that stopped an access.
    pub pending_err: Option<Vec<u8>>,
    /// The commands whose rename or delete traces are firing.
    pub firing_cmd_traces: Vec<Vec<u8>>,
    /// The command traces that were removed while such a walk is under way.
    pub untraced_cmd_trace_ids: Vec<u64>,
    /// The execution traces whose callbacks are running.
    pub firing_exec_traces: Vec<u64>,
    /// How many walks over execution traces are under way.
    pub exec_firing: usize,
    pub rename_windows: Vec<RenameWindow>,
}

impl TraceTable {
    /// No traces.
    pub open spec fn empty(self) -> bool {
        &&& self.traces@.len() == 0
        &&& self.cmd_traces@.len() == 0
        &&& self.step_active@.len() == 0
        &&& self.active_var_scopes@.len() == 0
        &&& self.pending_err is None
        &&& self.firing_cmd_traces@.len() == 0
        &&& self.untraced_cmd_trace_ids@.len() == 0
        &&& self.firing_exec_traces@.len() == 0
        &&& self.exec_firing == 0
        &&& self.rename_windows@.len() == 0
    }
}

impl Default for TraceTable {
    fn default() -> (r: TraceTable)
        ensures
            r.empty(),
    {
        TraceTable {
            traces: Vec::new(),
            cmd_traces: Vec::new(),
            step_active: Vec::new(),
            active_var_scopes: Vec::new(),
            pending_err: None,
            firing_cmd_traces: Vec::new(),
            untraced_cmd_trace_ids: Vec::new(),
            firing_exec_traces: Vec::new(),
            exec_firing: 0,
            rename_windows: Vec::new(),
        }
    }
}

/// The items of `s` that `keep` holds of, in order.
pub open spec fn kept<T>(s: Seq<T>, keep: spec_fn(T) -> bool) -> Seq<T>
    decreases s.len(),
{
    if s.len() == 0 {
        s
    } else if keep(s[0]) {
        seq![s[0]] + kept(s.skip(1), keep)
    } else {
        kept(s.skip(1), keep)
    }
}

/// Whether a trace is on the variable `base` of namespace `ns` or of the call
/// frame at `level`.
pub open spec fn on_variable(
    t: VarTrace,
    base: Seq<u8>,
    ns: Option<NsId>,
    level: Option<usize>,
) -> bool {
    t.base@ == base && t.ns == ns && t.frame_level == level
}

/// Whether a trace is on the variable that `home` is.
pub open spec fn on_home(t: VarTrace, home: TraceHome) -> bool {
    on_variable(t, home.base@, home.ns, home.level)
}

/// Whether a trace fires for `op` on element `elem` of the variable at `home`:
/// one on the whole variable fires for every element.
pub open spec fn applies(t: VarTrace, home: TraceHome, elem: Option<Seq<u8>>, op: VarOp) -> bool {
    on_home(t, home) && t.ops.has(op) && (t.elem is None || opt_view(t.elem) == elem)
}

/// The traces, newest first, that fire for an access: those on the whole
/// variable or those on its element.
pub open spec fn group_ids(
    ts: Seq<VarTrace>,
    home: TraceHome,
    elem: Option<Seq<u8>>,
    op: VarOp,
    whole: bool,
) -> Seq<u64>
    decreases ts.len(),
{
    if ts.len() == 0 {
        Seq::empty()
    } else {
        let rest = group_ids(ts.drop_last(), home, elem, op, whole);
        let t = ts.last();
        if (t.elem is None) == whole && applies(t, home, elem, op) {
            seq![t.id] + rest
        } else {
            rest
        }
    }
}

/// The cell that an access reaches.
pub open spec fn cell_of(home: TraceHome, elem: Option<Seq<u8>>) -> ScopeView {
    ScopeView { base: home.base@, elem, ns: home.ns, level: home.level }
}

/// Whether the traces of a cell are firing.
pub open spec fn is_active(tt: TraceTable, cell: ScopeView) -> bool {
    scope_views(tt.active_var_scopes@).contains(cell)
}

/// The traces that fire for an access, in the order they fire in: those on the
/// whole array, unless they are firing, then those on the element.
pub open spec fn firing_order(
    tt: TraceTable,
    home: TraceHome,
    access: TraceAccess,
    op: VarOp,
) -> Seq<u64> {
    let elem = opt_view(access.match_elem);
    let array_active = elem is Some && is_active(tt, cell_of(home, None));
    (if access.whole_array && !array_active {
        group_ids(tt.traces@, home, elem, op, true)
    } else {
        Seq::empty()
    }) + group_ids(tt.traces@, home, elem, op, false)
}

/// How an access presents itself. `spelling` is the access as written, `base`
/// and `elem` its halves; `recover` says that the emulated release recovers the
/// element that a link leads to.
pub open spec fn access_is(
    a: TraceAccess,
    spelling: Seq<u8>,
    base: Seq<u8>,
    elem: Option<Seq<u8>>,
    link_elem: Option<Seq<u8>>,
    unset: bool,
    recover: bool,
) -> bool {
    match (elem, link_elem) {
        (Some(e), _) => {
            &&& a.reported@ == if unset && recover {
                spelling
            } else {
                base
            }
            &&& opt_view(a.match_elem) == Some(e)
            &&& opt_view(a.report_elem) == Some(e)
            &&& opt_view(a.spelling_elem) == Some(e)
            &&& a.whole_array
        },
        (None, Some(k)) => {
            &&& a.reported@ == base
            &&& opt_view(a.match_elem) == Some(k)
            &&& opt_view(a.report_elem) == if recover {
                Some(k)
            } else {
                None
            }
            &&& a.spelling_elem is None
            &&& a.whole_array == recover
        },
        (None, None) => {
            &&& a.reported@ == base
            &&& a.match_elem is None
            &&& a.report_elem is None
            &&& a.spelling_elem is None
            &&& a.whole_array
        },
    }
}

/// Works out how an access presents itself to the traces.
pub fn trace_access(
    spelling: &[u8],
    base: &[u8],
    elem: &Option<Vec<u8>>,
    home: &TraceHome,
    unset: bool,
    recover: bool,
) -> (a: TraceAccess)
    ensures
        access_is(
            a,
            spelling@,
            base@,
            opt_view(*elem),
            opt_view(home.link_elem),
            unset,
            recover,
        ),
{
    match (elem, &home.link_elem) {
        (Some(e), _) => TraceAccess {
            reported: if unset && recover {
                copied(spelling)
            } else {
                copied(base)
            },
            match_elem: Some(copied(e)),
            report_elem: Some(copied(e)),
            spelling_elem: Some(copied(e)),
            whole_array: true,
        },
        (None, Some(k)) => TraceAccess {
            reported: copied(base),
            match_elem: Some(copied(k)),
            report_elem: if recover {
                Some(copied(k))
            } else {
                None
            },
            spelling_elem: None,
            whole_array: recover,
        },
        (None, None) => TraceAccess {
            reported: copied(base),
            match_elem: None,
            report_elem: None,
            spelling_elem: None,
            whole_array: true,
        },
    }
}

fn same_home(t: &VarTrace, home: &TraceHome) -> (r: bool)
    ensures
        r == on_home(*t, *home),
{
    same(&t.base, &home.base) && t.ns == home.ns && t.frame_level == home.level
}

fn trace_applies(t: &VarTrace, home: &TraceHome, elem: &Option<Vec<u8>>, op: VarOp) -> (r: bool)
    ensures
        r == applies(*t, *home, opt_view(*elem), op),
{
    same_home(t, home) && t.ops.holds(op) && (t.elem.is_none() || same_opt(&t.elem, elem))
}

/// Appends the traces of one group, newest first.
fn append_group(
    out: &mut Vec<u64>,
    ts: &[VarTrace],
    home: &TraceHome,
    elem: &Option<Vec<u8>>,
    op: VarOp,
    whole: bool,
)
    ensures
        final(out)@ == old(out)@ + group_ids(ts@, *home, opt_view(*elem), op, whole),
{
    let ghost e = opt_view(*elem);
    let ghost start = out@;
    let ghost all = group_ids(ts@, *home, e, op, whole);
    let mut n: usize = ts.len();
    assert(ts@.take(n as int) =~= ts@);
    assert(out@ + group_ids(ts@.take(n as int), *home, e, op, whole) =~= start + all);
    while n > 0
        invariant
            n <= ts@.len(),
            e == opt_view(*elem),
            out@ + group_ids(ts@.take(n as int), *home, e, op, whole) == start + all,
        decreases n,
    {
        let t = &ts[n - 1];
        let ghost prefix = ts@.take(n as int);
        assert(prefix.last() == ts@[n - 1]);
        assert(prefix.drop_last() =~= ts@.take(n - 1));
        let ghost rest = group_ids(ts@.take(n - 1), *home, e, op, whole);
        let ghost before = out@;
        if t.elem.is_none() == whole && trace_applies(t, home, elem, op) {
            out.push(t.id);
            assert(before + (seq![t.id] + rest) =~= out@ + rest);
        }
        n = n - 1;
    }
    assert(out@ + group_ids(ts@.take(0), *home, e, op, whole) =~= out@);
}

fn scope_active(scopes: &[VarScope], home: &TraceHome, elem: &Option<Vec<u8>>) -> (r: bool)
    ensures
        r == scope_views(scopes@).contains(cell_of(*home, opt_view(*elem))),
{
    let ghost cell = cell_of(*home, opt_view(*elem));
    let mut i: usize = 0;
    while i < scopes.len()
        invariant
            i <= scopes@.len(),
            cell == cell_of(*home, opt_view(*elem)),
            forall|j: int| 0 <= j < i ==> #[trigger] scope_views(scopes@)[j] != cell,
        decreases scopes@.len() - i,
    {
        let s = &scopes[i];
        if same(&s.base, &home.base) && same_opt(&s.elem, elem) && s.ns == home.ns && s.level
            == home.level {
            assert(scope_views(scopes@)[i as int] == cell);
            return true;
        }
        i = i + 1;
    }
    false
}

/// A walk over the traces of one access.
pub struct VarFiring {
    /// The traces to fire, in order, and the next of them.
    pub order: Vec<u64>,
    pub next: usize,
    pub op: VarOp,
    /// The result that comes back when the walk is over.
    pub saved: Vec<u8>,
}

/// A callback to run.
#[derive(Debug)]
pub struct VarCallback {
    pub command: Vec<u8>,
    pub old_style: bool,
}

/// The first trace with the identity `id`.
pub open spec fn trace_of(ts: Seq<VarTrace>, id: u64) -> Option<VarTrace>
    decreases ts.len(),
{
    if ts.len() == 0 {
        None
    } else if ts[0].id == id {
        Some(ts[0])
    } else {
        trace_of(ts.skip(1), id)
    }
}

/// The first position from `from` on whose trace is still set.
pub open spec fn next_live(ts: Seq<VarTrace>, order: Seq<u64>, from: int) -> int
    decreases order.len() - from,
{
    if from >= order.len() {
        order.len() as int
    } else if trace_of(ts, order[from]) is Some {
        from
    } else {
        next_live(ts, order, from + 1)
    }
}

fn find_trace(ts: &[VarTrace], id: u64) -> (r: Option<usize>)
    ensures
        match r {
            Some(i) => i < ts@.len() && trace_of(ts@, id) == Some(ts@[i as int]),
            None => trace_of(ts@, id) is None,
        },
{
    let mut i: usize = 0;
    assert(ts@.skip(0) =~= ts@);
    while i < ts.len()
        invariant
            i <= ts@.len(),
            trace_of(ts@, id) == trace_of(ts@.skip(i as int), id),
        decreases ts@.len() - i,
    {
        assert(ts@.skip(i as int)[0] == ts@[i as int]);
        if ts[i].id == id {
            return Some(i);
        }
        assert(ts@.skip(i as int).skip(1) =~= ts@.skip(i + 1));
        i = i + 1;
    }
    None
}

/// Only the active scopes changed.
pub open spec fn only_scopes_changed(before: Interp, after: Interp) -> bool {
    after == (Interp {
        state: InterpState {
            traces: TraceTable {
                active_var_scopes: after.state.traces.active_var_scopes,
                ..before.state.traces
            },
            ..before.state
        },
        ..before
    })
}

/// A walk over the traces of `cell` has begun.
pub open spec fn firing_begun(
    before: Interp,
    after: Interp,
    cell: ScopeView,
    f: VarFiring,
) -> bool {
    &&& f.saved@ == before.state.result@
    &&& only_scopes_changed(before, after)
    &&& scope_views(after.state.traces.active_var_scopes@) == scope_views(
        before.state.traces.active_var_scopes@,
    ).push(cell)
}

/// The walk `f` has ended.
pub open spec fn firing_ended(before: Interp, after: Interp, f: VarFiring) -> bool {
    &&& scope_views(after.state.traces.active_var_scopes@)
        == if before.state.traces.active_var_scopes@.len() == 0 {
        Seq::empty()
    } else {
        scope_views(before.state.traces.active_var_scopes@).drop_last()
    }
    &&& after == (Interp {
        state: InterpState {
            result: f.saved,
            traces: TraceTable {
                active_var_scopes: after.state.traces.active_var_scopes,
                ..before.state.traces
            },
            ..before.state
        },
        ..before
    })
}

/// Callbacks do not disturb the access they watch: behind the walk the result is
/// the one before it, and the cell is active only as it was, if the callbacks
/// themselves kept their walks balanced.
pub proof fn firing_keeps_the_result(
    before: Interp,
    inside: Interp,
    later: Interp,
    after: Interp,
    cell: ScopeView,
    f: VarFiring,
)
    requires
        firing_begun(before, inside, cell, f),
        scope_views(later.state.traces.active_var_scopes@) == scope_views(
            inside.state.traces.active_var_scopes@,
        ),
        firing_ended(later, after, f),
    ensures
        after.state.result@ == before.state.result@,
        scope_views(after.state.traces.active_var_scopes@) == scope_views(
            before.state.traces.active_var_scopes@,
        ),
{
    let scopes = scope_views(before.state.traces.active_var_scopes@);
    assert(scopes.push(cell).drop_last() =~= scopes);
    assert(scope_views(later.state.traces.active_var_scopes@).len()
        == later.state.traces.active_var_scopes@.len());
}

/// The note that an access which a callback stopped adds to the error trace.
pub open spec fn trace_note(op: VarOp, access: TraceAccess) -> Seq<u8> {
    op.word() + text(" trace on \"") + access.reported@ + match opt_view(access.spelling_elem) {
        Some(k) => text("(") + k + text(")"),
        None => Seq::empty(),
    } + text("\"")
}

impl Interp {
    /// Begins to fire the traces of an access: the cell is then active, and an
    /// access to it from a callback fires nothing. `None` where nothing is to
    /// fire.
    pub fn begin_var_firing(&mut self, home: &TraceHome, access: &TraceAccess, op: VarOp) -> (r:
        Option<VarFiring>)
        ensures
            var_firing_begins(*old(self), *final(self), *home, *access, op, r),
    {
        let elem = &access.match_elem;
        if scope_active(&self.state.traces.active_var_scopes, home, elem) {
            return None;
        }
        let whole: Option<Vec<u8>> = None;
        let array_active = elem.is_some() && scope_active(
            &self.state.traces.active_var_scopes,
            home,
            &whole,
        );
        let mut order: Vec<u64> = Vec::new();
        if access.whole_array && !array_active {
            append_group(&mut order, &self.state.traces.traces, home, elem, op, true);
        }
        append_group(&mut order, &self.state.traces.traces, home, elem, op, false);
        assert(order@ =~= firing_order(old(self).state.traces, *home, *access, op));
        if order.len() == 0 {
            return None;
        }
        let saved = self.result_bytes();
        self.state.traces.active_var_scopes.push(
            VarScope {
                base: copied(&home.base),
                elem: copied_opt(elem),
                ns: home.ns,
                level: home.level,
            },
        );
        assert(scope_views(self.state.traces.active_var_scopes@) =~= scope_views(
            old(self).state.traces.active_var_scopes@,
        ).push(cell_of(*home, opt_view(access.match_elem))));
        Some(VarFiring { order, next: 0, op, saved })
    }

    /// The next callback of a walk: a trace that was removed since the walk
    /// began does not fire.
    pub fn next_var_callback(&self, f: &mut VarFiring) -> (r: Option<VarCallback>)
        requires
            old(f).next <= old(f).order@.len(),
        ensures
            final(f).next <= final(f).order@.len(),
            *final(f) == (VarFiring { next: final(f).next, ..*old(f) }),
            var_callback_due(self.state.traces.traces@, *old(f), final(f).next, r),
    {
        let ghost start = f.next as int;
        while f.next < f.order.len()
            invariant
                f.next <= f.order@.len(),
                start == old(f).next,
                *f == (VarFiring { next: f.next, ..*old(f) }),
                next_live(self.state.traces.traces@, f.order@, start) == next_live(
                    self.state.traces.traces@,
                    f.order@,
                    f.next as int,
                ),
            decreases f.order@.len() - f.next,
        {
            let id = f.order[f.next];
            f.next = f.next + 1;
            if let Some(i) = find_trace(&self.state.traces.traces, id) {
                let t = &self.state.traces.traces[i];
                return Some(
                    VarCallback { command: copied(&t.command), old_style: t.old_style },
                );
            }
        }
        None
    }

    /// Judges the completion of a callback. An error stops the walk, and with
    /// it the access, unless the access is an unset. Returns whether the walk
    /// is stopped.
    pub fn var_callback_done(&mut self, op: VarOp, access: &TraceAccess, code: Code) -> (stop: bool)
        ensures
            var_callback_answered(*old(self), *final(self), op, *access, code, stop),
    {
        if op == VarOp::Unset || code != Code::Error {
            return false;
        }
        self.state.traces.pending_err = Some(self.result_bytes());
        let mut note = lit(op.name());
        append_text(&mut note, " trace on \"");
        append(&mut note, &access.reported);
        if let Some(k) = &access.spelling_elem {
            append(&mut note, &framed("(", k, ")"));
        }
        append_text(&mut note, "\"");
        assert(note@ =~= trace_note(op, *access));
        self.append_frame_noline(&note);
        true
    }

    /// Ends a walk: the cell is no longer active, and the result is back.
    pub fn end_var_firing(&mut self, f: VarFiring)
        ensures
            firing_ended(*old(self), *final(self), f),
    {
        self.state.traces.active_var_scopes.pop();
        self.state.result = f.saved;
        assert(scope_views(self.state.traces.active_var_scopes@) =~= if old(
            self).state.traces.active_var_scopes@.len() == 0 {
            Seq::empty()
        } else {
            scope_views(old(self).state.traces.active_var_scopes@).drop_last()
        });
    }

    /// Turns the error of a callback into the error of the access that it
    /// stopped: the trace stays, the result and the code become the access's
    /// own.
    pub fn var_trace_error(&mut self, name: &[u8], op: VarOp, reason: &[u8]) -> (c: Code)
        ensures
            c == Code::Error,
            final(self).state.result@ == access_message(op, name@, reason@),
            final(self).state.exc@ == match op {
                VarOp::Array => old(self).state.exc@,
                VarOp::Read => ExceptionView {
                    code: text("TCL READ VARNAME"),
                    code_explicit: false,
                    ..old(self).state.exc@
                },
                _ => ExceptionView {
                    code: text("TCL WRITE VARNAME"),
                    code_explicit: false,
                    ..old(self).state.exc@
                },
            },
            crate::errors::only_error_changed(*old(self), *final(self)),
    {
        let verb: &str = match op {
            VarOp::Read => "read",
            VarOp::Array => "trace array",
            _ => "set",
        };
        self.state.result = access_error(verb, name, reason);
        if op != VarOp::Array {
            self.state.exc.code = if op == VarOp::Read {
                lit("TCL READ VARNAME")
            } else {
                lit("TCL WRITE VARNAME")
            };
            self.state.exc.code_explicit = false;
        }
        Code::Error
    }

    /// Takes the message of the callback that stopped an access.
    pub fn take_pending_error(&mut self) -> (r: Vec<u8>)
        ensures
            r@ == match opt_view(old(self).state.traces.pending_err) {
                Some(m) => m,
                None => Seq::empty(),
            },
            *final(self) == (Interp {
                state: InterpState {
                    traces: TraceTable { pending_err: None, ..old(self).state.traces },
                    ..old(self).state
                },
                ..*old(self)
            }),
    {
        match self.state.traces.pending_err.take() {
            Some(m) => m,
            None => {
                let none: Vec<u8> = Vec::new();
                assert(none@ =~= Seq::empty());
                none
            },
        }
    }

    /// Whether any trace can observe the variable at `home`.
    pub fn var_is_traced(&self, home: &TraceHome) -> (r: bool)
        ensures
            r == exists|i: int|
                0 <= i < self.state.traces.traces@.len() && on_home(
                    #[trigger] self.state.traces.traces@[i],
                    *home,
                ),
    {
        let mut i: usize = 0;
        while i < self.state.traces.traces.len()
            invariant
                i <= self.state.traces.traces@.len(),
                forall|j: int|
                    0 <= j < i ==> !on_home(#[trigger] self.state.traces.traces@[j], *home),
            decreases self.state.traces.traces@.len() - i,
        {
            if same_home(&self.state.traces.traces[i], home) {
                return true;
            }
            i = i + 1;
        }
        false
    }
}

/// Whether a compiled variable was traced, and the trace epoch it was found at.
#[derive(Debug, Clone, Copy, PartialEq, Eq, Structural)]
pub struct SlotFlag {
    pub epoch: u64,
    pub traced: bool,
}

impl Interp {
    /// Whether a write to the variable at `home` is traced as a whole, as the
    /// logging of errors asks for the variable `errorInfo`.
    pub fn errorinfo_has_write_trace(&self, home: &TraceHome) -> (r: bool)
        ensures
            r == exists|i: int|
                0 <= i < self.state.traces.traces@.len() && applies(
                    #[trigger] self.state.traces.traces@[i],
                    *home,
                    None,
                    VarOp::Write,
                ),
    {
        let none: Option<Vec<u8>> = None;
        let mut i: usize = 0;
        while i < self.state.traces.traces.len()
            invariant
                i <= self.state.traces.traces@.len(),
                none is None,
                forall|j: int|
                    0 <= j < i ==> !applies(
                        #[trigger] self.state.traces.traces@[j],
                        *home,
                        None,
                        VarOp::Write,
                    ),
            decreases self.state.traces.traces@.len() - i,
        {
            if trace_applies(&self.state.traces.traces[i], home, &none, VarOp::Write) {
                return true;
            }
            i = i + 1;
        }
        false
    }

    /// Whether a compiled variable is traced: by what is remembered of it, where
    /// that is from the current epoch, else by its traces. `home` is `None`
    /// where the variable has no name. Returns what is to be remembered too.
    pub fn codegen_slot_is_traced(&self, remembered: Option<SlotFlag>, home: &Option<TraceHome>)
        -> (r: (bool, Option<SlotFlag>))
        ensures
            match remembered {
                Some(f) if f.epoch == self.state.var_trace_epoch => r == (f.traced, Some(f)),
                _ => match *home {
                    Some(h) => {
                        &&& r.0 == exists|i: int|
                            0 <= i < self.state.traces.traces@.len() && on_home(
                                #[trigger] self.state.traces.traces@[i],
                                h,
                            )
                        &&& r.1 == Some(
                            SlotFlag { epoch: self.state.var_trace_epoch, traced: r.0 },
                        )
                    },
                    None => !r.0 && r.1 == remembered,
                },
            },
    {
        if let Some(f) = remembered {
            if f.epoch == self.state.var_trace_epoch {
                return (f.traced, Some(f));
            }
        }
        match home {
            Some(h) => {
                let traced = self.var_is_traced(h);
                (traced, Some(SlotFlag { epoch: self.state.var_trace_epoch, traced }))
            },
            None => (false, remembered),
        }
    }
}

/// The verb of the message for an access that a callback stopped.
pub open spec fn access_verb(op: VarOp) -> Seq<u8> {
    match op {
        VarOp::Read => text("read"),
        VarOp::Array => text("trace array"),
        _ => text("set"),
    }
}

/// The message for an access that a callback stopped.
pub open spec fn access_message(op: VarOp, name: Seq<u8>, reason: Seq<u8>) -> Seq<u8> {
    text("can't ") + access_verb(op) + text(" \"") + name + text("\": ") + reason
}

fn access_error(verb: &str, name: &[u8], reason: &[u8]) -> (r: Vec<u8>)
    ensures
        r@ == text("can't ") + text(verb) + text(" \"") + name@ + text("\": ") + reason@,
{
    let mut m = lit("can't ");
    append_text(&mut m, verb);
    append_text(&mut m, " \"");
    append(&mut m, name);
    append_text(&mut m, "\": ");
    append(&mut m, reason);
    m
}

/// A name with an element in brackets, where there is one.
pub open spec fn display_name(base: Seq<u8>, elem: Option<Seq<u8>>) -> Seq<u8> {
    match elem {
        Some(k) => base + text("(") + k + text(")"),
        None => base,
    }
}

/// A name with an element in brackets, where there is one.
pub fn shown_variable(base: &[u8], elem: &Option<Vec<u8>>) -> (r: Vec<u8>)
    ensures
        r@ == display_name(base@, opt_view(*elem)),
{
    let mut out = copied(base);
    if let Some(k) = elem {
        append_text(&mut out, "(");
        append(&mut out, k);
        append_text(&mut out, ")");
    }
    out
}

/// The message for a variable that could not be read.
pub open spec fn read_miss(
    base: Seq<u8>,
    index: Option<Seq<u8>>,
    is_array: bool,
    exists_there: bool,
) -> Seq<u8> {
    text("can't read \"") + display_name(base, index) + text("\": ") + if is_array {
        if index is Some {
            text("no such element in array")
        } else {
            text("variable is array")
        }
    } else if index is Some && exists_there {
        text("variable isn't array")
    } else {
        text("no such variable")
    }
}

/// The message for a variable that could not be read. `is_array` and
/// `exists_there` say what stands under the name.
pub fn read_miss_msg(base: &[u8], index: &Option<Vec<u8>>, is_array: bool, exists_there: bool) -> (r:
    Vec<u8>)
    ensures
        r@ == read_miss(base@, opt_view(*index), is_array, exists_there),
{
    let mut msg = lit("can't read \"");
    append(&mut msg, &shown_variable(base, index));
    append_text(&mut msg, "\": ");
    if is_array {
        if index.is_some() {
            append_text(&mut msg, "no such element in array");
        } else {
            append_text(&mut msg, "variable is array");
        }
    } else if index.is_some() && exists_there {
        append_text(&mut msg, "variable isn't array");
    } else {
        append_text(&mut msg, "no such variable");
    }
    msg
}

/// A callback for a variable that is destroyed.
#[derive(Debug)]
pub struct TeardownCallback {
    pub name: Vec<u8>,
    pub elem: Vec<u8>,
    pub command: Vec<u8>,
    pub old_style: bool,
}

/// What a [`TeardownCallback`] holds.
pub struct TeardownView {
    pub name: Seq<u8>,
    pub elem: Seq<u8>,
    pub command: Seq<u8>,
    pub old_style: bool,
}

impl View for TeardownCallback {
    type V = TeardownView;

    open spec fn view(&self) -> TeardownView {
        TeardownView {
            name: self.name@,
            elem: self.elem@,
            command: self.command@,
            old_style: self.old_style,
        }
    }
}

/// The callbacks as plain values.
pub open spec fn teardown_views(cs: Seq<TeardownCallback>) -> Seq<TeardownView> {
    Seq::new(cs.len(), |i: int| cs[i]@)
}

/// The callbacks, newest first, of a cell that is destroyed.
pub open spec fn cell_callbacks(
    ts: Seq<VarTrace>,
    home: HomeView,
    elem: Option<Seq<u8>>,
    name: Seq<u8>,
    report_elem: Seq<u8>,
) -> Seq<TeardownView>
    decreases ts.len(),
{
    if ts.len() == 0 {
        Seq::empty()
    } else {
        let rest = cell_callbacks(ts.drop_last(), home, elem, name, report_elem);
        let t = ts.last();
        if on_variable(t, home.base, home.ns, home.level) && opt_view(t.elem) == elem
            && t.ops.unset {
            seq![
                TeardownView {
                    name,
                    elem: report_elem,
                    command: t.command@,
                    old_style: t.old_style,
                },
            ] + rest
        } else {
            rest
        }
    }
}

impl Interp {
    /// The callbacks, newest first, of a cell that is destroyed.
    pub fn cell_unset_traces(
        &self,
        home: &TraceHome,
        elem: &Option<Vec<u8>>,
        name: &[u8],
        report_elem: &[u8],
    ) -> (r: Vec<TeardownCallback>)
        ensures
            teardown_views(r@) == cell_callbacks(
                self.state.traces.traces@,
                home@,
                opt_view(*elem),
                name@,
                report_elem@,
            ),
    {
        let ts = &self.state.traces.traces;
        let ghost e = opt_view(*elem);
        let ghost all = cell_callbacks(ts@, home@, e, name@, report_elem@);
        let mut out: Vec<TeardownCallback> = Vec::new();
        let mut n: usize = ts.len();
        assert(ts@.take(n as int) =~= ts@);
        assert(teardown_views(out@) + all =~= all);
        while n > 0
            invariant
                n <= ts@.len(),
                e == opt_view(*elem),
                teardown_views(out@) + cell_callbacks(
                    ts@.take(n as int),
                    home@,
                    e,
                    name@,
                    report_elem@,
                ) == all,
            decreases n,
        {
            let t = &ts[n - 1];
            let ghost prefix = ts@.take(n as int);
            assert(prefix.last() == ts@[n - 1]);
            assert(prefix.drop_last() =~= ts@.take(n - 1));
            let ghost rest = cell_callbacks(ts@.take(n - 1), home@, e, name@, report_elem@);
            let ghost before = teardown_views(out@);
            if same_home(t, home) && same_opt(&t.elem, elem) && t.ops.unset {
                let c = TeardownCallback {
                    name: copied(name),
                    elem: copied(report_elem),
                    command: copied(&t.command),
                    old_style: t.old_style,
                };
                let ghost v = c@;
                out.push(c);
                assert(teardown_views(out@) =~= before.push(v));
                assert(before + (seq![v] + rest) =~= teardown_views(out@) + rest);
            }
            n = n - 1;
        }
        assert(teardown_views(out@) + cell_callbacks(
            ts@.take(0),
            home@,
            e,
            name@,
            report_elem@,
        ) =~= teardown_views(out@));
        out
    }
}

/// A trace fires for the operations it was set for, on the variable it was set
/// on and, if it was set on one element, for that element. The trace that was
/// set last fires first.
pub proof fn a_newer_trace_fires_first(
    ts: Seq<VarTrace>,
    t: VarTrace,
    home: TraceHome,
    elem: Option<Seq<u8>>,
    op: VarOp,
    whole: bool,
)
    ensures
        ({
            let set_for = match op {
                VarOp::Read => t.ops.read,
                VarOp::Write => t.ops.write,
                VarOp::Unset => t.ops.unset,
                VarOp::Array => t.ops.array,
            };
            let here = t.base@ == home.base@ && t.ns == home.ns && t.frame_level == home.level;
            let this = match t.elem {
                None => whole,
                Some(e) => !whole && elem == Some(e@),
            };
            group_ids(ts.push(t), home, elem, op, whole) == if set_for && here && this {
                seq![t.id] + group_ids(ts, home, elem, op, whole)
            } else {
                group_ids(ts, home, elem, op, whole)
            }
        }),
        group_ids(Seq::empty(), home, elem, op, whole) == Seq::<u64>::empty(),
{
    assert(ts.push(t).drop_last() =~= ts);
}

/// The traces on a whole array fire before those on its element, and not at all
/// while they are firing already or where the access does not reach the array.
/// Those on the element fire in any case.
pub proof fn an_array_fires_before_its_element(
    tt: TraceTable,
    home: TraceHome,
    access: TraceAccess,
    op: VarOp,
)
    ensures
        ({
            let elem = opt_view(access.match_elem);
            let array = group_ids(tt.traces@, home, elem, op, true);
            let element = group_ids(tt.traces@, home, elem, op, false);
            let order = firing_order(tt, home, access, op);
            let busy = scope_views(tt.active_var_scopes@).contains(
                ScopeView { base: home.base@, elem: None, ns: home.ns, level: home.level },
            );
            &&& access.whole_array && (elem is None || !busy) ==> order == array + element
            &&& !access.whole_array || (elem is Some && busy) ==> order == element
        }),
{
    let elem = opt_view(access.match_elem);
    let element = group_ids(tt.traces@, home, elem, op, false);
    assert(Seq::<u64>::empty() + element =~= element);
}

/// An access to an element is matched and reported as that element of the
/// array, and reaches the array's own traces. One through a link to an element
/// is matched as that element, and reported as it, with the array's traces,
/// where the release recovers it. One to a whole variable is reported as it is.
pub proof fn an_access_is_reported_as_it_reaches(
    a: TraceAccess,
    spelling: Seq<u8>,
    base: Seq<u8>,
    elem: Option<Seq<u8>>,
    link_elem: Option<Seq<u8>>,
    unset: bool,
    recover: bool,
)
    requires
        access_is(a, spelling, base, elem, link_elem, unset, recover),
    ensures
        elem is Some ==> opt_view(a.match_elem) == elem && opt_view(a.report_elem) == elem
            && opt_view(a.spelling_elem) == elem && a.whole_array,
        elem is None ==> opt_view(a.match_elem) == link_elem && a.spelling_elem is None,
        elem is None && recover ==> opt_view(a.report_elem) == link_elem && a.whole_array,
        elem is None && !recover ==> a.report_elem is None && (a.whole_array <==> link_elem
            is None),
        a.reported@ == spelling || a.reported@ == base,
        !(elem is Some && unset && recover) ==> a.reported@ == base,
        elem is Some && unset && recover ==> a.reported@ == spelling,
{
}

/// A walk goes on at the next trace in its order that is still set: those
/// before it are gone, and where none is left it is over.
pub proof fn a_walk_skips_only_what_is_gone(ts: Seq<VarTrace>, order: Seq<u64>, from: int)
    requires
        0 <= from <= order.len(),
    ensures
        ({
            let at = next_live(ts, order, from);
            &&& from <= at <= order.len()
            &&& forall|k: int|
                from <= k < at ==> !(exists|i: int|
                    0 <= i < ts.len() && (#[trigger] ts[i]).id == #[trigger] order[k])
            &&& at < order.len() ==> exists|i: int|
                0 <= i < ts.len() && (#[trigger] ts[i]).id == order[at]
        }),
    decreases order.len() - from,
{
    if from < order.len() {
        a_trace_is_found_by_its_identity(ts, order[from]);
        if trace_of(ts, order[from]) is None {
            a_walk_skips_only_what_is_gone(ts, order, from + 1);
        }
    }
}

/// An identity finds the trace that has it.
pub proof fn a_trace_is_found_by_its_identity(ts: Seq<VarTrace>, id: u64)
    ensures
        match trace_of(ts, id) {
            Some(t) => t.id == id && ts.contains(t),
            None => forall|i: int| 0 <= i < ts.len() ==> (#[trigger] ts[i]).id != id,
        },
        trace_of(ts, id) is Some ==> exists|i: int| 0 <= i < ts.len() && (#[trigger] ts[i]).id
            == id,
    decreases ts.len(),
{
    if ts.len() > 0 {
        if ts[0].id == id {
            assert(ts.contains(ts[0]));
        } else {
            let rest = ts.skip(1);
            a_trace_is_found_by_its_identity(rest, id);
            if trace_of(rest, id) is Some {
                let i = choose|i: int| 0 <= i < rest.len() && rest[i] == trace_of(rest, id)->0;
                assert(ts[i + 1] == rest[i]);
                assert(ts[i + 1].id == id);
            } else {
                assert forall|i: int| 0 <= i < ts.len() implies (#[trigger] ts[i]).id != id by {
                    if i > 0 {
                        assert(rest[i - 1] == ts[i]);
                    }
                }
            }
        }
    }
}

/// What is said of an access that a callback stopped: the operation, the
/// variable as it was written, and the callback's reason.
pub proof fn a_stopped_access_gives_the_reason(name: Seq<u8>, reason: Seq<u8>)
    ensures
        access_message(VarOp::Read, name, reason) == text("can't ") + text("read") + text(" \"")
            + name + text("\": ") + reason,
        access_message(VarOp::Write, name, reason) == text("can't ") + text("set") + text(" \"")
            + name + text("\": ") + reason,
        access_message(VarOp::Array, name, reason) == text("can't ") + text("trace array") + text(
            " \"",
        ) + name + text("\": ") + reason,
{
}

/// Why a variable could not be read: an array has no value of its own and may
/// lack an element, what is no array has no elements, and what is not there is
/// no variable.
pub proof fn a_failed_read_says_why(name: Seq<u8>, key: Seq<u8>, is_array: bool, exists_there: bool)
    ensures
        read_miss(name, None, true, exists_there) == text("can't read \"") + name + text("\": ")
            + text("variable is array"),
        read_miss(name, None, false, exists_there) == text("can't read \"") + name + text("\": ")
            + text("no such variable"),
        read_miss(name, Some(key), true, exists_there) == text("can't read \"") + (name + text(
            "(",
        ) + key + text(")")) + text("\": ") + text("no such element in array"),
        read_miss(name, Some(key), false, true) == text("can't read \"") + (name + text("(") + key
            + text(")")) + text("\": ") + text("variable isn't array"),
        read_miss(name, Some(key), false, false) == text("can't read \"") + (name + text("(")
            + key + text(")")) + text("\": ") + text("no such variable"),
{
}

/// The callbacks of a cell that is destroyed are those of its own unset traces,
/// told the name and element it is destroyed by, the newest first.
pub proof fn a_newer_trace_mourns_first(
    ts: Seq<VarTrace>,
    t: VarTrace,
    home: HomeView,
    elem: Option<Seq<u8>>,
    name: Seq<u8>,
    report_elem: Seq<u8>,
)
    ensures
        cell_callbacks(ts.push(t), home, elem, name, report_elem) == if t.ops.unset && t.base@
            == home.base && t.ns == home.ns && t.frame_level == home.level && opt_view(t.elem)
            == elem {
            seq![
                TeardownView {
                    name,
                    elem: report_elem,
                    command: t.command@,
                    old_style: t.old_style,
                },
            ] + cell_callbacks(ts, home, elem, name, report_elem)
        } else {
            cell_callbacks(ts, home, elem, name, report_elem)
        },
        cell_callbacks(Seq::empty(), home, elem, name, report_elem) == Seq::<
            TeardownView,
        >::empty(),
{
    assert(ts.push(t).drop_last() =~= ts);
}

/// Whether `r` is the walk over the traces that an access fires: none where
/// those of the cell are firing, or nothing is to fire.
pub open spec fn var_firing_begins(
    before: Interp,
    after: Interp,
    home: TraceHome,
    access: TraceAccess,
    op: VarOp,
    r: Option<VarFiring>,
) -> bool {
    let tt = before.state.traces;
    let cell = cell_of(home, opt_view(access.match_elem));
    let order = firing_order(tt, home, access, op);
    match r {
        None => {
            &&& is_active(tt, cell) || order.len() == 0
            &&& after == before
        },
        Some(f) => {
            &&& !is_active(tt, cell)
            &&& order.len() > 0
            &&& f.order@ == order
            &&& f.next == 0
            &&& f.op == op
            &&& firing_begun(before, after, cell, f)
        },
    }
}

/// Whether `r` is the callback that the walk `f` comes to, and `next` where the
/// walk then stands.
pub open spec fn var_callback_due(
    ts: Seq<VarTrace>,
    f: VarFiring,
    next: usize,
    r: Option<VarCallback>,
) -> bool {
    let at = next_live(ts, f.order@, f.next as int);
    match r {
        Some(c) => {
            let t = trace_of(ts, f.order@[at])->0;
            &&& at < f.order@.len()
            &&& next == at + 1
            &&& c.command@ == t.command@
            &&& c.old_style == t.old_style
        },
        None => at == f.order@.len() && next == at,
    }
}

/// What a callback that ended with `code` makes of the access; `stop` says that
/// it stops it.
pub open spec fn var_callback_answered(
    before: Interp,
    after: Interp,
    op: VarOp,
    access: TraceAccess,
    code: Code,
    stop: bool,
) -> bool {
    &&& stop == (code == Code::Error && op != VarOp::Unset)
    &&& !stop ==> after == before
    &&& stop ==> {
        &&& opt_view(after.state.traces.pending_err) == Some(before.state.result@)
        &&& after.state.exc@ == noted_error(
            before.state,
            text("\n    (") + trace_note(op, access) + text(")"),
        )
        &&& after == (Interp {
            state: InterpState {
                exc: after.state.exc,
                traces: TraceTable {
                    pending_err: after.state.traces.pending_err,
                    ..before.state.traces
                },
                ..before.state
            },
            ..before
        })
    }
}

/// The traces of a cell do not fire while they are firing. Otherwise all that
/// apply are walked, in the order they fire in, from the first; and with none
/// there is no walk.
pub proof fn a_cell_does_not_fire_inside_itself(
    before: Interp,
    after: Interp,
    home: TraceHome,
    access: TraceAccess,
    op: VarOp,
    r: Option<VarFiring>,
)
    requires
        var_firing_begins(before, after, home, access, op, r),
    ensures
        ({
            let cell = ScopeView {
                base: home.base@,
                elem: opt_view(access.match_elem),
                ns: home.ns,
                level: home.level,
            };
            let busy = scope_views(before.state.traces.active_var_scopes@).contains(cell);
            let order = firing_order(before.state.traces, home, access, op);
            &&& r is Some <==> !busy && order.len() > 0
            &&& r matches Some(f) ==> {
                &&& f.order@ == order
                &&& f.next == 0
                &&& f.op == op
                &&& scope_views(after.state.traces.active_var_scopes@).len() > 0
                &&& scope_views(after.state.traces.active_var_scopes@).last() == cell
            }
            &&& r is None ==> after == before
        }),
{
}

/// A walk calls the callback of each trace that is still set, one by one and in
/// order; and it ends only when no such trace is left.
pub proof fn a_walk_calls_what_is_set(
    ts: Seq<VarTrace>,
    f: VarFiring,
    next: usize,
    r: Option<VarCallback>,
)
    requires
        f.next <= f.order@.len(),
        var_callback_due(ts, f, next, r),
    ensures
        r matches Some(c) ==> {
            &&& f.next < next <= f.order@.len()
            &&& exists|i: int|
                {
                    &&& 0 <= i < ts.len()
                    &&& (#[trigger] ts[i]).id == f.order@[next - 1]
                    &&& ts[i].command@ == c.command@
                    &&& ts[i].old_style == c.old_style
                }
        },
        r is None ==> next == f.order@.len(),
        forall|k: int|
            f.next <= k < (if r is Some {
                next - 1
            } else {
                next as int
            }) ==> !(exists|i: int|
                0 <= i < ts.len() && (#[trigger] ts[i]).id == #[trigger] f.order@[k]),
{
    a_walk_skips_only_what_is_gone(ts, f.order@, f.next as int);
    if r is Some {
        a_trace_is_found_by_its_identity(ts, f.order@[next - 1]);
        let t = trace_of(ts, f.order@[next - 1])->0;
        let i = choose|i: int| 0 <= i < ts.len() && ts[i] == t;
        assert(ts[i].id == f.order@[next - 1]);
    }
}

/// A callback that fails stops the access that it watches and leaves its message
/// as the reason, unless the variable is going anyway. One that does not fail
/// changes nothing.
pub proof fn a_failing_callback_stops_the_access(
    before: Interp,
    after: Interp,
    op: VarOp,
    access: TraceAccess,
    code: Code,
    stop: bool,
)
    requires
        var_callback_answered(before, after, op, access, code, stop),
    ensures
        stop <==> code == Code::Error && !(op is Unset),
        !stop ==> after == before,
        stop ==> after.state.traces.pending_err is Some && after.state.traces.pending_err->0@
            == before.state.result@ && after.state.exc@.code == before.state.exc@.code
            && !after.state.exc@.already_logged,
{
}

/// The note on an access that a callback stopped says which operation it was and
/// on what, as it was written.
pub proof fn a_stopped_access_is_noted(op: VarOp, a: TraceAccess)
    ensures
        a.spelling_elem is None ==> trace_note(op, a) == op.word() + text(" trace on \"")
            + a.reported@ + Seq::<u8>::empty() + text("\""),
        a.spelling_elem is Some ==> trace_note(op, a) == op.word() + text(" trace on \"")
            + a.reported@ + (text("(") + a.spelling_elem->0@ + text(")")) + text("\""),
        VarOp::Read.word() == text("read"),
        VarOp::Write.word() == text("write"),
        VarOp::Unset.word() == text("unset"),
        VarOp::Array.word() == text("array"),
{
}

} // verus!
