//! Command traces: renames and deletions, and the execution of commands.

use vstd::prelude::*;

use crate::bytes::{copied, lit, opt_view, same, text, views};
use crate::state::{GuardDomain, Interp, InterpState};
use crate::traces::{kept, CmdOps, CmdTrace, RenameWindow, TraceTable};

verus! {

/// What a [`CmdTrace`] holds.
pub struct CmdTraceView {
    pub id: u64,
    pub name: Seq<u8>,
    pub ops: CmdOps,
    pub command: Seq<u8>,
    pub token: Option<u64>,
}

impl View for CmdTrace {
    type V = CmdTraceView;

    open spec fn view(&self) -> CmdTraceView {
        CmdTraceView {
            id: self.id,
            name: self.name@,
            ops: self.ops,
            command: self.command@,
            token: self.token,
        }
    }
}

/// The traces as plain values.
pub open spec fn cmd_trace_views(ts: Seq<CmdTrace>) -> Seq<CmdTraceView> {
    Seq::new(ts.len(), |i: int| ts[i]@)
}

/// What befalls a command.
#[derive(Debug, Clone, Copy, PartialEq, Eq, Structural)]
pub enum CmdEvent {
    Rename,
    Delete,
}

/// When an execution trace fires.
#[derive(Debug, Clone, Copy, PartialEq, Eq, Structural)]
pub enum ExecEvent {
    Enter,
    Leave,
}

/// Whether a trace on the binding `token` of a name goes with the binding
/// `dying`. Bindings are numbered in the order they are made; where either
/// number is unknown the whole name is meant.
pub fn cmd_trace_owned_by(token: Option<u64>, dying: Option<u64>) -> (r: bool)
    ensures
        r == owned_by(token, dying),
{
    match (token, dying) {
        (Some(token), Some(dying)) => token <= dying,
        _ => true,
    }
}

/// Whether a trace on the binding `token` goes with the binding `dying`.
pub open spec fn owned_by(token: Option<u64>, dying: Option<u64>) -> bool {
    match (token, dying) {
        (Some(t), Some(d)) => t <= d,
        _ => true,
    }
}

/// Whether a trace fires for an event of the command `key`.
pub open spec fn fires_for(t: CmdTraceView, key: Seq<u8>, event: CmdEvent, dying: Option<u64>) -> bool {
    &&& t.name == key
    &&& match event {
        CmdEvent::Rename => t.ops.rename,
        CmdEvent::Delete => t.ops.delete,
    }
    &&& owned_by(t.token, dying)
}

/// The callbacks for an event, the newest trace first.
pub open spec fn event_callbacks(
    ts: Seq<CmdTraceView>,
    key: Seq<u8>,
    event: CmdEvent,
    dying: Option<u64>,
) -> Seq<(u64, Seq<u8>)>
    decreases ts.len(),
{
    if ts.len() == 0 {
        Seq::empty()
    } else {
        let rest = event_callbacks(ts.drop_last(), key, event, dying);
        if fires_for(ts.last(), key, event, dying) {
            seq![(ts.last().id, ts.last().command)] + rest
        } else {
            rest
        }
    }
}

/// A callback with the trace that it is of.
#[derive(Debug)]
pub struct CmdCallback {
    pub id: u64,
    pub command: Vec<u8>,
}

/// The callbacks as plain values.
pub open spec fn callback_views(cs: Seq<CmdCallback>) -> Seq<(u64, Seq<u8>)> {
    Seq::new(cs.len(), |i: int| (cs[i].id, cs[i].command@))
}

/// A walk over the traces of one event.
pub struct CmdFiring {
    pub entries: Vec<CmdCallback>,
    pub next: usize,
    /// The result that comes back when the walk is over.
    pub saved: Vec<u8>,
}

/// The first position from `from` on whose trace was not removed.
pub open spec fn next_traced(es: Seq<(u64, Seq<u8>)>, gone: Seq<u64>, from: int) -> int
    decreases es.len() - from,
{
    if from >= es.len() {
        es.len() as int
    } else if !gone.contains(es[from].0) {
        from
    } else {
        next_traced(es, gone, from + 1)
    }
}

fn holds_id(ids: &[u64], id: u64) -> (r: bool)
    ensures
        r == ids@.contains(id),
{
    let mut i: usize = 0;
    while i < ids.len()
        invariant
            i <= ids@.len(),
            forall|j: int| 0 <= j < i ==> ids@[j] != id,
        decreases ids@.len() - i,
    {
        if ids[i] == id {
            return true;
        }
        i = i + 1;
    }
    false
}

fn cmd_trace_fires(t: &CmdTrace, key: &[u8], event: CmdEvent, dying: Option<u64>) -> (r: bool)
    ensures
        r == fires_for(t@, key@, event, dying),
{
    same(&t.name, key) && (match event {
        CmdEvent::Rename => t.ops.rename,
        CmdEvent::Delete => t.ops.delete,
    }) && cmd_trace_owned_by(t.token, dying)
}

/// A walk of callbacks on a rename or a deletion of the command `key` begins.
pub open spec fn cmd_walk_begun(before: Interp, after: Interp, key: Seq<u8>, f: CmdFiring) -> bool {
    &&& f.saved@ == before.state.result@
    &&& views(after.state.traces.firing_cmd_traces@) == views(
        before.state.traces.firing_cmd_traces@,
    ).push(key)
    &&& after == (Interp {
        state: InterpState {
            traces: TraceTable {
                firing_cmd_traces: after.state.traces.firing_cmd_traces,
                ..before.state.traces
            },
            ..before.state
        },
        ..before
    })
}

/// Such a walk ends: the result is back, and the removals noted for walks are
/// forgotten once none is under way.
pub open spec fn cmd_walk_ended(
    before: Interp,
    after: Interp,
    f: CmdFiring,
    in_flight: bool,
) -> bool {
    let tt = before.state.traces;
    let rest = if tt.firing_cmd_traces@.len() == 0 {
        tt.firing_cmd_traces@
    } else {
        tt.firing_cmd_traces@.drop_last()
    };
    &&& after.state.traces.firing_cmd_traces@ == rest
    &&& after.state.traces.untraced_cmd_trace_ids@ == if rest.len() == 0 && !in_flight {
        Seq::empty()
    } else {
        tt.untraced_cmd_trace_ids@
    }
    &&& after == (Interp {
        state: InterpState {
            result: f.saved,
            traces: TraceTable {
                firing_cmd_traces: after.state.traces.firing_cmd_traces,
                untraced_cmd_trace_ids: after.state.traces.untraced_cmd_trace_ids,
                ..tt
            },
            ..before.state
        },
        ..before
    })
}

/// The callbacks on a rename or a deletion leave the result as it was, and the
/// command's traces can fire again, if the callbacks kept their own walks
/// balanced.
pub proof fn cmd_callbacks_keep_the_result(
    before: Interp,
    inside: Interp,
    ran: Interp,
    after: Interp,
    key: Seq<u8>,
    f: CmdFiring,
    ended: CmdFiring,
    in_flight: bool,
)
    requires
        cmd_walk_begun(before, inside, key, f),
        ended.saved == f.saved,
        views(ran.state.traces.firing_cmd_traces@) == views(
            inside.state.traces.firing_cmd_traces@,
        ),
        cmd_walk_ended(ran, after, ended, in_flight),
    ensures
        after.state.result@ == before.state.result@,
        views(after.state.traces.firing_cmd_traces@) == views(
            before.state.traces.firing_cmd_traces@,
        ),
{
    let was = views(before.state.traces.firing_cmd_traces@);
    let held = views(ran.state.traces.firing_cmd_traces@);
    assert(held.len() == was.len() + 1);
    assert(views(after.state.traces.firing_cmd_traces@) =~= held.drop_last());
    assert(held.drop_last() =~= was);
}

/// Whether `r` is the walk over the traces for an event of the command `key`:
/// none where its traces are firing already, or nothing is to fire.
pub open spec fn cmd_firing_begins(
    before: Interp,
    after: Interp,
    key: Seq<u8>,
    event: CmdEvent,
    dying: Option<u64>,
    r: Option<CmdFiring>,
) -> bool {
    let tt = before.state.traces;
    let firing = views(tt.firing_cmd_traces@).contains(key);
    let callbacks = event_callbacks(cmd_trace_views(tt.cmd_traces@), key, event, dying);
    match r {
        None => (firing || callbacks.len() == 0) && after == before,
        Some(f) => {
            &&& !firing
            &&& callbacks.len() > 0
            &&& callback_views(f.entries@) == callbacks
            &&& f.next == 0
            &&& cmd_walk_begun(before, after, key, f)
        },
    }
}

impl Interp {
    /// Begins to fire the traces for an event of the command `key`. While they
    /// fire, another event of that command fires nothing. `None` where nothing
    /// is to fire.
    pub fn begin_cmd_firing(&mut self, key: &[u8], event: CmdEvent, dying: Option<u64>) -> (r:
        Option<CmdFiring>)
        ensures
            cmd_firing_begins(*old(self), *final(self), key@, event, dying, r),
    {
        if crate::bytes::holds_word(&self.state.traces.firing_cmd_traces, key) {
            return None;
        }
        let ts = &self.state.traces.cmd_traces;
        let ghost vs = cmd_trace_views(ts@);
        let ghost all = event_callbacks(vs, key@, event, dying);
        let mut entries: Vec<CmdCallback> = Vec::new();
        let mut n: usize = ts.len();
        assert(vs.take(n as int) =~= vs);
        assert(callback_views(entries@) + all =~= all);
        while n > 0
            invariant
                n <= ts@.len(),
                vs == cmd_trace_views(ts@),
                callback_views(entries@) + event_callbacks(
                    vs.take(n as int),
                    key@,
                    event,
                    dying,
                ) == all,
            decreases n,
        {
            let t = &ts[n - 1];
            assert(vs.take(n as int).last() == t@);
            assert(vs.take(n as int).drop_last() =~= vs.take(n - 1));
            let ghost rest = event_callbacks(vs.take(n - 1), key@, event, dying);
            let ghost before = callback_views(entries@);
            if cmd_trace_fires(t, key, event, dying) {
                entries.push(CmdCallback { id: t.id, command: copied(&t.command) });
                assert(callback_views(entries@) =~= before.push((t.id, t.command@)));
                assert(before + (seq![(t.id, t.command@)] + rest) =~= callback_views(entries@)
                    + rest);
            }
            n = n - 1;
        }
        assert(callback_views(entries@) + event_callbacks(vs.take(0), key@, event, dying)
            =~= callback_views(entries@));
        if entries.len() == 0 {
            return None;
        }
        let saved = self.result_bytes();
        self.state.traces.firing_cmd_traces.push(copied(key));
        assert(views(self.state.traces.firing_cmd_traces@) =~= views(
            old(self).state.traces.firing_cmd_traces@,
        ).push(key@));
        Some(CmdFiring { entries, next: 0, saved })
    }

    /// The next callback of a walk. The traces were those of the command when
    /// the walk began; only one that was removed since does not fire.
    pub fn next_cmd_callback(&self, f: &mut CmdFiring) -> (r: Option<Vec<u8>>)
        requires
            old(f).next <= old(f).entries@.len(),
        ensures
            final(f).next <= final(f).entries@.len(),
            *final(f) == (CmdFiring { next: final(f).next, ..*old(f) }),
            ({
                let es = callback_views(old(f).entries@);
                let at = next_traced(
                    es,
                    self.state.traces.untraced_cmd_trace_ids@,
                    old(f).next as int,
                );
                match r {
                    Some(c) => at < es.len() && final(f).next == at + 1 && c@ == es[at].1,
                    None => at == es.len() && final(f).next == at,
                }
            }),
    {
        let ghost start = f.next as int;
        let ghost es = callback_views(f.entries@);
        let ghost gone = self.state.traces.untraced_cmd_trace_ids@;
        while f.next < f.entries.len()
            invariant
                f.next <= f.entries@.len(),
                start == old(f).next,
                *f == (CmdFiring { next: f.next, ..*old(f) }),
                es == callback_views(old(f).entries@),
                gone == self.state.traces.untraced_cmd_trace_ids@,
                next_traced(es, gone, start) == next_traced(es, gone, f.next as int),
            decreases f.entries@.len() - f.next,
        {
            let at = f.next;
            f.next = at + 1;
            assert(es[at as int] == (f.entries@[at as int].id, f.entries@[at as int].command@));
            if !holds_id(&self.state.traces.untraced_cmd_trace_ids, f.entries[at].id) {
                return Some(copied(&f.entries[at].command));
            }
        }
        None
    }

    /// Ends a walk: the result is back, and the removals noted for walks are
    /// forgotten once none is under way. `in_flight` says that another one is,
    /// though none of renames and deletions may be.
    pub fn end_cmd_firing(&mut self, f: CmdFiring, in_flight: bool)
        ensures
            cmd_walk_ended(*old(self), *final(self), f, in_flight),
    {
        self.state.traces.firing_cmd_traces.pop();
        if self.state.traces.firing_cmd_traces.len() == 0 && !in_flight {
            let none: Vec<u64> = Vec::new();
            assert(none@ =~= Seq::empty());
            self.state.traces.untraced_cmd_trace_ids = none;
        }
        self.state.result = f.saved;
    }

    /// The name a command goes by now, where a rename of it is under way.
    pub fn renamed_cmd_key(&self, fqn: &[u8]) -> (r: Option<Vec<u8>>)
        ensures
            opt_view(r) == window_target(self.state.traces.rename_windows@, fqn@),
    {
        let ws = &self.state.traces.rename_windows;
        let mut i: usize = 0;
        assert(ws@.skip(0) =~= ws@);
        while i < ws.len()
            invariant
                i <= ws@.len(),
                ws@ == self.state.traces.rename_windows@,
                window_target(ws@, fqn@) == window_target(ws@.skip(i as int), fqn@),
            decreases ws@.len() - i,
        {
            assert(ws@.skip(i as int)[0] == ws@[i as int]);
            if same(&ws[i].from, fqn) {
                return Some(copied(&ws[i].to));
            }
            assert(ws@.skip(i as int).skip(1) =~= ws@.skip(i + 1));
            i = i + 1;
        }
        None
    }
}

/// The new name of the first rename under way from `fqn`.
pub open spec fn window_target(ws: Seq<RenameWindow>, fqn: Seq<u8>) -> Option<Seq<u8>>
    decreases ws.len(),
{
    if ws.len() == 0 {
        None
    } else if ws[0].from@ == fqn {
        Some(ws[0].to@)
    } else {
        window_target(ws.skip(1), fqn)
    }
}

/// The windows as plain values.
pub open spec fn window_views(ws: Seq<RenameWindow>) -> Seq<(Seq<u8>, Seq<u8>)> {
    Seq::new(ws.len(), |i: int| (ws[i].from@, ws[i].to@))
}

/// A name after a command moved.
pub open spec fn moved_name(name: Seq<u8>, old_fqn: Seq<u8>, new_fqn: Seq<u8>) -> Seq<u8> {
    if name == old_fqn {
        new_fqn
    } else {
        name
    }
}

/// A trace after its command moved, to the binding `token` of the new name.
pub open spec fn moved_trace(
    t: CmdTraceView,
    old_fqn: Seq<u8>,
    new_fqn: Seq<u8>,
    token: Option<u64>,
) -> CmdTraceView {
    if t.name == old_fqn {
        CmdTraceView { name: new_fqn, token, ..t }
    } else {
        t
    }
}

/// The traces after a command moved.
pub open spec fn moved_traces(
    ts: Seq<CmdTraceView>,
    old_fqn: Seq<u8>,
    new_fqn: Seq<u8>,
    token: Option<u64>,
) -> Seq<CmdTraceView> {
    Seq::new(ts.len(), |i: int| moved_trace(ts[i], old_fqn, new_fqn, token))
}

/// Whether some trace is on the command `fqn`.
pub open spec fn is_traced(ts: Seq<CmdTraceView>, fqn: Seq<u8>) -> bool {
    exists|i: int| 0 <= i < ts.len() && (#[trigger] ts[i]).name == fqn
}

/// The traces of a command travel with it: none stays behind, and none is lost.
pub proof fn traces_travel(
    ts: Seq<CmdTraceView>,
    old_fqn: Seq<u8>,
    new_fqn: Seq<u8>,
    token: Option<u64>,
)
    requires
        old_fqn != new_fqn,
    ensures
        moved_traces(ts, old_fqn, new_fqn, token).len() == ts.len(),
        !is_traced(moved_traces(ts, old_fqn, new_fqn, token), old_fqn),
        forall|i: int|
            0 <= i < ts.len() ==> (#[trigger] moved_traces(ts, old_fqn, new_fqn, token)[i]).id
                == ts[i].id,
{
}

/// Whether the state of a command that moved is under its new name, the noted
/// invalidations apart.
pub open spec fn traces_moved(
    before: Interp,
    after: Interp,
    old_fqn: Seq<u8>,
    new_fqn: Seq<u8>,
    token: Option<u64>,
) -> bool {
    let b = before.state.traces;
    let a = after.state.traces;
    &&& cmd_trace_views(a.cmd_traces@) == moved_traces(
        cmd_trace_views(b.cmd_traces@),
        old_fqn,
        new_fqn,
        token,
    )
    &&& window_views(a.rename_windows@) == Seq::new(
        b.rename_windows@.len(),
        |i: int|
            (
                b.rename_windows@[i].from@,
                moved_name(b.rename_windows@[i].to@, old_fqn, new_fqn),
            ),
    )
    &&& views(a.firing_cmd_traces@) == Seq::new(
        b.firing_cmd_traces@.len(),
        |i: int| moved_name(b.firing_cmd_traces@[i]@, old_fqn, new_fqn),
    )
    &&& a == (TraceTable {
        cmd_traces: a.cmd_traces,
        rename_windows: a.rename_windows,
        firing_cmd_traces: a.firing_cmd_traces,
        ..b
    })
}

/// The traces on the command `fqn` that go with the binding `dying` are
/// dropped, and the change is noted if there were any.
pub open spec fn token_traces_dropped(
    before: Interp,
    after: Interp,
    fqn: Seq<u8>,
    dying: Option<u64>,
) -> bool {
    let ts = before.state.traces.cmd_traces@;
    &&& after.state.traces.cmd_traces@ == kept(ts, outliving(fqn, dying))
    &&& after.state.invalidations@ == if exists|i: int|
        0 <= i < ts.len() && !outlives(#[trigger] ts[i], fqn, dying) {
        before.state.invalidations@.push(GuardDomain::CommandTrace)
    } else {
        before.state.invalidations@
    }
    &&& after == (Interp {
        state: InterpState {
            traces: TraceTable {
                cmd_traces: after.state.traces.cmd_traces,
                ..before.state.traces
            },
            invalidations: after.state.invalidations,
            ..before.state
        },
        ..before
    })
}

impl Interp {
    /// Points what is under way for a command that moved at its new name.
    fn relocate_rename_state(&mut self, old_fqn: &[u8], new_fqn: &[u8])
        ensures
            window_views(final(self).state.traces.rename_windows@) == Seq::new(
                old(self).state.traces.rename_windows@.len(),
                |i: int|
                    (
                        old(self).state.traces.rename_windows@[i].from@,
                        moved_name(
                            old(self).state.traces.rename_windows@[i].to@,
                            old_fqn@,
                            new_fqn@,
                        ),
                    ),
            ),
            views(final(self).state.traces.firing_cmd_traces@) == Seq::new(
                old(self).state.traces.firing_cmd_traces@.len(),
                |i: int|
                    moved_name(
                        old(self).state.traces.firing_cmd_traces@[i]@,
                        old_fqn@,
                        new_fqn@,
                    ),
            ),
            *final(self) == (Interp {
                state: InterpState {
                    traces: TraceTable {
                        rename_windows: final(self).state.traces.rename_windows,
                        firing_cmd_traces: final(self).state.traces.firing_cmd_traces,
                        ..old(self).state.traces
                    },
                    ..old(self).state
                },
                ..*old(self)
            }),
    {
        let ghost ws = self.state.traces.rename_windows@;
        let ghost fs = self.state.traces.firing_cmd_traces@;
        let mut i: usize = 0;
        while i < self.state.traces.rename_windows.len()
            invariant
                i <= ws.len(),
                self.state.traces.rename_windows@.len() == ws.len(),
                ws == old(self).state.traces.rename_windows@,
                forall|j: int|
                    0 <= j < ws.len() ==> (
                    #[trigger] self.state.traces.rename_windows@[j]).from@ == ws[j].from@,
                forall|j: int|
                    0 <= j < i ==> (#[trigger] self.state.traces.rename_windows@[j]).to@
                        == moved_name(ws[j].to@, old_fqn@, new_fqn@),
                forall|j: int|
                    i <= j < ws.len() ==> #[trigger] self.state.traces.rename_windows@[j] == ws[j],
                *self == (Interp {
                    state: InterpState {
                        traces: TraceTable {
                            rename_windows: self.state.traces.rename_windows,
                            ..old(self).state.traces
                        },
                        ..old(self).state
                    },
                    ..*old(self)
                }),
            decreases ws.len() - i,
        {
            assert(self.state.traces.rename_windows@[i as int] == ws[i as int]);
            if same(&self.state.traces.rename_windows[i].to, old_fqn) {
                let w: &mut RenameWindow = &mut self.state.traces.rename_windows[i];
                w.to = copied(new_fqn);
            }
            i = i + 1;
        }
        let mut k: usize = 0;
        while k < self.state.traces.firing_cmd_traces.len()
            invariant
                k <= fs.len(),
                self.state.traces.firing_cmd_traces@.len() == fs.len(),
                fs == old(self).state.traces.firing_cmd_traces@,
                ws == old(self).state.traces.rename_windows@,
                self.state.traces.rename_windows@.len() == ws.len(),
                forall|j: int|
                    0 <= j < ws.len() ==> (
                    #[trigger] self.state.traces.rename_windows@[j]).from@ == ws[j].from@,
                forall|j: int|
                    0 <= j < ws.len() ==> (#[trigger] self.state.traces.rename_windows@[j]).to@
                        == moved_name(ws[j].to@, old_fqn@, new_fqn@),
                forall|j: int|
                    0 <= j < k ==> #[trigger] self.state.traces.firing_cmd_traces@[j]@
                        == moved_name(fs[j]@, old_fqn@, new_fqn@),
                forall|j: int|
                    k <= j < fs.len() ==> #[trigger] self.state.traces.firing_cmd_traces@[j]
                        == fs[j],
                *self == (Interp {
                    state: InterpState {
                        traces: TraceTable {
                            rename_windows: self.state.traces.rename_windows,
                            firing_cmd_traces: self.state.traces.firing_cmd_traces,
                            ..old(self).state.traces
                        },
                        ..old(self).state
                    },
                    ..*old(self)
                }),
            decreases fs.len() - k,
        {
            assert(self.state.traces.firing_cmd_traces@[k as int] == fs[k as int]);
            if same(&self.state.traces.firing_cmd_traces[k], old_fqn) {
                self.state.traces.firing_cmd_traces.set(k, copied(new_fqn));
            }
            k = k + 1;
        }
        assert(window_views(self.state.traces.rename_windows@) =~= Seq::new(
            ws.len(),
            |i: int| (ws[i].from@, moved_name(ws[i].to@, old_fqn@, new_fqn@)),
        ));
        assert(views(self.state.traces.firing_cmd_traces@) =~= Seq::new(
            fs.len(),
            |i: int| moved_name(fs[i]@, old_fqn@, new_fqn@),
        ));
    }

    /// Takes the traces of a command along to its new name. `token` is the
    /// binding that now stands there.
    pub fn move_cmd_traces(&mut self, old_fqn: &[u8], new_fqn: &[u8], token: Option<u64>)
        ensures
            traces_moved(*old(self), *final(self), old_fqn@, new_fqn@, token),
            final(self).state.invalidations@ == if is_traced(
                cmd_trace_views(old(self).state.traces.cmd_traces@),
                old_fqn@,
            ) {
                old(self).state.invalidations@.push(GuardDomain::CommandTrace)
            } else {
                old(self).state.invalidations@
            },
            *final(self) == (Interp {
                state: InterpState {
                    traces: final(self).state.traces,
                    invalidations: final(self).state.invalidations,
                    ..old(self).state
                },
                ..*old(self)
            }),
    {
        self.relocate_rename_state(old_fqn, new_fqn);
        let ghost mid = *self;
        let ghost ts = self.state.traces.cmd_traces@;
        let ghost vs = cmd_trace_views(ts);
        let mut moved = false;
        let mut i: usize = 0;
        while i < self.state.traces.cmd_traces.len()
            invariant
                i <= ts.len(),
                self.state.traces.cmd_traces@.len() == ts.len(),
                ts == mid.state.traces.cmd_traces@,
                vs == cmd_trace_views(ts),
                forall|j: int|
                    0 <= j < i ==> (#[trigger] self.state.traces.cmd_traces@[j])@ == moved_trace(
                        ts[j]@,
                        old_fqn@,
                        new_fqn@,
                        token,
                    ),
                forall|j: int|
                    i <= j < ts.len() ==> #[trigger] self.state.traces.cmd_traces@[j] == ts[j],
                moved == exists|j: int| 0 <= j < i && (#[trigger] vs[j]).name == old_fqn@,
                *self == (Interp {
                    state: InterpState {
                        traces: TraceTable {
                            cmd_traces: self.state.traces.cmd_traces,
                            ..mid.state.traces
                        },
                        ..mid.state
                    },
                    ..mid
                }),
            decreases ts.len() - i,
        {
            assert(self.state.traces.cmd_traces@[i as int] == ts[i as int]);
            assert(vs[i as int] == ts[i as int]@);
            if same(&self.state.traces.cmd_traces[i].name, old_fqn) {
                let t: &mut CmdTrace = &mut self.state.traces.cmd_traces[i];
                t.name = copied(new_fqn);
                t.token = token;
                moved = true;
            }
            i = i + 1;
        }
        assert(cmd_trace_views(self.state.traces.cmd_traces@) =~= moved_traces(
            vs,
            old_fqn@,
            new_fqn@,
            token,
        ));
        if moved {
            self.invalidate_guard_domain(GuardDomain::CommandTrace);
        }
    }

    /// Drops the traces on a command that is gone: those that go with the
    /// binding `dying`.
    pub fn remove_cmd_traces_of_token(&mut self, fqn: &[u8], dying: Option<u64>)
        ensures
            token_traces_dropped(*old(self), *final(self), fqn@, dying),
    {
        let ghost before = self.state.traces.cmd_traces@;
        let ghost keep = outliving(fqn@, dying);
        let mut removed = false;
        let mut n: usize = self.state.traces.cmd_traces.len();
        assert(before.take(n as int) =~= before);
        assert(self.state.traces.cmd_traces@ =~= before.take(n as int) + kept(
            before.skip(n as int),
            keep,
        ));
        while n > 0
            invariant
                n <= before.len(),
                before == old(self).state.traces.cmd_traces@,
                keep == outliving(fqn@, dying),
                self.state.traces.cmd_traces@ == before.take(n as int) + kept(
                    before.skip(n as int),
                    keep,
                ),
                removed == exists|i: int|
                    n <= i < before.len() && !outlives(#[trigger] before[i], fqn@, dying),
                *self == (Interp {
                    state: InterpState {
                        traces: TraceTable {
                            cmd_traces: self.state.traces.cmd_traces,
                            ..old(self).state.traces
                        },
                        ..old(self).state
                    },
                    ..*old(self)
                }),
            decreases n,
        {
            let i: usize = n - 1;
            let ghost tail = kept(before.skip(n as int), keep);
            assert(self.state.traces.cmd_traces@[i as int] == before[i as int]);
            assert(before.skip(i as int)[0] == before[i as int]);
            assert(before.skip(i as int).skip(1) =~= before.skip(n as int));
            let t = &self.state.traces.cmd_traces[i];
            if same(&t.name, fqn) && cmd_trace_owned_by(t.token, dying) {
                self.state.traces.cmd_traces.remove(i);
                removed = true;
                assert(self.state.traces.cmd_traces@ =~= before.take(i as int) + tail);
            } else {
                assert(keep(before[i as int]));
                assert(self.state.traces.cmd_traces@ =~= before.take(i as int) + (seq![
                    before[i as int],
                ] + tail));
            }
            n = i;
        }
        assert(before.take(0) + kept(before.skip(0), keep) =~= kept(before, keep)) by {
            assert(before.skip(0) =~= before);
        }
        if removed {
            self.invalidate_guard_domain(GuardDomain::CommandTrace);
        }
    }
}

/// Whether a trace stays when the binding `dying` of the command `fqn` goes.
pub open spec fn outlives(t: CmdTrace, fqn: Seq<u8>, dying: Option<u64>) -> bool {
    !(t.name@ == fqn && owned_by(t.token, dying))
}

/// The traces that stay when the binding `dying` of the command `fqn` goes.
pub open spec fn outliving(fqn: Seq<u8>, dying: Option<u64>) -> spec_fn(CmdTrace) -> bool {
    |t: CmdTrace| outlives(t, fqn, dying)
}

/// The operands that a callback is told a rename or a deletion by.
pub open spec fn cmd_operands(old_fqn: Seq<u8>, new_fqn: Seq<u8>, event: CmdEvent) -> Seq<Seq<u8>> {
    seq![
        old_fqn,
        new_fqn,
        match event {
            CmdEvent::Rename => text("rename"),
            CmdEvent::Delete => text("delete"),
        },
    ]
}

/// The operands that a callback is told a rename or a deletion by: they become a
/// list behind the callback's command.
pub fn cmd_callback_operands(old_fqn: &[u8], new_fqn: &[u8], event: CmdEvent) -> (r: Vec<Vec<u8>>)
    ensures
        views(r@) == cmd_operands(old_fqn@, new_fqn@, event),
{
    let mut out: Vec<Vec<u8>> = Vec::new();
    out.push(copied(old_fqn));
    out.push(copied(new_fqn));
    out.push(
        match event {
            CmdEvent::Rename => lit("rename"),
            CmdEvent::Delete => lit("delete"),
        },
    );
    assert(views(out@) =~= cmd_operands(old_fqn@, new_fqn@, event));
    out
}

/// A trace fires for the events it was set for, on the command it was set on
/// and for a binding that it is on. The trace that was set last fires first.
pub proof fn a_newer_cmd_trace_fires_first(
    ts: Seq<CmdTraceView>,
    t: CmdTraceView,
    key: Seq<u8>,
    event: CmdEvent,
    dying: Option<u64>,
)
    ensures
        ({
            let set_for = match event {
                CmdEvent::Rename => t.ops.rename,
                CmdEvent::Delete => t.ops.delete,
            };
            let younger = t.token is Some && dying is Some && t.token->0 > dying->0;
            event_callbacks(ts.push(t), key, event, dying) == if set_for && t.name == key
                && !younger {
                seq![(t.id, t.command)] + event_callbacks(ts, key, event, dying)
            } else {
                event_callbacks(ts, key, event, dying)
            }
        }),
        event_callbacks(Seq::empty(), key, event, dying) == Seq::<(u64, Seq<u8>)>::empty(),
{
    assert(ts.push(t).drop_last() =~= ts);
}

/// A walk goes on at the next of its callbacks whose trace was not removed.
pub proof fn a_cmd_walk_skips_only_what_is_gone(
    es: Seq<(u64, Seq<u8>)>,
    gone: Seq<u64>,
    from: int,
)
    requires
        0 <= from <= es.len(),
    ensures
        ({
            let at = next_traced(es, gone, from);
            &&& from <= at <= es.len()
            &&& forall|k: int| from <= k < at ==> gone.contains((#[trigger] es[k]).0)
            &&& at < es.len() ==> !gone.contains(es[at].0)
        }),
    decreases es.len() - from,
{
    if from < es.len() && gone.contains(es[from].0) {
        a_cmd_walk_skips_only_what_is_gone(es, gone, from + 1);
    }
}

/// A callback is told the old name, the new one and the event, in this order.
pub proof fn a_callback_is_told_both_names(old_fqn: Seq<u8>, new_fqn: Seq<u8>, event: CmdEvent)
    ensures
        cmd_operands(old_fqn, new_fqn, event).len() == 3,
        cmd_operands(old_fqn, new_fqn, event)[0] == old_fqn,
        cmd_operands(old_fqn, new_fqn, event)[1] == new_fqn,
        event is Rename ==> cmd_operands(old_fqn, new_fqn, event)[2] == text("rename"),
        event is Delete ==> cmd_operands(old_fqn, new_fqn, event)[2] == text("delete"),
{
}

/// While a command is being renamed its old name leads to the new one; the
/// rename that began first answers.
pub proof fn a_name_under_rename_leads_to_the_new_one(ws: Seq<RenameWindow>, fqn: Seq<u8>)
    ensures
        match window_target(ws, fqn) {
            Some(to) => exists|i: int|
                {
                    &&& 0 <= i < ws.len()
                    &&& (#[trigger] ws[i]).from@ == fqn
                    &&& ws[i].to@ == to
                    &&& forall|j: int| 0 <= j < i ==> (#[trigger] ws[j]).from@ != fqn
                },
            None => forall|i: int| 0 <= i < ws.len() ==> (#[trigger] ws[i]).from@ != fqn,
        },
    decreases ws.len(),
{
    if ws.len() > 0 {
        if ws[0].from@ == fqn {
            assert(ws[0].from@ == fqn);
        } else {
            let rest = ws.skip(1);
            a_name_under_rename_leads_to_the_new_one(rest, fqn);
            match window_target(rest, fqn) {
                Some(to) => {
                    let i = choose|i: int|
                        {
                            &&& 0 <= i < rest.len()
                            &&& (#[trigger] rest[i]).from@ == fqn
                            &&& rest[i].to@ == to
                            &&& forall|j: int| 0 <= j < i ==> (#[trigger] rest[j]).from@ != fqn
                        };
                    assert(ws[i + 1] == rest[i]);
                    assert forall|j: int| 0 <= j < i + 1 implies (#[trigger] ws[j]).from@
                        != fqn by {
                        if j > 0 {
                            assert(rest[j - 1] == ws[j]);
                        }
                    }
                },
                None => {
                    assert forall|i: int| 0 <= i < ws.len() implies (#[trigger] ws[i]).from@
                        != fqn by {
                        if i > 0 {
                            assert(rest[i - 1] == ws[i]);
                        }
                    }
                },
            }
        }
    }
}

/// The traces that go with a binding are those on its command that were set on
/// it or before it; every other trace stays.
pub proof fn only_the_traces_of_the_binding_go(t: CmdTrace, fqn: Seq<u8>, dying: Option<u64>)
    ensures
        t.name@ != fqn ==> outlives(t, fqn, dying),
        t.token is Some && dying is Some && t.token->0 > dying->0 ==> outlives(t, fqn, dying),
        t.name@ == fqn && (t.token is None || dying is None || t.token->0 <= dying->0) ==>
            !outlives(t, fqn, dying),
{
}

/// The traces of a command do not fire while they are firing. Otherwise the
/// callbacks of all that are set for the event are walked, from the first, and
/// the result is kept for the end of the walk.
pub proof fn a_command_does_not_fire_inside_itself(
    before: Interp,
    after: Interp,
    key: Seq<u8>,
    event: CmdEvent,
    dying: Option<u64>,
    r: Option<CmdFiring>,
)
    requires
        cmd_firing_begins(before, after, key, event, dying, r),
    ensures
        ({
            let busy = views(before.state.traces.firing_cmd_traces@).contains(key);
            let all = event_callbacks(
                cmd_trace_views(before.state.traces.cmd_traces@),
                key,
                event,
                dying,
            );
            &&& r is Some <==> !busy && all.len() > 0
            &&& r matches Some(f) ==> {
                &&& f.next == 0
                &&& f.entries@.len() == all.len()
                &&& forall|i: int|
                    0 <= i < all.len() ==> (#[trigger] f.entries@[i]).id == all[i].0
                        && f.entries@[i].command@ == all[i].1
                &&& f.saved@ == before.state.result@
                &&& views(after.state.traces.firing_cmd_traces@).len() > 0
                &&& views(after.state.traces.firing_cmd_traces@).last() == key
            }
            &&& r is None ==> after == before
        }),
{
    if let Some(f) = r {
        let cs = callback_views(f.entries@);
        assert(cs.len() == f.entries@.len());
        assert(forall|i: int|
            0 <= i < cs.len() ==> cs[i].0 == (#[trigger] f.entries@[i]).id && cs[i].1
                == f.entries@[i].command@);
    }
}

/// When a command moves, a walk that fires for it and a rename that leads to it
/// go on under its new name; those of other commands keep theirs.
pub proof fn what_is_under_way_follows_the_command(
    before: Interp,
    after: Interp,
    old_fqn: Seq<u8>,
    new_fqn: Seq<u8>,
    token: Option<u64>,
    i: int,
)
    requires
        traces_moved(before, after, old_fqn, new_fqn, token),
    ensures
        0 <= i < before.state.traces.firing_cmd_traces@.len() ==> {
            let was = before.state.traces.firing_cmd_traces@[i]@;
            &&& was == old_fqn ==> after.state.traces.firing_cmd_traces@[i]@ == new_fqn
            &&& was != old_fqn ==> after.state.traces.firing_cmd_traces@[i]@ == was
        },
        0 <= i < before.state.traces.rename_windows@.len() ==> {
            let was = before.state.traces.rename_windows@[i];
            let now = after.state.traces.rename_windows@[i];
            &&& now.from@ == was.from@
            &&& was.to@ == old_fqn ==> now.to@ == new_fqn
            &&& was.to@ != old_fqn ==> now.to@ == was.to@
        },
{
    let a = after.state.traces;
    let b = before.state.traces;
    if 0 <= i < b.firing_cmd_traces@.len() {
        assert(views(a.firing_cmd_traces@).len() == b.firing_cmd_traces@.len());
        assert(views(a.firing_cmd_traces@)[i] == a.firing_cmd_traces@[i]@);
    }
    if 0 <= i < b.rename_windows@.len() {
        assert(window_views(a.rename_windows@).len() == b.rename_windows@.len());
        assert(window_views(a.rename_windows@)[i] == (
            a.rename_windows@[i].from@,
            a.rename_windows@[i].to@,
        ));
    }
}

} // verus!
