//! What becomes of variable traces when their variables are destroyed.

use vstd::prelude::*;

use crate::bytes::{
    append, append_text, copied, copied_opt, is_text, opt_view, same, text, views,
};
use crate::state::{next_epoch, GuardDomain, Interp, InterpState, NsId};
use crate::traces::{
    cell_callbacks, display_name, kept, on_home, teardown_views, TeardownCallback, TeardownView,
    HomeView, TraceAccess, TraceHome, TraceTable, VarOp, VarTrace,
};
use crate::variables::{callback_op_word, op_word, UnsetPlan};

verus! {

/// Which variable traces go.
pub enum Doomed<'a> {
    /// Those on a variable and on its elements.
    Variable(&'a TraceHome),
    /// Those on one element.
    Element(&'a TraceHome, &'a Vec<u8>),
    /// Those on the variables of the call frame at a level.
    Frame(usize),
    /// Those on the unset of variables of a namespace.
    Namespace(NsId),
}

/// Whether a trace goes.
pub open spec fn doomed(d: Doomed<'_>, t: VarTrace) -> bool {
    match d {
        Doomed::Variable(home) => on_home(t, *home),
        Doomed::Element(home, e) => on_home(t, *home) && opt_view(t.elem) == Some(e@),
        Doomed::Frame(level) => t.frame_level == Some(level),
        Doomed::Namespace(ns) => t.ns == Some(ns) && t.ops.unset,
    }
}

/// The traces that stay.
pub open spec fn survivors(d: Doomed<'_>) -> spec_fn(VarTrace) -> bool {
    |t: VarTrace| !doomed(d, t)
}

fn is_doomed(d: &Doomed<'_>, t: &VarTrace) -> (r: bool)
    ensures
        r == doomed(*d, *t),
{
    match d {
        Doomed::Variable(home) => same(&t.base, &home.base) && t.ns == home.ns && t.frame_level
            == home.level,
        Doomed::Element(home, e) => same(&t.base, &home.base) && t.ns == home.ns && t.frame_level
            == home.level && match &t.elem {
            Some(k) => same(k, e),
            None => false,
        },
        Doomed::Frame(level) => match t.frame_level {
            Some(l) => l == *level,
            None => false,
        },
        Doomed::Namespace(ns) => match t.ns {
            Some(n) => n == *ns && t.ops.unset,
            None => false,
        },
    }
}

/// A list from which nothing is dropped stays the same.
proof fn kept_all<T>(s: Seq<T>, keep: spec_fn(T) -> bool)
    requires
        forall|i: int| 0 <= i < s.len() ==> keep(#[trigger] s[i]),
    ensures
        kept(s, keep) == s,
    decreases s.len(),
{
    if s.len() > 0 {
        assert forall|i: int| 0 <= i < s.skip(1).len() implies keep(#[trigger] s.skip(1)[i]) by {
            assert(s.skip(1)[i] == s[i + 1]);
        }
        kept_all(s.skip(1), keep);
        assert(seq![s[0]] + s.skip(1) =~= s);
    }
}

/// What is kept is what was there and `keep` holds of.
pub proof fn kept_contains<T>(s: Seq<T>, keep: spec_fn(T) -> bool, x: T)
    ensures
        kept(s, keep).contains(x) == (s.contains(x) && keep(x)),
    decreases s.len(),
{
    if s.len() > 0 {
        kept_contains(s.skip(1), keep, x);
        let rest = s.skip(1);
        let out = kept(s, keep);
        let tail = kept(rest, keep);
        assert(s.contains(x) == (s[0] == x || rest.contains(x))) by {
            if rest.contains(x) {
                let k = choose|k: int| 0 <= k < rest.len() && rest[k] == x;
                assert(s[k + 1] == x);
            }
            if s.contains(x) && s[0] != x {
                let k = choose|k: int| 0 <= k < s.len() && s[k] == x;
                assert(rest[k - 1] == x);
            }
        }
        if keep(s[0]) {
            assert(out.contains(x) == (s[0] == x || tail.contains(x))) by {
                assert(out[0] == s[0]);
                if tail.contains(x) {
                    let k = choose|k: int| 0 <= k < tail.len() && tail[k] == x;
                    assert(out[k + 1] == x);
                }
                if out.contains(x) && s[0] != x {
                    let k = choose|k: int| 0 <= k < out.len() && out[k] == x;
                    assert(tail[k - 1] == x);
                }
            }
        }
    }
}

/// What stays is what `keep` holds of, and it was there before.
pub proof fn kept_holds<T>(s: Seq<T>, keep: spec_fn(T) -> bool)
    ensures
        kept(s, keep).len() <= s.len(),
        forall|i: int| 0 <= i < kept(s, keep).len() ==> keep(#[trigger] kept(s, keep)[i]),
    decreases s.len(),
{
    if s.len() > 0 {
        kept_holds(s.skip(1), keep);
        let rest = kept(s.skip(1), keep);
        assert forall|i: int| 0 <= i < kept(s, keep).len() implies keep(
            #[trigger] kept(s, keep)[i],
        ) by {
            if keep(s[0]) && i > 0 {
                assert(kept(s, keep)[i] == rest[i - 1]);
            } else if !keep(s[0]) {
                assert(kept(s, keep)[i] == rest[i]);
            }
        }
    }
}

impl Interp {
    /// Drops the traces that go. Returns whether there were any.
    pub fn drop_var_traces(&mut self, d: &Doomed<'_>) -> (removed: bool)
        ensures
            final(self).state.traces.traces@ == kept(
                old(self).state.traces.traces@,
                survivors(*d),
            ),
            removed == exists|i: int|
                0 <= i < old(self).state.traces.traces@.len() && doomed(
                    *d,
                    #[trigger] old(self).state.traces.traces@[i],
                ),
            !removed ==> final(self).state.traces.traces@ == old(self).state.traces.traces@,
            *final(self) == (Interp {
                state: InterpState {
                    traces: TraceTable {
                        traces: final(self).state.traces.traces,
                        ..old(self).state.traces
                    },
                    ..old(self).state
                },
                ..*old(self)
            }),
    {
        let ghost before = self.state.traces.traces@;
        let ghost keep = survivors(*d);
        let mut removed = false;
        let mut n: usize = self.state.traces.traces.len();
        assert(before.take(n as int) =~= before);
        assert(kept(before.skip(n as int), keep) =~= Seq::empty());
        assert(self.state.traces.traces@ =~= before.take(n as int) + kept(
            before.skip(n as int),
            keep,
        ));
        while n > 0
            invariant
                n <= before.len(),
                before == old(self).state.traces.traces@,
                keep == survivors(*d),
                self.state.traces.traces@ == before.take(n as int) + kept(
                    before.skip(n as int),
                    keep,
                ),
                removed == exists|i: int|
                    n <= i < before.len() && doomed(*d, #[trigger] before[i]),
                *self == (Interp {
                    state: InterpState {
                        traces: TraceTable {
                            traces: self.state.traces.traces,
                            ..old(self).state.traces
                        },
                        ..old(self).state
                    },
                    ..*old(self)
                }),
            decreases n,
        {
            let i: usize = n - 1;
            let ghost tail = kept(before.skip(n as int), keep);
            let ghost now = self.state.traces.traces@;
            assert(now[i as int] == before[i as int]);
            assert(before.skip(i as int)[0] == before[i as int]);
            assert(before.skip(i as int).skip(1) =~= before.skip(n as int));
            if is_doomed(d, &self.state.traces.traces[i]) {
                self.state.traces.traces.remove(i);
                removed = true;
                assert(self.state.traces.traces@ =~= before.take(i as int) + tail);
            } else {
                assert(keep(before[i as int]));
                assert(self.state.traces.traces@ =~= before.take(i as int) + (seq![
                    before[i as int],
                ] + tail));
            }
            n = i;
        }
        assert(before.take(0) + kept(before.skip(0), keep) =~= kept(before, keep)) by {
            assert(before.skip(0) =~= before);
        }
        proof {
            if !removed {
                kept_all(before, keep);
            }
        }
        removed
    }

    /// Drops the traces on the variables of a call frame that is left.
    pub fn clear_frame_var_traces(&mut self, level: usize)
        ensures
            traces_dropped(*old(self), *final(self), Doomed::Frame(level)),
    {
        let removed = self.drop_var_traces(&Doomed::Frame(level));
        if removed {
            self.invalidate_guard_domain(GuardDomain::VariableTrace);
        }
    }

    /// Drops the traces on a variable that was unset, or on the one element
    /// that was. The change is noted whether or not there were any.
    pub fn finish_unset(&mut self, home: &TraceHome, elem: &Option<Vec<u8>>)
        ensures
            unset_finished(*old(self), *final(self), *home, *elem),
    {
        match elem {
            Some(e) => self.drop_var_traces(&Doomed::Element(home, e)),
            None => self.drop_var_traces(&Doomed::Variable(home)),
        };
        self.invalidate_guard_domain(GuardDomain::VariableTrace);
    }
}

/// The traces on a variable that was unset, or on the one element that was, are
/// dropped, and the change is noted.
pub open spec fn unset_finished(
    before: Interp,
    after: Interp,
    home: TraceHome,
    elem: Option<Vec<u8>>,
) -> bool {
    &&& after.state.traces.traces@ == kept(
        before.state.traces.traces@,
        survivors(unset_dooms(&home, &elem)),
    )
    &&& after.state.var_trace_epoch == next_epoch(before.state.var_trace_epoch)
    &&& after.state.invalidations@ == before.state.invalidations@.push(GuardDomain::VariableTrace)
    &&& after == (Interp {
        state: InterpState {
            traces: TraceTable { traces: after.state.traces.traces, ..before.state.traces },
            var_trace_epoch: after.state.var_trace_epoch,
            invalidations: after.state.invalidations,
            ..before.state
        },
        ..before
    })
}

/// The traces that an unset dooms.
pub open spec fn unset_dooms<'a>(home: &'a TraceHome, elem: &'a Option<Vec<u8>>) -> Doomed<'a> {
    match elem {
        Some(e) => Doomed::Element(home, e),
        None => Doomed::Variable(home),
    }
}

/// The traces that go are dropped, and the change is noted if there were any.
pub open spec fn traces_dropped(before: Interp, after: Interp, d: Doomed<'_>) -> bool {
    let removed = exists|i: int|
        0 <= i < before.state.traces.traces@.len() && doomed(
            d,
            #[trigger] before.state.traces.traces@[i],
        );
    &&& after.state.traces.traces@ == kept(before.state.traces.traces@, survivors(d))
    &&& after.state.var_trace_epoch == if removed {
        next_epoch(before.state.var_trace_epoch)
    } else {
        before.state.var_trace_epoch
    }
    &&& after.state.invalidations@ == if removed {
        before.state.invalidations@.push(GuardDomain::VariableTrace)
    } else {
        before.state.invalidations@
    }
    &&& after == (Interp {
        state: InterpState {
            traces: TraceTable {
                traces: after.state.traces.traces,
                ..before.state.traces
            },
            var_trace_epoch: after.state.var_trace_epoch,
            invalidations: after.state.invalidations,
            ..before.state
        },
        ..before
    })
}

/// Where the part of `s` after its last `::` among the first `n` bytes begins,
/// zero where there is none.
pub open spec fn after_separator(s: Seq<u8>, n: int) -> int
    decreases n,
{
    if n < 2 {
        0
    } else if s[n - 2] == 58u8 && s[n - 1] == 58u8 {
        n
    } else {
        after_separator(s, n - 1)
    }
}

/// The simple name at the end of a qualified one.
pub open spec fn simple_name(s: Seq<u8>) -> Seq<u8> {
    s.skip(after_separator(s, s.len() as int))
}

/// The simple name at the end of a qualified one.
pub fn simple_tail(s: &[u8]) -> (r: Vec<u8>)
    ensures
        r@ == simple_name(s@),
{
    let mut n: usize = s.len();
    while n >= 2 && !(s[n - 2] == 58 && s[n - 1] == 58)
        invariant
            n <= s@.len(),
            after_separator(s@, s@.len() as int) == after_separator(s@, n as int),
        decreases n,
    {
        n = n - 1;
    }
    let from: usize = if n < 2 {
        0
    } else {
        n
    };
    assert(s@.subrange(from as int, s@.len() as int) =~= s@.skip(from as int));
    crate::bytes::slice_of(s, from, s.len())
}

/// The name that the callback of a namespace variable is told.
pub open spec fn qualified_variable(ns_name: Seq<u8>, t: VarTrace) -> Seq<u8> {
    display_name(
        (if ns_name == text("::") {
            ns_name
        } else {
            ns_name + text("::")
        }) + simple_name(t.base@),
        opt_view(t.elem),
    )
}

/// The callbacks, in the order the traces were set, of the variables of a
/// namespace that is destroyed.
pub open spec fn namespace_callbacks(ts: Seq<VarTrace>, ns: NsId, ns_name: Seq<u8>) -> Seq<
    TeardownView,
>
    decreases ts.len(),
{
    if ts.len() == 0 {
        Seq::empty()
    } else {
        let before = namespace_callbacks(ts.drop_last(), ns, ns_name);
        let t = ts.last();
        if doomed(Doomed::Namespace(ns), t) {
            before.push(
                TeardownView {
                    name: qualified_variable(ns_name, t),
                    elem: Seq::empty(),
                    command: t.command@,
                    old_style: t.old_style,
                },
            )
        } else {
            before
        }
    }
}

/// The callbacks for `name`, the newest first.
pub open spec fn newest_of(cs: Seq<TeardownView>, name: Seq<u8>) -> Seq<TeardownView>
    decreases cs.len(),
{
    if cs.len() == 0 {
        cs
    } else {
        let rest = newest_of(cs.drop_last(), name);
        if cs.last().name == name {
            seq![cs.last()] + rest
        } else {
            rest
        }
    }
}

/// The callbacks for other names, in order.
pub open spec fn others_than(cs: Seq<TeardownView>, name: Seq<u8>) -> Seq<TeardownView>
    decreases cs.len(),
{
    if cs.len() == 0 {
        cs
    } else {
        let rest = others_than(cs.drop_last(), name);
        if cs.last().name == name {
            rest
        } else {
            rest.push(cs.last())
        }
    }
}

/// Every callback is for `name` or for another name.
pub proof fn others_are_fewer(cs: Seq<TeardownView>, name: Seq<u8>)
    ensures
        others_than(cs, name).len() + newest_of(cs, name).len() == cs.len(),
    decreases cs.len(),
{
    if cs.len() > 0 {
        others_are_fewer(cs.drop_last(), name);
    }
}

/// A name that comes up has a callback.
pub proof fn own_name_counts(cs: Seq<TeardownView>, i: int)
    requires
        0 <= i < cs.len(),
    ensures
        newest_of(cs, cs[i].name).len() > 0,
    decreases cs.len(),
{
    if i < cs.len() - 1 {
        assert(cs.drop_last()[i] == cs[i]);
        own_name_counts(cs.drop_last(), i);
    }
}

/// The callbacks gathered by name, names in the order they first come up, and
/// of each name the newest first.
pub open spec fn grouped(cs: Seq<TeardownView>) -> Seq<TeardownView>
    decreases cs.len(),
{
    if cs.len() == 0 {
        cs
    } else {
        proof {
            others_are_fewer(cs, cs[0].name);
            own_name_counts(cs, 0);
        }
        newest_of(cs, cs[0].name) + grouped(others_than(cs, cs[0].name))
    }
}

fn copied_callback(c: &TeardownCallback) -> (r: TeardownCallback)
    ensures
        r@ == c@,
{
    TeardownCallback {
        name: copied(&c.name),
        elem: copied(&c.elem),
        command: copied(&c.command),
        old_style: c.old_style,
    }
}

fn append_newest(out: &mut Vec<TeardownCallback>, cs: &[TeardownCallback], name: &[u8])
    ensures
        teardown_views(final(out)@) == teardown_views(old(out)@) + newest_of(
            teardown_views(cs@),
            name@,
        ),
{
    let ghost vs = teardown_views(cs@);
    let ghost goal = teardown_views(out@) + newest_of(vs, name@);
    let mut n: usize = cs.len();
    assert(vs.take(n as int) =~= vs);
    while n > 0
        invariant
            n <= cs@.len(),
            vs == teardown_views(cs@),
            teardown_views(out@) + newest_of(vs.take(n as int), name@) == goal,
        decreases n,
    {
        let c = &cs[n - 1];
        assert(vs.take(n as int).last() == c@);
        assert(vs.take(n as int).drop_last() =~= vs.take(n - 1));
        let ghost rest = newest_of(vs.take(n - 1), name@);
        let ghost before = teardown_views(out@);
        if same(&c.name, name) {
            out.push(copied_callback(c));
            assert(teardown_views(out@) =~= before.push(c@));
            assert(before + (seq![c@] + rest) =~= teardown_views(out@) + rest);
        }
        n = n - 1;
    }
    assert(teardown_views(out@) + newest_of(vs.take(0), name@) =~= teardown_views(out@));
}

fn without_name(cs: &[TeardownCallback], name: &[u8]) -> (r: Vec<TeardownCallback>)
    ensures
        teardown_views(r@) == others_than(teardown_views(cs@), name@),
{
    let ghost vs = teardown_views(cs@);
    let mut out: Vec<TeardownCallback> = Vec::new();
    let mut i: usize = 0;
    assert(teardown_views(out@) =~= others_than(vs.take(0), name@));
    while i < cs.len()
        invariant
            i <= cs@.len(),
            vs == teardown_views(cs@),
            teardown_views(out@) == others_than(vs.take(i as int), name@),
        decreases cs@.len() - i,
    {
        let c = &cs[i];
        assert(vs.take(i + 1).last() == c@);
        assert(vs.take(i + 1).drop_last() =~= vs.take(i as int));
        let ghost before = teardown_views(out@);
        if !same(&c.name, name) {
            out.push(copied_callback(c));
            assert(teardown_views(out@) =~= before.push(c@));
        }
        i = i + 1;
    }
    assert(vs.take(i as int) =~= vs);
    out
}

/// Gathers callbacks by name: each name's are contiguous, the newest first.
pub fn group_newest_first_per_entity(victims: Vec<TeardownCallback>) -> (r: Vec<
    TeardownCallback,
>)
    ensures
        teardown_views(r@) == grouped(teardown_views(victims@)),
{
    let ghost goal = grouped(teardown_views(victims@));
    let mut left = victims;
    let mut out: Vec<TeardownCallback> = Vec::new();
    assert(teardown_views(out@) + grouped(teardown_views(left@)) =~= goal);
    while left.len() > 0
        invariant
            teardown_views(out@) + grouped(teardown_views(left@)) == goal,
        decreases left@.len(),
    {
        let ghost vs = teardown_views(left@);
        let name = copied(&left[0].name);
        let ghost before = teardown_views(out@);
        append_newest(&mut out, &left, &name);
        let rest = without_name(&left, &name);
        proof {
            others_are_fewer(vs, name@);
            own_name_counts(vs, 0);
            assert(vs[0].name == name@);
            assert(teardown_views(rest@).len() == rest@.len());
            assert(before + (newest_of(vs, name@) + grouped(others_than(vs, name@)))
                =~= teardown_views(out@) + grouped(teardown_views(rest@)));
        }
        left = rest;
    }
    assert(teardown_views(out@) + grouped(teardown_views(left@)) =~= teardown_views(out@));
    out
}

proof fn split_counts(cs: Seq<TeardownView>, name: Seq<u8>)
    ensures
        newest_of(cs, name).to_multiset().add(others_than(cs, name).to_multiset())
            =~= cs.to_multiset(),
    decreases cs.len(),
{
    broadcast use vstd::seq_lib::group_to_multiset_ensures;
    broadcast use vstd::multiset::group_multiset_axioms;

    if cs.len() > 0 {
        let t = cs.drop_last();
        let c = cs.last();
        split_counts(t, name);
        assert(cs =~= t.push(c));
        vstd::seq_lib::lemma_multiset_commutative(seq![c], newest_of(t, name));
        assert(seq![c] =~= Seq::<TeardownView>::empty().push(c));
    }
}

/// Gathering neither loses nor adds a callback.
pub proof fn grouped_is_a_rearrangement(cs: Seq<TeardownView>)
    ensures
        grouped(cs).to_multiset() =~= cs.to_multiset(),
    decreases cs.len(),
{
    if cs.len() > 0 {
        let name = cs[0].name;
        others_are_fewer(cs, name);
        own_name_counts(cs, 0);
        grouped_is_a_rearrangement(others_than(cs, name));
        split_counts(cs, name);
        vstd::seq_lib::lemma_multiset_commutative(
            newest_of(cs, name),
            grouped(others_than(cs, name)),
        );
    }
}

proof fn names_of_parts(cs: Seq<TeardownView>, name: Seq<u8>)
    ensures
        forall|i: int|
            0 <= i < newest_of(cs, name).len() ==> (#[trigger] newest_of(cs, name)[i]).name
                == name,
        forall|i: int|
            0 <= i < others_than(cs, name).len() ==> (#[trigger] others_than(cs, name)[i]).name
                != name,
    decreases cs.len(),
{
    if cs.len() > 0 {
        let t = cs.drop_last();
        names_of_parts(t, name);
        let n = newest_of(t, name);
        let o = others_than(t, name);
        assert forall|i: int| 0 <= i < newest_of(cs, name).len() implies (
        #[trigger] newest_of(cs, name)[i]).name == name by {
            if cs.last().name == name {
                if i > 0 {
                    assert(newest_of(cs, name)[i] == n[i - 1]);
                }
            } else {
                assert(newest_of(cs, name)[i] == n[i]);
            }
        }
        assert forall|i: int| 0 <= i < others_than(cs, name).len() implies (
        #[trigger] others_than(cs, name)[i]).name != name by {
            if i < o.len() {
                assert(others_than(cs, name)[i] == o[i]);
            }
        }
    }
}

proof fn grouped_keeps_away(cs: Seq<TeardownView>, name: Seq<u8>)
    requires
        forall|i: int| 0 <= i < cs.len() ==> (#[trigger] cs[i]).name != name,
    ensures
        forall|i: int| 0 <= i < grouped(cs).len() ==> (#[trigger] grouped(cs)[i]).name != name,
    decreases cs.len(),
{
    if cs.len() > 0 {
        let first = cs[0].name;
        names_of_parts(cs, first);
        others_are_fewer(cs, first);
        own_name_counts(cs, 0);
        let o = others_than(cs, first);
        others_come_from(cs, first);
        assert forall|i: int| 0 <= i < o.len() implies (#[trigger] o[i]).name != name by {
            assert(cs.contains(o[i]));
        }
        grouped_keeps_away(o, name);
        let n = newest_of(cs, first);
        assert forall|i: int| 0 <= i < grouped(cs).len() implies (#[trigger] grouped(cs)[i]).name
            != name by {
            if i < n.len() {
                assert(grouped(cs)[i] == n[i]);
            } else {
                assert(grouped(cs)[i] == grouped(o)[i - n.len()]);
            }
        }
    }
}

proof fn others_come_from(cs: Seq<TeardownView>, name: Seq<u8>)
    ensures
        forall|i: int|
            0 <= i < others_than(cs, name).len() ==> cs.contains(
                #[trigger] others_than(cs, name)[i],
            ),
    decreases cs.len(),
{
    if cs.len() > 0 {
        let t = cs.drop_last();
        others_come_from(t, name);
        let o = others_than(t, name);
        assert forall|i: int| 0 <= i < others_than(cs, name).len() implies cs.contains(
            #[trigger] others_than(cs, name)[i],
        ) by {
            if i < o.len() {
                assert(others_than(cs, name)[i] == o[i]);
                let k = choose|k: int| 0 <= k < t.len() && t[k] == o[i];
                assert(cs[k] == o[i]);
            } else {
                assert(cs[cs.len() - 1] == cs.last());
            }
        }
    }
}

/// The callbacks of one name are contiguous.
pub proof fn grouped_is_contiguous(cs: Seq<TeardownView>, i: int, j: int, k: int)
    requires
        0 <= i <= j <= k < grouped(cs).len(),
        grouped(cs)[i].name == grouped(cs)[k].name,
    ensures
        grouped(cs)[j].name == grouped(cs)[i].name,
    decreases cs.len(),
{
    if cs.len() > 0 {
        let name = cs[0].name;
        others_are_fewer(cs, name);
        own_name_counts(cs, 0);
        names_of_parts(cs, name);
        let n = newest_of(cs, name);
        let o = others_than(cs, name);
        grouped_keeps_away(o, name);
        let g = grouped(o);
        if i >= n.len() {
            assert(grouped(cs)[i] == g[i - n.len()]);
            assert(grouped(cs)[j] == g[j - n.len()]);
            assert(grouped(cs)[k] == g[k - n.len()]);
            grouped_is_contiguous(o, i - n.len(), j - n.len(), k - n.len());
        } else {
            assert(grouped(cs)[i] == n[i]);
            if k >= n.len() {
                assert(grouped(cs)[k] == g[k - n.len()]);
            } else {
                assert(grouped(cs)[j] == n[j]);
            }
        }
    }
}

/// A local variable of a call frame, with the elements it has as an array.
pub struct Local {
    pub name: Vec<u8>,
    pub elements: Vec<Vec<u8>>,
}

/// The callbacks of the elements of an array that is destroyed, element by
/// element.
pub open spec fn elements_callbacks(
    ts: Seq<VarTrace>,
    home: HomeView,
    name: Seq<u8>,
    elements: Seq<Seq<u8>>,
) -> Seq<TeardownView>
    decreases elements.len(),
{
    if elements.len() == 0 {
        Seq::empty()
    } else {
        elements_callbacks(ts, home, name, elements.drop_last()) + cell_callbacks(
            ts,
            home,
            Some(elements.last()),
            name,
            elements.last(),
        )
    }
}

/// The callbacks of a local variable of the call frame at `level`.
pub open spec fn local_callbacks(ts: Seq<VarTrace>, home: HomeView, l: Local) -> Seq<
    TeardownView,
> {
    cell_callbacks(ts, home, None, l.name@, Seq::empty()) + elements_callbacks(
        ts,
        home,
        l.name@,
        views(l.elements@),
    )
}

/// The local variable `name` of the call frame at `level`.
pub open spec fn local_home(level: usize, name: Seq<u8>) -> HomeView {
    HomeView { ns: None, level: Some(level), base: name }
}

/// The callbacks of the locals of a call frame, in their order.
pub open spec fn frame_callbacks(ts: Seq<VarTrace>, level: usize, locals: Seq<Local>) -> Seq<
    TeardownView,
>
    decreases locals.len(),
{
    if locals.len() == 0 {
        Seq::empty()
    } else {
        frame_callbacks(ts, level, locals.drop_last()) + local_callbacks(
            ts,
            local_home(level, locals.last().name@),
            locals.last(),
        )
    }
}

fn append_callbacks(out: &mut Vec<TeardownCallback>, more: Vec<TeardownCallback>)
    ensures
        teardown_views(final(out)@) == teardown_views(old(out)@) + teardown_views(more@),
{
    let mut more = more;
    let ghost tail = more@;
    out.append(&mut more);
    assert(teardown_views(out@) =~= teardown_views(old(out)@) + teardown_views(tail));
}

impl Interp {
    /// The callbacks of the elements of an array that is destroyed.
    pub fn element_unset_traces(&self, home: &TraceHome, name: &[u8], elements: &[Vec<u8>]) -> (r:
        Vec<TeardownCallback>)
        ensures
            teardown_views(r@) == elements_callbacks(
                self.state.traces.traces@,
                home@,
                name@,
                views(elements@),
            ),
    {
        let ghost es = views(elements@);
        let mut out: Vec<TeardownCallback> = Vec::new();
        let mut i: usize = 0;
        assert(teardown_views(out@) =~= elements_callbacks(
            self.state.traces.traces@,
            home@,
            name@,
            es.take(0),
        ));
        while i < elements.len()
            invariant
                i <= elements@.len(),
                es == views(elements@),
                teardown_views(out@) == elements_callbacks(
                    self.state.traces.traces@,
                    home@,
                    name@,
                    es.take(i as int),
                ),
            decreases elements@.len() - i,
        {
            let elem: Option<Vec<u8>> = Some(copied(&elements[i]));
            let more = self.cell_unset_traces(home, &elem, name, &elements[i]);
            append_callbacks(&mut out, more);
            assert(es.take(i + 1).drop_last() =~= es.take(i as int));
            i = i + 1;
        }
        assert(es.take(i as int) =~= es);
        out
    }

    /// The callbacks of the variables of a call frame that is left. `locals`
    /// are its variables, in order.
    pub fn frame_teardown_unset_traces(&self, level: usize, locals: &[Local]) -> (r: Vec<
        TeardownCallback,
    >)
        ensures
            teardown_views(r@) == frame_callbacks(self.state.traces.traces@, level, locals@),
    {
        let ghost ts = self.state.traces.traces@;
        let mut out: Vec<TeardownCallback> = Vec::new();
        let mut i: usize = 0;
        assert(teardown_views(out@) =~= frame_callbacks(ts, level, locals@.take(0)));
        while i < locals.len()
            invariant
                i <= locals@.len(),
                ts == self.state.traces.traces@,
                teardown_views(out@) == frame_callbacks(ts, level, locals@.take(i as int)),
            decreases locals@.len() - i,
        {
            let l = &locals[i];
            let home = TraceHome {
                ns: None,
                level: Some(level),
                base: copied(&l.name),
                link_elem: None,
            };
            let none: Option<Vec<u8>> = None;
            let empty: Vec<u8> = Vec::new();
            assert(empty@ =~= Seq::empty());
            let ghost before = teardown_views(out@);
            let own = self.cell_unset_traces(&home, &none, &l.name, &empty);
            append_callbacks(&mut out, own);
            let more = self.element_unset_traces(&home, &l.name, &l.elements);
            append_callbacks(&mut out, more);
            proof {
                assert(locals@.take(i + 1).drop_last() =~= locals@.take(i as int));
                assert(home@ == local_home(level, l.name@));
                assert(teardown_views(out@) =~= before + local_callbacks(ts, home@, *l));
                assert(locals@.take(i + 1).last() == *l);
            }
            i = i + 1;
        }
        assert(locals@.take(i as int) =~= locals@);
        out
    }

    /// Takes the traces on the unset of the variables of a namespace that is
    /// destroyed, and gives their callbacks, gathered by variable. `ns_name` is
    /// the namespace's qualified name.
    pub fn take_ns_unset_traces(&mut self, ns: NsId, ns_name: &[u8]) -> (r: Vec<TeardownCallback>)
        ensures
            teardown_views(r@) == grouped(
                namespace_callbacks(old(self).state.traces.traces@, ns, ns_name@),
            ),
            traces_dropped(*old(self), *final(self), Doomed::Namespace(ns)),
    {
        let ghost ts = self.state.traces.traces@;
        let d = Doomed::Namespace(ns);
        let mut victims: Vec<TeardownCallback> = Vec::new();
        let mut i: usize = 0;
        assert(teardown_views(victims@) =~= namespace_callbacks(ts.take(0), ns, ns_name@));
        while i < self.state.traces.traces.len()
            invariant
                i <= ts.len(),
                ts == self.state.traces.traces@,
                *self == *old(self),
                d == Doomed::Namespace(ns),
                teardown_views(victims@) == namespace_callbacks(
                    ts.take(i as int),
                    ns,
                    ns_name@,
                ),
            decreases ts.len() - i,
        {
            let t = &self.state.traces.traces[i];
            assert(ts.take(i + 1).drop_last() =~= ts.take(i as int));
            assert(ts.take(i + 1).last() == *t);
            let ghost before = teardown_views(victims@);
            if is_doomed(&d, t) {
                let mut base = copied(ns_name);
                if !is_text(ns_name, "::") {
                    append_text(&mut base, "::");
                }
                append(&mut base, &simple_tail(&t.base));
                let name = crate::traces::shown_variable(&base, &t.elem);
                let elem: Vec<u8> = Vec::new();
                assert(elem@ =~= Seq::empty());
                let c = TeardownCallback {
                    name,
                    elem,
                    command: copied(&t.command),
                    old_style: t.old_style,
                };
                let ghost v = c@;
                victims.push(c);
                assert(teardown_views(victims@) =~= before.push(v));
                assert(v.name == qualified_variable(ns_name@, *t));
            }
            i = i + 1;
        }
        assert(ts.take(i as int) =~= ts);
        let removed = self.drop_var_traces(&d);
        if removed {
            self.invalidate_guard_domain(GuardDomain::VariableTrace);
        }
        group_newest_first_per_entity(victims)
    }
}

/// The operands of a call that reports a variable to be gone.
pub open spec fn unset_operands(c: TeardownView) -> Seq<Seq<u8>> {
    seq![c.name, c.elem, op_word(VarOp::Unset, c.old_style)]
}

/// The operands of a call that reports a variable to be gone: they become a list
/// behind the callback's command.
pub fn unset_callback_operands(c: &TeardownCallback) -> (r: Vec<Vec<u8>>)
    ensures
        views(r@) == unset_operands(c@),
{
    let mut out: Vec<Vec<u8>> = Vec::new();
    out.push(copied(&c.name));
    out.push(copied(&c.elem));
    out.push(callback_op_word(VarOp::Unset, c.old_style));
    assert(views(out@) =~= unset_operands(c@));
    out
}

impl Interp {
    /// Begins the calls that report variables to be gone, where there are any:
    /// gives the result that they may overwrite.
    pub fn begin_unset_callbacks(&self, victims: &[TeardownCallback]) -> (saved: Option<Vec<u8>>)
        ensures
            match saved {
                Some(r) => victims@.len() > 0 && r@ == self.state.result@,
                None => victims@.len() == 0,
            },
    {
        if victims.len() == 0 {
            None
        } else {
            Some(self.result_bytes())
        }
    }

    /// Ends those calls: the result is what it was.
    pub fn end_unset_callbacks(&mut self, saved: Vec<u8>)
        ensures
            *final(self) == (Interp {
                state: InterpState { result: saved, ..old(self).state },
                ..*old(self)
            }),
    {
        self.state.result = saved;
    }
}

/// Where the callbacks of an unset stand.
#[derive(Debug, Clone, Copy, PartialEq, Eq, Structural)]
pub enum UnsetPhase {
    /// The unset traces of the variable fire, by its home and access.
    Variable,
    /// Then those on the elements of the array that it was.
    Elements,
    /// Then the traces are dropped.
    Drop,
}

/// The callbacks of an unset, once the variable is gone.
pub struct UnsetRun {
    pub home: TraceHome,
    pub access: TraceAccess,
    /// The elements of the array that the variable was.
    pub elements: Vec<Vec<u8>>,
    /// The one element whose traces are dropped; those of the whole variable
    /// where it is none.
    pub dropped: Option<Vec<u8>>,
    pub phase: UnsetPhase,
}

/// What an unset found out before the variable went.
pub struct UnsetTarget {
    pub home: TraceHome,
    pub access: TraceAccess,
    pub elements: Vec<Vec<u8>>,
    /// The element, where it stands apart from the name.
    pub key: Option<Vec<u8>>,
}

impl UnsetPlan {
    /// Begins the callbacks of an unset, where there are any: the variable was
    /// there, and is traced.
    pub fn begin(self, existed: bool, target: Option<UnsetTarget>) -> (r: Option<UnsetRun>)
        requires
            self.resolve ==> target is Some,
        ensures
            match r {
                Some(run) => {
                    let t = target->0;
                    &&& existed && self.resolve
                    &&& run.home == t.home
                    &&& run.access == t.access
                    &&& views(run.elements@) == if self.list_elements {
                        views(t.elements@)
                    } else {
                        Seq::empty()
                    }
                    &&& opt_view(run.dropped) == if t.key is Some {
                        opt_view(t.key)
                    } else {
                        opt_view(t.access.match_elem)
                    }
                    &&& run.phase == UnsetPhase::Variable
                },
                None => !(existed && self.resolve),
            },
    {
        if !self.fires(existed) {
            return None;
        }
        match target {
            Some(t) => {
                let dropped = if t.key.is_some() {
                    t.key
                } else {
                    copied_opt(&t.access.match_elem)
                };
                let none: Vec<Vec<u8>> = Vec::new();
                assert(views(none@) =~= Seq::empty());
                let elements = if self.list_elements {
                    t.elements
                } else {
                    none
                };
                Some(
                    UnsetRun {
                        home: t.home,
                        access: t.access,
                        elements,
                        dropped,
                        phase: UnsetPhase::Variable,
                    },
                )
            },
            None => None,
        }
    }
}

impl UnsetRun {
    /// The unset traces of the variable have fired.
    pub fn variable_fired(&mut self)
        requires
            old(self).phase == UnsetPhase::Variable,
        ensures
            *final(self) == (UnsetRun { phase: UnsetPhase::Elements, ..*old(self) }),
    {
        self.phase = UnsetPhase::Elements;
    }
}

impl Interp {
    /// The callbacks on the elements of an array that was unset, which are called
    /// by the name that the callbacks of the array were told.
    pub fn unset_elements(&self, run: &mut UnsetRun) -> (r: Vec<TeardownCallback>)
        requires
            old(run).phase == UnsetPhase::Elements,
        ensures
            teardown_views(r@) == elements_callbacks(
                self.state.traces.traces@,
                old(run).home@,
                old(run).access.reported@,
                views(old(run).elements@),
            ),
            *final(run) == (UnsetRun { phase: UnsetPhase::Drop, ..*old(run) }),
    {
        run.phase = UnsetPhase::Drop;
        self.element_unset_traces(&run.home, &run.access.reported, &run.elements)
    }

    /// Ends an unset: the traces of what is gone are dropped.
    pub fn end_unset(&mut self, run: &UnsetRun)
        requires
            run.phase == UnsetPhase::Drop,
        ensures
            unset_finished(*old(self), *final(self), run.home, run.dropped),
    {
        self.finish_unset(&run.home, &run.dropped);
    }
}

/// What is unset keeps none of its traces, whatever its callbacks added.
pub proof fn an_unset_leaves_no_traces(
    before: Interp,
    after: Interp,
    home: TraceHome,
    elem: Option<Vec<u8>>,
    i: int,
)
    requires
        unset_finished(before, after, home, elem),
        0 <= i < after.state.traces.traces@.len(),
    ensures
        !doomed(unset_dooms(&home, &elem), after.state.traces.traces@[i]),
{
    kept_holds(before.state.traces.traces@, survivors(unset_dooms(&home, &elem)));
}

/// What is kept is kept in its order, and nothing else comes in.
pub proof fn kept_keeps_the_order<T>(a: Seq<T>, b: Seq<T>, keep: spec_fn(T) -> bool, x: T)
    ensures
        kept(a + b, keep) == kept(a, keep) + kept(b, keep),
        kept(seq![x], keep) == if keep(x) {
            seq![x]
        } else {
            Seq::empty()
        },
    decreases a.len(),
{
    reveal_with_fuel(kept, 2);
    assert(seq![x].skip(1) =~= Seq::<T>::empty());
    assert(seq![x] + Seq::<T>::empty() =~= seq![x]);
    if a.len() == 0 {
        assert(a + b =~= b);
        assert(kept(a, keep) + kept(b, keep) =~= kept(b, keep));
    } else {
        assert((a + b).skip(1) =~= a.skip(1) + b);
        kept_keeps_the_order(a.skip(1), b, keep, x);
        assert(kept(a + b, keep) =~= kept(a, keep) + kept(b, keep));
    }
}

/// Which traces go with what is destroyed: with a variable all that are on it,
/// with an element those on that element, with a frame all that are on its
/// variables, and with a namespace those on its variables that are to be told.
pub proof fn what_goes_takes_its_traces(
    t: VarTrace,
    home: TraceHome,
    e: Vec<u8>,
    level: usize,
    ns: NsId,
)
    ensures
        doomed(Doomed::Variable(&home), t) <==> t.base@ == home.base@ && t.ns == home.ns
            && t.frame_level == home.level,
        doomed(Doomed::Element(&home, &e), t) <==> doomed(Doomed::Variable(&home), t)
            && t.elem is Some && t.elem->0@ == e@,
        doomed(Doomed::Frame(level), t) <==> t.frame_level == Some(level),
        doomed(Doomed::Namespace(ns), t) <==> t.ns == Some(ns) && t.ops.unset,
{
}

/// The simple name of a qualified one is what follows its last `::`.
pub proof fn a_simple_name_follows_the_last_separator(q: Seq<u8>, n: Seq<u8>)
    requires
        n.len() > 0 ==> n[0] != 58u8,
        forall|i: int| 0 <= i < n.len() - 1 ==> !(#[trigger] n[i] == 58u8 && n[i + 1] == 58u8),
    ensures
        simple_name(q + seq![58u8, 58u8] + n) == n,
        simple_name(n) == n,
{
    let s = q + seq![58u8, 58u8] + n;
    separator_is_found(s, q.len() as int, s.len() as int);
    assert(s.skip(q.len() as int + 2) =~= n);
    no_separator_is_found(n, n.len() as int);
    assert(n.skip(0) =~= n);
}

proof fn separator_is_found(s: Seq<u8>, at: int, n: int)
    requires
        0 <= at,
        at + 2 <= n <= s.len(),
        s[at] == 58u8 && s[at + 1] == 58u8,
        at + 2 < s.len() ==> s[at + 2] != 58u8,
        forall|i: int|
            at + 2 <= i < s.len() - 1 ==> !(#[trigger] s[i] == 58u8 && s[i + 1] == 58u8),
    ensures
        after_separator(s, n) == at + 2,
    decreases n,
{
    if n > at + 2 {
        if n - 2 >= at + 2 {
            assert(!(s[n - 2] == 58u8 && s[n - 2 + 1] == 58u8));
        }
        separator_is_found(s, at, n - 1);
    }
}

proof fn no_separator_is_found(s: Seq<u8>, n: int)
    requires
        0 <= n <= s.len(),
        forall|i: int| 0 <= i < s.len() - 1 ==> !(#[trigger] s[i] == 58u8 && s[i + 1] == 58u8),
    ensures
        after_separator(s, n) == 0,
    decreases n,
{
    if n >= 2 {
        assert(!(s[n - 2] == 58u8 && s[n - 2 + 1] == 58u8));
        no_separator_is_found(s, n - 1);
    }
}

/// The callbacks of a namespace that is destroyed come in the order its traces
/// were set in, each told the qualified name of its variable.
pub proof fn a_namespace_tells_of_its_variables_in_order(
    ts: Seq<VarTrace>,
    t: VarTrace,
    ns: NsId,
    ns_name: Seq<u8>,
)
    ensures
        namespace_callbacks(ts.push(t), ns, ns_name) == if t.ns == Some(ns) && t.ops.unset {
            namespace_callbacks(ts, ns, ns_name) + seq![
                TeardownView {
                    name: qualified_variable(ns_name, t),
                    elem: Seq::empty(),
                    command: t.command@,
                    old_style: t.old_style,
                },
            ]
        } else {
            namespace_callbacks(ts, ns, ns_name)
        },
        namespace_callbacks(Seq::empty(), ns, ns_name).len() == 0,
        ns_name == text("::") && t.elem is None ==> qualified_variable(ns_name, t) == text("::")
            + simple_name(t.base@),
        ns_name != text("::") && t.elem is None ==> qualified_variable(ns_name, t) == ns_name
            + text("::") + simple_name(t.base@),
        ns_name != text("::") && t.elem is Some ==> qualified_variable(ns_name, t) == ns_name
            + text("::") + simple_name(t.base@) + text("(") + t.elem->0@ + text(")"),
{
    assert(ts.push(t).drop_last() =~= ts);
    let was = namespace_callbacks(ts, ns, ns_name);
    let c = TeardownView {
        name: qualified_variable(ns_name, t),
        elem: Seq::empty(),
        command: t.command@,
        old_style: t.old_style,
    };
    assert(was.push(c) =~= was + seq![c]);
}

/// Of the callbacks gathered by name, those of the name that came up first come
/// first, the newest of them in front.
pub proof fn a_name_that_came_up_first_comes_first(cs: Seq<TeardownView>, c: TeardownView)
    ensures
        newest_of(cs.push(c), c.name) == seq![c] + newest_of(cs, c.name),
        others_than(cs.push(c), c.name) == others_than(cs, c.name),
        cs.len() > 0 ==> grouped(cs).len() > 0 && grouped(cs)[0].name == cs[0].name,
{
    assert(cs.push(c).drop_last() =~= cs);
    if cs.len() > 0 {
        own_name_counts(cs, 0);
        newest_are_of_the_name(cs, cs[0].name, 0);
    }
}

proof fn newest_are_of_the_name(cs: Seq<TeardownView>, name: Seq<u8>, i: int)
    requires
        0 <= i < newest_of(cs, name).len(),
    ensures
        newest_of(cs, name)[i].name == name,
    decreases cs.len(),
{
    if cs.len() > 0 {
        if cs.last().name == name {
            if i > 0 {
                newest_are_of_the_name(cs.drop_last(), name, i - 1);
            }
        } else {
            newest_are_of_the_name(cs.drop_last(), name, i);
        }
    }
}

/// The locals of a frame that is left are told of one by one, in their order:
/// of each the whole variable first and then its elements.
pub proof fn locals_are_told_of_one_by_one(
    ts: Seq<VarTrace>,
    level: usize,
    locals: Seq<Local>,
    l: Local,
)
    ensures
        ({
            let home = HomeView { ns: None, level: Some(level), base: l.name@ };
            frame_callbacks(ts, level, locals.push(l)) == frame_callbacks(ts, level, locals)
                + cell_callbacks(ts, home, None, l.name@, Seq::empty()) + elements_callbacks(
                ts,
                home,
                l.name@,
                views(l.elements@),
            )
        }),
        frame_callbacks(ts, level, Seq::empty()).len() == 0,
{
    assert(locals.push(l).drop_last() =~= locals);
    let home = HomeView { ns: None, level: Some(level), base: l.name@ };
    let a = frame_callbacks(ts, level, locals);
    let b = cell_callbacks(ts, home, None, l.name@, Seq::empty());
    let c = elements_callbacks(ts, home, l.name@, views(l.elements@));
    assert(a + (b + c) =~= a + b + c);
}

/// The elements of an array that is destroyed are told of one by one, in their
/// order, each by the array's name and its own.
pub proof fn elements_are_told_of_one_by_one(
    ts: Seq<VarTrace>,
    home: HomeView,
    name: Seq<u8>,
    elements: Seq<Seq<u8>>,
    e: Seq<u8>,
)
    ensures
        elements_callbacks(ts, home, name, elements.push(e)) == elements_callbacks(
            ts,
            home,
            name,
            elements,
        ) + cell_callbacks(ts, home, Some(e), name, e),
        elements_callbacks(ts, home, name, Seq::empty()).len() == 0,
{
    assert(elements.push(e).drop_last() =~= elements);
}

/// What was remembered of traced variables is given up exactly if a trace is
/// dropped; the traces that stay are those that are not on what goes.
pub proof fn a_dropped_trace_begins_another_epoch(
    before: Interp,
    after: Interp,
    d: Doomed<'_>,
    t: VarTrace,
)
    requires
        traces_dropped(before, after, d),
        before.state.var_trace_epoch < u64::MAX,
    ensures
        after.state.traces.traces@.contains(t) <==> before.state.traces.traces@.contains(t)
            && !doomed(d, t),
        before.state.traces.traces@.contains(t) && doomed(d, t) ==> after.state.var_trace_epoch
            == before.state.var_trace_epoch + 1,
        (forall|i: int|
            0 <= i < before.state.traces.traces@.len() ==> !doomed(
                d,
                #[trigger] before.state.traces.traces@[i],
            )) ==> after.state.var_trace_epoch == before.state.var_trace_epoch,
{
    kept_contains(before.state.traces.traces@, survivors(d), t);
    let ts = before.state.traces.traces@;
    if ts.contains(t) && doomed(d, t) {
        let i = choose|i: int| 0 <= i < ts.len() && ts[i] == t;
        assert(doomed(d, ts[i]));
    }
}

/// A callback is told that a variable is gone by its name, its element and the
/// word for the operation.
pub proof fn a_callback_is_told_what_is_gone(c: TeardownView)
    ensures
        unset_operands(c).len() == 3,
        unset_operands(c)[0] == c.name,
        unset_operands(c)[1] == c.elem,
        c.old_style ==> unset_operands(c)[2] == text("u"),
        !c.old_style ==> unset_operands(c)[2] == text("unset"),
{
}

/// An unset begins another epoch, so that nothing remembered of the variable's
/// traces is taken for true after it.
pub proof fn an_unset_begins_another_epoch(
    before: Interp,
    after: Interp,
    home: TraceHome,
    elem: Option<Vec<u8>>,
    t: VarTrace,
)
    requires
        unset_finished(before, after, home, elem),
        before.state.var_trace_epoch < u64::MAX,
    ensures
        after.state.var_trace_epoch == before.state.var_trace_epoch + 1,
        elem is None ==> (after.state.traces.traces@.contains(t) <==>
            before.state.traces.traces@.contains(t) && !(t.base@ == home.base@ && t.ns == home.ns
            && t.frame_level == home.level)),
        after.state.result == before.state.result,
{
    kept_contains(before.state.traces.traces@, survivors(unset_dooms(&home, &elem)), t);
}

} // verus!
