//! The teardown of a namespace.
//!
//! Callbacks run while a namespace dies, and may create commands, ensembles and
//! child namespaces in it. The tables are the embedder's; what is kept here is
//! the order of the steps, what has been handled, and when nothing is left.

use vstd::prelude::*;

use crate::bytes::{copied, holds_word, views};
use crate::child::environment_changed;
use crate::imports::{
    ensemble_victim_views, hidden_ensembles, holds_ns, holds_token, EnsembleVictim,
};
use crate::state::{Interp, NsId};
use crate::traces::kept;

verus! {

/// One step in the deletion of a namespace.
#[derive(Debug, Clone, Copy, PartialEq, Eq, Structural)]
pub enum DeletionStep {
    /// Take the unset traces of the namespace's variables, while their names can
    /// still be told.
    TakeUnsetTraces,
    /// Retire the ensembles that are configured for the namespace.
    RetireEnsembles,
    /// Keep the namespace for the frames that run in it, without its name.
    Defer,
    /// Mark the namespace as dying.
    BeginTeardown,
    ClearVariables,
    /// Run the callbacks of the unset traces.
    FireUnset,
    /// Delete the commands, one by one.
    TearDownCommands,
    /// Delete the children that are still there.
    DeleteChildren,
    /// Delete what the callbacks created meanwhile.
    Sweep,
    /// Release the namespace and its descendants.
    Finish,
}

/// The steps that delete one namespace. One that a frame still runs in only
/// loses its ensembles and its name.
pub open spec fn token_steps(active: bool) -> Seq<DeletionStep> {
    if active {
        seq![DeletionStep::RetireEnsembles, DeletionStep::Defer]
    } else {
        seq![
            DeletionStep::TakeUnsetTraces,
            DeletionStep::RetireEnsembles,
            DeletionStep::BeginTeardown,
            DeletionStep::ClearVariables,
            DeletionStep::FireUnset,
            DeletionStep::TearDownCommands,
            DeletionStep::DeleteChildren,
        ]
    }
}

/// The steps that delete a namespace with all that is in it.
pub open spec fn namespace_steps(active: bool) -> Seq<DeletionStep> {
    if active {
        token_steps(active)
    } else {
        token_steps(active) + seq![DeletionStep::Sweep, DeletionStep::Finish]
    }
}

/// The steps that delete one namespace: a child during its parent's deletion.
pub fn delete_namespace_token(active: bool) -> (r: Vec<DeletionStep>)
    ensures
        r@ == token_steps(active),
{
    let mut steps: Vec<DeletionStep> = Vec::new();
    if active {
        steps.push(DeletionStep::RetireEnsembles);
        steps.push(DeletionStep::Defer);
    } else {
        steps.push(DeletionStep::TakeUnsetTraces);
        steps.push(DeletionStep::RetireEnsembles);
        steps.push(DeletionStep::BeginTeardown);
        steps.push(DeletionStep::ClearVariables);
        steps.push(DeletionStep::FireUnset);
        steps.push(DeletionStep::TearDownCommands);
        steps.push(DeletionStep::DeleteChildren);
    }
    assert(steps@ =~= token_steps(active));
    steps
}

impl Interp {
    /// Begins the deletion of a namespace, and says in which steps it goes on.
    /// `active` says whether a call frame runs in the namespace.
    pub fn delete_namespace_by_id(&mut self, active: bool) -> (r: Vec<DeletionStep>)
        ensures
            r@ == namespace_steps(active),
            environment_changed(*old(self), *final(self)),
    {
        self.invalidate_command_environment();
        let mut steps = delete_namespace_token(active);
        if !active {
            steps.push(DeletionStep::Sweep);
            steps.push(DeletionStep::Finish);
        }
        assert(steps@ =~= namespace_steps(active));
        steps
    }
}

/// `a` followed by what `b` adds to it, nothing twice.
pub open spec fn joined<T>(a: Seq<T>, b: Seq<T>) -> Seq<T>
    decreases b.len(),
{
    if b.len() == 0 {
        a
    } else {
        let r = joined(a, b.drop_last());
        if r.contains(b.last()) {
            r
        } else {
            r.push(b.last())
        }
    }
}

/// Joining keeps what was there in its place, adds all of `b` and nothing else,
/// and makes no duplicates.
pub proof fn joined_is_a_union<T>(a: Seq<T>, b: Seq<T>)
    requires
        a.no_duplicates(),
    ensures
        joined(a, b).no_duplicates(),
        a.len() <= joined(a, b).len(),
        joined(a, b).take(a.len() as int) == a,
        forall|x: T| #[trigger] joined(a, b).contains(x) <==> a.contains(x) || b.contains(x),
    decreases b.len(),
{
    if b.len() == 0 {
        assert(joined(a, b).take(a.len() as int) =~= a);
    } else {
        joined_is_a_union(a, b.drop_last());
        let r = joined(a, b.drop_last());
        let out = joined(a, b);
        assert(out.take(a.len() as int) =~= r.take(a.len() as int));
        assert forall|x: T| #[trigger] out.contains(x) <==> a.contains(x) || b.contains(x) by {
            assert(r.contains(x) <==> a.contains(x) || b.drop_last().contains(x));
            if b.contains(x) {
                let i = choose|i: int| 0 <= i < b.len() && b[i] == x;
                if i < b.len() - 1 {
                    assert(b.drop_last()[i] == x);
                } else {
                    assert(x == b.last());
                    if !r.contains(x) {
                        assert(out[out.len() - 1] == x);
                    }
                }
            }
            if b.drop_last().contains(x) {
                let i = choose|i: int| 0 <= i < b.drop_last().len() && b.drop_last()[i] == x;
                assert(b[i] == x);
            }
            if r.contains(x) {
                let i = choose|i: int| 0 <= i < r.len() && r[i] == x;
                assert(out[i] == x);
            }
            if out.contains(x) && !r.contains(x) {
                assert(x == b.last());
                assert(b[b.len() - 1] == x);
            }
        }
    }
}

/// The victims whose ensemble is neither among `tokens` nor named before.
pub open spec fn unretired(victims: Seq<(Seq<u8>, u64)>, tokens: Seq<u64>) -> Seq<(Seq<u8>, u64)>
    decreases victims.len(),
{
    if victims.len() == 0 {
        Seq::empty()
    } else {
        let r = unretired(victims.drop_last(), tokens);
        let v = victims.last();
        if tokens.contains(v.1) || tokens_of(r).contains(v.1) {
            r
        } else {
            r.push(v)
        }
    }
}

/// The ensembles that victims name.
pub open spec fn tokens_of(victims: Seq<(Seq<u8>, u64)>) -> Seq<u64> {
    Seq::new(victims.len(), |i: int| victims[i].1)
}

/// Each ensemble is retired once: nothing among `unretired` is among `tokens`,
/// and nothing twice.
pub proof fn unretired_is_fresh(victims: Seq<(Seq<u8>, u64)>, tokens: Seq<u64>)
    ensures
        tokens_of(unretired(victims, tokens)).no_duplicates(),
        forall|i: int|
            0 <= i < unretired(victims, tokens).len() ==> !tokens.contains(
                (#[trigger] unretired(victims, tokens)[i]).1,
            ),
    decreases victims.len(),
{
    if victims.len() > 0 {
        unretired_is_fresh(victims.drop_last(), tokens);
        let r = unretired(victims.drop_last(), tokens);
        let v = victims.last();
        if !tokens.contains(v.1) && !tokens_of(r).contains(v.1) {
            assert(tokens_of(r.push(v)) =~= tokens_of(r).push(v.1));
            assert forall|i: int, j: int|
                0 <= i < j < tokens_of(r).push(v.1).len() implies tokens_of(r).push(v.1)[i]
                != tokens_of(r).push(v.1)[j] by {
                if j == tokens_of(r).len() {
                    assert(tokens_of(r)[i] == tokens_of(r).push(v.1)[i]);
                }
            }
        }
    }
}

/// A command's place in a namespace's table.
#[derive(Debug)]
pub struct Slot {
    pub ns: NsId,
    pub tail: Vec<u8>,
}

impl View for Slot {
    type V = (NsId, Seq<u8>);

    open spec fn view(&self) -> (NsId, Seq<u8>) {
        (self.ns, self.tail@)
    }
}

/// The slots as plain values.
pub open spec fn slot_views(slots: Seq<Slot>) -> Seq<(NsId, Seq<u8>)> {
    Seq::new(slots.len(), |i: int| slots[i]@)
}

/// Whether a slot is not among `traced`.
pub open spec fn untraced(traced: Seq<(NsId, Seq<u8>)>) -> spec_fn((NsId, Seq<u8>)) -> bool {
    |s: (NsId, Seq<u8>)| !traced.contains(s)
}

/// Whether an id is not among `ids`.
pub open spec fn outside(ids: Seq<NsId>) -> spec_fn(NsId) -> bool {
    |id: NsId| !ids.contains(id)
}

/// Where a sweep stands.
#[derive(Debug, Clone, Copy, PartialEq, Eq, Structural)]
pub enum SweepPhase {
    Namespaces,
    Ensembles,
    Retiring,
    Slots,
    Replacing,
    NewNamespaces,
    Commands,
    Imports,
    Remaining,
    LastNamespaces,
    LastCommands,
    LastImports,
    Clearing,
    Ended,
}

/// What a sweep wants done.
#[derive(Debug)]
pub enum SweepAction {
    /// List the namespaces that the teardown still owns.
    ListNamespaces,
    /// List the ensembles bound anywhere that are configured for the swept
    /// namespaces.
    ListEnsembles,
    /// Retire this ensemble; the answer is the name that it was bound to last.
    Retire(EnsembleVictim),
    /// List the commands in the tables of the swept namespaces.
    ListSlots,
    /// Run the delete callbacks of the command in this slot.
    Replace(Slot),
    /// List the qualified names of the commands of the swept namespaces.
    ListCommands,
    /// Remove the imports of the origins and of the retired ensembles.
    RemoveImports,
    /// Clear the swept namespaces, and drop the command traces on the origins.
    Clear,
    Nothing,
}

/// What a [`SweepAction`] holds.
pub enum SweepActionView {
    ListNamespaces,
    ListEnsembles,
    Retire { fqn: Seq<u8>, token: u64 },
    ListSlots,
    Replace { ns: NsId, tail: Seq<u8> },
    ListCommands,
    RemoveImports,
    Clear,
    Nothing,
}

impl View for SweepAction {
    type V = SweepActionView;

    open spec fn view(&self) -> SweepActionView {
        match *self {
            SweepAction::ListNamespaces => SweepActionView::ListNamespaces,
            SweepAction::ListEnsembles => SweepActionView::ListEnsembles,
            SweepAction::Retire(v) => SweepActionView::Retire { fqn: v.fqn@, token: v.token },
            SweepAction::ListSlots => SweepActionView::ListSlots,
            SweepAction::Replace(s) => SweepActionView::Replace { ns: s.ns, tail: s.tail@ },
            SweepAction::ListCommands => SweepActionView::ListCommands,
            SweepAction::RemoveImports => SweepActionView::RemoveImports,
            SweepAction::Clear => SweepActionView::Clear,
            SweepAction::Nothing => SweepActionView::Nothing,
        }
    }
}

/// The answer to a [`SweepAction`].
pub enum SweepEvent {
    Namespaces(Vec<NsId>),
    Ensembles(Vec<EnsembleVictim>),
    Retired(Option<Vec<u8>>),
    Slots(Vec<Slot>),
    Commands(Vec<Vec<u8>>),
    Done,
}

/// The sweep of a dying namespace: it goes round until a round finds no new
/// ensemble and no new command.
pub struct Sweep {
    /// The swept namespaces.
    pub ids: Vec<NsId>,
    /// The slots whose callbacks have run.
    pub traced: Vec<Slot>,
    /// The qualified names that are gone.
    pub origins: Vec<Vec<u8>>,
    /// The ensembles that are retired.
    pub tokens: Vec<u64>,
    /// The ensembles to be retired in this round.
    pub victims: Vec<EnsembleVictim>,
    /// The slots to be handled in this round.
    pub slots: Vec<Slot>,
    /// Whether this round found something new.
    pub found_new: bool,
    pub phase: SweepPhase,
}

/// What a [`Sweep`] holds.
pub struct SweepView {
    pub ids: Seq<NsId>,
    pub traced: Seq<(NsId, Seq<u8>)>,
    pub origins: Seq<Seq<u8>>,
    pub tokens: Seq<u64>,
    pub victims: Seq<(Seq<u8>, u64)>,
    pub slots: Seq<(NsId, Seq<u8>)>,
    pub found_new: bool,
    pub phase: SweepPhase,
}

impl View for Sweep {
    type V = SweepView;

    open spec fn view(&self) -> SweepView {
        SweepView {
            ids: self.ids@,
            traced: slot_views(self.traced@),
            origins: views(self.origins@),
            tokens: self.tokens@,
            victims: ensemble_victim_views(self.victims@),
            slots: slot_views(self.slots@),
            found_new: self.found_new,
            phase: self.phase,
        }
    }
}

impl SweepView {
    /// Whether a queue is being worked off only while something is in it.
    pub open spec fn valid(self) -> bool {
        &&& (self.phase == SweepPhase::Retiring) == (self.victims.len() > 0)
        &&& (self.phase == SweepPhase::Replacing) == (self.slots.len() > 0)
    }

    /// What is to be done.
    pub open spec fn action(self) -> SweepActionView {
        match self.phase {
            SweepPhase::Namespaces | SweepPhase::NewNamespaces | SweepPhase::LastNamespaces =>
                SweepActionView::ListNamespaces,
            SweepPhase::Ensembles => SweepActionView::ListEnsembles,
            SweepPhase::Retiring => SweepActionView::Retire {
                fqn: self.victims[0].0,
                token: self.victims[0].1,
            },
            SweepPhase::Slots | SweepPhase::Remaining => SweepActionView::ListSlots,
            SweepPhase::Replacing => SweepActionView::Replace {
                ns: self.slots[0].0,
                tail: self.slots[0].1,
            },
            SweepPhase::Commands | SweepPhase::LastCommands => SweepActionView::ListCommands,
            SweepPhase::Imports | SweepPhase::LastImports => SweepActionView::RemoveImports,
            SweepPhase::Clearing => SweepActionView::Clear,
            SweepPhase::Ended => SweepActionView::Nothing,
        }
    }

    /// The sweep after the answer `e`, with the hidden commands as `i` has them.
    /// An answer to something else changes nothing.
    pub open spec fn answered(self, i: Interp, e: SweepEvent) -> SweepView {
        match (self.phase, e) {
            (SweepPhase::Namespaces, SweepEvent::Namespaces(ids)) => SweepView {
                ids: joined(self.ids, ids@),
                phase: SweepPhase::Ensembles,
                ..self
            },
            (SweepPhase::Ensembles, SweepEvent::Ensembles(bound)) => {
                let victims = unretired(
                    ensemble_victim_views(bound@) + hidden_ensembles(
                        i.state.hidden@,
                        self.ids,
                        self.tokens,
                    ),
                    self.tokens,
                );
                SweepView {
                    victims,
                    found_new: victims.len() > 0,
                    phase: if victims.len() > 0 {
                        SweepPhase::Retiring
                    } else {
                        SweepPhase::Slots
                    },
                    ..self
                }
            },
            (SweepPhase::Retiring, SweepEvent::Retired(live)) => SweepView {
                origins: joined(
                    self.origins,
                    match live {
                        Some(l) => seq![self.victims[0].0, l@],
                        None => seq![self.victims[0].0],
                    },
                ),
                tokens: self.tokens.push(self.victims[0].1),
                victims: self.victims.skip(1),
                phase: if self.victims.len() > 1 {
                    SweepPhase::Retiring
                } else {
                    SweepPhase::Slots
                },
                ..self
            },
            (SweepPhase::Slots, SweepEvent::Slots(all)) => {
                let slots = kept(slot_views(all@), untraced(self.traced));
                SweepView {
                    slots,
                    found_new: self.found_new || slots.len() > 0,
                    phase: if slots.len() > 0 {
                        SweepPhase::Replacing
                    } else {
                        SweepPhase::NewNamespaces
                    },
                    ..self
                }
            },
            (SweepPhase::Replacing, SweepEvent::Done) => SweepView {
                traced: joined(self.traced, seq![self.slots[0]]),
                slots: self.slots.skip(1),
                phase: if self.slots.len() > 1 {
                    SweepPhase::Replacing
                } else {
                    SweepPhase::NewNamespaces
                },
                ..self
            },
            (SweepPhase::NewNamespaces, SweepEvent::Namespaces(ids)) => SweepView {
                ids: joined(self.ids, ids@),
                phase: SweepPhase::Commands,
                ..self
            },
            (SweepPhase::Commands, SweepEvent::Commands(fqns)) => SweepView {
                origins: joined(self.origins, views(fqns@)),
                phase: SweepPhase::Imports,
                ..self
            },
            (SweepPhase::Imports, SweepEvent::Done) => SweepView {
                phase: SweepPhase::Remaining,
                ..self
            },
            (SweepPhase::Remaining, SweepEvent::Slots(all)) => SweepView {
                phase: if !self.found_new && kept(
                    slot_views(all@),
                    untraced(self.traced),
                ).len() == 0 {
                    SweepPhase::LastNamespaces
                } else {
                    SweepPhase::Namespaces
                },
                ..self
            },
            (SweepPhase::LastNamespaces, SweepEvent::Namespaces(ids)) => SweepView {
                ids: joined(self.ids, ids@),
                phase: SweepPhase::LastCommands,
                ..self
            },
            (SweepPhase::LastCommands, SweepEvent::Commands(fqns)) => SweepView {
                origins: joined(self.origins, views(fqns@)),
                phase: SweepPhase::LastImports,
                ..self
            },
            (SweepPhase::LastImports, SweepEvent::Done) => SweepView {
                phase: SweepPhase::Clearing,
                ..self
            },
            (SweepPhase::Clearing, SweepEvent::Done) => SweepView {
                phase: SweepPhase::Ended,
                ..self
            },
            _ => self,
        }
    }
}

fn holds_slot(slots: &[Slot], s: &Slot) -> (r: bool)
    ensures
        r == slot_views(slots@).contains(s@),
{
    let mut i: usize = 0;
    while i < slots.len()
        invariant
            i <= slots@.len(),
            forall|j: int| 0 <= j < i ==> #[trigger] slot_views(slots@)[j] != s@,
        decreases slots@.len() - i,
    {
        if slots[i].ns == s.ns && crate::bytes::same(&slots[i].tail, &s.tail) {
            assert(slot_views(slots@)[i as int] == s@);
            return true;
        }
        i = i + 1;
    }
    false
}

fn copied_slot(s: &Slot) -> (r: Slot)
    ensures
        r@ == s@,
{
    Slot { ns: s.ns, tail: copied(&s.tail) }
}

fn copied_victim(v: &EnsembleVictim) -> (r: EnsembleVictim)
    ensures
        r.fqn@ == v.fqn@,
        r.token == v.token,
{
    EnsembleVictim { fqn: copied(&v.fqn), token: v.token }
}

fn join_ids(ids: &mut Vec<NsId>, more: &[NsId])
    ensures
        final(ids)@ == joined(old(ids)@, more@),
{
    let mut i: usize = 0;
    assert(more@.take(0) =~= Seq::empty());
    while i < more.len()
        invariant
            i <= more@.len(),
            ids@ == joined(old(ids)@, more@.take(i as int)),
        decreases more@.len() - i,
    {
        assert(more@.take(i + 1).drop_last() =~= more@.take(i as int));
        if !holds_ns(ids, more[i]) {
            ids.push(more[i]);
        }
        i = i + 1;
    }
    assert(more@.take(i as int) =~= more@);
}

fn join_origins(ws: &mut Vec<Vec<u8>>, more: &[Vec<u8>])
    ensures
        views(final(ws)@) == joined(views(old(ws)@), views(more@)),
{
    let ghost all = views(more@);
    let mut i: usize = 0;
    assert(all.take(0) =~= Seq::empty());
    while i < more.len()
        invariant
            i <= more@.len(),
            all == views(more@),
            views(ws@) == joined(views(old(ws)@), all.take(i as int)),
        decreases more@.len() - i,
    {
        assert(all.take(i + 1).drop_last() =~= all.take(i as int));
        let ghost before = views(ws@);
        if !holds_word(ws, &more[i]) {
            ws.push(copied(&more[i]));
            assert(views(ws@) =~= before.push(all[i as int]));
        }
        i = i + 1;
    }
    assert(all.take(i as int) =~= all);
}

/// Appends the victims among `more` that are still to be retired.
fn enqueue(victims: &mut Vec<EnsembleVictim>, more: &[EnsembleVictim], tokens: &[u64], Ghost(
    seen,
): Ghost<Seq<(Seq<u8>, u64)>>)
    requires
        ensemble_victim_views(old(victims)@) == unretired(seen, tokens@),
    ensures
        ensemble_victim_views(final(victims)@) == unretired(
            seen + ensemble_victim_views(more@),
            tokens@,
        ),
{
    let ghost all = ensemble_victim_views(more@);
    let mut i: usize = 0;
    assert(seen + all.take(0) =~= seen);
    while i < more.len()
        invariant
            i <= more@.len(),
            all == ensemble_victim_views(more@),
            ensemble_victim_views(victims@) == unretired(seen + all.take(i as int), tokens@),
        decreases more@.len() - i,
    {
        let ghost now = seen + all.take(i + 1);
        assert(now.drop_last() =~= seen + all.take(i as int));
        assert(now.last() == all[i as int]);
        let ghost before = ensemble_victim_views(victims@);
        if !holds_token(tokens, more[i].token) && !names_token(victims, more[i].token) {
            victims.push(copied_victim(&more[i]));
            assert(ensemble_victim_views(victims@) =~= before.push(all[i as int]));
        }
        i = i + 1;
    }
    assert(all.take(i as int) =~= all);
}

fn names_token(victims: &[EnsembleVictim], t: u64) -> (r: bool)
    ensures
        r == tokens_of(ensemble_victim_views(victims@)).contains(t),
{
    let ghost all = tokens_of(ensemble_victim_views(victims@));
    let mut i: usize = 0;
    while i < victims.len()
        invariant
            i <= victims@.len(),
            all == tokens_of(ensemble_victim_views(victims@)),
            forall|j: int| 0 <= j < i ==> #[trigger] all[j] != t,
        decreases victims@.len() - i,
    {
        if victims[i].token == t {
            assert(all[i as int] == t);
            return true;
        }
        i = i + 1;
    }
    false
}

fn untraced_slots(all: &[Slot], traced: &[Slot]) -> (r: Vec<Slot>)
    ensures
        slot_views(r@) == kept(slot_views(all@), untraced(slot_views(traced@))),
{
    let ghost vs = slot_views(all@);
    let ghost keep = untraced(slot_views(traced@));
    let mut out: Vec<Slot> = Vec::new();
    let mut i: usize = 0;
    assert(vs.skip(0) =~= vs);
    assert(slot_views(out@) + kept(vs, keep) =~= kept(vs, keep));
    while i < all.len()
        invariant
            i <= all@.len(),
            vs == slot_views(all@),
            keep == untraced(slot_views(traced@)),
            slot_views(out@) + kept(vs.skip(i as int), keep) == kept(vs, keep),
        decreases all@.len() - i,
    {
        assert(vs.skip(i as int).skip(1) =~= vs.skip(i + 1));
        assert(vs.skip(i as int)[0] == all@[i as int]@);
        let ghost before = slot_views(out@);
        if !holds_slot(traced, &all[i]) {
            out.push(copied_slot(&all[i]));
            assert(slot_views(out@) =~= before.push(all@[i as int]@));
            assert(slot_views(out@) + kept(vs.skip(i + 1), keep) =~= before + (seq![
                all@[i as int]@,
            ] + kept(vs.skip(i + 1), keep)));
        }
        i = i + 1;
    }
    assert(slot_views(out@) + kept(vs.skip(i as int), keep) =~= slot_views(out@));
    out
}

impl Sweep {
    /// Begins the sweep over the namespaces `retained`, without those that lie
    /// under a namespace whose own deletion waits for a frame.
    pub fn begin(retained: &[NsId], deferred: &[NsId]) -> (s: Sweep)
        ensures
            s@.valid(),
            s@ == (SweepView {
                ids: kept(retained@, outside(deferred@)),
                traced: Seq::empty(),
                origins: Seq::empty(),
                tokens: Seq::empty(),
                victims: Seq::empty(),
                slots: Seq::empty(),
                found_new: false,
                phase: SweepPhase::Namespaces,
            }),
    {
        let ghost keep = outside(deferred@);
        let mut ids: Vec<NsId> = Vec::new();
        let mut i: usize = 0;
        assert(retained@.skip(0) =~= retained@);
        assert(ids@ + kept(retained@, keep) =~= kept(retained@, keep));
        while i < retained.len()
            invariant
                i <= retained@.len(),
                keep == outside(deferred@),
                ids@ + kept(retained@.skip(i as int), keep) == kept(retained@, keep),
            decreases retained@.len() - i,
        {
            assert(retained@.skip(i as int).skip(1) =~= retained@.skip(i + 1));
            assert(retained@.skip(i as int)[0] == retained@[i as int]);
            let ghost before = ids@;
            if !holds_ns(deferred, retained[i]) {
                ids.push(retained[i]);
                assert(ids@ + kept(retained@.skip(i + 1), keep) =~= before + (seq![
                    retained@[i as int],
                ] + kept(retained@.skip(i + 1), keep)));
            }
            i = i + 1;
        }
        assert(ids@ + kept(retained@.skip(i as int), keep) =~= ids@);
        let s = Sweep {
            ids,
            traced: Vec::new(),
            origins: Vec::new(),
            tokens: Vec::new(),
            victims: Vec::new(),
            slots: Vec::new(),
            found_new: false,
            phase: SweepPhase::Namespaces,
        };
        proof {
            assert(s@.traced =~= Seq::empty());
            assert(s@.origins =~= Seq::empty());
            assert(s@.tokens =~= Seq::empty());
            assert(s@.victims =~= Seq::empty());
            assert(s@.slots =~= Seq::empty());
        }
        s
    }

    /// What is to be done.
    pub fn action(&self) -> (a: SweepAction)
        requires
            self@.valid(),
        ensures
            a@ == self@.action(),
    {
        match self.phase {
            SweepPhase::Namespaces | SweepPhase::NewNamespaces | SweepPhase::LastNamespaces =>
                SweepAction::ListNamespaces,
            SweepPhase::Ensembles => SweepAction::ListEnsembles,
            SweepPhase::Retiring => SweepAction::Retire(copied_victim(&self.victims[0])),
            SweepPhase::Slots | SweepPhase::Remaining => SweepAction::ListSlots,
            SweepPhase::Replacing => SweepAction::Replace(copied_slot(&self.slots[0])),
            SweepPhase::Commands | SweepPhase::LastCommands => SweepAction::ListCommands,
            SweepPhase::Imports | SweepPhase::LastImports => SweepAction::RemoveImports,
            SweepPhase::Clearing => SweepAction::Clear,
            SweepPhase::Ended => SweepAction::Nothing,
        }
    }

    fn note_ensembles(&mut self, i: &Interp, bound: &[EnsembleVictim])
        requires
            old(self)@.valid(),
            old(self).phase == SweepPhase::Ensembles,
        ensures
            final(self)@.valid(),
            forall|e: SweepEvent|
                e matches SweepEvent::Ensembles(b) && b@ == bound@ ==> final(self)@
                    == #[trigger] old(self)@.answered(*i, e),
    {
        let hidden = i.hidden_ensembles_of(&self.ids, &self.tokens);
        let mut victims: Vec<EnsembleVictim> = Vec::new();
        assert(ensemble_victim_views(victims@) =~= unretired(Seq::empty(), self.tokens@));
        enqueue(&mut victims, bound, &self.tokens, Ghost(Seq::empty()));
        assert(Seq::empty() + ensemble_victim_views(bound@) =~= ensemble_victim_views(bound@));
        enqueue(&mut victims, &hidden, &self.tokens, Ghost(ensemble_victim_views(bound@)));
        self.found_new = victims.len() > 0;
        self.phase = if victims.len() > 0 {
            SweepPhase::Retiring
        } else {
            SweepPhase::Slots
        };
        self.victims = victims;
    }

    fn note_retired(&mut self, live: &Option<Vec<u8>>)
        requires
            old(self)@.valid(),
            old(self).phase == SweepPhase::Retiring,
        ensures
            final(self)@.valid(),
            forall|i: Interp, e: SweepEvent|
                e matches SweepEvent::Retired(l) && l == *live ==> final(self)@
                    == #[trigger] old(self)@.answered(i, e),
    {
        let ghost queue = self@.victims;
        let v = self.victims.remove(0);
        let mut gone: Vec<Vec<u8>> = Vec::new();
        gone.push(v.fqn);
        assert(views(gone@) =~= seq![queue[0].0]);
        if let Some(l) = live {
            gone.push(copied(l));
            assert(views(gone@) =~= seq![queue[0].0, l@]);
        }
        join_origins(&mut self.origins, &gone);
        self.tokens.push(v.token);
        assert(self@.victims =~= queue.skip(1));
        if self.victims.len() == 0 {
            self.phase = SweepPhase::Slots;
        }
    }

    fn note_replaced(&mut self)
        requires
            old(self)@.valid(),
            old(self).phase == SweepPhase::Replacing,
        ensures
            final(self)@.valid(),
            forall|i: Interp| final(self)@ == #[trigger] old(self)@.answered(i, SweepEvent::Done),
    {
        let ghost queue = self@.slots;
        let ghost traced = self@.traced;
        let s = self.slots.remove(0);
        proof {
            assert(seq![queue[0]].drop_last() =~= Seq::empty());
            assert(joined(traced, Seq::<(NsId, Seq<u8>)>::empty()) == traced);
        }
        if !holds_slot(&self.traced, &s) {
            self.traced.push(s);
            assert(self@.traced =~= traced.push(queue[0]));
        }
        assert(self@.traced == joined(traced, seq![queue[0]]));
        assert(self@.slots =~= queue.skip(1));
        if self.slots.len() == 0 {
            self.phase = SweepPhase::NewNamespaces;
        }
    }

    /// Goes on with the answer to what was to be done.
    pub fn answer(&mut self, i: &Interp, e: SweepEvent)
        requires
            old(self)@.valid(),
        ensures
            final(self)@.valid(),
            final(self)@ == old(self)@.answered(*i, e),
    {
        match (self.phase, &e) {
            (SweepPhase::Namespaces, SweepEvent::Namespaces(ids)) => {
                join_ids(&mut self.ids, ids);
                self.phase = SweepPhase::Ensembles;
            },
            (SweepPhase::Ensembles, SweepEvent::Ensembles(bound)) => {
                self.note_ensembles(i, bound);
            },
            (SweepPhase::Retiring, SweepEvent::Retired(live)) => {
                self.note_retired(live);
            },
            (SweepPhase::Slots, SweepEvent::Slots(all)) => {
                let slots = untraced_slots(all, &self.traced);
                self.found_new = self.found_new || slots.len() > 0;
                self.phase = if slots.len() > 0 {
                    SweepPhase::Replacing
                } else {
                    SweepPhase::NewNamespaces
                };
                self.slots = slots;
            },
            (SweepPhase::Replacing, SweepEvent::Done) => {
                self.note_replaced();
            },
            (SweepPhase::NewNamespaces, SweepEvent::Namespaces(ids)) => {
                join_ids(&mut self.ids, ids);
                self.phase = SweepPhase::Commands;
            },
            (SweepPhase::Commands, SweepEvent::Commands(fqns)) => {
                join_origins(&mut self.origins, fqns);
                self.phase = SweepPhase::Imports;
            },
            (SweepPhase::Imports, SweepEvent::Done) => {
                self.phase = SweepPhase::Remaining;
            },
            (SweepPhase::Remaining, SweepEvent::Slots(all)) => {
                let left = untraced_slots(all, &self.traced);
                self.phase = if !self.found_new && left.len() == 0 {
                    SweepPhase::LastNamespaces
                } else {
                    SweepPhase::Namespaces
                };
            },
            (SweepPhase::LastNamespaces, SweepEvent::Namespaces(ids)) => {
                join_ids(&mut self.ids, ids);
                self.phase = SweepPhase::LastCommands;
            },
            (SweepPhase::LastCommands, SweepEvent::Commands(fqns)) => {
                join_origins(&mut self.origins, fqns);
                self.phase = SweepPhase::LastImports;
            },
            (SweepPhase::LastImports, SweepEvent::Done) => {
                self.phase = SweepPhase::Clearing;
            },
            (SweepPhase::Clearing, SweepEvent::Done) => {
                self.phase = SweepPhase::Ended;
            },
            _ => {},
        }
    }
}

impl SweepView {
    /// Whether nothing is noted twice, and no ensemble waits that is retired.
    pub open spec fn sound(self) -> bool {
        &&& self.valid()
        &&& self.traced.no_duplicates()
        &&& self.origins.no_duplicates()
        &&& (self.tokens + tokens_of(self.victims)).no_duplicates()
    }

    /// Whether `later` has all that this has noted.
    pub open spec fn grew_into(self, later: SweepView) -> bool {
        &&& is_prefix(self.traced, later.traced)
        &&& is_prefix(self.origins, later.origins)
        &&& is_prefix(self.tokens, later.tokens)
    }
}

/// Whether `b` begins with `a`.
pub open spec fn is_prefix<T>(a: Seq<T>, b: Seq<T>) -> bool {
    a.len() <= b.len() && b.take(a.len() as int) == a
}

/// Whatever the callbacks answer, a sweep forgets nothing that it has noted,
/// notes nothing twice, and asks for an ensemble to be retired only once.
pub proof fn sweep_forgets_nothing(s: SweepView, i: Interp, e: SweepEvent)
    requires
        s.sound(),
    ensures
        s.answered(i, e).sound(),
        s.grew_into(s.answered(i, e)),
        s.action() matches SweepActionView::Retire { token, .. } ==> !s.tokens.contains(token),
{
    let t = s.answered(i, e);
    assert(s.traced.take(s.traced.len() as int) =~= s.traced);
    assert(s.origins.take(s.origins.len() as int) =~= s.origins);
    assert(s.tokens.take(s.tokens.len() as int) =~= s.tokens);
    if s.phase == SweepPhase::Retiring {
        let all = s.tokens + tokens_of(s.victims);
        assert(all[s.tokens.len() as int] == s.victims[0].1);
        assert forall|k: int| 0 <= k < s.tokens.len() implies s.tokens[k] != s.victims[0].1 by {
            assert(all[k] == s.tokens[k]);
        }
    }
    match (s.phase, e) {
        (SweepPhase::Ensembles, SweepEvent::Ensembles(bound)) => {
            let listed = ensemble_victim_views(bound@) + hidden_ensembles(
                i.state.hidden@,
                s.ids,
                s.tokens,
            );
            unretired_is_fresh(listed, s.tokens);
            let all = t.tokens + tokens_of(t.victims);
            assert(s.tokens + tokens_of(s.victims) =~= s.tokens);
            assert forall|a: int, b: int| 0 <= a < b < all.len() implies all[a] != all[b] by {
                if a < t.tokens.len() && b >= t.tokens.len() {
                    let v = unretired(listed, s.tokens)[b - t.tokens.len()];
                    assert(v.1 == all[b]);
                    assert(s.tokens[a] == all[a]);
                    assert(!s.tokens.contains(v.1));
                } else if a >= t.tokens.len() {
                    assert(tokens_of(t.victims)[a - t.tokens.len()] != tokens_of(t.victims)[b
                        - t.tokens.len()]);
                }
            }
        },
        (SweepPhase::Retiring, SweepEvent::Retired(live)) => {
            let gone = match live {
                Some(l) => seq![s.victims[0].0, l@],
                None => seq![s.victims[0].0],
            };
            joined_is_a_union(s.origins, gone);
            assert(t.tokens.take(s.tokens.len() as int) =~= s.tokens);
            assert(t.tokens + tokens_of(t.victims) =~= s.tokens + tokens_of(s.victims));
        },
        (SweepPhase::Replacing, SweepEvent::Done) => {
            joined_is_a_union(s.traced, seq![s.slots[0]]);
        },
        (SweepPhase::Commands, SweepEvent::Commands(fqns)) => {
            joined_is_a_union(s.origins, views(fqns@));
        },
        (SweepPhase::LastCommands, SweepEvent::Commands(fqns)) => {
            joined_is_a_union(s.origins, views(fqns@));
        },
        _ => {},
    }
}

/// A sweep goes over to its end only from a round that found nothing new, and
/// only where the callbacks of every command that is left have run.
pub proof fn sweep_ends_when_all_is_handled(s: SweepView, i: Interp, e: SweepEvent)
    requires
        s.phase != SweepPhase::LastNamespaces,
        s.answered(i, e).phase == SweepPhase::LastNamespaces,
    ensures
        !s.found_new,
        e matches SweepEvent::Slots(all) && forall|k: int|
            0 <= k < all@.len() ==> s.traced.contains(#[trigger] all@[k]@),
{
    if let SweepEvent::Slots(all) = e {
        assert forall|k: int| 0 <= k < all@.len() implies s.traced.contains(
            #[trigger] all@[k]@,
        ) by {
            assert(slot_views(all@)[k] == all@[k]@);
            if !s.traced.contains(all@[k]@) {
                kept_keeps(slot_views(all@), untraced(s.traced), k);
            }
        }
    }
}

/// What is to be kept is kept.
proof fn kept_keeps<T>(s: Seq<T>, keep: spec_fn(T) -> bool, k: int)
    requires
        0 <= k < s.len(),
        keep(s[k]),
    ensures
        kept(s, keep).len() > 0,
    decreases s.len(),
{
    if k > 0 {
        assert(s.skip(1)[k - 1] == s[k]);
        kept_keeps(s.skip(1), keep, k - 1);
    }
}

/// The ensembles that a namespace owns, while they are retired one by one.
pub struct OwnedEnsembles {
    pub victims: Vec<EnsembleVictim>,
    /// The names that are gone with them.
    pub origins: Vec<Vec<u8>>,
    pub tokens: Vec<u64>,
}

impl OwnedEnsembles {
    /// The ensembles that are configured for `ns`: those in `bound`, which is
    /// what the command tables hold, and the hidden ones, each once.
    pub fn of(i: &Interp, ns: NsId, bound: &[EnsembleVictim]) -> (r: OwnedEnsembles)
        ensures
            ensemble_victim_views(r.victims@) == unretired(
                ensemble_victim_views(bound@) + hidden_ensembles(
                    i.state.hidden@,
                    seq![ns],
                    Seq::empty(),
                ),
                Seq::empty(),
            ),
            r.origins@.len() == 0,
            r.tokens@.len() == 0,
    {
        let mut ids: Vec<NsId> = Vec::new();
        ids.push(ns);
        let none: Vec<u64> = Vec::new();
        let hidden = i.hidden_ensembles_of(&ids, &none);
        let mut victims: Vec<EnsembleVictim> = Vec::new();
        assert(ids@ =~= seq![ns]);
        assert(none@ =~= Seq::empty());
        assert(ensemble_victim_views(victims@) =~= unretired(Seq::empty(), none@));
        enqueue(&mut victims, bound, &none, Ghost(Seq::empty()));
        assert(Seq::empty() + ensemble_victim_views(bound@) =~= ensemble_victim_views(bound@));
        enqueue(&mut victims, &hidden, &none, Ghost(ensemble_victim_views(bound@)));
        OwnedEnsembles { victims, origins: Vec::new(), tokens: Vec::new() }
    }

    /// Notes that the first of the ensembles is retired; `live` is the name that
    /// it was bound to last.
    pub fn retired(&mut self, live: &Option<Vec<u8>>)
        requires
            old(self).victims@.len() > 0,
        ensures
            final(self).victims@ == old(self).victims@.skip(1),
            final(self).tokens@ == old(self).tokens@.push(old(self).victims@[0].token),
            views(final(self).origins@) == joined(
                views(old(self).origins@),
                match *live {
                    Some(l) => seq![old(self).victims@[0].fqn@, l@],
                    None => seq![old(self).victims@[0].fqn@],
                },
            ),
    {
        let ghost first = self.victims@[0].fqn@;
        let v = self.victims.remove(0);
        assert(self.victims@ =~= old(self).victims@.skip(1));
        let mut gone: Vec<Vec<u8>> = Vec::new();
        gone.push(v.fqn);
        assert(views(gone@) =~= seq![first]);
        if let Some(l) = live {
            gone.push(copied(l));
            assert(views(gone@) =~= seq![first, l@]);
        }
        join_origins(&mut self.origins, &gone);
        self.tokens.push(v.token);
    }
}

/// An entry of a command table, as a snapshot has it. The generation tells two
/// commands apart that had the same name one after the other.
#[derive(Debug)]
pub struct TableEntry {
    pub tail: Vec<u8>,
    pub generation: u64,
}

/// Where the teardown of a command table stands.
#[derive(Debug, Clone, Copy, PartialEq, Eq, Structural)]
pub enum TablePhase {
    Snapshot,
    Checking,
    Firing,
    Rechecking,
    Removing,
    Ended,
}

/// What the teardown of a command table wants done.
#[derive(Debug)]
pub enum TableAction {
    /// List the entries of the table.
    TakeSnapshot,
    /// Say which generation the name has now, if it is in the table.
    ReadGeneration(Vec<u8>),
    /// Run the delete callbacks of the command.
    FireDelete(Vec<u8>),
    /// Take the entry out of the table, and remove the imports of its command.
    Remove(Vec<u8>),
    Nothing,
}

/// What a [`TableAction`] holds.
pub enum TableActionView {
    TakeSnapshot,
    ReadGeneration { tail: Seq<u8> },
    FireDelete { tail: Seq<u8> },
    Remove { tail: Seq<u8> },
    Nothing,
}

impl View for TableAction {
    type V = TableActionView;

    open spec fn view(&self) -> TableActionView {
        match *self {
            TableAction::TakeSnapshot => TableActionView::TakeSnapshot,
            TableAction::ReadGeneration(t) => TableActionView::ReadGeneration { tail: t@ },
            TableAction::FireDelete(t) => TableActionView::FireDelete { tail: t@ },
            TableAction::Remove(t) => TableActionView::Remove { tail: t@ },
            TableAction::Nothing => TableActionView::Nothing,
        }
    }
}

/// The answer to a [`TableAction`].
pub enum TableEvent {
    Entries(Vec<TableEntry>),
    Generation(Option<u64>),
    Done,
}

/// The deletion of a dying namespace's commands, snapshot by snapshot. A command
/// that a callback deletes or replaces is left to the next snapshot.
pub struct TableTeardown {
    /// What is left of the snapshot.
    pub queue: Vec<TableEntry>,
    /// Whether a command of this snapshot is gone.
    pub retired_any: bool,
    pub phase: TablePhase,
}

impl TableTeardown {
    /// Whether an entry is being handled only while there is one.
    pub open spec fn valid(self) -> bool {
        self.phase == TablePhase::Snapshot || self.phase == TablePhase::Ended || self.queue@.len()
            > 0
    }

    /// What is to be done.
    pub open spec fn due(self) -> TableActionView {
        match self.phase {
            TablePhase::Snapshot => TableActionView::TakeSnapshot,
            TablePhase::Checking | TablePhase::Rechecking => TableActionView::ReadGeneration {
                tail: self.queue@[0].tail@,
            },
            TablePhase::Firing => TableActionView::FireDelete { tail: self.queue@[0].tail@ },
            TablePhase::Removing => TableActionView::Remove { tail: self.queue@[0].tail@ },
            TablePhase::Ended => TableActionView::Nothing,
        }
    }

    /// The teardown `after` goes on from this one with the next entry; behind the
    /// last one, it takes another snapshot if a command is gone.
    pub open spec fn moved_on(self, after: TableTeardown, retired: bool) -> bool {
        &&& after.queue@ == self.queue@.skip(1)
        &&& after.retired_any == (self.retired_any || retired)
        &&& after.phase == if self.queue@.len() > 1 {
            TablePhase::Checking
        } else if after.retired_any {
            TablePhase::Snapshot
        } else {
            TablePhase::Ended
        }
    }

    /// The teardown `after` follows this one on the answer `e`. An answer to
    /// something else changes nothing.
    pub open spec fn answered(self, e: TableEvent, after: TableTeardown) -> bool {
        match (self.phase, e) {
            (TablePhase::Snapshot, TableEvent::Entries(entries)) => {
                &&& after.queue == entries
                &&& !after.retired_any
                &&& after.phase == if entries@.len() == 0 {
                    TablePhase::Ended
                } else {
                    TablePhase::Checking
                }
            },
            (TablePhase::Checking, TableEvent::Generation(g)) => if g == Some(
                self.queue@[0].generation,
            ) {
                after == (TableTeardown { phase: TablePhase::Firing, ..self })
            } else {
                self.moved_on(after, false)
            },
            (TablePhase::Firing, TableEvent::Done) => after == (TableTeardown {
                phase: TablePhase::Rechecking,
                ..self
            }),
            (TablePhase::Rechecking, TableEvent::Generation(g)) => if g == Some(
                self.queue@[0].generation,
            ) {
                after == (TableTeardown { phase: TablePhase::Removing, ..self })
            } else {
                self.moved_on(after, true)
            },
            (TablePhase::Removing, TableEvent::Done) => self.moved_on(after, true),
            _ => after == self,
        }
    }

    /// Begins the teardown.
    pub fn begin() -> (t: TableTeardown)
        ensures
            t.valid(),
            t.phase == TablePhase::Snapshot,
            t.queue@.len() == 0,
            !t.retired_any,
    {
        TableTeardown { queue: Vec::new(), retired_any: false, phase: TablePhase::Snapshot }
    }

    /// What is to be done.
    pub fn action(&self) -> (a: TableAction)
        requires
            self.valid(),
        ensures
            a@ == self.due(),
    {
        match self.phase {
            TablePhase::Snapshot => TableAction::TakeSnapshot,
            TablePhase::Checking | TablePhase::Rechecking => TableAction::ReadGeneration(
                copied(&self.queue[0].tail),
            ),
            TablePhase::Firing => TableAction::FireDelete(copied(&self.queue[0].tail)),
            TablePhase::Removing => TableAction::Remove(copied(&self.queue[0].tail)),
            TablePhase::Ended => TableAction::Nothing,
        }
    }

    fn move_on(&mut self, retired: bool)
        requires
            old(self).queue@.len() > 0,
        ensures
            final(self).valid(),
            old(self).moved_on(*final(self), retired),
    {
        let _ = self.queue.remove(0);
        assert(self.queue@ =~= old(self).queue@.skip(1));
        self.retired_any = self.retired_any || retired;
        self.phase = if self.queue.len() > 0 {
            TablePhase::Checking
        } else if self.retired_any {
            TablePhase::Snapshot
        } else {
            TablePhase::Ended
        };
    }

    /// Goes on with the answer to what was to be done.
    pub fn answer(&mut self, e: TableEvent)
        requires
            old(self).valid(),
        ensures
            final(self).valid(),
            old(self).answered(e, *final(self)),
    {
        match (self.phase, e) {
            (TablePhase::Snapshot, TableEvent::Entries(entries)) => {
                self.phase = if entries.len() == 0 {
                    TablePhase::Ended
                } else {
                    TablePhase::Checking
                };
                self.retired_any = false;
                self.queue = entries;
            },
            (TablePhase::Checking, TableEvent::Generation(g)) => {
                if g == Some(self.queue[0].generation) {
                    self.phase = TablePhase::Firing;
                } else {
                    self.move_on(false);
                }
            },
            (TablePhase::Firing, TableEvent::Done) => {
                self.phase = TablePhase::Rechecking;
            },
            (TablePhase::Rechecking, TableEvent::Generation(g)) => {
                if g == Some(self.queue[0].generation) {
                    self.phase = TablePhase::Removing;
                } else {
                    self.move_on(true);
                }
            },
            (TablePhase::Removing, TableEvent::Done) => {
                self.move_on(true);
            },
            _ => {},
        }
    }
}

/// A namespace below one that is torn down, and whether its own teardown waits.
#[derive(Debug, Clone, Copy, PartialEq, Eq, Structural)]
pub struct Descendant {
    pub ns: NsId,
    pub deferred: bool,
}

/// The namespaces that a teardown takes on: those whose own does not wait.
pub open spec fn retained(ds: Seq<Descendant>) -> Seq<NsId>
    decreases ds.len(),
{
    if ds.len() == 0 {
        Seq::empty()
    } else if ds.last().deferred {
        retained(ds.drop_last())
    } else {
        retained(ds.drop_last()).push(ds.last().ns)
    }
}

/// The namespaces that a teardown takes on: those whose own does not wait.
pub fn retained_teardown_ids(ds: &[Descendant]) -> (r: Vec<NsId>)
    ensures
        r@ == retained(ds@),
{
    let mut out: Vec<NsId> = Vec::new();
    let mut i: usize = 0;
    assert(out@ =~= retained(ds@.take(0)));
    while i < ds.len()
        invariant
            i <= ds@.len(),
            out@ == retained(ds@.take(i as int)),
        decreases ds@.len() - i,
    {
        assert(ds@.take(i + 1).drop_last() =~= ds@.take(i as int));
        if !ds[i].deferred {
            out.push(ds[i].ns);
        }
        i = i + 1;
    }
    assert(ds@.take(i as int) =~= ds@);
    out
}

/// The order in which a namespace is taken apart: its unset traces are set aside
/// before its variables go and fire after that, its commands go behind its
/// variables, and its children behind its commands. One that a frame still runs
/// in keeps all of it, and only loses its ensembles.
pub proof fn a_namespace_is_taken_apart_in_order(active: bool)
    ensures
        ({
            let all = namespace_steps(false);
            let at = |s: DeletionStep| all.index_of(s);
            &&& all.no_duplicates()
            &&& at(DeletionStep::TakeUnsetTraces) < at(DeletionStep::ClearVariables)
            &&& at(DeletionStep::ClearVariables) < at(DeletionStep::FireUnset)
            &&& at(DeletionStep::FireUnset) < at(DeletionStep::TearDownCommands)
            &&& at(DeletionStep::TearDownCommands) < at(DeletionStep::DeleteChildren)
            &&& at(DeletionStep::RetireEnsembles) < at(DeletionStep::TearDownCommands)
            &&& at(DeletionStep::DeleteChildren) < at(DeletionStep::Sweep)
            &&& at(DeletionStep::Sweep) < at(DeletionStep::Finish)
            &&& all.last() == DeletionStep::Finish
            &&& token_steps(false) == all.take(all.len() - 2)
        }),
        namespace_steps(true) == seq![DeletionStep::RetireEnsembles, DeletionStep::Defer],
        token_steps(true) == namespace_steps(true),
{
    let all = namespace_steps(false);
    assert(all[0] == DeletionStep::TakeUnsetTraces);
    assert(all[1] == DeletionStep::RetireEnsembles);
    assert(all[2] == DeletionStep::BeginTeardown);
    assert(all[3] == DeletionStep::ClearVariables);
    assert(all[4] == DeletionStep::FireUnset);
    assert(all[5] == DeletionStep::TearDownCommands);
    assert(all[6] == DeletionStep::DeleteChildren);
    assert(all[7] == DeletionStep::Sweep);
    assert(all[8] == DeletionStep::Finish);
    assert(all.len() == 9);
    assert(token_steps(false) =~= all.take(7));
}

/// No ensemble that is to be retired is passed over.
pub proof fn no_ensemble_is_passed_over(victims: Seq<(Seq<u8>, u64)>, tokens: Seq<u64>, i: int)
    requires
        0 <= i < victims.len(),
        !tokens.contains(victims[i].1),
    ensures
        tokens_of(unretired(victims, tokens)).contains(victims[i].1),
    decreases victims.len(),
{
    let r = unretired(victims.drop_last(), tokens);
    let out = unretired(victims, tokens);
    if i < victims.len() - 1 {
        assert(victims.drop_last()[i] == victims[i]);
        no_ensemble_is_passed_over(victims.drop_last(), tokens, i);
        let k = choose|k: int| 0 <= k < tokens_of(r).len() && tokens_of(r)[k] == victims[i].1;
        assert(tokens_of(out)[k] == victims[i].1);
    } else if !tokens_of(r).contains(victims[i].1) {
        assert(tokens_of(out)[r.len() as int] == victims[i].1);
    }
}

/// An ensemble is retired under a name it was found by.
pub proof fn an_ensemble_is_retired_where_it_was_found(
    victims: Seq<(Seq<u8>, u64)>,
    tokens: Seq<u64>,
    v: (Seq<u8>, u64),
)
    requires
        unretired(victims, tokens).contains(v),
    ensures
        victims.contains(v),
    decreases victims.len(),
{
    if victims.len() > 0 {
        let r = unretired(victims.drop_last(), tokens);
        let out = unretired(victims, tokens);
        let k = choose|k: int| 0 <= k < out.len() && out[k] == v;
        if k < r.len() {
            assert(r[k] == v);
            an_ensemble_is_retired_where_it_was_found(victims.drop_last(), tokens, v);
            let j = choose|j: int|
                0 <= j < victims.drop_last().len() && victims.drop_last()[j] == v;
            assert(victims[j] == v);
        } else {
            assert(victims[victims.len() - 1] == v);
        }
    }
}

/// A command goes only if it is the one that was listed, both when its turn
/// comes and again when its delete traces have fired. Its traces fire before it
/// goes.
pub proof fn only_the_listed_command_goes(
    t: TableTeardown,
    after: TableTeardown,
    g: Option<u64>,
)
    requires
        t.valid(),
        t.answered(TableEvent::Generation(g), after),
    ensures
        t.phase == TablePhase::Checking ==> (after.phase == TablePhase::Firing <==> g == Some(
            t.queue@[0].generation,
        )),
        t.phase == TablePhase::Rechecking ==> (after.phase == TablePhase::Removing <==> g == Some(
            t.queue@[0].generation,
        )),
        after.phase == TablePhase::Firing || after.phase == TablePhase::Removing ==> after.queue
            == t.queue,
        t.phase == TablePhase::Firing ==> after == t,
{
}

/// A teardown ends only behind a round in which no command went; behind any
/// other it lists the commands again.
pub proof fn a_teardown_ends_when_nothing_goes(
    t: TableTeardown,
    after: TableTeardown,
    e: TableEvent,
)
    requires
        t.valid(),
        t.answered(e, after),
    ensures
        t.phase == TablePhase::Removing && e is Done ==> after.phase != TablePhase::Ended
            && after.retired_any,
        t.phase != TablePhase::Ended && after.phase == TablePhase::Ended ==> !after.retired_any,
        t.phase == TablePhase::Snapshot && e is Entries ==> (after.phase == TablePhase::Ended
            <==> e->Entries_0@.len() == 0) && after.queue == e->Entries_0,
{
}

/// The namespaces that a teardown takes on are those that do not wait, in their
/// order.
pub proof fn what_waits_is_not_taken_on(ds: Seq<Descendant>, d: Descendant)
    ensures
        retained(ds.push(d)) == if d.deferred {
            retained(ds)
        } else {
            retained(ds) + seq![d.ns]
        },
        retained(Seq::empty()).len() == 0,
{
    assert(ds.push(d).drop_last() =~= ds);
    assert(retained(ds).push(d.ns) =~= retained(ds) + seq![d.ns]);
}

/// The entries of a table are handled one by one, in the order they were listed
/// in, and none is passed over.
pub proof fn entries_are_handled_in_order(t: TableTeardown, after: TableTeardown, e: TableEvent)
    requires
        t.valid(),
        t.answered(e, after),
        t.phase != TablePhase::Snapshot,
        t.phase != TablePhase::Ended,
    ensures
        after.queue@ == t.queue@ || after.queue@ == t.queue@.skip(1),
        after.queue@ == t.queue@.skip(1) && t.queue@.len() > 1 ==> after.phase
            == TablePhase::Checking,
        t.phase == TablePhase::Removing && e is Done ==> after.queue@ == t.queue@.skip(1),
        t.phase == TablePhase::Firing ==> after.queue == t.queue,
        t.retired_any ==> after.retired_any,
        t.phase == TablePhase::Checking && !t.retired_any ==> !after.retired_any,
        t.phase == TablePhase::Rechecking && after.queue@.len() < t.queue@.len() ==>
            after.retired_any,
        t.due() matches TableActionView::Remove { tail } ==> tail == t.queue@[0].tail@,
        t.due() matches TableActionView::FireDelete { tail } ==> tail == t.queue@[0].tail@,
{
}

} // verus!
