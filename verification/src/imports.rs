//! Imported commands that are hidden, and the removal of imports whose source
//! is deleted.

use vstd::prelude::*;

use crate::bytes::{append, copied, holds_word, lit, opt_view, same, text, views};
use crate::cmd_traces::outliving;
use crate::commands::{
    hidden_fqn, hidden_valid, hidden_views, only_hidden_changed, Command, HiddenCommand, ImportToken,
};
use crate::order::precedes;
use crate::rename::{loses_traces, loss_note};
use crate::state::{Interp, InterpState, NsId};
use crate::teardown::kept_contains;
use crate::traces::{kept, CmdTrace, TraceTable};

verus! {

/// Which hidden command is meant.
#[derive(Debug, Clone, Copy, PartialEq, Eq, Structural)]
pub enum HiddenKey {
    Import(ImportToken),
    Ensemble(u64),
}

/// Whether a command is the one that is meant.
pub open spec fn is_meant(c: Command, key: HiddenKey) -> bool {
    match (c, key) {
        (Command::Imported { import, .. }, HiddenKey::Import(t)) => import == t,
        (Command::Ensemble { token, .. }, HiddenKey::Ensemble(t)) => token == t,
        _ => false,
    }
}

/// The first hidden command that is meant.
pub open spec fn hidden_at(hs: Seq<HiddenCommand>, key: HiddenKey) -> Option<int>
    decreases hs.len(),
{
    if hs.len() == 0 {
        None
    } else if is_meant(hs[0].command, key) {
        Some(0)
    } else {
        match hidden_at(hs.skip(1), key) {
            Some(i) => Some(i + 1),
            None => None,
        }
    }
}

fn means(c: &Command, key: HiddenKey) -> (r: bool)
    ensures
        r == is_meant(*c, key),
{
    match (c, key) {
        (Command::Imported { import, .. }, HiddenKey::Import(t)) => *import == t,
        (Command::Ensemble { token, .. }, HiddenKey::Ensemble(t)) => *token == t,
        _ => false,
    }
}

fn fqn_of_hidden(name: &[u8]) -> (r: Vec<u8>)
    ensures
        r@ == hidden_fqn(name@),
{
    let mut fqn = lit("::");
    append(&mut fqn, name);
    fqn
}

impl Interp {
    /// Takes one hidden import or ensemble away, by its identity. Returns the
    /// qualified name it was traced under.
    pub fn remove_hidden(&mut self, key: HiddenKey) -> (r: Option<Vec<u8>>)
        requires
            hidden_valid(old(self).state),
        ensures
            hidden_valid(final(self).state),
            only_hidden_changed(*old(self), *final(self)),
            match hidden_at(old(self).state.hidden@, key) {
                Some(i) => {
                    &&& opt_view(r) == Some(hidden_fqn(old(self).state.hidden@[i].name@))
                    &&& final(self).state.hidden@ == old(self).state.hidden@.remove(i)
                },
                None => r is None && *final(self) == *old(self),
            },
    {
        let ghost hs = self.state.hidden@;
        let mut i: usize = 0;
        assert(hs.skip(0) =~= hs);
        while i < self.state.hidden.len()
            invariant
                i <= hs.len(),
                hs == self.state.hidden@,
                *self == *old(self),
                hidden_valid(self.state),
                hidden_at(hs, key) == match hidden_at(hs.skip(i as int), key) {
                    Some(k) => Some(k + i),
                    None => None,
                },
            decreases hs.len() - i,
        {
            assert(hs.skip(i as int)[0] == hs[i as int]);
            assert(hs.skip(i as int).skip(1) =~= hs.skip(i + 1));
            if means(&self.state.hidden[i].command, key) {
                assert(hidden_at(hs, key) == Some(i as int));
                let h = self.state.hidden.remove(i);
                proof {
                    let names = hidden_views(hs);
                    let after = self.state.hidden@;
                    assert(after =~= hs.remove(i as int));
                    let out = hidden_views(after);
                    assert forall|a: int, b: int| 0 <= a < b < out.len() implies precedes(
                        #[trigger] out[a],
                        #[trigger] out[b],
                    ) by {
                        let x = if a < i {
                            a
                        } else {
                            a + 1
                        };
                        let y = if b < i {
                            b
                        } else {
                            b + 1
                        };
                        assert(out[a] == names[x] && out[b] == names[y]);
                    }
                }
                return Some(fqn_of_hidden(&h.name));
            }
            i = i + 1;
        }
        None
    }
}

/// Whether a command imports one of `origins` or keeps one of `tokens`.
pub open spec fn imports_from(c: Command, origins: Seq<Seq<u8>>, tokens: Seq<u64>) -> bool {
    match c {
        Command::Imported { source, ensemble, .. } => origins.contains(source@) || (
        ensemble matches Some(t) && tokens.contains(t)),
        _ => false,
    }
}

/// An import whose source is gone: the qualified name it is traced under, and
/// its identity.
#[derive(Debug)]
pub struct ImportVictim {
    pub fqn: Vec<u8>,
    pub identity: ImportToken,
}

/// The victims as plain values.
pub open spec fn victim_views(vs: Seq<ImportVictim>) -> Seq<(Seq<u8>, ImportToken)> {
    Seq::new(vs.len(), |i: int| (vs[i].fqn@, vs[i].identity))
}

/// The identity of an imported command.
pub open spec fn import_identity(c: Command) -> ImportToken {
    match c {
        Command::Imported { import, .. } => import,
        _ => ImportToken { id: 0 },
    }
}

/// The hidden imports from `origins` and of `tokens`, in order.
pub open spec fn hidden_victims(
    hs: Seq<HiddenCommand>,
    origins: Seq<Seq<u8>>,
    tokens: Seq<u64>,
) -> Seq<(Seq<u8>, ImportToken)>
    decreases hs.len(),
{
    if hs.len() == 0 {
        Seq::empty()
    } else {
        let before = hidden_victims(hs.drop_last(), origins, tokens);
        let h = hs.last();
        if imports_from(h.command, origins, tokens) {
            before.push((hidden_fqn(h.name@), import_identity(h.command)))
        } else {
            before
        }
    }
}

/// Whether `t` is one of `tokens`.
pub fn holds_token(tokens: &[u64], t: u64) -> (r: bool)
    ensures
        r == tokens@.contains(t),
{
    let mut i: usize = 0;
    while i < tokens.len()
        invariant
            i <= tokens@.len(),
            forall|j: int| 0 <= j < i ==> tokens@[j] != t,
        decreases tokens@.len() - i,
    {
        if tokens[i] == t {
            return true;
        }
        i = i + 1;
    }
    false
}

/// Whether a hidden ensemble is configured for one of the namespaces `ids`, and
/// not among `seen`.
pub open spec fn owned_ensemble(c: Command, ids: Seq<NsId>, seen: Seq<u64>) -> bool {
    c matches Command::Ensemble { token, ns } && ids.contains(ns) && !seen.contains(token)
}

/// The number of an ensemble.
pub open spec fn ensemble_token(c: Command) -> u64 {
    match c {
        Command::Ensemble { token, .. } => token,
        _ => 0,
    }
}

/// The hidden ensembles of the namespaces `ids` that are not among `seen`, in
/// order.
pub open spec fn hidden_ensembles(hs: Seq<HiddenCommand>, ids: Seq<NsId>, seen: Seq<u64>) -> Seq<
    (Seq<u8>, u64),
>
    decreases hs.len(),
{
    if hs.len() == 0 {
        Seq::empty()
    } else {
        let before = hidden_ensembles(hs.drop_last(), ids, seen);
        let h = hs.last();
        if owned_ensemble(h.command, ids, seen) {
            before.push((hidden_fqn(h.name@), ensemble_token(h.command)))
        } else {
            before
        }
    }
}

/// An ensemble that is to be retired, by its qualified name and its number.
#[derive(Debug)]
pub struct EnsembleVictim {
    pub fqn: Vec<u8>,
    pub token: u64,
}

/// The victims as plain values.
pub open spec fn ensemble_victim_views(vs: Seq<EnsembleVictim>) -> Seq<(Seq<u8>, u64)> {
    Seq::new(vs.len(), |i: int| (vs[i].fqn@, vs[i].token))
}

/// Whether `ns` is one of `ids`.
pub fn holds_ns(ids: &[NsId], ns: NsId) -> (r: bool)
    ensures
        r == ids@.contains(ns),
{
    let mut i: usize = 0;
    while i < ids.len()
        invariant
            i <= ids@.len(),
            forall|j: int| 0 <= j < i ==> ids@[j] != ns,
        decreases ids@.len() - i,
    {
        if ids[i] == ns {
            return true;
        }
        i = i + 1;
    }
    false
}

impl Interp {
    /// The hidden imports whose source is among `origins`, or whose ensemble is
    /// among `tokens`.
    pub fn hidden_imports_of(&self, origins: &[Vec<u8>], tokens: &[u64]) -> (r: Vec<ImportVictim>)
        ensures
            victim_views(r@) == hidden_victims(self.state.hidden@, views(origins@), tokens@),
    {
        let hs = &self.state.hidden;
        let ghost os = views(origins@);
        let mut out: Vec<ImportVictim> = Vec::new();
        let mut i: usize = 0;
        assert(victim_views(out@) =~= hidden_victims(hs@.take(0), os, tokens@));
        while i < hs.len()
            invariant
                i <= hs@.len(),
                hs@ == self.state.hidden@,
                os == views(origins@),
                victim_views(out@) == hidden_victims(hs@.take(i as int), os, tokens@),
            decreases hs@.len() - i,
        {
            let h = &hs[i];
            assert(hs@.take(i + 1).last() == *h);
            assert(hs@.take(i + 1).drop_last() =~= hs@.take(i as int));
            let ghost before = victim_views(out@);
            if let Command::Imported { source, ensemble, import } = &h.command {
                let retains = match ensemble {
                    Some(t) => holds_token(tokens, *t),
                    None => false,
                };
                if holds_word(origins, source) || retains {
                    out.push(ImportVictim { fqn: fqn_of_hidden(&h.name), identity: *import });
                    assert(victim_views(out@) =~= before.push(
                        (hidden_fqn(h.name@), *import),
                    ));
                }
            }
            i = i + 1;
        }
        assert(hs@.take(i as int) =~= hs@);
        out
    }

    /// The hidden ensembles that are configured for one of the namespaces
    /// `ids`, those among `seen` apart.
    pub fn hidden_ensembles_of(&self, ids: &[NsId], seen: &[u64]) -> (r: Vec<EnsembleVictim>)
        ensures
            ensemble_victim_views(r@) == hidden_ensembles(self.state.hidden@, ids@, seen@),
    {
        let hs = &self.state.hidden;
        let mut out: Vec<EnsembleVictim> = Vec::new();
        let mut i: usize = 0;
        assert(ensemble_victim_views(out@) =~= hidden_ensembles(hs@.take(0), ids@, seen@));
        while i < hs.len()
            invariant
                i <= hs@.len(),
                hs@ == self.state.hidden@,
                ensemble_victim_views(out@) == hidden_ensembles(
                    hs@.take(i as int),
                    ids@,
                    seen@,
                ),
            decreases hs@.len() - i,
        {
            let h = &hs[i];
            assert(hs@.take(i + 1).last() == *h);
            assert(hs@.take(i + 1).drop_last() =~= hs@.take(i as int));
            let ghost before = ensemble_victim_views(out@);
            if let Command::Ensemble { token, ns } = &h.command {
                if holds_ns(ids, *ns) && !holds_token(seen, *token) {
                    out.push(EnsembleVictim { fqn: fqn_of_hidden(&h.name), token: *token });
                    assert(ensemble_victim_views(out@) =~= before.push(
                        (hidden_fqn(h.name@), *token),
                    ));
                }
            }
            i = i + 1;
        }
        assert(hs@.take(i as int) =~= hs@);
        out
    }

    /// Points the hidden imports of a command, or of the ensemble `gone`, at the
    /// ensemble `fresh` that replaces it.
    pub fn retarget_imports_to_ensemble(&mut self, source_fqn: &[u8], gone: Option<u64>, fresh: u64)
        ensures
            only_hidden_changed(*old(self), *final(self)),
            final(self).state.hidden@.len() == old(self).state.hidden@.len(),
            forall|i: int|
                0 <= i < old(self).state.hidden@.len() ==> {
                    &&& (#[trigger] final(self).state.hidden@[i]).name
                        == old(self).state.hidden@[i].name
                    &&& reattached(
                        old(self).state.hidden@[i].command,
                        final(self).state.hidden@[i].command,
                        source_fqn@,
                        gone,
                        fresh,
                    )
                },
    {
        let ghost hs = self.state.hidden@;
        let mut i: usize = 0;
        while i < self.state.hidden.len()
            invariant
                i <= hs.len(),
                self.state.hidden@.len() == hs.len(),
                hs == old(self).state.hidden@,
                forall|j: int|
                    0 <= j < i ==> (#[trigger] self.state.hidden@[j]).name == hs[j].name
                        && reattached(
                        hs[j].command,
                        self.state.hidden@[j].command,
                        source_fqn@,
                        gone,
                        fresh,
                    ),
                forall|j: int| i <= j < hs.len() ==> #[trigger] self.state.hidden@[j] == hs[j],
                only_hidden_changed(*old(self), *self),
            decreases hs.len() - i,
        {
            assert(self.state.hidden@[i as int] == hs[i as int]);
            let hit: bool = match &self.state.hidden[i].command {
                Command::Imported { source, ensemble, .. } => same(source, source_fqn) || (
                gone.is_some() && *ensemble == gone),
                _ => false,
            };
            if hit {
                let h: &mut HiddenCommand = &mut self.state.hidden[i];
                if let Command::Imported { source, ensemble, .. } = &mut h.command {
                    *source = copied(source_fqn);
                    *ensemble = Some(fresh);
                }
            }
            i = i + 1;
        }
    }
}

/// A command after the imports of `source_fqn`, or of the ensemble `gone`, were
/// pointed at the ensemble `fresh`.
pub open spec fn reattached(
    before: Command,
    after: Command,
    source_fqn: Seq<u8>,
    gone: Option<u64>,
    fresh: u64,
) -> bool {
    match before {
        Command::Imported { source, ensemble, import } => if source@ == source_fqn || (gone is Some
            && ensemble == gone) {
            after matches Command::Imported { source: s, ensemble: e, import: i } && s@
                == source_fqn && e == Some(fresh) && i == import
        } else {
            after == before
        },
        _ => after == before,
    }
}

/// Where the command of an identity stands: under a visible name, else under a
/// hidden one.
pub open spec fn standing_at(
    hs: Seq<HiddenCommand>,
    visible: Option<Seq<u8>>,
    key: HiddenKey,
) -> Option<Seq<u8>> {
    match visible {
        Some(f) => Some(f),
        None => match hidden_at(hs, key) {
            Some(i) => Some(hidden_fqn(hs[i].name@)),
            None => None,
        },
    }
}

/// A command is taken away by its identity, wherever it stands. Where it moved
/// away from `trace_fqn`, under which its delete traces fired, its traces at the
/// place where it stood last are dropped without firing. `visible` is the name
/// under which it was taken out of the command table.
pub open spec fn identity_taken(
    before: Interp,
    after: Interp,
    trace_fqn: Seq<u8>,
    visible: Option<Seq<u8>>,
    key: HiddenKey,
) -> bool {
    let hs = before.state.hidden@;
    let ts = before.state.traces.cmd_traces@;
    let stood = standing_at(hs, visible, key);
    let moved = stood is Some && stood->0 != trace_fqn;
    &&& after.state.hidden@ == if visible is None && hidden_at(hs, key) is Some {
        hs.remove(hidden_at(hs, key)->0)
    } else {
        hs
    }
    &&& after.state.traces.cmd_traces@ == if moved {
        kept(ts, outliving(stood->0, None))
    } else {
        ts
    }
    &&& after.state.invalidations@ == before.state.invalidations@ + loss_note(
        moved && loses_traces(ts, stood->0, None),
    )
    &&& after == (Interp {
        state: InterpState {
            hidden: after.state.hidden,
            traces: TraceTable {
                cmd_traces: after.state.traces.cmd_traces,
                ..before.state.traces
            },
            invalidations: after.state.invalidations,
            ..before.state
        },
        ..before
    })
}

impl Interp {
    fn take_identity(&mut self, trace_fqn: &[u8], visible: Option<Vec<u8>>, key: HiddenKey) -> (r:
        Option<Vec<u8>>)
        requires
            hidden_valid(old(self).state),
        ensures
            hidden_valid(final(self).state),
            opt_view(r) == standing_at(old(self).state.hidden@, opt_view(visible), key),
            identity_taken(*old(self), *final(self), trace_fqn@, opt_view(visible), key),
    {
        let stood = match visible {
            Some(f) => Some(f),
            None => self.remove_hidden(key),
        };
        if let Some(f) = &stood {
            if !same(f, trace_fqn) {
                self.remove_cmd_traces_of_token(f, None);
            }
        }
        assert(self.state.invalidations@ =~= old(self).state.invalidations@ + loss_note(
            ({
                let ts = old(self).state.traces.cmd_traces@;
                let at = standing_at(old(self).state.hidden@, opt_view(visible), key);
                at is Some && at->0 != trace_fqn@ && loses_traces(ts, at->0, None)
            }),
        ));
        stood
    }

    /// Retires an ensemble, after the delete traces under `trace_fqn` have fired.
    /// `visible` is the name under which it was taken out of the command table;
    /// where it was not there, it is taken from the hidden commands. Returns where
    /// it stood.
    pub fn retire_ensemble_identity(
        &mut self,
        trace_fqn: &[u8],
        visible: Option<Vec<u8>>,
        token: u64,
    ) -> (r: Option<Vec<u8>>)
        requires
            hidden_valid(old(self).state),
        ensures
            hidden_valid(final(self).state),
            opt_view(r) == standing_at(
                old(self).state.hidden@,
                opt_view(visible),
                HiddenKey::Ensemble(token),
            ),
            identity_taken(
                *old(self),
                *final(self),
                trace_fqn@,
                opt_view(visible),
                HiddenKey::Ensemble(token),
            ),
    {
        self.take_identity(trace_fqn, visible, HiddenKey::Ensemble(token))
    }
}

/// A command that moved leaves no trace behind where it stood last, and the
/// traces of every other name stay.
pub proof fn a_taken_command_leaves_no_traces(
    before: Interp,
    after: Interp,
    trace_fqn: Seq<u8>,
    visible: Option<Seq<u8>>,
    key: HiddenKey,
    t: CmdTrace,
)
    requires
        identity_taken(before, after, trace_fqn, visible, key),
    ensures
        ({
            let stood = standing_at(before.state.hidden@, visible, key);
            let dropped = stood is Some && stood->0 != trace_fqn && t.name@ == stood->0;
            after.state.traces.cmd_traces@.contains(t) == (
            before.state.traces.cmd_traces@.contains(t) && !dropped)
        }),
{
    let stood = standing_at(before.state.hidden@, visible, key);
    if stood is Some && stood->0 != trace_fqn {
        kept_contains(before.state.traces.cmd_traces@, outliving(stood->0, None), t);
    }
}

/// How far the removal of imports has come.
#[derive(Debug, Clone, Copy, PartialEq, Eq, Structural)]
pub enum ImportPhase {
    /// See which visible commands import what is gone.
    Look,
    /// Fire the delete traces of the next import.
    Fire,
    /// Take the next import away, by its identity.
    Take,
    /// No import is left.
    Over,
}

/// What the removal of imports needs next.
#[derive(Debug)]
pub enum ImportAction {
    /// See which visible commands import one of the origins, or keep one of the
    /// ensembles that are gone.
    Look,
    /// Fire the delete traces of this name, where it has any.
    Fire(Vec<u8>),
    /// Take the import of this identity out of the command table, if it is there.
    Take(ImportToken),
    Over,
}

/// The imports that have lost their source are taken away round by round, until
/// a round takes none: what imported them loses its source in turn.
#[derive(Debug)]
pub struct ImportSweep {
    /// The names that are gone.
    pub origins: Vec<Vec<u8>>,
    /// The ensembles that are gone.
    pub tokens: Vec<u64>,
    /// Whether this round took an import away.
    pub removed_any: bool,
    /// The imports of this round: the visible ones, then the hidden ones.
    pub victims: Vec<ImportVictim>,
    /// How many of them are dealt with.
    pub next: usize,
    pub phase: ImportPhase,
}

/// `origins` with `f`, which is there once.
pub open spec fn with_origin(origins: Seq<Seq<u8>>, f: Seq<u8>) -> Seq<Seq<u8>> {
    if origins.contains(f) {
        origins
    } else {
        origins.push(f)
    }
}

impl ImportSweep {
    /// A removal that is just begun.
    pub open spec fn begun(self, origins: Seq<Seq<u8>>, tokens: Seq<u64>) -> bool {
        &&& views(self.origins@) == origins
        &&& self.tokens@ == tokens
        &&& !self.removed_any
        &&& self.victims@.len() == 0
        &&& self.next == 0
        &&& self.phase == ImportPhase::Look
    }

    /// An import is due wherever one is to be fired for or taken.
    pub open spec fn valid(self) -> bool {
        (self.phase == ImportPhase::Fire || self.phase == ImportPhase::Take) ==> self.next
            < self.victims@.len()
    }

    /// The phase after the import at `next` is dealt with.
    pub open spec fn phase_after_import(self, removed_any: bool) -> ImportPhase {
        if self.next + 1 < self.victims@.len() {
            ImportPhase::Fire
        } else if removed_any {
            ImportPhase::Look
        } else {
            ImportPhase::Over
        }
    }

    /// Whether `a` is what is to be done.
    pub open spec fn asks(self, a: ImportAction) -> bool {
        match self.phase {
            ImportPhase::Look => a is Look,
            ImportPhase::Fire => a matches ImportAction::Fire(f) && f@
                == self.victims@[self.next as int].fqn@,
            ImportPhase::Take => a == ImportAction::Take(self.victims@[self.next as int].identity),
            ImportPhase::Over => a is Over,
        }
    }

    /// Begins to take away the imports of commands that are gone.
    pub fn begin(origins: Vec<Vec<u8>>, tokens: Vec<u64>) -> (s: ImportSweep)
        ensures
            s.begun(views(origins@), tokens@),
            s.valid(),
    {
        ImportSweep {
            origins,
            tokens,
            removed_any: false,
            victims: Vec::new(),
            next: 0,
            phase: ImportPhase::Look,
        }
    }

    /// What is to be done.
    pub fn action(&self) -> (a: ImportAction)
        requires
            self.valid(),
        ensures
            self.asks(a),
    {
        match self.phase {
            ImportPhase::Look => ImportAction::Look,
            ImportPhase::Fire => ImportAction::Fire(copied(&self.victims[self.next].fqn)),
            ImportPhase::Take => ImportAction::Take(self.victims[self.next].identity),
            ImportPhase::Over => ImportAction::Over,
        }
    }

    /// Begins a round: `visible` are the visible imports of what is gone. The
    /// hidden ones come after them.
    pub fn looked(&mut self, i: &Interp, visible: Vec<ImportVictim>)
        requires
            old(self).phase == ImportPhase::Look,
        ensures
            final(self).valid(),
            victim_views(final(self).victims@) == victim_views(visible@) + hidden_victims(
                i.state.hidden@,
                views(old(self).origins@),
                old(self).tokens@,
            ),
            *final(self) == (ImportSweep {
                removed_any: false,
                victims: final(self).victims,
                next: 0,
                phase: if final(self).victims@.len() > 0 {
                    ImportPhase::Fire
                } else {
                    ImportPhase::Over
                },
                ..*old(self)
            }),
    {
        let mut hidden = i.hidden_imports_of(&self.origins, &self.tokens);
        let ghost back = hidden@;
        let mut victims = visible;
        let ghost front = victims@;
        victims.append(&mut hidden);
        assert(victims@ =~= front + back);
        assert(victim_views(victims@) =~= victim_views(front) + victim_views(back));
        self.phase = if victims.len() > 0 {
            ImportPhase::Fire
        } else {
            ImportPhase::Over
        };
        self.victims = victims;
        self.next = 0;
        self.removed_any = false;
    }

    /// The delete traces of the import have fired.
    pub fn fired(&mut self)
        requires
            old(self).valid(),
            old(self).phase == ImportPhase::Fire,
        ensures
            final(self).valid(),
            *final(self) == (ImportSweep { phase: ImportPhase::Take, ..*old(self) }),
    {
        self.phase = ImportPhase::Take;
    }
}

/// An import is taken away: where it stood becomes an origin in its turn.
pub open spec fn import_taken(
    before: Interp,
    after: Interp,
    sweep: ImportSweep,
    then: ImportSweep,
    visible: Option<Seq<u8>>,
) -> bool {
    let v = sweep.victims@[sweep.next as int];
    let key = HiddenKey::Import(v.identity);
    let stood = standing_at(before.state.hidden@, visible, key);
    let removed_any = sweep.removed_any || stood is Some;
    &&& identity_taken(before, after, v.fqn@, visible, key)
    &&& views(then.origins@) == match stood {
        Some(f) => with_origin(views(sweep.origins@), f),
        None => views(sweep.origins@),
    }
    &&& then == (ImportSweep {
        origins: then.origins,
        removed_any,
        next: (sweep.next + 1) as usize,
        phase: sweep.phase_after_import(removed_any),
        ..sweep
    })
}

impl Interp {
    /// Takes the next import away. `visible` is the name under which it was taken
    /// out of the command table; where it was not there, it is taken from the
    /// hidden commands.
    pub fn take_import(&mut self, sweep: &mut ImportSweep, visible: Option<Vec<u8>>)
        requires
            hidden_valid(old(self).state),
            old(sweep).valid(),
            old(sweep).phase == ImportPhase::Take,
        ensures
            hidden_valid(final(self).state),
            final(sweep).valid(),
            import_taken(*old(self), *final(self), *old(sweep), *final(sweep), opt_view(visible)),
    {
        let at = sweep.next;
        let total = sweep.victims.len();
        let key = HiddenKey::Import(sweep.victims[at].identity);
        let fqn = copied(&sweep.victims[at].fqn);
        let stood = self.take_identity(&fqn, visible, key);
        if let Some(f) = &stood {
            sweep.removed_any = true;
            if !holds_word(&sweep.origins, f) {
                let ghost before = views(sweep.origins@);
                sweep.origins.push(copied(f));
                assert(views(sweep.origins@) =~= before.push(f@));
            }
        }
        sweep.next = at + 1;
        sweep.phase = if at + 1 < total {
            ImportPhase::Fire
        } else if sweep.removed_any {
            ImportPhase::Look
        } else {
            ImportPhase::Over
        };
    }
}

/// The removal of imports ends only with a round that took none away, and it
/// forgets no name that is gone.
pub proof fn imports_are_removed_to_the_last(
    before: Interp,
    after: Interp,
    sweep: ImportSweep,
    then: ImportSweep,
    visible: Option<Seq<u8>>,
)
    requires
        sweep.valid(),
        sweep.phase == ImportPhase::Take,
        import_taken(before, after, sweep, then, visible),
    ensures
        then.phase == ImportPhase::Over ==> !then.removed_any,
        then.removed_any == (sweep.removed_any || standing_at(
            before.state.hidden@,
            visible,
            HiddenKey::Import(sweep.victims@[sweep.next as int].identity),
        ) is Some),
        forall|f: Seq<u8>|
            views(sweep.origins@).contains(f) ==> #[trigger] views(then.origins@).contains(f),
{
    let was = views(sweep.origins@);
    let now = views(then.origins@);
    assert forall|f: Seq<u8>| was.contains(f) implies #[trigger] now.contains(f) by {
        let k = choose|k: int| 0 <= k < was.len() && was[k] == f;
        assert(now[k] == f);
    }
}

/// A hidden command is found by what it is: the first import of the identity, or
/// the first ensemble of the token, that is meant.
pub proof fn a_hidden_command_is_found_by_its_identity(hs: Seq<HiddenCommand>, key: HiddenKey)
    ensures
        match hidden_at(hs, key) {
            Some(i) => {
                &&& 0 <= i < hs.len()
                &&& match key {
                    HiddenKey::Import(t) => hs[i].command is Imported && hs[i].command->import
                        == t,
                    HiddenKey::Ensemble(t) => hs[i].command is Ensemble && hs[i].command->token
                        == t,
                }
            },
            None => forall|i: int|
                0 <= i < hs.len() ==> match key {
                    HiddenKey::Import(t) => !((#[trigger] hs[i]).command is Imported
                        && hs[i].command->import == t),
                    HiddenKey::Ensemble(t) => !(hs[i].command is Ensemble && hs[i].command->token
                        == t),
                },
        },
    decreases hs.len(),
{
    if hs.len() > 0 && !is_meant(hs[0].command, key) {
        let rest = hs.skip(1);
        a_hidden_command_is_found_by_its_identity(rest, key);
        match hidden_at(rest, key) {
            Some(i) => {
                assert(rest[i] == hs[i + 1]);
            },
            None => {
                assert forall|i: int| 0 <= i < hs.len() implies match key {
                    HiddenKey::Import(t) => !((#[trigger] hs[i]).command is Imported
                        && hs[i].command->import == t),
                    HiddenKey::Ensemble(t) => !(hs[i].command is Ensemble && hs[i].command->token
                        == t),
                } by {
                    if i > 0 {
                        assert(rest[i - 1] == hs[i]);
                    }
                }
            },
        }
    }
}

/// The hidden imports that go are those whose source is among the origins or
/// whose ensemble is among the tokens, in the order they are held in.
pub proof fn an_import_goes_with_its_origin(
    hs: Seq<HiddenCommand>,
    h: HiddenCommand,
    origins: Seq<Seq<u8>>,
    tokens: Seq<u64>,
)
    ensures
        ({
            let goes = h.command is Imported && (origins.contains(h.command->source@) || (
            h.command->ensemble is Some && tokens.contains(h.command->ensemble->0)));
            hidden_victims(hs.push(h), origins, tokens) == if goes {
                hidden_victims(hs, origins, tokens) + seq![
                    (text("::") + h.name@, h.command->import),
                ]
            } else {
                hidden_victims(hs, origins, tokens)
            }
        }),
        hidden_victims(Seq::empty(), origins, tokens).len() == 0,
{
    assert(hs.push(h).drop_last() =~= hs);
    let was = hidden_victims(hs, origins, tokens);
    if h.command is Imported {
        let v = (text("::") + h.name@, h.command->import);
        assert(was.push(v) =~= was + seq![v]);
    }
}

/// The hidden ensembles that a namespace takes along are those configured for
/// it that are not dealt with yet, in the order they are held in.
pub proof fn a_hidden_ensemble_goes_with_its_namespace(
    hs: Seq<HiddenCommand>,
    h: HiddenCommand,
    ids: Seq<NsId>,
    seen: Seq<u64>,
)
    ensures
        ({
            let goes = h.command is Ensemble && ids.contains(h.command->ns) && !seen.contains(
                h.command->token,
            );
            hidden_ensembles(hs.push(h), ids, seen) == if goes {
                hidden_ensembles(hs, ids, seen) + seq![
                    (text("::") + h.name@, h.command->token),
                ]
            } else {
                hidden_ensembles(hs, ids, seen)
            }
        }),
        hidden_ensembles(Seq::empty(), ids, seen).len() == 0,
{
    assert(hs.push(h).drop_last() =~= hs);
    let was = hidden_ensembles(hs, ids, seen);
    if h.command is Ensemble {
        let v = (text("::") + h.name@, h.command->token);
        assert(was.push(v) =~= was + seq![v]);
    }
}

/// Imports of an ensemble that was made again lead to the new one, under the
/// source's name; every other command stays.
pub proof fn imports_lead_to_the_new_ensemble(
    before: Command,
    after: Command,
    source_fqn: Seq<u8>,
    gone: Option<u64>,
    fresh: u64,
)
    requires
        reattached(before, after, source_fqn, gone, fresh),
    ensures
        after.binding() == before.binding(),
        before is Imported && (before->source@ == source_fqn || (gone is Some && before->ensemble
            == gone)) ==> after is Imported && after->source@ == source_fqn && after->ensemble
            == Some(fresh),
        !(before is Imported && (before->source@ == source_fqn || (gone is Some && before->ensemble
            == gone))) ==> after == before,
{
}

/// An import that is taken away makes the place it stood at an origin, once, so
/// that what was imported from there goes too. Where it stood nowhere, nothing
/// is added.
pub proof fn a_taken_import_is_an_origin(
    before: Interp,
    after: Interp,
    sweep: ImportSweep,
    then: ImportSweep,
    visible: Option<Seq<u8>>,
    w: Seq<u8>,
)
    requires
        sweep.valid(),
        sweep.phase == ImportPhase::Take,
        sweep.victims@.len() <= usize::MAX,
        import_taken(before, after, sweep, then, visible),
    ensures
        visible is Some ==> (views(then.origins@).contains(w) <==> views(sweep.origins@).contains(w)
            || w == visible->0),
        visible is None ==> (views(then.origins@).contains(w) <==> views(sweep.origins@).contains(w)
            || ({
            let at = hidden_at(
                before.state.hidden@,
                HiddenKey::Import(sweep.victims@[sweep.next as int].identity),
            );
            at is Some && w == text("::") + before.state.hidden@[at->0].name@
        })),
        then.tokens == sweep.tokens,
        then.victims == sweep.victims,
        then.next == sweep.next + 1,
        visible is Some ==> after.state.hidden@ == before.state.hidden@,
        visible is None ==> ({
            let at = hidden_at(
                before.state.hidden@,
                HiddenKey::Import(sweep.victims@[sweep.next as int].identity),
            );
            after.state.hidden@ == if at is Some {
                before.state.hidden@.remove(at->0)
            } else {
                before.state.hidden@
            }
        }),
{
    let os = views(sweep.origins@);
    let v = sweep.victims@[sweep.next as int];
    let stood = standing_at(before.state.hidden@, visible, HiddenKey::Import(v.identity));
    if stood is Some && !os.contains(stood->0) {
        let all = os.push(stood->0);
        if all.contains(w) {
            let i = choose|i: int| 0 <= i < all.len() && all[i] == w;
            if i < os.len() {
                assert(os[i] == w);
            }
        }
        if os.contains(w) {
            let i = choose|i: int| 0 <= i < os.len() && os[i] == w;
            assert(all[i] == w);
        }
        assert(all[os.len() as int] == stood->0);
    }
}

/// The sweep takes the victims one by one, fires for each before it takes it,
/// and looks again as long as the last round took something.
pub proof fn a_sweep_looks_again_while_it_finds(sweep: ImportSweep, removed_any: bool)
    ensures
        sweep.next + 1 < sweep.victims@.len() ==> sweep.phase_after_import(removed_any)
            == ImportPhase::Fire,
        sweep.next + 1 >= sweep.victims@.len() && removed_any ==> sweep.phase_after_import(
            removed_any,
        ) == ImportPhase::Look,
        sweep.next + 1 >= sweep.victims@.len() && !removed_any ==> sweep.phase_after_import(
            removed_any,
        ) == ImportPhase::Over,
{
}

/// A removal of imports begins by looking for those of the names and ensembles
/// it is given, and has removed nothing yet. What it asks for next is its phase.
pub proof fn a_removal_begins_by_looking(
    sweep: ImportSweep,
    origins: Seq<Seq<u8>>,
    tokens: Seq<u64>,
    a: ImportAction,
)
    requires
        sweep.begun(origins, tokens),
        sweep.asks(a),
    ensures
        a is Look,
        views(sweep.origins@) == origins,
        sweep.tokens@ == tokens,
        !sweep.removed_any,
        sweep.victims@.len() == 0 && sweep.next == 0,
{
}

/// A command that is taken away by its identity is taken from where it stands:
/// one under a visible name leaves the hidden commands alone, and a hidden one
/// is gone from among them, the others staying in their order.
pub proof fn a_command_is_taken_from_where_it_stands(
    before: Interp,
    after: Interp,
    trace_fqn: Seq<u8>,
    visible: Option<Seq<u8>>,
    key: HiddenKey,
)
    requires
        identity_taken(before, after, trace_fqn, visible, key),
    ensures
        visible is Some ==> after.state.hidden@ == before.state.hidden@ && standing_at(
            before.state.hidden@,
            visible,
            key,
        ) == visible,
        visible is None && hidden_at(before.state.hidden@, key) is Some ==> {
            let i = hidden_at(before.state.hidden@, key)->0;
            &&& after.state.hidden@ == before.state.hidden@.remove(i)
            &&& standing_at(before.state.hidden@, visible, key) == Some(
                text("::") + before.state.hidden@[i].name@,
            )
        },
        visible is None && hidden_at(before.state.hidden@, key) is None ==> after.state.hidden@
            == before.state.hidden@ && standing_at(before.state.hidden@, visible, key) is None,
        after.state.result == before.state.result,
{
}

/// A removal fires for an import under the name it was found by, and then takes
/// it by its identity.
pub proof fn a_removal_asks_for_the_import_at_hand(sweep: ImportSweep, a: ImportAction)
    requires
        sweep.valid(),
        sweep.asks(a),
    ensures
        sweep.phase == ImportPhase::Fire ==> a is Fire && a->Fire_0@
            == sweep.victims@[sweep.next as int].fqn@,
        sweep.phase == ImportPhase::Take ==> a == ImportAction::Take(
            sweep.victims@[sweep.next as int].identity,
        ),
        sweep.phase == ImportPhase::Over ==> a is Over,
{
}

} // verus!
