//! Renaming and deleting commands.

use vstd::prelude::*;

use crate::bytes::{copied, opt_view, same, views};
use crate::child::environment_changed;
use crate::cmd_traces::{
    cmd_firing_begins, cmd_trace_views, is_traced, outliving, outlives, window_views, CmdEvent,
    CmdFiring,
};
use crate::commands::{hidden_retargeted, Command};
use crate::imports::ImportSweep;
use crate::state::{GuardDomain, Interp, InterpState};
use crate::traces::{kept, RenameWindow, TraceTable};

verus! {

/// How a `rename` turned out.
#[derive(Debug, Clone, Copy, PartialEq, Eq, Structural)]
pub enum RenameOutcome {
    Renamed,
    Deleted,
    NoSuchCommand,
    /// The new name is taken.
    TargetExists,
    /// The rename would close a loop of aliases.
    AliasLoop,
}

/// What a `rename` comes to.
#[derive(Debug, Clone, Copy, PartialEq, Eq, Structural)]
pub enum RenameStep {
    Refused(RenameOutcome),
    /// Delete the command: the new name is empty.
    Delete,
    /// Move the command to its new name.
    Move,
}

/// Whether a `rename` is refused, before anything can be seen of it: for a loop
/// of aliases, then for a new name that is taken, then for a command that the
/// release does not have. `occupant` is the command under the new name:
/// whether it is one that the release does not have. `bound` says that the old
/// name is bound, `dispatchable` that it names a command.
pub fn rename_command(
    loops: bool,
    occupant: Option<bool>,
    bound: bool,
    dispatchable: bool,
    new: &[u8],
) -> (r: RenameStep)
    ensures
        r == rename_decided(loops, occupant, bound, dispatchable, new@),
{
    if loops {
        return RenameStep::Refused(RenameOutcome::AliasLoop);
    }
    if let Some(hidden) = occupant {
        if !hidden {
            return RenameStep::Refused(RenameOutcome::TargetExists);
        }
    }
    if bound && !dispatchable {
        return RenameStep::Refused(RenameOutcome::NoSuchCommand);
    }
    if new.len() == 0 {
        RenameStep::Delete
    } else {
        RenameStep::Move
    }
}

/// Everything but the traces, the hidden imports, the marks on objects and the
/// notes on guards is as it was.
pub open spec fn only_move_changed(before: Interp, after: Interp) -> bool {
    after == (Interp {
        state: InterpState {
            traces: after.state.traces,
            hidden: after.state.hidden,
            registry_object_roots: after.state.registry_object_roots,
            guarded_commands: after.state.guarded_commands,
            invalidations: after.state.invalidations,
            ..before.state
        },
        ..before
    })
}

impl Interp {
    /// Notes that a rename begins.
    pub fn begin_rename(&mut self)
        ensures
            environment_changed(*old(self), *final(self)),
    {
        self.invalidate_command_environment();
    }

    /// Takes what hangs on a command along to its new name, before the rename's
    /// callbacks run, and opens the time in which the old name still answers.
    /// `token` is the binding under the new name.
    pub fn move_bound_command(&mut self, old_fqn: &[u8], new_fqn: &[u8], token: Option<u64>)
        ensures
            hidden_retargeted(
                old(self).state.hidden@,
                final(self).state.hidden@,
                old_fqn@,
                new_fqn@,
            ),
            forall|w: Seq<u8>| #[trigger]
                views(final(self).state.registry_object_roots@).contains(w) <==> views(
                    old(self).state.registry_object_roots@,
                ).contains(w) && w != new_fqn@,
            cmd_trace_views(final(self).state.traces.cmd_traces@)
                == crate::cmd_traces::moved_traces(
                cmd_trace_views(old(self).state.traces.cmd_traces@),
                old_fqn@,
                new_fqn@,
                token,
            ),
            window_views(final(self).state.traces.rename_windows@) == Seq::new(
                old(self).state.traces.rename_windows@.len(),
                |i: int|
                    (
                        old(self).state.traces.rename_windows@[i].from@,
                        crate::cmd_traces::moved_name(
                            old(self).state.traces.rename_windows@[i].to@,
                            old_fqn@,
                            new_fqn@,
                        ),
                    ),
            ).push((old_fqn@, new_fqn@)),
            views(final(self).state.traces.firing_cmd_traces@) == Seq::new(
                old(self).state.traces.firing_cmd_traces@.len(),
                |i: int|
                    crate::cmd_traces::moved_name(
                        old(self).state.traces.firing_cmd_traces@[i]@,
                        old_fqn@,
                        new_fqn@,
                    ),
            ),
            final(self).state.traces == (TraceTable {
                cmd_traces: final(self).state.traces.cmd_traces,
                rename_windows: final(self).state.traces.rename_windows,
                firing_cmd_traces: final(self).state.traces.firing_cmd_traces,
                ..old(self).state.traces
            }),
            final(self).state.invalidations@ == if is_traced(
                cmd_trace_views(old(self).state.traces.cmd_traces@),
                old_fqn@,
            ) {
                old(self).state.invalidations@.push(GuardDomain::CommandTrace)
            } else {
                old(self).state.invalidations@
            },
            final(self).state.guarded_commands == old(self).state.guarded_commands,
            only_move_changed(*old(self), *final(self)),
    {
        self.forget_registry_object_root(new_fqn);
        self.move_cmd_traces(old_fqn, new_fqn, token);
        self.retarget_import_sources(old_fqn, new_fqn);
        let ghost before = window_views(self.state.traces.rename_windows@);
        self.state.traces.rename_windows.push(
            RenameWindow { from: copied(old_fqn), to: copied(new_fqn) },
        );
        assert(window_views(self.state.traces.rename_windows@) =~= before.push(
            (old_fqn@, new_fqn@),
        ));
    }

    /// Begins to fire the rename traces of a command, which go by its new name
    /// already. `None` where nothing is to fire.
    pub fn begin_rename_firing(&mut self, new_fqn: &[u8]) -> (r: Option<CmdFiring>)
        ensures
            cmd_firing_begins(*old(self), *final(self), new_fqn@, CmdEvent::Rename, None, r),
    {
        self.begin_cmd_firing(new_fqn, CmdEvent::Rename, None)
    }

    /// Ends the time in which the old name of a renamed command still answers.
    pub fn end_rename_window(&mut self)
        ensures
            final(self).state.traces.rename_windows@ == if old(
                self).state.traces.rename_windows@.len() == 0 {
                old(self).state.traces.rename_windows@
            } else {
                old(self).state.traces.rename_windows@.drop_last()
            },
            *final(self) == (Interp {
                state: InterpState {
                    traces: TraceTable {
                        rename_windows: final(self).state.traces.rename_windows,
                        ..old(self).state.traces
                    },
                    ..old(self).state
                },
                ..*old(self)
            }),
    {
        self.state.traces.rename_windows.pop();
    }
}

/// While a command is renamed, its old name answers for its new one, until the
/// window is closed.
pub proof fn window_answers(ws: Seq<RenameWindow>, w: RenameWindow)
    requires
        crate::cmd_traces::window_target(ws, w.from@) is None,
    ensures
        crate::cmd_traces::window_target(ws.push(w), w.from@) == Some(w.to@),
    decreases ws.len(),
{
    if ws.len() == 0 {
        assert(ws.push(w)[0] == w);
    } else {
        assert(ws.push(w)[0] == ws[0]);
        assert(ws.push(w).skip(1) =~= ws.skip(1).push(w));
        window_answers(ws.skip(1), w);
    }
}

/// Whether a callback bound another command to the name of one that is being
/// deleted.
pub open spec fn recreated(before: Option<Command>, now: Option<Command>) -> bool {
    match (before, now) {
        (Some(b), Some(n)) => b.binding() != n.binding(),
        _ => false,
    }
}

/// Whether the entry of a command that is being deleted is still to be taken
/// out of the command table: it is not where a callback bound another command
/// to the name, nor for an imported command, which goes by its identity.
pub fn entry_is_due(before: &Option<Command>, now: &Option<Command>) -> (r: bool)
    ensures
        r == (!recreated(*before, *now) && !(before matches Some(Command::Imported { .. }))),
{
    let fresh: bool = match (before, now) {
        (Some(b), Some(n)) => !b.is_same_binding(n),
        _ => false,
    };
    let import: bool = match before {
        Some(Command::Imported { .. }) => true,
        _ => false,
    };
    !fresh && !import
}

/// How a deletion turned out. A command that was there when it began counts as
/// deleted, whoever took it away.
pub fn deletion_outcome(existed: bool, entry_gone: bool) -> (r: RenameOutcome)
    ensures
        r == if existed || entry_gone {
            RenameOutcome::Deleted
        } else {
            RenameOutcome::NoSuchCommand
        },
{
    if existed || entry_gone {
        RenameOutcome::Deleted
    } else {
        RenameOutcome::NoSuchCommand
    }
}

/// The qualified names that imports lose their source with: the command's own,
/// and the one an import had moved to.
pub open spec fn lost_origins(fqn: Seq<u8>, import_fqn: Option<Seq<u8>>) -> Seq<Seq<u8>> {
    match import_fqn {
        Some(f) => if f != fqn {
            seq![fqn, f]
        } else {
            seq![fqn]
        },
        None => seq![fqn],
    }
}

/// The traces that stay when a deletion is over.
pub open spec fn traces_after_deletion(
    ts: Seq<crate::traces::CmdTrace>,
    fqn: Seq<u8>,
    dying: Option<u64>,
    import_fqn: Option<Seq<u8>>,
) -> Seq<crate::traces::CmdTrace> {
    let own = kept(ts, outliving(fqn, dying));
    match import_fqn {
        Some(f) => if f != fqn {
            kept(own, outliving(f, None))
        } else {
            own
        },
        None => own,
    }
}

/// Whether some trace goes with the binding `dying` of the command `fqn`.
pub open spec fn loses_traces(
    ts: Seq<crate::traces::CmdTrace>,
    fqn: Seq<u8>,
    dying: Option<u64>,
) -> bool {
    exists|i: int| 0 <= i < ts.len() && !outlives(#[trigger] ts[i], fqn, dying)
}

/// The note on guards that the loss of traces leaves.
pub open spec fn loss_note(lost: bool) -> Seq<GuardDomain> {
    if lost {
        seq![GuardDomain::CommandTrace]
    } else {
        Seq::empty()
    }
}

/// The notes on guards that a deletion leaves.
pub open spec fn deletion_notes(
    ts: Seq<crate::traces::CmdTrace>,
    fqn: Seq<u8>,
    dying: Option<u64>,
    import_fqn: Option<Seq<u8>>,
) -> Seq<GuardDomain> {
    loss_note(loses_traces(ts, fqn, dying)) + match import_fqn {
        Some(f) => loss_note(
            f != fqn && loses_traces(kept(ts, outliving(fqn, dying)), f, None),
        ),
        None => Seq::empty(),
    }
}

/// An interpreter without the traces of a command that was deleted.
pub open spec fn command_traces_dropped(
    before: Interp,
    after: Interp,
    fqn: Seq<u8>,
    dying: Option<u64>,
    import_fqn: Option<Seq<u8>>,
) -> bool {
    let ts = before.state.traces.cmd_traces@;
    &&& after.state.traces.cmd_traces@ == traces_after_deletion(ts, fqn, dying, import_fqn)
    &&& after.state.invalidations@ == before.state.invalidations@ + deletion_notes(
        ts,
        fqn,
        dying,
        import_fqn,
    )
    &&& after == (Interp {
        state: InterpState {
            traces: TraceTable {
                cmd_traces: after.state.traces.cmd_traces,
                ..before.state.traces
            },
            invalidations: after.state.invalidations,
            ..before.state
        },
        ..before
    })
}

impl Interp {
    /// Drops the traces of a command that was deleted, and gives the names that
    /// imports lose their source with. `dying` is the binding that went, and
    /// `import_fqn` where an import stood when it was taken away.
    pub fn delete_bound_command(
        &mut self,
        fqn: &[u8],
        dying: Option<u64>,
        import_fqn: &Option<Vec<u8>>,
    ) -> (origins: Vec<Vec<u8>>)
        ensures
            views(origins@) == lost_origins(fqn@, opt_view(*import_fqn)),
            command_traces_dropped(
                *old(self),
                *final(self),
                fqn@,
                dying,
                opt_view(*import_fqn),
            ),
    {
        self.remove_cmd_traces_of_token(fqn, dying);
        let mut origins: Vec<Vec<u8>> = Vec::new();
        origins.push(copied(fqn));
        if let Some(f) = import_fqn {
            if !same(f, fqn) {
                self.remove_cmd_traces_of_token(f, None);
                origins.push(copied(f));
            }
        }
        assert(views(origins@) =~= lost_origins(fqn@, opt_view(*import_fqn)));
        assert(self.state.invalidations@ =~= old(self).state.invalidations@ + deletion_notes(
            old(self).state.traces.cmd_traces@,
            fqn@,
            dying,
            opt_view(*import_fqn),
        ));
        origins
    }

    /// Whether the command `fqn` has traces.
    pub fn has_cmd_traces(&self, fqn: &[u8]) -> (r: bool)
        ensures
            r == is_traced(cmd_trace_views(self.state.traces.cmd_traces@), fqn@),
    {
        let ts = &self.state.traces.cmd_traces;
        let ghost vs = cmd_trace_views(ts@);
        let mut i: usize = 0;
        while i < ts.len()
            invariant
                i <= ts@.len(),
                ts@ == self.state.traces.cmd_traces@,
                vs == cmd_trace_views(ts@),
                forall|j: int| 0 <= j < i ==> (#[trigger] vs[j]).name != fqn@,
            decreases ts@.len() - i,
        {
            assert(vs[i as int] == ts@[i as int]@);
            if same(&ts[i].name, fqn) {
                return true;
            }
            i = i + 1;
        }
        false
    }
}

/// How far a deletion has come.
#[derive(Debug, Clone, Copy, PartialEq, Eq, Structural)]
pub enum DeletionPhase {
    /// Fire the delete traces of the command.
    Fire,
    /// End the coroutine that the command stands for.
    EndCoroutine,
    /// Take the imported command away, by its identity.
    TakeImport,
    /// See what the name is bound to now.
    Look,
    /// Take the entry out of the command table.
    TakeEntry,
    /// Drop the command's traces, and the imports of it.
    Sweep,
    Over(RenameOutcome),
}

/// A deletion of the command that a name was bound to as it began. Callbacks run
/// on the way, and may bind the name anew.
#[derive(Debug)]
pub struct CommandDeletion {
    /// The command, and its qualified name.
    pub bound: Option<Command>,
    pub fqn: Option<Vec<u8>>,
    /// Its binding.
    pub dying: Option<u64>,
    /// Where it stood when it was taken away, if it was imported.
    pub import_fqn: Option<Vec<u8>>,
    pub phase: DeletionPhase,
}

/// The phase after the coroutine of a command is gone.
pub open spec fn taking_phase(bound: Option<Command>) -> DeletionPhase {
    if bound matches Some(Command::Imported { .. }) {
        DeletionPhase::TakeImport
    } else {
        DeletionPhase::Look
    }
}

/// The phase that a deletion begins with.
pub open spec fn first_deletion_phase(
    bound: Option<Command>,
    is_there: bool,
    any_traces: bool,
) -> DeletionPhase {
    if !is_there {
        taking_phase(bound)
    } else if any_traces {
        DeletionPhase::Fire
    } else {
        DeletionPhase::EndCoroutine
    }
}

/// The phase after all that is to go is gone. A command that was there when the
/// deletion began counts as deleted, whoever took it away.
pub open spec fn closing_phase(was_there: bool, gone: bool) -> DeletionPhase {
    if was_there {
        DeletionPhase::Sweep
    } else {
        DeletionPhase::Over(
            if gone {
                RenameOutcome::Deleted
            } else {
                RenameOutcome::NoSuchCommand
            },
        )
    }
}

/// The phase after the name was looked up again.
pub open spec fn phase_after_look(d: CommandDeletion, now: Option<Command>) -> DeletionPhase {
    if recreated(d.bound, now) {
        closing_phase(d.fqn is Some, true)
    } else if d.bound matches Some(Command::Imported { .. }) {
        closing_phase(d.fqn is Some, d.import_fqn is Some)
    } else {
        DeletionPhase::TakeEntry
    }
}

fn closing(was_there: bool, gone: bool) -> (p: DeletionPhase)
    ensures
        p == closing_phase(was_there, gone),
{
    if was_there {
        DeletionPhase::Sweep
    } else {
        DeletionPhase::Over(deletion_outcome(was_there, gone))
    }
}

fn taking(bound: &Option<Command>) -> (p: DeletionPhase)
    ensures
        p == taking_phase(*bound),
{
    match bound {
        Some(Command::Imported { .. }) => DeletionPhase::TakeImport,
        _ => DeletionPhase::Look,
    }
}

impl Interp {
    /// Begins to delete the command that a name is bound to.
    pub fn begin_deletion(
        &mut self,
        bound: Option<Command>,
        fqn: Option<Vec<u8>>,
        dying: Option<u64>,
    ) -> (d: CommandDeletion)
        ensures
            environment_changed(*old(self), *final(self)),
            d == (CommandDeletion {
                bound,
                fqn,
                dying,
                import_fqn: None,
                phase: first_deletion_phase(
                    bound,
                    fqn is Some,
                    old(self).state.traces.cmd_traces@.len() > 0,
                ),
            }),
    {
        self.invalidate_command_environment();
        let phase = if fqn.is_none() {
            taking(&bound)
        } else if self.state.traces.cmd_traces.len() > 0 {
            DeletionPhase::Fire
        } else {
            DeletionPhase::EndCoroutine
        };
        CommandDeletion { bound, fqn, dying, import_fqn: None, phase }
    }

    /// Begins to fire the delete traces of a command that is deleted, all those
    /// of its name. `None` where nothing is to fire.
    pub fn begin_deletion_firing(&mut self, d: &CommandDeletion) -> (r: Option<CmdFiring>)
        requires
            d.phase == DeletionPhase::Fire,
            d.fqn is Some,
        ensures
            cmd_firing_begins(
                *old(self),
                *final(self),
                d.fqn->0@,
                CmdEvent::Delete,
                None,
                r,
            ),
    {
        match &d.fqn {
            Some(fqn) => self.begin_cmd_firing(fqn, CmdEvent::Delete, None),
            None => None,
        }
    }

    /// Sweeps up after a deleted command: its traces go, and the removal of its
    /// imports begins.
    pub fn sweep_deleted(&mut self, d: &mut CommandDeletion) -> (r: ImportSweep)
        requires
            old(d).phase == DeletionPhase::Sweep,
            old(d).fqn is Some,
        ensures
            ({
                let fqn = old(d).fqn->0@;
                let import_fqn = opt_view(old(d).import_fqn);
                &&& r.begun(
                    lost_origins(fqn, import_fqn),
                    match old(d).bound {
                        Some(Command::Ensemble { token, .. }) => seq![token],
                        _ => Seq::empty(),
                    },
                )
                &&& r.valid()
                &&& command_traces_dropped(
                    *old(self),
                    *final(self),
                    fqn,
                    old(d).dying,
                    import_fqn,
                )
            }),
            *final(d) == (CommandDeletion {
                phase: DeletionPhase::Over(RenameOutcome::Deleted),
                ..*old(d)
            }),
    {
        d.phase = DeletionPhase::Over(RenameOutcome::Deleted);
        let mut tokens: Vec<u64> = Vec::new();
        if let Some(Command::Ensemble { token, .. }) = &d.bound {
            tokens.push(*token);
        }
        assert(tokens@ =~= match old(d).bound {
            Some(Command::Ensemble { token, .. }) => seq![token],
            _ => Seq::empty(),
        });
        let origins = match &d.fqn {
            Some(fqn) => self.delete_bound_command(fqn, d.dying, &d.import_fqn),
            None => Vec::new(),
        };
        ImportSweep::begin(origins, tokens)
    }
}

impl CommandDeletion {
    /// The delete traces have fired.
    pub fn fired(&mut self)
        requires
            old(self).phase == DeletionPhase::Fire,
        ensures
            *final(self) == (CommandDeletion { phase: DeletionPhase::EndCoroutine, ..*old(self) }),
    {
        self.phase = DeletionPhase::EndCoroutine;
    }

    /// The coroutine is gone, if there was one.
    pub fn coroutine_ended(&mut self)
        requires
            old(self).phase == DeletionPhase::EndCoroutine,
        ensures
            *final(self) == (CommandDeletion { phase: taking_phase(old(self).bound), ..*old(self) }),
    {
        self.phase = taking(&self.bound);
    }

    /// The imported command was taken away where it stood, or was gone already.
    pub fn import_taken(&mut self, from: Option<Vec<u8>>)
        requires
            old(self).phase == DeletionPhase::TakeImport,
        ensures
            *final(self) == (CommandDeletion {
                import_fqn: from,
                phase: DeletionPhase::Look,
                ..*old(self)
            }),
    {
        self.import_fqn = from;
        self.phase = DeletionPhase::Look;
    }

    /// The name is bound to `now`.
    pub fn looked(&mut self, now: &Option<Command>)
        requires
            old(self).phase == DeletionPhase::Look,
        ensures
            *final(self) == (CommandDeletion {
                phase: phase_after_look(*old(self), *now),
                ..*old(self)
            }),
    {
        self.phase = if entry_is_due(&self.bound, now) {
            DeletionPhase::TakeEntry
        } else {
            let fresh: bool = match (&self.bound, now) {
                (Some(b), Some(n)) => !b.is_same_binding(n),
                _ => false,
            };
            closing(self.fqn.is_some(), fresh || self.import_fqn.is_some())
        };
    }

    /// The entry was taken out of the command table, or was not there.
    pub fn entry_taken(&mut self, gone: bool)
        requires
            old(self).phase == DeletionPhase::TakeEntry,
        ensures
            *final(self) == (CommandDeletion {
                phase: closing_phase(old(self).fqn is Some, gone),
                ..*old(self)
            }),
    {
        self.phase = closing(self.fqn.is_some(), gone);
    }
}

/// A command that a callback bound to the name in the meantime stays: its entry
/// is not taken.
pub proof fn a_replacement_stays(d: CommandDeletion, now: Option<Command>)
    requires
        recreated(d.bound, now),
    ensures
        phase_after_look(d, now) != DeletionPhase::TakeEntry,
{
}

/// A deletion of a command that was there succeeds, whatever the callbacks do.
pub proof fn what_was_there_is_deleted(d: CommandDeletion, now: Option<Command>, gone: bool)
    requires
        d.fqn is Some,
    ensures
        phase_after_look(d, now) == DeletionPhase::TakeEntry || phase_after_look(d, now)
            == DeletionPhase::Sweep,
        closing_phase(d.fqn is Some, gone) == DeletionPhase::Sweep,
{
}

/// How a deletion goes on: the delete traces of a command that is there fire
/// first, then its coroutine ends, and then an import is taken away, or the name
/// is looked up again and what it names is taken away.
pub proof fn a_deletion_goes_through_its_phases(
    bound: Option<Command>,
    is_there: bool,
    any_traces: bool,
)
    ensures
        is_there && any_traces ==> first_deletion_phase(bound, is_there, any_traces)
            == DeletionPhase::Fire,
        is_there && !any_traces ==> first_deletion_phase(bound, is_there, any_traces)
            == DeletionPhase::EndCoroutine,
        !is_there ==> first_deletion_phase(bound, is_there, any_traces) == taking_phase(bound),
        bound is Some && bound->0 is Imported ==> taking_phase(bound) == DeletionPhase::TakeImport,
        bound is None || !(bound->0 is Imported) ==> taking_phase(bound) == DeletionPhase::Look,
{
}

/// A name that a callback bound to another command keeps that command: only one
/// that still names what it named, and no import, has its entry taken away.
pub proof fn a_recreated_command_is_kept(d: CommandDeletion, now: Option<Command>)
    ensures
        phase_after_look(d, now) == DeletionPhase::TakeEntry <==> {
            &&& !(d.bound is Some && d.bound->0 is Imported)
            &&& !(d.bound is Some && now is Some && d.bound->0.binding() != now->0.binding())
        },
        d.fqn is Some && phase_after_look(d, now) != DeletionPhase::TakeEntry ==> phase_after_look(
            d,
            now,
        ) == DeletionPhase::Sweep,
{
}

/// A command that was there when its deletion began counts as deleted. One that
/// was not counts as deleted if something was taken away, and else there was no
/// such command.
pub proof fn what_a_deletion_comes_to(gone: bool)
    ensures
        closing_phase(true, gone) == DeletionPhase::Sweep,
        closing_phase(false, true) == DeletionPhase::Over(RenameOutcome::Deleted),
        closing_phase(false, false) == DeletionPhase::Over(RenameOutcome::NoSuchCommand),
{
}

/// The imports of a deleted command go with it, under its own name and, if it
/// was an import that had moved, under the name it had moved to. Each name is
/// there once, the command's own first.
pub proof fn imports_go_under_both_names(fqn: Seq<u8>, import_fqn: Option<Seq<u8>>, w: Seq<u8>)
    ensures
        lost_origins(fqn, import_fqn).contains(w) <==> w == fqn || import_fqn == Some(w),
        lost_origins(fqn, import_fqn)[0] == fqn,
        lost_origins(fqn, import_fqn).no_duplicates(),
{
    let ns = lost_origins(fqn, import_fqn);
    assert(ns[0] == fqn);
    if ns.contains(w) {
        let i = choose|i: int| 0 <= i < ns.len() && ns[i] == w;
        assert(ns[i] == w);
    }
    if import_fqn is Some && import_fqn->0 != fqn {
        assert(ns[1] == import_fqn->0);
    }
}

/// A trace that was set on a deleted command is gone when the deletion is over,
/// and one on another command, or on a younger binding of the name, stays.
pub proof fn the_traces_of_the_deleted_are_gone(
    before: Interp,
    after: Interp,
    fqn: Seq<u8>,
    dying: Option<u64>,
    t: crate::traces::CmdTrace,
)
    requires
        command_traces_dropped(before, after, fqn, dying, None),
    ensures
        after.state.traces.cmd_traces@.contains(t) <==> {
            &&& before.state.traces.cmd_traces@.contains(t)
            &&& t.name@ != fqn || (t.token is Some && dying is Some && t.token->0 > dying->0)
        },
{
    crate::teardown::kept_contains(
        before.state.traces.cmd_traces@,
        outliving(fqn, dying),
        t,
    );
}

/// What a rename to `new` comes to. `occupant` says of a command that has the
/// new name whether it may be replaced; `bound` and `dispatchable` say whether
/// the old name is bound, and to a command that is there.
pub open spec fn rename_decided(
    loops: bool,
    occupant: Option<bool>,
    bound: bool,
    dispatchable: bool,
    new: Seq<u8>,
) -> RenameStep {
    if loops {
        RenameStep::Refused(RenameOutcome::AliasLoop)
    } else if occupant == Some(false) {
        RenameStep::Refused(RenameOutcome::TargetExists)
    } else if bound && !dispatchable {
        RenameStep::Refused(RenameOutcome::NoSuchCommand)
    } else if new.len() == 0 {
        RenameStep::Delete
    } else {
        RenameStep::Move
    }
}

/// A rename moves the command unless it would make an alias loop, unless a
/// command that may not be replaced has the new name, and unless the release
/// does not have the command. A rename to the empty name deletes it.
pub proof fn a_rename_moves_unless_it_is_refused(
    occupant: Option<bool>,
    bound: bool,
    dispatchable: bool,
    new: Seq<u8>,
)
    ensures
        rename_decided(true, occupant, bound, dispatchable, new) == RenameStep::Refused(
            RenameOutcome::AliasLoop,
        ),
        rename_decided(false, Some(false), bound, dispatchable, new) == RenameStep::Refused(
            RenameOutcome::TargetExists,
        ),
        occupant != Some(false) && bound && !dispatchable ==> rename_decided(
            false,
            occupant,
            bound,
            dispatchable,
            new,
        ) == RenameStep::Refused(RenameOutcome::NoSuchCommand),
        occupant != Some(false) && (!bound || dispatchable) && new.len() > 0 ==> rename_decided(
            false,
            occupant,
            bound,
            dispatchable,
            new,
        ) == RenameStep::Move,
        occupant != Some(false) && (!bound || dispatchable) ==> rename_decided(
            false,
            occupant,
            bound,
            dispatchable,
            Seq::empty(),
        ) == RenameStep::Delete,
{
}

/// An import that was deleted after it had moved loses the traces under the name
/// it had moved to as well.
pub proof fn a_moved_import_loses_its_traces_too(
    before: Interp,
    after: Interp,
    fqn: Seq<u8>,
    dying: Option<u64>,
    f: Seq<u8>,
    t: crate::traces::CmdTrace,
)
    requires
        command_traces_dropped(before, after, fqn, dying, Some(f)),
        f != fqn,
    ensures
        after.state.traces.cmd_traces@.contains(t) <==> {
            &&& before.state.traces.cmd_traces@.contains(t)
            &&& t.name@ != f
            &&& t.name@ != fqn || (t.token is Some && dying is Some && t.token->0 > dying->0)
        },
{
    let ts = before.state.traces.cmd_traces@;
    crate::teardown::kept_contains(ts, outliving(fqn, dying), t);
    crate::teardown::kept_contains(kept(ts, outliving(fqn, dying)), outliving(f, None), t);
}

} // verus!
