//! Commands, the table of hidden ones, and how commands are renamed, deleted
//! and moved out of sight.

use vstd::prelude::*;

use crate::bytes::{append, copied, framed, lit, opt_view, same, text, views};
use crate::calls::ProcDef;
use crate::child::{environment_domains, CommandVisibilityOp};
use crate::cmd_traces::{cmd_trace_views, is_traced, traces_moved};
use crate::code::Code;
use crate::ensemble::lookup_code;
use crate::errors::raised_with;
use crate::order::{absent, ascending, place, precedes, rank, Rank};
use crate::state::{GuardDomain, Interp, InterpState, NsId};
use crate::words::spaced;

verus! {

/// The identity of one imported command: another import under the same name is
/// another command.
#[derive(Debug, Clone, Copy, PartialEq, Eq, Structural)]
pub struct ImportToken {
    pub id: u64,
}

/// A registered command.
#[derive(Debug)]
pub enum Command {
    /// A native handler, by its number.
    Builtin(u64),
    /// An alias: the target is looked up by name at every call, and the prefix
    /// words come before the caller's.
    Alias { target: Vec<u8>, prefix: Vec<Vec<u8>>, identity: u64 },
    /// An imported command. An import of an ensemble also keeps the ensemble
    /// itself, and follows it through a rename.
    Imported { source: Vec<u8>, ensemble: Option<u64>, import: ImportToken },
    /// An ensemble, with the namespace it is configured for.
    Ensemble { token: u64, ns: NsId },
    /// A procedure.
    Proc { def: ProcDef, identity: u64 },
    /// A child interpreter, by its name.
    ChildInterp(Vec<u8>),
    /// An object or a class, by its qualified name.
    OoObject(Vec<u8>),
    /// An alias for a command of the parent interpreter.
    ParentAlias { target: Vec<u8>, prefix: Vec<Vec<u8>>, identity: u64 },
}

/// What tells one command from another.
pub enum Binding {
    Builtin(u64),
    Alias(u64),
    Imported(ImportToken),
    Ensemble(u64),
    Proc(u64),
    ChildInterp(Seq<u8>),
    OoObject(Seq<u8>),
    ParentAlias(u64),
}

impl Command {
    /// What tells the command from another.
    pub open spec fn binding(self) -> Binding {
        match self {
            Command::Builtin(f) => Binding::Builtin(f),
            Command::Alias { identity, .. } => Binding::Alias(identity),
            Command::Imported { import, .. } => Binding::Imported(import),
            Command::Ensemble { token, .. } => Binding::Ensemble(token),
            Command::Proc { identity, .. } => Binding::Proc(identity),
            Command::ChildInterp(n) => Binding::ChildInterp(n@),
            Command::OoObject(n) => Binding::OoObject(n@),
            Command::ParentAlias { identity, .. } => Binding::ParentAlias(identity),
        }
    }

    /// Whether two handles are of one command, rather than of two that look
    /// alike.
    pub fn is_same_binding(&self, other: &Command) -> (r: bool)
        ensures
            r == (self.binding() == other.binding()),
    {
        match (self, other) {
            (Command::Builtin(a), Command::Builtin(b)) => *a == *b,
            (
                Command::Alias { identity: a, .. },
                Command::Alias { identity: b, .. },
            ) => *a == *b,
            (
                Command::Imported { import: a, .. },
                Command::Imported { import: b, .. },
            ) => *a == *b,
            (Command::Ensemble { token: a, .. }, Command::Ensemble { token: b, .. }) => *a == *b,
            (Command::Proc { identity: a, .. }, Command::Proc { identity: b, .. }) => *a == *b,
            (Command::ChildInterp(a), Command::ChildInterp(b)) => same(a, b),
            (Command::OoObject(a), Command::OoObject(b)) => same(a, b),
            (
                Command::ParentAlias { identity: a, .. },
                Command::ParentAlias { identity: b, .. },
            ) => *a == *b,
            _ => false,
        }
    }
}

/// Being one command is an equivalence.
pub proof fn same_binding_is_an_equivalence(a: Command, b: Command, c: Command)
    ensures
        a.binding() == a.binding(),
        a.binding() == b.binding() ==> b.binding() == a.binding(),
        a.binding() == b.binding() && b.binding() == c.binding() ==> a.binding() == c.binding(),
{
}

/// A hidden command, under the name it is hidden by.
#[derive(Debug)]
pub struct HiddenCommand {
    pub name: Vec<u8>,
    pub command: Command,
}

/// The names of hidden commands.
pub open spec fn hidden_views(hs: Seq<HiddenCommand>) -> Seq<Seq<u8>> {
    Seq::new(hs.len(), |i: int| hs[i].name@)
}

/// The hidden commands are in the order of their names.
pub open spec fn hidden_valid(s: InterpState) -> bool {
    ascending(hidden_views(s.hidden@))
}

/// The qualified name that a hidden command is traced under.
pub open spec fn hidden_fqn(name: Seq<u8>) -> Seq<u8> {
    text("::") + name
}

/// How a move between the command table and the hidden table turned out, in the
/// order the reasons are looked at.
#[derive(Debug, Clone, Copy, PartialEq, Eq, Structural)]
pub enum CommandVisibilityOutcome {
    Moved,
    /// There is no such command.
    Missing,
    /// The command is not a global one.
    NonGlobal,
    /// The destination is taken.
    Collision,
}

/// A command after an import of `old_fqn` was pointed at `new_fqn`.
pub open spec fn retargeted(c: Command, after: Command, old_fqn: Seq<u8>, new_fqn: Seq<u8>) -> bool {
    match c {
        Command::Imported { source, ensemble, import } => if source@ == old_fqn {
            after matches Command::Imported { source: s, ensemble: e, import: i } && s@
                == new_fqn && e == ensemble && i == import
        } else {
            after == c
        },
        _ => after == c,
    }
}

/// The hidden imports of `old_fqn` are pointed at `new_fqn`.
pub open spec fn hidden_retargeted(
    before: Seq<HiddenCommand>,
    after: Seq<HiddenCommand>,
    old_fqn: Seq<u8>,
    new_fqn: Seq<u8>,
) -> bool {
    &&& after.len() == before.len()
    &&& forall|i: int|
        0 <= i < before.len() ==> {
            &&& (#[trigger] after[i]).name == before[i].name
            &&& retargeted(before[i].command, after[i].command, old_fqn, new_fqn)
        }
}

/// Where a hidden command stands, or would stand.
enum Slot {
    Taken(usize),
    Free(usize),
}

/// Only the hidden table changed.
pub open spec fn only_hidden_changed(before: Interp, after: Interp) -> bool {
    after == (Interp {
        state: InterpState { hidden: after.state.hidden, ..before.state },
        ..before
    })
}

impl Interp {
    fn hidden_slot(&self, name: &[u8]) -> (r: Slot)
        requires
            hidden_valid(self.state),
        ensures
            match r {
                Slot::Taken(i) => i < self.state.hidden@.len() && self.state.hidden@[i as int].name@
                    == name@,
                Slot::Free(i) => {
                    &&& i <= self.state.hidden@.len()
                    &&& !hidden_views(self.state.hidden@).contains(name@)
                    &&& forall|j: int|
                        0 <= j < i ==> precedes(#[trigger] hidden_views(self.state.hidden@)[j], name@)
                    &&& forall|j: int|
                        i <= j < self.state.hidden@.len() ==> precedes(
                            name@,
                            #[trigger] hidden_views(self.state.hidden@)[j],
                        )
                },
            },
    {
        let ghost all = hidden_views(self.state.hidden@);
        let mut i: usize = 0;
        while i < self.state.hidden.len()
            invariant
                i <= self.state.hidden@.len(),
                all == hidden_views(self.state.hidden@),
                ascending(all),
                forall|j: int| 0 <= j < i ==> precedes(#[trigger] all[j], name@),
            decreases self.state.hidden@.len() - i,
        {
            match rank(&self.state.hidden[i].name, name) {
                Rank::Before => {},
                Rank::Same => {
                    return Slot::Taken(i);
                },
                Rank::After => {
                    proof {
                        absent(all, name@, i as int);
                    }
                    return Slot::Free(i);
                },
            }
            i = i + 1;
        }
        proof {
            absent(all, name@, i as int);
        }
        Slot::Free(i)
    }

    /// Whether a command is hidden under `name`.
    pub fn is_hidden(&self, name: &[u8]) -> (r: bool)
        requires
            hidden_valid(self.state),
        ensures
            r == hidden_views(self.state.hidden@).contains(name@),
    {
        match self.hidden_slot(name) {
            Slot::Taken(i) => {
                assert(hidden_views(self.state.hidden@)[i as int] == name@);
                true
            },
            Slot::Free(_) => false,
        }
    }

    /// The names of the hidden commands, in order.
    pub fn hidden_names(&self) -> (r: Vec<Vec<u8>>)
        ensures
            views(r@) == hidden_views(self.state.hidden@),
    {
        let mut out: Vec<Vec<u8>> = Vec::new();
        let mut i: usize = 0;
        while i < self.state.hidden.len()
            invariant
                i <= self.state.hidden@.len(),
                out@.len() == i,
                forall|j: int| 0 <= j < i ==> #[trigger] out@[j]@ == self.state.hidden@[j].name@,
            decreases self.state.hidden@.len() - i,
        {
            out.push(copied(&self.state.hidden[i].name));
            i = i + 1;
        }
        assert(views(out@) =~= hidden_views(self.state.hidden@));
        out
    }

    /// Points the hidden imports of a command that moved at its new name.
    pub fn retarget_import_sources(&mut self, old_fqn: &[u8], new_fqn: &[u8])
        ensures
            hidden_retargeted(
                old(self).state.hidden@,
                final(self).state.hidden@,
                old_fqn@,
                new_fqn@,
            ),
            only_hidden_changed(*old(self), *final(self)),
    {
        let ghost hs = self.state.hidden@;
        let mut i: usize = 0;
        while i < self.state.hidden.len()
            invariant
                i <= hs.len(),
                self.state.hidden@.len() == hs.len(),
                hs == old(self).state.hidden@,
                forall|j: int|
                    0 <= j < i ==> (#[trigger] self.state.hidden@[j]).name == hs[j].name
                        && retargeted(
                        hs[j].command,
                        self.state.hidden@[j].command,
                        old_fqn@,
                        new_fqn@,
                    ),
                forall|j: int| i <= j < hs.len() ==> #[trigger] self.state.hidden@[j] == hs[j],
                only_hidden_changed(*old(self), *self),
            decreases hs.len() - i,
        {
            assert(self.state.hidden@[i as int] == hs[i as int]);
            let hit: bool = match &self.state.hidden[i].command {
                Command::Imported { source, .. } => same(source, old_fqn),
                _ => false,
            };
            if hit {
                let h: &mut HiddenCommand = &mut self.state.hidden[i];
                if let Command::Imported { source, .. } = &mut h.command {
                    *source = copied(new_fqn);
                }
            }
            i = i + 1;
        }
    }
}

/// A hidden command after the command `moved` was renamed to `new_fqn`, where
/// imports follow it.
pub open spec fn follows(
    before: HiddenCommand,
    after: HiddenCommand,
    moved: Option<Seq<u8>>,
    new_fqn: Seq<u8>,
) -> bool {
    &&& after.name == before.name
    &&& match moved {
        Some(old_fqn) => retargeted(before.command, after.command, old_fqn, new_fqn),
        None => after.command == before.command,
    }
}

/// The hidden table with one more command in its place, the others following
/// the command `moved`.
pub open spec fn hidden_gained(
    before: Seq<HiddenCommand>,
    after: Seq<HiddenCommand>,
    name: Seq<u8>,
    command: Command,
    moved: Option<Seq<u8>>,
) -> bool {
    let at = place(hidden_views(before), name);
    &&& 0 <= at <= before.len()
    &&& after.len() == before.len() + 1
    &&& after[at].name@ == name
    &&& after[at].command == command
    &&& forall|i: int|
        0 <= i < at ==> follows(before[i], #[trigger] after[i], moved, hidden_fqn(name))
    &&& forall|i: int|
        at <= i < before.len() ==> follows(
            #[trigger] before[i],
            after[i + 1],
            moved,
            hidden_fqn(name),
        )
}

/// The hidden table with one command fewer, the others following the command
/// `moved`.
pub open spec fn hidden_lost(
    before: Seq<HiddenCommand>,
    after: Seq<HiddenCommand>,
    at: int,
    moved: Option<Seq<u8>>,
    new_fqn: Seq<u8>,
) -> bool {
    &&& 0 <= at < before.len()
    &&& after.len() == before.len() - 1
    &&& forall|i: int| 0 <= i < at ==> follows(before[i], #[trigger] after[i], moved, new_fqn)
    &&& forall|i: int|
        at <= i < after.len() ==> follows(before[i + 1], #[trigger] after[i], moved, new_fqn)
}

/// The name that imports of a command follow it by: only those of an ensemble
/// do.
pub open spec fn followed_name(c: Command, fqn: Option<Seq<u8>>) -> Option<Seq<u8>> {
    if c is Ensemble {
        fqn
    } else {
        None
    }
}

/// Everything but the hidden table, the traces and the notes on guards is as it
/// was.
pub open spec fn only_visibility_changed(before: Interp, after: Interp) -> bool {
    after == (Interp {
        state: InterpState {
            hidden: after.state.hidden,
            traces: after.state.traces,
            guarded_commands: after.state.guarded_commands,
            invalidations: after.state.invalidations,
            ..before.state
        },
        ..before
    })
}

/// The notes on guards that a move in or out of sight leaves: `traced` says
/// that the command has traces.
pub open spec fn visibility_notes(s: InterpState, traced: bool) -> Seq<GuardDomain> {
    (if traced {
        s.invalidations@.push(GuardDomain::Interpreter).push(GuardDomain::CommandTrace)
    } else {
        s.invalidations@.push(GuardDomain::Interpreter)
    }) + environment_domains()
}

impl Interp {
    /// Hides a command under `hidden_name`. `resolved` is the command that its
    /// name names, `qualified` says that the name has a namespace part,
    /// `old_fqn` is its qualified name, and `token` the binding that stands
    /// under the hidden name. On [`CommandVisibilityOutcome::Moved`] the
    /// command is to be taken out of the command table.
    pub fn hide_command(
        &mut self,
        hidden_name: &[u8],
        resolved: Option<Command>,
        qualified: bool,
        old_fqn: &Option<Vec<u8>>,
        token: Option<u64>,
    ) -> (r: CommandVisibilityOutcome)
        requires
            hidden_valid(old(self).state),
        ensures
            hidden_valid(final(self).state),
            r == hiding_outcome(old(self).state, resolved is Some, qualified, hidden_name@),
            r != CommandVisibilityOutcome::Moved ==> *final(self) == *old(self),
            r == CommandVisibilityOutcome::Moved ==> {
                let cmd = resolved->0;
                let from = opt_view(*old_fqn);
                &&& hidden_gained(
                    old(self).state.hidden@,
                    final(self).state.hidden@,
                    hidden_name@,
                    cmd,
                    followed_name(cmd, from),
                )
                &&& match from {
                    Some(f) => traces_moved(
                        *old(self),
                        *final(self),
                        f,
                        hidden_fqn(hidden_name@),
                        token,
                    ),
                    None => final(self).state.traces == old(self).state.traces,
                }
                &&& final(self).state.guarded_commands@.len() == 0
                &&& final(self).state.invalidations@ == visibility_notes(
                    old(self).state,
                    from matches Some(f) && is_traced(
                        cmd_trace_views(old(self).state.traces.cmd_traces@),
                        f,
                    ),
                )
                &&& only_visibility_changed(*old(self), *final(self))
            },
    {
        let cmd: Command = match resolved {
            None => return CommandVisibilityOutcome::Missing,
            Some(c) => c,
        };
        if qualified {
            return CommandVisibilityOutcome::NonGlobal;
        }
        let at: usize = match self.hidden_slot(hidden_name) {
            Slot::Taken(i) => {
                assert(hidden_views(self.state.hidden@)[i as int] == hidden_name@);
                return CommandVisibilityOutcome::Collision;
            },
            Slot::Free(i) => i,
        };
        let ghost names = hidden_views(self.state.hidden@);
        let ghost before = self.state.hidden@;
        proof {
            if at < names.len() {
                assert(precedes(hidden_name@, names[at as int]));
                if precedes(names[at as int], hidden_name@) {
                    crate::order::precedes_transitive(
                        hidden_name@,
                        names[at as int],
                        hidden_name@,
                    );
                    crate::order::precedes_irreflexive(hidden_name@);
                }
            }
            crate::order::place_is(names, hidden_name@, at as int);
        }
        self.invalidate_guard_domain(GuardDomain::Interpreter);
        let mut to = lit("::");
        append(&mut to, hidden_name);
        if let Some(from) = old_fqn {
            self.move_cmd_traces(from, &to, token);
            if let Command::Ensemble { .. } = &cmd {
                self.retarget_import_sources(from, &to);
            }
        }
        let ghost mid = self.state.hidden@;
        let ghost moved = followed_name(cmd, opt_view(*old_fqn));
        let ghost kept_cmd = cmd;
        assert forall|i: int| 0 <= i < before.len() implies follows(
            before[i],
            #[trigger] mid[i],
            moved,
            hidden_fqn(hidden_name@),
        ) by {}
        let h = HiddenCommand { name: copied(hidden_name), command: cmd };
        self.state.hidden.insert(at, h);
        proof {
            let after = self.state.hidden@;
            assert(after =~= mid.insert(at as int, h));
            assert forall|i: int| at <= i < before.len() implies follows(
                #[trigger] before[i],
                after[i + 1],
                moved,
                hidden_fqn(hidden_name@),
            ) by {
                assert(after[i + 1] == mid[i]);
            }
            assert forall|i: int| 0 <= i < at implies follows(
                before[i],
                #[trigger] after[i],
                moved,
                hidden_fqn(hidden_name@),
            ) by {
                assert(after[i] == mid[i]);
            }
            let out = hidden_views(after);
            assert(hidden_views(mid) =~= names);
            assert(out =~= names.insert(at as int, hidden_name@));
            assert forall|a: int, b: int| 0 <= a < b < out.len() implies precedes(
                #[trigger] out[a],
                #[trigger] out[b],
            ) by {
                if a < at && b > at {
                    assert(precedes(names[a], names[b - 1]));
                } else if a == at {
                    assert(precedes(hidden_name@, names[b - 1]));
                } else if a > at {
                    assert(precedes(names[a - 1], names[b - 1]));
                } else if b < at {
                    assert(precedes(names[a], names[b]));
                }
            }
        }
        self.invalidate_command_environment();
        assert(self.state.invalidations@ =~= visibility_notes(
            old(self).state,
            opt_view(*old_fqn) matches Some(f) && is_traced(
                cmd_trace_views(old(self).state.traces.cmd_traces@),
                f,
            ),
        ));
        CommandVisibilityOutcome::Moved
    }

    /// Brings a hidden command back into sight as `new_fqn`. `taken` says that
    /// the destination names a command, `ensemble_name` is the name that an
    /// ensemble had before, and `token` the binding that will stand under the
    /// new name. On [`CommandVisibilityOutcome::Moved`] the command comes back,
    /// to be put in the command table.
    pub fn expose_command(
        &mut self,
        hidden_name: &[u8],
        taken: bool,
        new_fqn: &[u8],
        ensemble_name: &Option<Vec<u8>>,
        token: Option<u64>,
    ) -> (r: (CommandVisibilityOutcome, Option<Command>))
        requires
            hidden_valid(old(self).state),
        ensures
            hidden_valid(final(self).state),
            r.0 == exposing_outcome(old(self).state, hidden_name@, taken),
            r.1 is Some == (r.0 == CommandVisibilityOutcome::Moved),
            r.0 != CommandVisibilityOutcome::Moved ==> *final(self) == *old(self),
            r.0 == CommandVisibilityOutcome::Moved ==> {
                let cmd = r.1->0;
                let at = place(hidden_views(old(self).state.hidden@), hidden_name@);
                &&& old(self).state.hidden@[at].name@ == hidden_name@
                &&& cmd == old(self).state.hidden@[at].command
                &&& hidden_lost(
                    old(self).state.hidden@,
                    final(self).state.hidden@,
                    at,
                    followed_name(cmd, opt_view(*ensemble_name)),
                    new_fqn@,
                )
                &&& traces_moved(
                    *old(self),
                    *final(self),
                    hidden_fqn(hidden_name@),
                    new_fqn@,
                    token,
                )
                &&& final(self).state.guarded_commands@.len() == 0
                &&& final(self).state.invalidations@ == visibility_notes(
                    old(self).state,
                    is_traced(
                        cmd_trace_views(old(self).state.traces.cmd_traces@),
                        hidden_fqn(hidden_name@),
                    ),
                )
                &&& only_visibility_changed(*old(self), *final(self))
            },
    {
        let at: usize = match self.hidden_slot(hidden_name) {
            Slot::Free(_) => return (CommandVisibilityOutcome::Missing, None),
            Slot::Taken(i) => i,
        };
        let ghost before = self.state.hidden@;
        let ghost names = hidden_views(before);
        proof {
            assert(names[at as int] == hidden_name@);
            crate::order::precedes_irreflexive(hidden_name@);
            assert forall|j: int| 0 <= j < at implies precedes(#[trigger] names[j], hidden_name@) by {
                assert(precedes(names[j], names[at as int]));
            }
            crate::order::place_is(names, hidden_name@, at as int);
        }
        if taken {
            return (CommandVisibilityOutcome::Collision, None);
        }
        self.invalidate_guard_domain(GuardDomain::Interpreter);
        let h = self.state.hidden.remove(at);
        let ghost mid = self.state.hidden@;
        assert(mid =~= before.remove(at as int));
        let cmd = h.command;
        let mut from = lit("::");
        append(&mut from, hidden_name);
        self.move_cmd_traces(&from, new_fqn, token);
        if let Command::Ensemble { .. } = &cmd {
            if let Some(name) = ensemble_name {
                self.retarget_import_sources(name, new_fqn);
            }
        }
        proof {
            let after = self.state.hidden@;
            let moved = followed_name(cmd, opt_view(*ensemble_name));
            assert forall|i: int| 0 <= i < mid.len() implies follows(
                mid[i],
                #[trigger] after[i],
                moved,
                new_fqn@,
            ) by {}
            assert forall|i: int| 0 <= i < at implies follows(
                before[i],
                #[trigger] after[i],
                moved,
                new_fqn@,
            ) by {
                assert(mid[i] == before[i]);
            }
            assert forall|i: int| at <= i < after.len() implies follows(
                before[i + 1],
                #[trigger] after[i],
                moved,
                new_fqn@,
            ) by {
                assert(mid[i] == before[i + 1]);
            }
            let out = hidden_views(after);
            assert(out =~= hidden_views(mid));
            assert forall|a: int, b: int| 0 <= a < b < out.len() implies precedes(
                #[trigger] out[a],
                #[trigger] out[b],
            ) by {
                let x = if a < at {
                    a
                } else {
                    a + 1
                };
                let y = if b < at {
                    b
                } else {
                    b + 1
                };
                assert(out[a] == names[x] && out[b] == names[y]);
            }
        }
        self.invalidate_command_environment();
        assert(self.state.invalidations@ =~= visibility_notes(
            old(self).state,
            is_traced(
                cmd_trace_views(old(self).state.traces.cmd_traces@),
                hidden_fqn(hidden_name@),
            ),
        ));
        (CommandVisibilityOutcome::Moved, Some(cmd))
    }

    /// Says how a move between the two tables turned out. `element` is the
    /// source name as a list element.
    pub fn finish_command_visibility(
        &mut self,
        op: CommandVisibilityOp,
        source: &[u8],
        element: &[u8],
        destination: &[u8],
        outcome: CommandVisibilityOutcome,
    ) -> (c: Code)
        ensures
            match visibility_error(op, source@, element@, destination@, outcome) {
                None => c == Code::Okay && final(self).state.result@.len() == 0 && *final(self)
                    == (Interp {
                    state: InterpState { result: final(self).state.result, ..old(self).state },
                    ..*old(self)
                }),
                Some(e) => c == Code::Error && raised_with(*old(self), *final(self), e.0, e.1),
            },
    {
        match (op, outcome) {
            (_, CommandVisibilityOutcome::Moved) => {
                self.state.result = Vec::new();
                Code::Okay
            },
            (CommandVisibilityOp::Hide, CommandVisibilityOutcome::Missing) => {
                let message = framed("unknown command \"", source, "\"");
                let code = lookup_code("COMMAND", element);
                self.error_with_code(&message, &code)
            },
            (CommandVisibilityOp::Expose, CommandVisibilityOutcome::Missing) => {
                let message = framed("unknown hidden command \"", source, "\"");
                let code = lookup_code("HIDDENTOKEN", element);
                self.error_with_code(&message, &code)
            },
            (CommandVisibilityOp::Hide, CommandVisibilityOutcome::NonGlobal) => {
                self.error_with_code(
                    "can only hide global namespace commands (use rename then hide)".as_bytes(),
                    "TCL HIDE NON_GLOBAL".as_bytes(),
                )
            },
            (CommandVisibilityOp::Expose, CommandVisibilityOutcome::NonGlobal) => {
                self.error_with_code(
                    "trying to expose a non-global command namespace command".as_bytes(),
                    "NONE".as_bytes(),
                )
            },
            (CommandVisibilityOp::Hide, CommandVisibilityOutcome::Collision) => {
                let message = framed("hidden command named \"", destination, "\" already exists");
                self.error_with_code(&message, "TCL HIDE ALREADY_HIDDEN".as_bytes())
            },
            (CommandVisibilityOp::Expose, CommandVisibilityOutcome::Collision) => {
                let message = framed("exposed command \"", destination, "\" already exists");
                self.error_with_code(&message, "TCL EXPOSE COMMAND_EXISTS".as_bytes())
            },
        }
    }
}

/// The message and the code for a move that did not take place.
pub open spec fn visibility_error(
    op: CommandVisibilityOp,
    source: Seq<u8>,
    element: Seq<u8>,
    destination: Seq<u8>,
    outcome: CommandVisibilityOutcome,
) -> Option<(Seq<u8>, Seq<u8>)> {
    match (op, outcome) {
        (_, CommandVisibilityOutcome::Moved) => None,
        (CommandVisibilityOp::Hide, CommandVisibilityOutcome::Missing) => Some(
            (
                text("unknown command \"") + source + text("\""),
                spaced(seq![text("TCL"), text("LOOKUP"), text("COMMAND"), element]),
            ),
        ),
        (CommandVisibilityOp::Expose, CommandVisibilityOutcome::Missing) => Some(
            (
                text("unknown hidden command \"") + source + text("\""),
                spaced(seq![text("TCL"), text("LOOKUP"), text("HIDDENTOKEN"), element]),
            ),
        ),
        (CommandVisibilityOp::Hide, CommandVisibilityOutcome::NonGlobal) => Some(
            (
                text("can only hide global namespace commands (use rename then hide)"),
                text("TCL HIDE NON_GLOBAL"),
            ),
        ),
        (CommandVisibilityOp::Expose, CommandVisibilityOutcome::NonGlobal) => Some(
            (text("trying to expose a non-global command namespace command"), text("NONE")),
        ),
        (CommandVisibilityOp::Hide, CommandVisibilityOutcome::Collision) => Some(
            (
                text("hidden command named \"") + destination + text("\" already exists"),
                text("TCL HIDE ALREADY_HIDDEN"),
            ),
        ),
        (CommandVisibilityOp::Expose, CommandVisibilityOutcome::Collision) => Some(
            (
                text("exposed command \"") + destination + text("\" already exists"),
                text("TCL EXPOSE COMMAND_EXISTS"),
            ),
        ),
    }
}

/// Exposing a command brings back the one that was hidden, and leaves the other
/// hidden commands as they were, where the command is no ensemble.
pub proof fn exposing_undoes_hiding(
    before: Seq<HiddenCommand>,
    inside: Seq<HiddenCommand>,
    after: Seq<HiddenCommand>,
    name: Seq<u8>,
    command: Command,
    new_fqn: Seq<u8>,
)
    requires
        ascending(hidden_views(before)),
        !hidden_views(before).contains(name),
        hidden_gained(before, inside, name, command, None),
        hidden_lost(inside, after, place(hidden_views(before), name), None, new_fqn),
    ensures
        inside[place(hidden_views(before), name)].command == command,
        after.len() == before.len(),
        forall|i: int|
            0 <= i < before.len() ==> (#[trigger] after[i]).name == before[i].name
                && after[i].command == before[i].command,
{
    let at = place(hidden_views(before), name);
    assert forall|i: int| 0 <= i < before.len() implies (#[trigger] after[i]).name
        == before[i].name && after[i].command == before[i].command by {
        if i < at {
            assert(follows(before[i], inside[i], None, hidden_fqn(name)));
            assert(follows(inside[i], after[i], None, new_fqn));
        } else {
            assert(follows(before[i], inside[i + 1], None, hidden_fqn(name)));
            assert(follows(inside[i + 1], after[i], None, new_fqn));
        }
    }
}

/// Hiding a command adds its hidden name to the hidden ones, and binds to it the
/// command that was hidden; no other hidden name comes or goes. Hidden commands
/// that were there stay themselves, but for imports of an ensemble that moved.
pub proof fn hiding_adds_one_name(
    before: Seq<HiddenCommand>,
    after: Seq<HiddenCommand>,
    name: Seq<u8>,
    command: Command,
    moved: Option<Seq<u8>>,
    w: Seq<u8>,
)
    requires
        hidden_gained(before, after, name, command, moved),
    ensures
        hidden_views(after).contains(w) <==> hidden_views(before).contains(w) || w == name,
        exists|i: int|
            0 <= i < after.len() && (#[trigger] after[i]).name@ == name && after[i].command
                == command,
        moved is None ==> forall|i: int|
            0 <= i < before.len() ==> exists|j: int|
                0 <= j < after.len() && (#[trigger] after[j]).name@ == (
                #[trigger] before[i]).name@ && after[j].command == before[i].command,
{
    let at = place(hidden_views(before), name);
    let hb = hidden_views(before);
    let ha = hidden_views(after);
    assert(after[at].name@ == name);
    assert(ha[at] == name);
    if ha.contains(w) {
        let j = choose|j: int| 0 <= j < ha.len() && ha[j] == w;
        if j < at {
            assert(follows(before[j], after[j], moved, hidden_fqn(name)));
            assert(hb[j] == w);
        } else if j > at {
            assert(follows(before[j - 1], after[j - 1 + 1], moved, hidden_fqn(name)));
            assert(hb[j - 1] == w);
        }
    }
    if hb.contains(w) {
        let i = choose|i: int| 0 <= i < hb.len() && hb[i] == w;
        if i < at {
            assert(follows(before[i], after[i], moved, hidden_fqn(name)));
            assert(ha[i] == w);
        } else {
            assert(follows(before[i], after[i + 1], moved, hidden_fqn(name)));
            assert(ha[i + 1] == w);
        }
    }
    if moved is None {
        assert forall|i: int| 0 <= i < before.len() implies exists|j: int|
            0 <= j < after.len() && (#[trigger] after[j]).name@ == (#[trigger] before[i]).name@
                && after[j].command == before[i].command by {
            if i < at {
                assert(follows(before[i], after[i], moved, hidden_fqn(name)));
                assert(after[i].name@ == before[i].name@);
            } else {
                assert(follows(before[i], after[i + 1], moved, hidden_fqn(name)));
                assert(after[i + 1].name@ == before[i].name@);
            }
        }
    }
}

/// Exposing a command takes its hidden name out of the hidden ones, and no other
/// hidden name comes or goes.
pub proof fn exposing_removes_one_name(
    before: Seq<HiddenCommand>,
    after: Seq<HiddenCommand>,
    at: int,
    moved: Option<Seq<u8>>,
    new_fqn: Seq<u8>,
    w: Seq<u8>,
)
    requires
        ascending(hidden_views(before)),
        hidden_lost(before, after, at, moved, new_fqn),
    ensures
        hidden_views(after).contains(w) <==> hidden_views(before).contains(w) && w
            != before[at].name@,
{
    let hb = hidden_views(before);
    let ha = hidden_views(after);
    if ha.contains(w) {
        let j = choose|j: int| 0 <= j < ha.len() && ha[j] == w;
        if j < at {
            assert(follows(before[j], after[j], moved, new_fqn));
            assert(hb[j] == w);
            different_places_differ(hb, j, at);
        } else {
            assert(follows(before[j + 1], after[j], moved, new_fqn));
            assert(hb[j + 1] == w);
            different_places_differ(hb, at, j + 1);
        }
    }
    if hb.contains(w) && w != before[at].name@ {
        let i = choose|i: int| 0 <= i < hb.len() && hb[i] == w;
        if i < at {
            assert(follows(before[i], after[i], moved, new_fqn));
            assert(ha[i] == w);
        } else {
            assert(follows(before[i - 1 + 1], after[i - 1], moved, new_fqn));
            assert(ha[i - 1] == w);
        }
    }
}

/// Names in order differ from each other.
proof fn different_places_differ(ws: Seq<Seq<u8>>, i: int, j: int)
    requires
        ascending(ws),
        0 <= i < j < ws.len(),
    ensures
        ws[i] != ws[j],
{
    crate::order::precedes_irreflexive(ws[i]);
}

/// An import follows the command it comes from when that is renamed: it has the
/// new name, and stays otherwise as it was. No other command changes.
pub proof fn an_import_follows_its_source(
    c: Command,
    after: Command,
    old_fqn: Seq<u8>,
    new_fqn: Seq<u8>,
)
    requires
        retargeted(c, after, old_fqn, new_fqn),
    ensures
        after.binding() == c.binding(),
        !(c is Imported) ==> after == c,
        c is Imported && c->source@ != old_fqn ==> after == c,
        c is Imported && c->source@ == old_fqn ==> after is Imported && after->source@ == new_fqn
            && after->ensemble == c->ensemble,
{
}

/// What a move in or out of sight says when it does not take place. One that
/// does says nothing.
pub proof fn a_refused_move_says_why(source: Seq<u8>, element: Seq<u8>, destination: Seq<u8>)
    ensures
        visibility_error(
            CommandVisibilityOp::Hide,
            source,
            element,
            destination,
            CommandVisibilityOutcome::Moved,
        ) is None,
        visibility_error(
            CommandVisibilityOp::Expose,
            source,
            element,
            destination,
            CommandVisibilityOutcome::Moved,
        ) is None,
        visibility_error(
            CommandVisibilityOp::Hide,
            source,
            element,
            destination,
            CommandVisibilityOutcome::Missing,
        ) matches Some(e) && e.0 == text("unknown command \"") + source + text("\""),
        visibility_error(
            CommandVisibilityOp::Expose,
            source,
            element,
            destination,
            CommandVisibilityOutcome::Missing,
        ) matches Some(e) && e.0 == text("unknown hidden command \"") + source + text("\""),
        visibility_error(
            CommandVisibilityOp::Hide,
            source,
            element,
            destination,
            CommandVisibilityOutcome::Collision,
        ) matches Some(e) && e.0 == text("hidden command named \"") + destination + text("\" already exists"),
        visibility_error(
            CommandVisibilityOp::Expose,
            source,
            element,
            destination,
            CommandVisibilityOutcome::Collision,
        ) matches Some(e) && e.0 == text("exposed command \"") + destination + text("\" already exists"),
{
}

/// What hiding a command as `hidden_name` comes to.
pub open spec fn hiding_outcome(
    s: InterpState,
    is_there: bool,
    qualified: bool,
    hidden_name: Seq<u8>,
) -> CommandVisibilityOutcome {
    if !is_there {
        CommandVisibilityOutcome::Missing
    } else if qualified {
        CommandVisibilityOutcome::NonGlobal
    } else if hidden_views(s.hidden@).contains(hidden_name) {
        CommandVisibilityOutcome::Collision
    } else {
        CommandVisibilityOutcome::Moved
    }
}

/// What exposing the hidden command `hidden_name` comes to; `taken` says that
/// its new name is in use.
pub open spec fn exposing_outcome(
    s: InterpState,
    hidden_name: Seq<u8>,
    taken: bool,
) -> CommandVisibilityOutcome {
    if !hidden_views(s.hidden@).contains(hidden_name) {
        CommandVisibilityOutcome::Missing
    } else if taken {
        CommandVisibilityOutcome::Collision
    } else {
        CommandVisibilityOutcome::Moved
    }
}

/// A command is hidden exactly if it is there, is a global one, and its hidden
/// name is free; it is exposed exactly if it is hidden and its new name is free.
pub proof fn a_command_moves_where_there_is_room(
    s: InterpState,
    is_there: bool,
    qualified: bool,
    name: Seq<u8>,
    taken: bool,
)
    ensures
        hiding_outcome(s, is_there, qualified, name) == CommandVisibilityOutcome::Moved <==> {
            &&& is_there && !qualified
            &&& forall|i: int| 0 <= i < s.hidden@.len() ==> (#[trigger] s.hidden@[i]).name@ != name
        },
        !is_there ==> hiding_outcome(s, is_there, qualified, name)
            == CommandVisibilityOutcome::Missing,
        is_there && qualified ==> hiding_outcome(s, is_there, qualified, name)
            == CommandVisibilityOutcome::NonGlobal,
        exposing_outcome(s, name, taken) == CommandVisibilityOutcome::Moved <==> {
            &&& !taken
            &&& exists|i: int| 0 <= i < s.hidden@.len() && (#[trigger] s.hidden@[i]).name@ == name
        },
        exposing_outcome(s, name, taken) == CommandVisibilityOutcome::Collision ==> taken,
{
    let vs = hidden_views(s.hidden@);
    if vs.contains(name) {
        let i = choose|i: int| 0 <= i < vs.len() && vs[i] == name;
        assert(s.hidden@[i].name@ == name);
    } else {
        assert forall|i: int| 0 <= i < s.hidden@.len() implies (#[trigger] s.hidden@[i]).name@
            != name by {
            assert(vs[i] == s.hidden@[i].name@);
        }
    }
}

/// The error code of a move that did not take place.
pub proof fn a_refused_move_has_its_code(source: Seq<u8>, element: Seq<u8>, destination: Seq<u8>)
    ensures
        visibility_error(
            CommandVisibilityOp::Hide,
            source,
            element,
            destination,
            CommandVisibilityOutcome::Missing,
        ) matches Some(e) && e.1 == spaced(
            seq![text("TCL"), text("LOOKUP"), text("COMMAND"), element],
        ),
        visibility_error(
            CommandVisibilityOp::Expose,
            source,
            element,
            destination,
            CommandVisibilityOutcome::Missing,
        ) matches Some(e) && e.1 == spaced(
            seq![text("TCL"), text("LOOKUP"), text("HIDDENTOKEN"), element],
        ),
        visibility_error(
            CommandVisibilityOp::Hide,
            source,
            element,
            destination,
            CommandVisibilityOutcome::NonGlobal,
        ) matches Some(e) && e.0 == text(
            "can only hide global namespace commands (use rename then hide)",
        ) && e.1 == text("TCL HIDE NON_GLOBAL"),
        visibility_error(
            CommandVisibilityOp::Expose,
            source,
            element,
            destination,
            CommandVisibilityOutcome::NonGlobal,
        ) matches Some(e) && e.0 == text(
            "trying to expose a non-global command namespace command",
        ) && e.1 == text("NONE"),
        visibility_error(
            CommandVisibilityOp::Hide,
            source,
            element,
            destination,
            CommandVisibilityOutcome::Collision,
        ) matches Some(e) && e.1 == text("TCL HIDE ALREADY_HIDDEN"),
        visibility_error(
            CommandVisibilityOp::Expose,
            source,
            element,
            destination,
            CommandVisibilityOutcome::Collision,
        ) matches Some(e) && e.1 == text("TCL EXPOSE COMMAND_EXISTS"),
{
}

/// A rename leaves every hidden command under its name, and points the imports
/// of the renamed command, and only those, at its new name.
pub proof fn hidden_imports_follow_a_rename(
    before: Seq<HiddenCommand>,
    after: Seq<HiddenCommand>,
    old_fqn: Seq<u8>,
    new_fqn: Seq<u8>,
    i: int,
)
    requires
        hidden_retargeted(before, after, old_fqn, new_fqn),
        0 <= i < before.len(),
    ensures
        after.len() == before.len(),
        after[i].name == before[i].name,
        before[i].command is Imported && before[i].command->source@ == old_fqn ==>
            after[i].command is Imported && after[i].command->source@ == new_fqn,
        !(before[i].command is Imported && before[i].command->source@ == old_fqn) ==>
            after[i].command == before[i].command,
{
    assert(after[i].name == before[i].name);
}

/// Only the imports of an ensemble follow it when it moves out of sight or into
/// it.
pub proof fn only_imports_of_an_ensemble_follow(c: Command, fqn: Option<Seq<u8>>)
    ensures
        c is Ensemble ==> followed_name(c, fqn) == fqn,
        !(c is Ensemble) ==> followed_name(c, fqn) is None,
{
}

} // verus!
