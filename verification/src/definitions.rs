//! How commands come to be, are replaced and are called: procedures, aliases,
//! ensembles, and what the release or a safe interpreter keeps from sight.

use vstd::prelude::*;

use crate::bytes::{
    append, append_text, copied, copied_opt, copied_words, framed, is_text, lit, opt_view, same,
    text, views,
};
use crate::bodies::{source_begins, ScriptRun};
use crate::calls::{CallMeta, Param, ProcDef};
use crate::child::{environment_changed, environment_domains};
use crate::cmd_traces::{
    cmd_firing_begins, cmd_trace_views, is_traced, outlives, outliving, token_traces_dropped,
    CmdEvent, CmdFiring,
};
use crate::code::Code;
use crate::commands::Command;
use crate::dispatch::{fqn_for, qualified};
use crate::errors::{raised, ProcFrame};
use crate::frames::{before_line, line_before, Location};
use crate::imports::ImportSweep;
use crate::state::{GuardDomain, Interp, InterpState, NsId};
use crate::teardown::kept_holds;

verus! {

/// The qualified name of the command `tail` of the namespace `ns_name`.
pub open spec fn bound_name(ns_name: Seq<u8>, tail: Seq<u8>) -> Seq<u8> {
    if ns_name == text("::") {
        ns_name + tail
    } else {
        ns_name + text("::") + tail
    }
}

fn bound_fqn(ns_name: &[u8], tail: &[u8]) -> (r: Vec<u8>)
    ensures
        r@ == bound_name(ns_name@, tail@),
{
    let mut fqn = copied(ns_name);
    if !is_text(ns_name, "::") {
        append_text(&mut fqn, "::");
    }
    append(&mut fqn, tail);
    fqn
}

/// What displaces the command that stands where another is bound.
#[derive(Debug, Clone, Copy, PartialEq, Eq, Structural)]
pub enum Displacement {
    /// Nothing stands there, or nobody watches it.
    Silent,
    /// Its delete traces fire, and are dropped.
    FireDelete,
}

/// What is to be done for a command of the name `fqn`: its delete traces fire
/// where it has traces.
pub open spec fn displacement(i: Interp, fqn: Seq<u8>) -> Displacement {
    if is_traced(cmd_trace_views(i.state.traces.cmd_traces@), fqn) {
        Displacement::FireDelete
    } else {
        Displacement::Silent
    }
}

/// The displacement of a command is over: where its traces fired, those of its
/// binding are gone.
pub open spec fn displacement_ended(
    before: Interp,
    after: Interp,
    fqn: Seq<u8>,
    dying: Option<u64>,
    d: Displacement,
) -> bool {
    match d {
        Displacement::Silent => after == before,
        Displacement::FireDelete => token_traces_dropped(before, after, fqn, dying),
    }
}

/// A displaced command takes its traces along: what is bound in its place
/// begins without them.
pub proof fn a_displaced_command_takes_its_traces_along(
    before: Interp,
    after: Interp,
    fqn: Seq<u8>,
    dying: Option<u64>,
    i: int,
)
    requires
        displacement_ended(before, after, fqn, dying, Displacement::FireDelete),
        0 <= i < after.state.traces.cmd_traces@.len(),
    ensures
        outlives(after.state.traces.cmd_traces@[i], fqn, dying),
{
    kept_holds(before.state.traces.cmd_traces@, outliving(fqn, dying));
}

impl Interp {
    /// Defines a procedure `tail` in the namespace `ns` that is called
    /// `ns_name`. A body that was written in a file keeps its place there. The
    /// definition is then bound, in place of what stood under the name.
    pub fn define_proc_native(
        &mut self,
        ns: NsId,
        ns_name: &[u8],
        tail: &[u8],
        params: Vec<Param>,
        body: &[u8],
        written: &Option<Location>,
        native: Option<u64>,
    ) -> (d: ProcDef)
        ensures
            d.params == params,
            d.body@ == body@,
            d.ns == ns,
            d.native == native,
            placed(d, ns_name@, tail@, *written),
            environment_changed(*old(self), *final(self)),
    {
        self.invalidate_command_environment();
        let mut source: Option<Vec<u8>> = None;
        let mut body_line_base: u32 = 0;
        if let Some(l) = written {
            if l.file.is_some() {
                source = copied_opt(&l.file);
                body_line_base = line_before(l.line);
            }
        }
        ProcDef {
            params,
            body: copied(body),
            ns,
            fqn: bound_fqn(ns_name, tail),
            source,
            body_line_base,
            native,
        }
    }

    /// Begins the binding of a command at a place: what stands there, the
    /// command `fqn` of generation `dying`, is displaced first.
    pub fn bind_command_replacement(&mut self, fqn: &[u8], dying: Option<u64>) -> (d: Displacement)
        ensures
            d == if dying is Some && is_traced(
                cmd_trace_views(old(self).state.traces.cmd_traces@),
                fqn@,
            ) {
                Displacement::FireDelete
            } else {
                Displacement::Silent
            },
            environment_changed(*old(self), *final(self)),
    {
        self.invalidate_command_environment();
        self.on_bound_command_replaced(fqn, dying)
    }

    /// What is to be done for the command at a place that is replaced or
    /// deleted. An empty place has no command, and nothing fires.
    pub fn on_bound_command_replaced(&self, fqn: &[u8], dying: Option<u64>) -> (d: Displacement)
        ensures
            d == if dying is Some && is_traced(
                cmd_trace_views(self.state.traces.cmd_traces@),
                fqn@,
            ) {
                Displacement::FireDelete
            } else {
                Displacement::Silent
            },
    {
        if dying.is_some() && self.has_cmd_traces(fqn) {
            Displacement::FireDelete
        } else {
            Displacement::Silent
        }
    }

    /// What is to be done for the command of a name that is replaced or deleted,
    /// where its binding may have no generation, as that of a hidden command.
    pub fn on_command_replaced(&self, fqn: &[u8]) -> (d: Displacement)
        ensures
            d == displacement(*self, fqn@),
    {
        if self.has_cmd_traces(fqn) {
            Displacement::FireDelete
        } else {
            Displacement::Silent
        }
    }

    /// Begins to fire the delete traces of a command that is displaced: those of
    /// its binding `dying`. `None` where nothing is to fire.
    pub fn begin_displacement(&mut self, fqn: &[u8], dying: Option<u64>, d: Displacement) -> (r:
        Option<CmdFiring>)
        ensures
            match d {
                Displacement::Silent => r is None && *final(self) == *old(self),
                Displacement::FireDelete => cmd_firing_begins(
                    *old(self),
                    *final(self),
                    fqn@,
                    CmdEvent::Delete,
                    dying,
                    r,
                ),
            },
    {
        match d {
            Displacement::Silent => None,
            Displacement::FireDelete => self.begin_cmd_firing(fqn, CmdEvent::Delete, dying),
        }
    }

    /// Ends the displacement of a command, after its delete traces have fired:
    /// the traces of its binding are dropped.
    pub fn end_displacement(&mut self, fqn: &[u8], dying: Option<u64>, d: Displacement)
        ensures
            displacement_ended(*old(self), *final(self), fqn@, dying, d),
    {
        match d {
            Displacement::Silent => {},
            Displacement::FireDelete => self.remove_cmd_traces_of_token(fqn, dying),
        }
    }

    /// Ends the installation of an alias. `bound` is the simple name that it was
    /// bound to, if any, and `loops` says whether its chain of targets comes
    /// back to it. Such an alias is refused, by its name, and is to be unbound.
    pub fn install_alias(&mut self, bound: &Option<Vec<u8>>, loops: bool) -> (r: Result<
        (),
        Vec<u8>,
    >)
        ensures
            environment_changed(*old(self), *final(self)),
            match opt_view(*bound) {
                Some(name) => if loops {
                    r matches Err(e) && e@ == name
                } else {
                    r is Ok
                },
                None => r is Ok,
            },
    {
        self.invalidate_command_environment();
        match bound {
            Some(name) => if loops {
                Err(copied(name))
            } else {
                Ok(())
            },
            None => Ok(()),
        }
    }

    /// Begins to delete the command of a name, as clearing an alias does, before
    /// anything of it goes: no guard survives that.
    pub fn begin_delete_command(&mut self)
        ensures
            environment_changed(*old(self), *final(self)),
    {
        self.invalidate_command_environment();
    }

    /// Ends the deletion of the command `fqn`, which is the `ensemble` where it is
    /// one; `deleted` says that it was there. Returns the removal of its imports.
    pub fn delete_command(&self, fqn: &Option<Vec<u8>>, ensemble: Option<u64>, deleted: bool) -> (r:
        Option<ImportSweep>)
        ensures
            match r {
                Some(s) => {
                    &&& deleted && *fqn is Some
                    &&& s.begun(
                        seq![fqn->0@],
                        match ensemble {
                            Some(t) => seq![t],
                            None => Seq::empty(),
                        },
                    )
                    &&& s.valid()
                },
                None => !deleted || *fqn is None,
            },
    {
        if !deleted {
            return None;
        }
        match fqn {
            None => None,
            Some(f) => {
                let mut origins: Vec<Vec<u8>> = Vec::new();
                origins.push(copied(f));
                assert(views(origins@) =~= seq![f@]);
                let mut tokens: Vec<u64> = Vec::new();
                if let Some(t) = ensemble {
                    tokens.push(t);
                }
                assert(tokens@ =~= match ensemble {
                    Some(t) => seq![t],
                    None => Seq::empty(),
                });
                Some(ImportSweep::begin(origins, tokens))
            },
        }
    }

    /// Registers a command under `name`: the mark of a command that comes with
    /// the release does not pass to it.
    pub fn ns_register(&mut self, name: &[u8])
        ensures
            registered(*old(self), *final(self), name@),
    {
        self.forget_registry_object_root(name);
        self.invalidate_command_environment();
    }

    /// The hidden command `name` as a place among the hidden ones; where there
    /// is none, the error is raised.
    pub fn invoke_hidden(&mut self, name: &[u8]) -> (r: Result<usize, Code>)
        ensures
            match r {
                Ok(i) => {
                    &&& i < old(self).state.hidden@.len()
                    &&& old(self).state.hidden@[i as int].name@ == name@
                    &&& *final(self) == *old(self)
                },
                Err(c) => {
                    &&& c == Code::Error
                    &&& forall|i: int|
                        0 <= i < old(self).state.hidden@.len() ==> (#[trigger] old(
                            self).state.hidden@[i]).name@ != name@
                    &&& raised(
                        *old(self),
                        *final(self),
                        text("invalid hidden command name \"") + name@ + text("\""),
                    )
                },
            },
    {
        let mut i: usize = 0;
        while i < self.state.hidden.len()
            invariant
                i <= self.state.hidden@.len(),
                *self == *old(self),
                forall|j: int|
                    0 <= j < i ==> (#[trigger] self.state.hidden@[j]).name@ != name@,
            decreases self.state.hidden@.len() - i,
        {
            if same(&self.state.hidden[i].name, name) {
                return Ok(i);
            }
            i = i + 1;
        }
        let msg = framed("invalid hidden command name \"", name, "\"");
        Err(self.error(&msg))
    }
}

/// An interpreter after a command was registered under `name`.
pub open spec fn registered(before: Interp, after: Interp, name: Seq<u8>) -> bool {
    &&& forall|w: Seq<u8>| #[trigger]
        views(after.state.registry_object_roots@).contains(w) <==> views(
            before.state.registry_object_roots@,
        ).contains(w) && w != name
    &&& after.state.guarded_commands@.len() == 0
    &&& after.state.invalidations@ == before.state.invalidations@ + environment_domains()
    &&& after == (Interp {
        state: InterpState {
            registry_object_roots: after.state.registry_object_roots,
            guarded_commands: after.state.guarded_commands,
            invalidations: after.state.invalidations,
            ..before.state
        },
        ..before
    })
}

/// The target and the prefix words of an alias.
pub fn alias_info(cmd: &Option<Command>) -> (r: Option<(Vec<u8>, Vec<Vec<u8>>)>)
    ensures
        match *cmd {
            Some(Command::Alias { target, prefix, .. }) => r matches Some(a) && a.0@ == target@
                && views(a.1@) == views(prefix@),
            _ => r is None,
        },
{
    match cmd {
        Some(Command::Alias { target, prefix, .. }) => Some((copied(target), copied_words(prefix))),
        _ => None,
    }
}

/// What an import of a command keeps: its qualified name, and the ensemble
/// where the command itself is one.
pub fn import_metadata_at(fqn: Option<Vec<u8>>, cmd: &Option<Command>) -> (r: Option<
    (Vec<u8>, Option<u64>),
>)
    ensures
        match (fqn, *cmd) {
            (Some(f), Some(c)) => r == Some(
                (
                    f,
                    match c {
                        Command::Ensemble { token, .. } => Some(token),
                        _ => None,
                    },
                ),
            ),
            _ => r is None,
        },
{
    match (fqn, cmd) {
        (Some(f), Some(c)) => {
            let token = match c {
                Command::Ensemble { token, .. } => Some(*token),
                _ => None,
            };
            Some((f, token))
        },
        _ => None,
    }
}

/// How a command is called.
#[derive(Debug)]
pub enum Invocation {
    /// Through its native handler.
    Native(u64),
    /// By the words of the alias.
    Alias { target: Vec<u8>, prefix: Vec<Vec<u8>> },
    /// As the command that was imported, with the words as they are.
    Redirect(Vec<u8>),
    Ensemble(u64),
    Proc,
    Child(Vec<u8>),
    Object(Vec<u8>),
    ParentAlias { target: Vec<u8>, prefix: Vec<Vec<u8>> },
}

/// Whether `i` is how `cmd` is called; `deleted` says whether the ensemble that
/// an import keeps is gone.
pub open spec fn invokes(cmd: Command, deleted: bool, i: Invocation) -> bool {
    match cmd {
        Command::Builtin(f) => i == Invocation::Native(f),
        Command::Alias { target, prefix, .. } => i matches Invocation::Alias {
            target: t,
            prefix: p,
        } && t@ == target@ && views(p@) == views(prefix@),
        Command::Imported { source, ensemble, .. } => if ensemble is Some && !deleted {
            i == Invocation::Ensemble(ensemble->0)
        } else {
            i matches Invocation::Redirect(s) && s@ == source@
        },
        Command::Ensemble { token, .. } => i == Invocation::Ensemble(token),
        Command::Proc { .. } => i is Proc,
        Command::ChildInterp(n) => i matches Invocation::Child(m) && m@ == n@,
        Command::OoObject(n) => i matches Invocation::Object(m) && m@ == n@,
        Command::ParentAlias { target, prefix, .. } => i matches Invocation::ParentAlias {
            target: t,
            prefix: p,
        } && t@ == target@ && views(p@) == views(prefix@),
    }
}

/// How a command is called.
pub fn invoke(cmd: &Command, deleted: bool) -> (i: Invocation)
    ensures
        invokes(*cmd, deleted, i),
{
    match cmd {
        Command::Builtin(f) => Invocation::Native(*f),
        Command::Alias { target, prefix, .. } => Invocation::Alias {
            target: copied(target),
            prefix: copied_words(prefix),
        },
        Command::Imported { source, ensemble, .. } => match ensemble {
            Some(t) => if deleted {
                Invocation::Redirect(copied(source))
            } else {
                Invocation::Ensemble(*t)
            },
            None => Invocation::Redirect(copied(source)),
        },
        Command::Ensemble { token, .. } => Invocation::Ensemble(*token),
        Command::Proc { .. } => Invocation::Proc,
        Command::ChildInterp(n) => Invocation::Child(copied(n)),
        Command::OoObject(n) => Invocation::Object(copied(n)),
        Command::ParentAlias { target, prefix, .. } => Invocation::ParentAlias {
            target: copied(target),
            prefix: copied_words(prefix),
        },
    }
}

/// What a call of a procedure under `name` brings with it.
pub fn call_proc(def: &ProcDef, name: &[u8]) -> (m: CallMeta)
    ensures
        m.err matches ProcFrame::Proc(n) && n@ == name@,
        opt_view(m.fqn) == Some(def.fqn@),
        opt_view(m.source) == opt_view(def.source),
        m.body_line_base == def.body_line_base,
        m.link_vars@.len() == 0,
        !m.same_level,
        !m.keep_loop_codes,
        m.usage_prefix is None,
        m.level_words is None,
        m.quote_name,
        m.native == def.native,
{
    CallMeta {
        err: ProcFrame::Proc(copied(name)),
        fqn: Some(copied(&def.fqn)),
        source: copied_opt(&def.source),
        body_line_base: def.body_line_base,
        link_vars: Vec::new(),
        same_level: false,
        keep_loop_codes: false,
        usage_prefix: None,
        level_words: None,
        quote_name: true,
        native: def.native,
    }
}

impl Interp {
    /// Begins to make the interpreter safe, before any command is hidden: what
    /// follows may run callbacks, which no guard may survive.
    pub fn begin_make_safe(&mut self)
        ensures
            final(self).state.invalidations@ == old(self).state.invalidations@.push(
                GuardDomain::Interpreter,
            ),
            *final(self) == (Interp {
                state: InterpState {
                    invalidations: final(self).state.invalidations,
                    ..old(self).state
                },
                ..*old(self)
            }),
    {
        self.invalidate_interpreter_policy();
    }

    /// Ends making the interpreter safe: its `clock` becomes the returned alias
    /// for that of the parent, and from here on it is safe.
    pub fn end_make_safe(&mut self, identity: u64) -> (clock: Command)
        ensures
            clock matches Command::ParentAlias { target, prefix, identity: id } && target@ == text(
                "clock",
            ) && prefix@.len() == 0 && id == identity,
            final(self).state.is_safe,
            forall|w: Seq<u8>| #[trigger]
                views(final(self).state.registry_object_roots@).contains(w) <==> views(
                    old(self).state.registry_object_roots@,
                ).contains(w) && w != text("clock"),
            final(self).state.guarded_commands@.len() == 0,
            final(self).state.invalidations@ == old(self).state.invalidations@
                + environment_domains(),
            *final(self) == (Interp {
                state: InterpState {
                    is_safe: true,
                    registry_object_roots: final(self).state.registry_object_roots,
                    guarded_commands: final(self).state.guarded_commands,
                    invalidations: final(self).state.invalidations,
                    ..old(self).state
                },
                ..*old(self)
            }),
    {
        self.ns_register("clock".as_bytes());
        self.state.is_safe = true;
        Command::ParentAlias { target: lit("clock"), prefix: Vec::new(), identity }
    }

    /// Begins the start script of a library directory, as a sourced file of
    /// `commands` commands. `None` stands for a directory without one.
    pub fn init_library(&mut self, library: &[u8], commands: Option<usize>) -> (r: Result<
        ScriptRun,
        Code,
    >)
        ensures
            match commands {
                Some(n) => source_begins(*old(self), *final(self), init_script(library@), n, r),
                None => {
                    &&& r == Err::<ScriptRun, Code>(Code::Error)
                    &&& raised(
                        *old(self),
                        *final(self),
                        text("can't find ") + init_script(library@) + text(" (set TCL_LIBRARY)"),
                    )
                },
            },
    {
        let path = init_path(library);
        match commands {
            Some(n) => self.eval_sourced(&path, n),
            None => {
                let msg = framed("can't find ", &path, " (set TCL_LIBRARY)");
                Err(self.error(&msg))
            },
        }
    }

    /// Begins the creation of an ensemble that is named `name` in the namespace
    /// `ns_name`; `there` is the command in its place. Its delete traces fire; an
    /// ensemble that stands there is then retired, and the imports of either pass
    /// to the new one.
    pub fn create_ensemble(&mut self, ns_name: &[u8], name: &[u8], there: &Option<Command>) -> (r:
        EnsembleCreation)
        ensures
            environment_changed(*old(self), *final(self)),
            r.fqn@ == qualified(ns_name@, name@),
            r.displaced == displacement(*old(self), qualified(ns_name@, name@)),
            r.retire == match *there {
                Some(Command::Ensemble { token, .. }) => Some(token),
                _ => None,
            },
    {
        self.invalidate_command_environment();
        let retire = match there {
            Some(Command::Ensemble { token, .. }) => Some(*token),
            _ => None,
        };
        let fqn = fqn_for(ns_name, name);
        let displaced = self.on_command_replaced(&fqn);
        EnsembleCreation { fqn, displaced, retire }
    }
}

/// An ensemble that is about to be bound.
#[derive(Debug)]
pub struct EnsembleCreation {
    pub fqn: Vec<u8>,
    /// What is to be done for the command that stands in its place.
    pub displaced: Displacement,
    /// The ensemble that stands in its place and is retired after that.
    pub retire: Option<u64>,
}

/// Where the start script of a library directory is.
pub open spec fn init_script(library: Seq<u8>) -> Seq<u8> {
    library + text("/init.tcl")
}

/// Where the start script of a library directory is.
pub fn init_path(library: &[u8]) -> (r: Vec<u8>)
    ensures
        r@ == init_script(library@),
{
    let mut path = copied(library);
    append_text(&mut path, "/init.tcl");
    path
}

/// The qualified name of a command is its name below its namespace: `::` stands
/// between the two, once.
pub proof fn a_bound_name_is_below_its_namespace(ns_name: Seq<u8>, tail: Seq<u8>)
    ensures
        ns_name == text("::") ==> bound_name(ns_name, tail) == text("::") + tail,
        ns_name != text("::") ==> bound_name(ns_name, tail) == ns_name + text("::") + tail,
        ns_name.is_prefix_of(bound_name(ns_name, tail)),
        tail.is_suffix_of(bound_name(ns_name, tail)),
{
    let n = bound_name(ns_name, tail);
    assert(n.take(ns_name.len() as int) =~= ns_name);
    assert(n.skip(n.len() - tail.len()) =~= tail);
}

/// A command is called as what it is: an alias with the words it was made with,
/// an ensemble by its own identity, and an import as the ensemble it keeps, or
/// as its source where it keeps none or that is gone.
pub proof fn a_command_is_called_as_what_it_is(cmd: Command, deleted: bool, i: Invocation)
    requires
        invokes(cmd, deleted, i),
    ensures
        cmd is Alias ==> i is Alias && i->Alias_target@ == cmd->Alias_target@ && views(
            i->Alias_prefix@,
        ) == views(cmd->Alias_prefix@),
        cmd is ParentAlias ==> i is ParentAlias && i->ParentAlias_target@
            == cmd->ParentAlias_target@ && views(i->ParentAlias_prefix@) == views(
            cmd->ParentAlias_prefix@,
        ),
        cmd matches Command::Ensemble { token, .. } ==> i == Invocation::Ensemble(token),
        cmd is Imported && cmd->ensemble is Some && !deleted ==> i == Invocation::Ensemble(
            cmd->ensemble->0,
        ),
        cmd is Imported && (cmd->ensemble is None || deleted) ==> i is Redirect
            && i->Redirect_0@ == cmd->source@,
        cmd matches Command::Builtin(f) ==> i == Invocation::Native(f),
        cmd is Proc ==> i is Proc,
        cmd is ChildInterp ==> i is Child && i->Child_0@ == cmd->ChildInterp_0@,
        cmd is OoObject ==> i is Object && i->Object_0@ == cmd->OoObject_0@,
{
}

/// The delete traces of a command that is displaced fire exactly where one of
/// the traces is on it.
pub proof fn a_traced_command_is_displaced_loudly(i: Interp, fqn: Seq<u8>)
    ensures
        displacement(i, fqn) == Displacement::FireDelete <==> exists|k: int|
            0 <= k < i.state.traces.cmd_traces@.len() && (
            #[trigger] i.state.traces.cmd_traces@[k]).name@ == fqn,
{
    let ts = i.state.traces.cmd_traces@;
    let vs = cmd_trace_views(ts);
    if is_traced(vs, fqn) {
        let k = choose|k: int| 0 <= k < vs.len() && (#[trigger] vs[k]).name == fqn;
        assert(ts[k].name@ == fqn);
    }
    if exists|k: int| 0 <= k < ts.len() && (#[trigger] ts[k]).name@ == fqn {
        let k = choose|k: int| 0 <= k < ts.len() && (#[trigger] ts[k]).name@ == fqn;
        assert(vs[k].name == fqn);
    }
}

/// A procedure is known by the name `tail` in the namespace `ns_name`, and its
/// body by the place where it was written.
pub open spec fn placed(
    d: ProcDef,
    ns_name: Seq<u8>,
    tail: Seq<u8>,
    written: Option<Location>,
) -> bool {
    &&& d.fqn@ == bound_name(ns_name, tail)
    &&& match written {
        Some(l) if l.file is Some => {
            &&& opt_view(d.source) == opt_view(l.file)
            &&& d.body_line_base == before_line(l.line)
        },
        _ => d.source is None && d.body_line_base == 0,
    }
}

/// A procedure that was written in a file has the file's lines: the first line
/// of its body is the one it was written on. One that was not has its own.
pub proof fn a_procedure_keeps_its_place(
    d: ProcDef,
    ns_name: Seq<u8>,
    tail: Seq<u8>,
    written: Option<Location>,
)
    requires
        placed(d, ns_name, tail, written),
    ensures
        written is Some && (written->0).file is Some ==> d.source is Some && d.source->0@ == (
        written->0).file->0@ && ((written->0).line >= 1 ==> d.body_line_base + 1 == (
        written->0).line),
        written is None || (written->0).file is None ==> d.source is None && d.body_line_base
            == 0,
        ns_name != text("::") ==> d.fqn@ == ns_name + text("::") + tail,
        ns_name == text("::") ==> d.fqn@ == text("::") + tail,
{
}

/// The start script of a library directory is `init.tcl` in it.
pub proof fn the_start_script_is_in_the_library(library: Seq<u8>)
    ensures
        init_script(library) == library + text("/init.tcl"),
{
}

} // verus!
