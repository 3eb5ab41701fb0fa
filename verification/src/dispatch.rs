//! From the words of a call to the command that runs.

use vstd::prelude::*;

use crate::bytes::{
    append, append_text, copied, copied_opt, copied_words, framed, has_prefix, holds_word, is_text,
    lit, opt_view, same, starts_with, text, views,
};
use crate::code::Code;
use crate::commands::Command;
use crate::ensemble::invalid_name;
use crate::errors::{raised, raised_with};
use crate::order::{ascending, sorted_words};
use crate::state::{Interp, InterpState, NsId, GLOBAL};
use crate::words::{collapsed, normalize_colons, spaced};

verus! {

/// How deep aliases may lead to aliases.
pub const MAX_ALIAS_DISPATCH_DEPTH: u32 = 128;

/// How deep calls between interpreters may nest.
pub const MAX_CROSS_INTERP_DEPTH: u32 = 80;

/// How many imports are followed from one to the next.
pub const MAX_IMPORT_HOPS: u32 = 64;

/// The words that an alias is called with in place of `argv`.
pub open spec fn aliased(target: Seq<u8>, prefix: Seq<Seq<u8>>, argv: Seq<Seq<u8>>) -> Seq<
    Seq<u8>,
> {
    seq![target] + prefix + argv.skip(1)
}

/// The words of the call that an alias stands for: the target, its prefix, and
/// the arguments of the call.
pub fn alias_words(target: &[u8], prefix: &[Vec<u8>], argv: &[Vec<u8>]) -> (r: Vec<Vec<u8>>)
    requires
        argv@.len() >= 1,
    ensures
        views(r@) == aliased(target@, views(prefix@), views(argv@)),
{
    let mut out: Vec<Vec<u8>> = Vec::new();
    out.push(copied(target));
    append_words(&mut out, prefix, 0);
    append_words(&mut out, argv, 1);
    assert(views(prefix@).skip(0) =~= views(prefix@));
    assert(views(out@) =~= aliased(target@, views(prefix@), views(argv@)));
    out
}

/// Appends `ws[from..]`.
fn append_words(out: &mut Vec<Vec<u8>>, ws: &[Vec<u8>], from: usize)
    requires
        from <= ws@.len(),
    ensures
        views(final(out)@) == views(old(out)@) + views(ws@).skip(from as int),
{
    let ghost start = views(out@);
    let ghost all = views(ws@);
    let mut i: usize = from;
    assert(views(out@) =~= start + all.subrange(from as int, from as int));
    while i < ws.len()
        invariant
            from <= i <= ws@.len(),
            all == views(ws@),
            views(out@) == start + all.subrange(from as int, i as int),
        decreases ws@.len() - i,
    {
        let ghost before = views(out@);
        out.push(copied(&ws[i]));
        assert(views(out@) =~= before.push(all[i as int]));
        assert(all.subrange(from as int, i + 1) =~= all.subrange(from as int, i as int).push(
            all[i as int],
        ));
        i = i + 1;
    }
    assert(all.subrange(from as int, ws@.len() as int) =~= all.skip(from as int));
}

/// What the call of an alias comes to.
#[derive(Debug)]
pub enum AliasStep {
    /// Invoke the target with these words.
    Invoke { command: Command, words: Vec<Vec<u8>> },
    /// The target is missing: dispatch these words, and then come back to the
    /// namespace `saved`.
    Fallback { words: Vec<Vec<u8>>, saved: NsId },
}

/// Whether `r` is what becomes of the call of an alias that runs `words`, where
/// `found` is the command that its target names.
pub open spec fn alias_decided(
    before: Interp,
    after: Interp,
    depth: u32,
    found: Option<Command>,
    words: Seq<Seq<u8>>,
    r: Result<AliasStep, Code>,
) -> bool {
    match r {
        Ok(step) => {
            &&& depth < MAX_ALIAS_DISPATCH_DEPTH
            &&& match found {
                Some(cmd) => {
                    &&& step matches AliasStep::Invoke { command, words: ws } && command == cmd
                        && views(ws@) == words
                    &&& after == before
                },
                None => step matches AliasStep::Fallback { words: ws, saved } && views(ws@)
                    == words && fallback_begun(before, after, saved),
            }
        },
        Err(c) => {
            &&& depth >= MAX_ALIAS_DISPATCH_DEPTH
            &&& c == Code::Error
            &&& raised(
                before,
                after,
                text("too many nested alias invocations (infinite loop?)"),
            )
        },
    }
}

/// Whether `r` is what becomes of the call of an alias that runs `words` in the
/// parent.
pub open spec fn parent_alias_decided(
    before: Interp,
    after: Interp,
    has_parent: bool,
    depth: u32,
    words: Seq<Seq<u8>>,
    r: Result<Vec<Vec<u8>>, Code>,
) -> bool {
    match r {
        Ok(ws) => {
            &&& has_parent
            &&& depth < MAX_CROSS_INTERP_DEPTH
            &&& views(ws@) == words
            &&& after == before
        },
        Err(c) => {
            &&& !has_parent || depth >= MAX_CROSS_INTERP_DEPTH
            &&& c == Code::Error
            &&& raised(
                before,
                after,
                if !has_parent {
                    text("cannot invoke a parent alias from the root interpreter")
                } else {
                    text("too many nested cross-interpreter calls")
                },
            )
        },
    }
}

/// The dispatch of an alias whose target is missing begins: in the global
/// namespace.
pub open spec fn fallback_begun(before: Interp, after: Interp, saved: NsId) -> bool {
    &&& saved == before.state.current_ns
    &&& after == (Interp {
        state: InterpState { current_ns: GLOBAL, ..before.state },
        ..before
    })
}

/// That dispatch ends: back in the namespace of the caller.
pub open spec fn fallback_ended(before: Interp, after: Interp, saved: NsId) -> bool {
    after == (Interp { state: InterpState { current_ns: saved, ..before.state }, ..before })
}

/// An alias whose target is missing asks the global handler for unknown names and
/// never that of the caller's namespace, and leaves the caller in its namespace.
/// `global` is the handler of the global namespace.
pub proof fn a_missing_target_asks_the_global_handler(
    before: Interp,
    inside: Interp,
    ran: Interp,
    after: Interp,
    saved: NsId,
    global: Option<Seq<u8>>,
)
    requires
        fallback_begun(before, inside, saved),
        fallback_ended(ran, after, saved),
    ensures
        inside.state.current_ns == GLOBAL,
        forall|other: Option<Seq<u8>>| #[trigger]
            picked_handler(inside.state.current_ns, global, other) == global,
        after.state.current_ns == before.state.current_ns,
{
}

impl Interp {
    /// Begins the call of an alias, at `depth` aliases deep. `resolved` is the
    /// command that the target names in the global namespace, and `visible` says
    /// that the release has it. A target that is there is invoked; where it is
    /// missing, the words are dispatched in the global namespace, so that the
    /// caller's handler for unknown names does not see them.
    pub fn dispatch_alias(
        &mut self,
        depth: u32,
        resolved: Option<Command>,
        visible: bool,
        target: &[u8],
        prefix: &[Vec<u8>],
        argv: &[Vec<u8>],
    ) -> (r: Result<AliasStep, Code>)
        requires
            argv@.len() >= 1,
        ensures
            alias_decided(
                *old(self),
                *final(self),
                depth,
                dispatchable(old(self).state, resolved, visible),
                aliased(target@, views(prefix@), views(argv@)),
                r,
            ),
    {
        if depth >= MAX_ALIAS_DISPATCH_DEPTH {
            return Err(
                self.error("too many nested alias invocations (infinite loop?)".as_bytes()),
            );
        }
        let words = alias_words(target, prefix, argv);
        match self.resolve_dispatchable(resolved, visible) {
            Some(command) => Ok(AliasStep::Invoke { command, words }),
            None => {
                let saved = self.begin_alias_fallback();
                Ok(AliasStep::Fallback { words, saved })
            },
        }
    }

    /// Goes over to the global namespace, where the words of an alias are
    /// dispatched whose target is missing. Returns the namespace to come back to.
    pub fn begin_alias_fallback(&mut self) -> (saved: NsId)
        ensures
            fallback_begun(*old(self), *final(self), saved),
    {
        let saved = self.state.current_ns;
        self.state.current_ns = GLOBAL;
        saved
    }

    /// Comes back from the global namespace to that of the caller.
    pub fn end_alias_fallback(&mut self, saved: NsId)
        ensures
            fallback_ended(*old(self), *final(self), saved),
    {
        self.state.current_ns = saved;
    }

    /// Begins the call of an alias for a command of the parent, at `depth` calls
    /// between interpreters deep: the words of the call in the parent.
    pub fn dispatch_parent_alias(
        &mut self,
        has_parent: bool,
        depth: u32,
        target: &[u8],
        prefix: &[Vec<u8>],
        argv: &[Vec<u8>],
    ) -> (r: Result<Vec<Vec<u8>>, Code>)
        requires
            argv@.len() >= 1,
        ensures
            parent_alias_decided(
                *old(self),
                *final(self),
                has_parent,
                depth,
                aliased(target@, views(prefix@), views(argv@)),
                r,
            ),
    {
        if !has_parent {
            return Err(
                self.error("cannot invoke a parent alias from the root interpreter".as_bytes()),
            );
        }
        if depth >= MAX_CROSS_INTERP_DEPTH {
            return Err(self.error("too many nested cross-interpreter calls".as_bytes()));
        }
        Ok(alias_words(target, prefix, argv))
    }

    /// Ends the call of an alias for a command of the parent: the parent's result
    /// and completion become those of the call.
    pub fn end_parent_alias(&mut self, code: Code, result: &[u8]) -> (c: Code)
        ensures
            c == code,
            final(self).state.result@ == result@,
            *final(self) == (Interp {
                state: InterpState { result: final(self).state.result, ..old(self).state },
                ..*old(self)
            }),
    {
        self.set_result_bytes(result);
        code
    }

    /// Raises the error for a command name that names nothing.
    pub fn invalid_command(&mut self, name: &[u8]) -> (c: Code)
        ensures
            c == Code::Error,
            raised(*old(self), *final(self), invalid_name(name@)),
    {
        self.error(&framed("invalid command name \"", name, "\""))
    }

    /// Raises the error for a command that is to be traced and does not exist.
    pub fn unknown_command(&mut self, name: &[u8]) -> (c: Code)
        ensures
            c == Code::Error,
            raised(
                *old(self),
                *final(self),
                text("unknown command \"") + name@ + text("\""),
            ),
    {
        self.error(&framed("unknown command \"", name, "\""))
    }

    /// Raises the error for a wrong number of words, given the usage.
    pub fn wrong_args(&mut self, usage: &[u8]) -> (c: Code)
        ensures
            c == Code::Error,
            raised(
                *old(self),
                *final(self),
                text("wrong # args: should be \"") + usage@ + text("\""),
            ),
    {
        self.error(&framed("wrong # args: should be \"", usage, "\""))
    }
}

/// The handler for names that name nothing: that of the current namespace, else
/// that of the global one.
pub open spec fn picked_handler(
    current: NsId,
    own: Option<Seq<u8>>,
    global: Option<Seq<u8>>,
) -> Option<Seq<u8>> {
    if own is Some || current == GLOBAL {
        own
    } else {
        global
    }
}

/// The handler for names that name nothing.
pub fn unknown_handler(current: NsId, own: &Option<Vec<u8>>, global: &Option<Vec<u8>>) -> (r:
    Option<Vec<u8>>)
    ensures
        opt_view(r) == picked_handler(current, opt_view(*own), opt_view(*global)),
{
    if own.is_some() || current == GLOBAL {
        copied_opt(own)
    } else {
        copied_opt(global)
    }
}

/// Whether `r` is what becomes of the call `argv`, whose name names nothing.
pub open spec fn miss_decided(
    before: Interp,
    after: Interp,
    argv: Seq<Seq<u8>>,
    handler: Option<Vec<Vec<u8>>>,
    has_unknown: bool,
    r: MissStep,
) -> bool {
    if argv[0] == text("unknown") || (handler is None && !has_unknown) {
        r is Failed && raised(before, after, invalid_name(argv[0]))
    } else {
        after == before && match handler {
            Some(h) => r matches MissStep::Dispatch(ws) && views(ws@) == views(h@) + argv,
            None => r matches MissStep::Unknown(ws) && views(ws@) == seq![text("unknown")] + argv,
        }
    }
}

/// What becomes of a call whose name names nothing.
#[derive(Debug)]
pub enum MissStep {
    /// Dispatch these words.
    Dispatch(Vec<Vec<u8>>),
    /// Invoke the command `unknown` with these words.
    Unknown(Vec<Vec<u8>>),
    /// An error was raised.
    Failed,
}

impl Interp {
    /// Decides what becomes of a call whose name names nothing. `handler` are
    /// the words of the handler, `None` where there is none or it is no list;
    /// `has_unknown` says that there is a global command `unknown`.
    pub fn dispatch_miss(
        &mut self,
        argv: &[Vec<u8>],
        handler: &Option<Vec<Vec<u8>>>,
        has_unknown: bool,
    ) -> (r: MissStep)
        requires
            argv@.len() >= 1,
        ensures
            miss_decided(*old(self), *final(self), views(argv@), *handler, has_unknown, r),
    {
        if !is_text(&argv[0], "unknown") {
            if let Some(h) = handler {
                let mut ws = copied_words(h);
                append_words(&mut ws, argv, 0);
                assert(views(argv@).skip(0) =~= views(argv@));
                return MissStep::Dispatch(ws);
            }
            if has_unknown {
                let mut ws: Vec<Vec<u8>> = Vec::new();
                ws.push(lit("unknown"));
                append_words(&mut ws, argv, 0);
                assert(views(argv@).skip(0) =~= views(argv@));
                assert(views(ws@) =~= seq![text("unknown")] + views(argv@));
                return MissStep::Unknown(ws);
            }
        }
        self.invalid_command(&argv[0]);
        MissStep::Failed
    }

    /// Marks a command as an object that comes with the release.
    pub fn declare_registry_object_root(&mut self, fqn: &[u8])
        ensures
            forall|w: Seq<u8>| #[trigger]
                views(final(self).state.registry_object_roots@).contains(w) <==> views(
                    old(self).state.registry_object_roots@,
                ).contains(w) || w == fqn@,
            *final(self) == (Interp {
                state: InterpState {
                    registry_object_roots: final(self).state.registry_object_roots,
                    ..old(self).state
                },
                ..*old(self)
            }),
    {
        let ghost before = views(self.state.registry_object_roots@);
        self.state.registry_object_roots.push(copied(fqn));
        proof {
            let after = views(self.state.registry_object_roots@);
            assert(after =~= before.push(fqn@));
            assert forall|w: Seq<u8>| #[trigger]
                after.contains(w) <==> before.contains(w) || w == fqn@ by {
                if before.contains(w) {
                    let k = choose|k: int| 0 <= k < before.len() && before[k] == w;
                    assert(after[k] == w);
                }
                assert(after[before.len() as int] == fqn@);
            }
        }
    }

    /// Takes that mark off: the name is from then on like any other.
    pub fn forget_registry_object_root(&mut self, fqn: &[u8])
        ensures
            forall|w: Seq<u8>| #[trigger]
                views(final(self).state.registry_object_roots@).contains(w) <==> views(
                    old(self).state.registry_object_roots@,
                ).contains(w) && w != fqn@,
            *final(self) == (Interp {
                state: InterpState {
                    registry_object_roots: final(self).state.registry_object_roots,
                    ..old(self).state
                },
                ..*old(self)
            }),
    {
        let ghost before = views(self.state.registry_object_roots@);
        let mut kept: Vec<Vec<u8>> = Vec::new();
        let mut i: usize = 0;
        while i < self.state.registry_object_roots.len()
            invariant
                i <= self.state.registry_object_roots@.len(),
                *self == *old(self),
                before == views(self.state.registry_object_roots@),
                forall|w: Seq<u8>| #[trigger]
                    views(kept@).contains(w) <==> before.take(i as int).contains(w) && w != fqn@,
            decreases self.state.registry_object_roots@.len() - i,
        {
            let ghost was = views(kept@);
            let w0 = &self.state.registry_object_roots[i];
            let keep = !same(w0, fqn);
            if keep {
                kept.push(copied(w0));
                assert(views(kept@) =~= was.push(w0@));
            }
            proof {
                let now = views(kept@);
                let part = before.take(i as int);
                let next = before.take(i + 1);
                assert(next =~= part.push(w0@));
                assert forall|w: Seq<u8>| #[trigger]
                    now.contains(w) <==> next.contains(w) && w != fqn@ by {
                    assert(was.contains(w) <==> part.contains(w) && w != fqn@);
                    if was.contains(w) {
                        let k = choose|k: int| 0 <= k < was.len() && was[k] == w;
                        assert(now[k] == w);
                    }
                    if keep {
                        assert(now[was.len() as int] == w0@);
                    }
                    if now.contains(w) {
                        let k = choose|k: int| 0 <= k < now.len() && now[k] == w;
                        if k < was.len() {
                            assert(was[k] == w);
                        }
                    }
                    if part.contains(w) {
                        let k = choose|k: int| 0 <= k < part.len() && part[k] == w;
                        assert(next[k] == w);
                    }
                    assert(next[i as int] == w0@);
                    if next.contains(w) && w != w0@ {
                        let k = choose|k: int| 0 <= k < next.len() && next[k] == w;
                        assert(part[k] == w);
                    }
                }
            }
            i = i + 1;
        }
        assert(before.take(i as int) =~= before);
        self.state.registry_object_roots = kept;
    }

    /// Whether the release decides if a command is there: native handlers, and
    /// the objects that come with the release.
    pub fn is_release_gated(&self, cmd: &Command) -> (r: bool)
        ensures
            r == gated(self.state, *cmd),
    {
        match cmd {
            Command::Builtin(_) => true,
            Command::OoObject(fqn) => holds_word(&self.state.registry_object_roots, fqn),
            _ => false,
        }
    }

    /// The command that a name names, where the release has it. `visible` says
    /// that the release has the command of that qualified name.
    pub fn resolve_dispatchable(&self, resolved: Option<Command>, visible: bool) -> (r: Option<
        Command,
    >)
        ensures
            r == dispatchable(self.state, resolved, visible),
    {
        match resolved {
            Some(c) => {
                if self.is_release_gated(&c) && !visible {
                    None
                } else {
                    Some(c)
                }
            },
            None => None,
        }
    }

    /// The command that an import stands for, which is called with the words of
    /// the call. `resolved` is what its source names in the global namespace; a
    /// source that the release does not have is as missing as any other.
    pub fn dispatch_import(&mut self, source: &[u8], resolved: Option<Command>, visible: bool) -> (r:
        Result<Command, Code>)
        ensures
            match dispatchable(old(self).state, resolved, visible) {
                Some(c) => r == Ok::<Command, Code>(c) && *final(self) == *old(self),
                None => {
                    &&& r == Err::<Command, Code>(Code::Error)
                    &&& raised(*old(self), *final(self), invalid_name(source@))
                },
            },
    {
        match self.resolve_dispatchable(resolved, visible) {
            Some(c) => Ok(c),
            None => Err(self.invalid_command(source)),
        }
    }

    /// Whether `fqn` is an object that the release does not have, so that its
    /// name is free.
    pub fn is_gate_hidden_object_root(&self, fqn: &[u8], visible: bool) -> (r: bool)
        ensures
            r == (views(self.state.registry_object_roots@).contains(fqn@) && !visible),
    {
        holds_word(&self.state.registry_object_roots, fqn) && !visible
    }

    /// The names of a namespace's commands that the release has.
    pub fn visible_command_names_in(&self, entries: &[NamedCommand]) -> (r: Vec<Vec<u8>>)
        ensures
            views(r@) == listed_names(self.state, entries@),
    {
        let mut out: Vec<Vec<u8>> = Vec::new();
        let mut i: usize = 0;
        assert(views(out@) =~= listed_names(self.state, entries@.take(0)));
        while i < entries.len()
            invariant
                i <= entries@.len(),
                views(out@) == listed_names(self.state, entries@.take(i as int)),
            decreases entries@.len() - i,
        {
            let e = &entries[i];
            assert(entries@.take(i + 1).last() == *e);
            assert(entries@.take(i + 1).drop_last() =~= entries@.take(i as int));
            let ghost before = views(out@);
            let is_gated = match &e.command {
                Some(c) => self.is_release_gated(c),
                None => false,
            };
            if !is_gated || e.visible {
                out.push(copied(&e.name));
                assert(views(out@) =~= before.push(e.name@));
            }
            i = i + 1;
        }
        assert(entries@.take(i as int) =~= entries@);
        out
    }
}

/// The command that a name names, where the release has it.
pub open spec fn dispatchable(
    s: InterpState,
    resolved: Option<Command>,
    visible: bool,
) -> Option<Command> {
    match resolved {
        Some(c) => if gated(s, c) && !visible {
            None
        } else {
            Some(c)
        },
        None => None,
    }
}

/// Whether the release decides if a command is there.
pub open spec fn gated(s: InterpState, c: Command) -> bool {
    match c {
        Command::Builtin(_) => true,
        Command::OoObject(fqn) => views(s.registry_object_roots@).contains(fqn@),
        _ => false,
    }
}

/// A name bound in a namespace, the command it names, and whether the release
/// has the command of that qualified name.
#[derive(Debug)]
pub struct NamedCommand {
    pub name: Vec<u8>,
    pub command: Option<Command>,
    pub visible: bool,
}

/// The names that may be listed, in order.
pub open spec fn listed_names(s: InterpState, es: Seq<NamedCommand>) -> Seq<Seq<u8>>
    decreases es.len(),
{
    if es.len() == 0 {
        Seq::empty()
    } else {
        let before = listed_names(s, es.drop_last());
        let e = es.last();
        if (e.command matches Some(c) && gated(s, c)) && !e.visible {
            before
        } else {
            before.push(e.name@)
        }
    }
}

/// The names of a namespace's imported commands, in order.
pub fn imported_command_tails(entries: &[NamedCommand]) -> (r: Vec<Vec<u8>>)
    ensures
        ascending(views(r@)),
        forall|w: Seq<u8>| #[trigger]
            views(r@).contains(w) <==> exists|i: int|
                0 <= i < entries@.len() && (#[trigger] entries@[i]).name@ == w
                    && is_import(entries@[i].command),
{
    let mut names: Vec<Vec<u8>> = Vec::new();
    let mut i: usize = 0;
    while i < entries.len()
        invariant
            i <= entries@.len(),
            forall|w: Seq<u8>| #[trigger]
                views(names@).contains(w) <==> exists|j: int|
                    0 <= j < i && (#[trigger] entries@[j]).name@ == w && is_import(
                        entries@[j].command,
                    ),
        decreases entries@.len() - i,
    {
        let e = &entries[i];
        let ghost was = views(names@);
        let hit = match &e.command {
            Some(Command::Imported { .. }) => true,
            _ => false,
        };
        if hit {
            names.push(copied(&e.name));
            assert(views(names@) =~= was.push(e.name@));
        }
        proof {
            let now = views(names@);
            assert forall|w: Seq<u8>| #[trigger]
                now.contains(w) <==> exists|j: int|
                    0 <= j < i + 1 && (#[trigger] entries@[j]).name@ == w && is_import(
                        entries@[j].command,
                    ) by {
                if was.contains(w) {
                    let k = choose|k: int| 0 <= k < was.len() && was[k] == w;
                    assert(now[k] == w);
                }
                if hit {
                    assert(now[was.len() as int] == e.name@);
                    assert(entries@[i as int].name@ == e.name@);
                }
                if now.contains(w) {
                    let k = choose|k: int| 0 <= k < now.len() && now[k] == w;
                    if k < was.len() {
                        assert(was[k] == w);
                        assert(was.contains(w));
                    }
                }
                if exists|j: int|
                    0 <= j < i + 1 && (#[trigger] entries@[j]).name@ == w && is_import(
                        entries@[j].command,
                    ) {
                    let j = choose|j: int|
                        0 <= j < i + 1 && (#[trigger] entries@[j]).name@ == w && is_import(
                            entries@[j].command,
                        );
                    if j < i {
                        assert(was.contains(w));
                    }
                }
            }
        }
        i = i + 1;
    }
    sorted_words(&names)
}

/// Whether a command is an imported one.
pub open spec fn is_import(c: Option<Command>) -> bool {
    c matches Some(Command::Imported { .. })
}

/// The kind that `info cmdtype` reports. `special` is the kind of a native
/// handler that reports its own.
pub open spec fn command_kind(c: Command, special: Option<Seq<u8>>) -> Seq<u8> {
    match c {
        Command::Builtin(_) => match special {
            Some(k) => k,
            None => text("native"),
        },
        Command::Proc { .. } => text("proc"),
        Command::Alias { .. } | Command::ParentAlias { .. } => text("alias"),
        Command::Imported { .. } => text("import"),
        Command::Ensemble { .. } => text("ensemble"),
        Command::OoObject(_) => text("object"),
        Command::ChildInterp(_) => text("interp"),
    }
}

/// The kind that `info cmdtype` reports, `None` for no command. `coroutine`
/// says that the command resumes a coroutine, `private_kind` is the kind of an
/// object's private command.
pub fn cmdtype(resolved: &Option<Command>, coroutine: bool, private_kind: &Option<Vec<u8>>) -> (r:
    Option<Vec<u8>>)
    ensures
        opt_view(r) == match *resolved {
            Some(c) => Some(
                command_kind(
                    c,
                    if coroutine {
                        Some(text("coroutine"))
                    } else {
                        opt_view(*private_kind)
                    },
                ),
            ),
            None => None,
        },
{
    match resolved {
        None => None,
        Some(c) => Some(
            match c {
                Command::Builtin(_) => {
                    if coroutine {
                        lit("coroutine")
                    } else {
                        match private_kind {
                            Some(k) => copied(k),
                            None => lit("native"),
                        }
                    }
                },
                Command::Proc { .. } => lit("proc"),
                Command::Alias { .. } | Command::ParentAlias { .. } => lit("alias"),
                Command::Imported { .. } => lit("import"),
                Command::Ensemble { .. } => lit("ensemble"),
                Command::OoObject(_) => lit("object"),
                Command::ChildInterp(_) => lit("interp"),
            },
        ),
    }
}

/// The qualified name of a command or object that is named `name` in the
/// namespace `ns_name`.
pub open spec fn qualified(ns_name: Seq<u8>, name: Seq<u8>) -> Seq<u8> {
    if starts_with(name, text("::")) {
        collapsed(name)
    } else if ns_name == text("::") {
        collapsed(ns_name + name)
    } else {
        collapsed(ns_name + text("::") + name)
    }
}

/// The qualified name of a command or object.
pub fn fqn_for(ns_name: &[u8], name: &[u8]) -> (r: Vec<u8>)
    ensures
        r@ == qualified(ns_name@, name@),
{
    if has_prefix(name, "::".as_bytes()) {
        return normalize_colons(name);
    }
    let mut fqn = copied(ns_name);
    if !is_text(ns_name, "::") {
        append_text(&mut fqn, "::");
    }
    append(&mut fqn, name);
    normalize_colons(&fqn)
}

/// A qualified name is normalized.
pub proof fn qualified_names_are_normal(ns_name: Seq<u8>, name: Seq<u8>)
    ensures
        collapsed(qualified(ns_name, name)) == qualified(ns_name, name),
{
    if starts_with(name, text("::")) {
        crate::words::collapsed_twice(name);
    } else if ns_name == text("::") {
        crate::words::collapsed_twice(ns_name + name);
    } else {
        crate::words::collapsed_twice(ns_name + text("::") + name);
    }
}

/// The next hop from one import to what it imports.
#[derive(Debug)]
pub enum ImportHop {
    /// Look this name up in the global namespace.
    Follow(Vec<u8>),
    /// The ensemble that is reached.
    Ensemble(u64),
    /// The procedure that was looked for is this command.
    Found,
    /// Nothing more to follow.
    Stop,
}

/// One hop of the search for the ensemble behind a command, after `hops`
/// others. `deleted` says that the ensemble which an import keeps is gone.
pub fn ensemble_hop(hops: u32, cmd: &Command, deleted: bool) -> (r: ImportHop)
    ensures
        hops_to_ensemble(hops, *cmd, deleted, r),
{
    if hops >= MAX_IMPORT_HOPS {
        return ImportHop::Stop;
    }
    match cmd {
        Command::Ensemble { token, .. } => ImportHop::Ensemble(*token),
        Command::Imported { source, ensemble, .. } => {
            if let Some(t) = ensemble {
                if !deleted {
                    return ImportHop::Ensemble(*t);
                }
            }
            ImportHop::Follow(copied(source))
        },
        _ => ImportHop::Stop,
    }
}

/// One hop of the search for the procedure behind a command, after `hops`
/// others.
pub fn proc_hop(hops: u32, cmd: &Command, deleted: bool) -> (r: ImportHop)
    ensures
        hops_to_proc(hops, *cmd, deleted, r),
{
    if hops >= MAX_IMPORT_HOPS {
        return ImportHop::Stop;
    }
    match cmd {
        Command::Proc { .. } => ImportHop::Found,
        Command::Imported { source, ensemble, .. } => {
            if ensemble.is_none() || deleted {
                ImportHop::Follow(copied(source))
            } else {
                ImportHop::Stop
            }
        },
        _ => ImportHop::Stop,
    }
}

/// The name that an imported command comes from, one hop away.
pub open spec fn origin_after(
    hops: u32,
    cmd: Option<Command>,
    ensemble_name: Option<Seq<u8>>,
) -> Option<Seq<u8>> {
    match cmd {
        Some(Command::Imported { source, ensemble, .. }) => if hops >= MAX_IMPORT_HOPS {
            None
        } else if ensemble is Some && ensemble_name is Some {
            ensemble_name
        } else {
            Some(source@)
        },
        _ => None,
    }
}

/// One hop towards the command that an imported one ultimately comes from.
/// `ensemble_name` is the name of the ensemble that an import keeps, `None`
/// where it is gone.
pub fn origin_hop(hops: u32, cmd: &Option<Command>, ensemble_name: &Option<Vec<u8>>) -> (r: Option<
    Vec<u8>,
>)
    ensures
        opt_view(r) == origin_after(hops, *cmd, opt_view(*ensemble_name)),
{
    match cmd {
        Some(Command::Imported { source, ensemble, .. }) => {
            if hops >= MAX_IMPORT_HOPS {
                return None;
            }
            if ensemble.is_some() {
                if let Some(n) = ensemble_name {
                    return Some(copied(n));
                }
            }
            Some(copied(source))
        },
        _ => None,
    }
}

/// The path to the interpreter that an alias of the interpreter at `path` leads
/// to.
pub open spec fn alias_leads_to(path: Seq<Seq<u8>>, resolved: Option<Command>) -> Option<
    Seq<Seq<u8>>,
> {
    match resolved {
        Some(Command::Alias { .. }) => Some(path),
        Some(Command::ParentAlias { .. }) => Some(
            if path.len() == 0 {
                path
            } else {
                path.drop_last()
            },
        ),
        _ => None,
    }
}

/// The path, from the interpreter that asks, to the interpreter that an alias
/// leads to: an alias leads to its own interpreter or to that one's parent.
pub fn alias_target_path(path: &[Vec<u8>], resolved: &Option<Command>) -> (r: Option<
    Vec<Vec<u8>>,
>)
    ensures
        match r {
            Some(p) => alias_leads_to(views(path@), *resolved) == Some(views(p@)),
            None => alias_leads_to(views(path@), *resolved) is None,
        },
{
    match resolved {
        Some(Command::Alias { .. }) => Some(copied_words(path)),
        Some(Command::ParentAlias { .. }) => {
            let mut p = copied_words(path);
            assert(views(p@).len() == p@.len());
            assert(views(path@).len() == path@.len());
            let ghost before = views(p@);
            p.pop();
            assert(path@.len() > 0 ==> views(p@) =~= before.drop_last());
            assert(path@.len() == 0 ==> views(p@) =~= before);
            Some(p)
        },
        _ => None,
    }
}

impl Interp {
    /// The call of a math function by its relative name, or the error where
    /// there is none. `element` is that name as a list element.
    pub fn eval_math_call(
        &mut self,
        fname: &[u8],
        args: &[Vec<u8>],
        found: bool,
        element: &[u8],
    ) -> (r: Option<Vec<Vec<u8>>>)
        ensures
            ({
                let rel = text("tcl::mathfunc::") + fname@;
                match r {
                    Some(ws) => found && views(ws@) == seq![rel] + views(args@) && *final(self)
                        == *old(self),
                    None => !found && raised_with(
                        *old(self),
                        *final(self),
                        text("invalid command name \"tcl::mathfunc::") + fname@ + text("\""),
                        spaced(
                            seq![text("TCL"), text("LOOKUP"), text("COMMAND"), element@],
                        ),
                    ),
                }
            }),
    {
        if !found {
            let m = framed("invalid command name \"tcl::mathfunc::", fname, "\"");
            let code = crate::ensemble::lookup_code("COMMAND", element);
            self.error_with_code(&m, &code);
            return None;
        }
        let mut rel = lit("tcl::mathfunc::");
        append(&mut rel, fname);
        let mut ws: Vec<Vec<u8>> = Vec::new();
        ws.push(rel);
        append_words(&mut ws, args, 0);
        assert(views(args@).skip(0) =~= views(args@));
        assert(views(ws@) =~= seq![text("tcl::mathfunc::") + fname@] + views(args@));
        Some(ws)
    }
}

/// An alias runs its target, then the words that the alias was made with, then
/// the words of the call behind the alias's own name: as if the call had been
/// written with those in the name's place.
pub proof fn an_alias_runs_its_words_and_the_call(made: Seq<Seq<u8>>, call: Seq<Seq<u8>>)
    requires
        made.len() >= 1,
        call.len() >= 1,
    ensures
        ({
            let ws = aliased(made[0], made.skip(1), call);
            &&& ws.len() == made.len() + call.len() - 1
            &&& ws.take(made.len() as int) == made
            &&& seq![call[0]] + ws.skip(made.len() as int) == call
        }),
{
    let ws = aliased(made[0], made.skip(1), call);
    assert(ws.take(made.len() as int) =~= made);
    assert(seq![call[0]] + ws.skip(made.len() as int) =~= call);
}

/// An alias of an alias runs the words of both, the inner ones first.
pub proof fn aliases_compose(
    outer: Seq<Seq<u8>>,
    inner: Seq<Seq<u8>>,
    call: Seq<Seq<u8>>,
)
    requires
        outer.len() >= 1,
        inner.len() >= 1,
        call.len() >= 1,
    ensures
        aliased(inner[0], inner.skip(1), aliased(outer[0], outer.skip(1), call)) == inner
            + outer.skip(1) + call.skip(1),
{
    assert(aliased(inner[0], inner.skip(1), aliased(outer[0], outer.skip(1), call)) =~= inner
        + outer.skip(1) + call.skip(1));
}

/// The handler of the current namespace is the one asked wherever it has one;
/// the global one is asked only by another namespace that has none.
pub proof fn the_nearest_handler_is_asked(
    current: NsId,
    own: Option<Seq<u8>>,
    global: Option<Seq<u8>>,
)
    ensures
        own is Some ==> picked_handler(current, own, global) == own,
        own is None && current != GLOBAL ==> picked_handler(current, own, global) == global,
        own is None && current == GLOBAL ==> picked_handler(current, own, global) is None,
{
}

/// Only what the release provides can be missing from it: a procedure, an
/// alias, an import, an ensemble and a child are there whenever their name is
/// bound, and a builtin wherever the release has it.
pub proof fn a_release_hides_only_its_own(s: InterpState, c: Command, visible: bool)
    ensures
        visible ==> dispatchable(s, Some(c), visible) == Some(c),
        !(c is Builtin) && !(c is OoObject) ==> dispatchable(s, Some(c), visible) == Some(c),
        c is Builtin && !visible ==> dispatchable(s, Some(c), visible) is None,
        c matches Command::OoObject(fqn) ==> (dispatchable(s, Some(c), visible) is None <==>
            !visible && views(s.registry_object_roots@).contains(fqn@)),
        dispatchable(s, None, visible) is None,
{
}

/// Names are listed in the order in which they are held, and all but those of
/// commands that the release does not have.
pub proof fn names_are_listed_in_order(s: InterpState, a: Seq<NamedCommand>, b: Seq<NamedCommand>)
    ensures
        listed_names(s, a + b) == listed_names(s, a) + listed_names(s, b),
    decreases b.len(),
{
    if b.len() == 0 {
        assert(a + b =~= a);
        assert(listed_names(s, a) + listed_names(s, b) =~= listed_names(s, a));
    } else {
        assert((a + b).drop_last() =~= a + b.drop_last());
        names_are_listed_in_order(s, a, b.drop_last());
        assert(listed_names(s, a + b) =~= listed_names(s, a) + listed_names(s, b));
    }
}

/// A name is left out exactly when it names a command that the release does not
/// have.
pub proof fn a_name_is_listed_if_its_command_is_there(s: InterpState, e: NamedCommand)
    ensures
        e.command is None ==> listed_names(s, seq![e]) == seq![e.name@],
        e.command matches Some(c) ==> listed_names(s, seq![e]) == if dispatchable(
            s,
            Some(c),
            e.visible,
        ) is Some {
            seq![e.name@]
        } else {
            Seq::empty()
        },
{
    reveal_with_fuel(listed_names, 2);
    assert(seq![e].drop_last() =~= Seq::<NamedCommand>::empty());
    assert(Seq::<Seq<u8>>::empty().push(e.name@) =~= seq![e.name@]);
}

/// A name that is written from the root is itself; any other is below the
/// namespace it is used in, with `::` between the two.
pub proof fn a_relative_name_is_below_its_namespace(ns_name: Seq<u8>, name: Seq<u8>)
    ensures
        starts_with(name, text("::")) ==> qualified(ns_name, name) == collapsed(name),
        !starts_with(name, text("::")) && ns_name == text("::") ==> qualified(ns_name, name)
            == collapsed(text("::") + name),
        !starts_with(name, text("::")) && ns_name != text("::") ==> qualified(ns_name, name)
            == collapsed(ns_name + text("::") + name),
{
}

/// Whether `r` is the hop from `cmd` towards the ensemble behind it.
pub open spec fn hops_to_ensemble(hops: u32, cmd: Command, deleted: bool, r: ImportHop) -> bool {
    if hops >= MAX_IMPORT_HOPS {
        r is Stop
    } else {
        match cmd {
            Command::Ensemble { token, .. } => r == ImportHop::Ensemble(token),
            Command::Imported { source, ensemble, .. } => match ensemble {
                Some(t) => if deleted {
                    r matches ImportHop::Follow(s) && s@ == source@
                } else {
                    r == ImportHop::Ensemble(t)
                },
                None => r matches ImportHop::Follow(s) && s@ == source@,
            },
            _ => r is Stop,
        }
    }
}

/// Whether `r` is the hop from `cmd` towards the procedure behind it.
pub open spec fn hops_to_proc(hops: u32, cmd: Command, deleted: bool, r: ImportHop) -> bool {
    if hops >= MAX_IMPORT_HOPS {
        r is Stop
    } else {
        match cmd {
            Command::Proc { .. } => r is Found,
            Command::Imported { source, ensemble, .. } => if ensemble is None || deleted {
                r matches ImportHop::Follow(s) && s@ == source@
            } else {
                r is Stop
            },
            _ => r is Stop,
        }
    }
}

/// A call whose name names nothing goes to the handler of its namespace: the
/// handler's words, and then all the words of the call in their order. Where
/// there is no handler it goes to `unknown` in the same way, and where there is
/// neither, or `unknown` itself is what is missing, it fails with its own name.
pub proof fn a_missing_command_is_handed_on_whole(
    before: Interp,
    after: Interp,
    argv: Seq<Seq<u8>>,
    handler: Option<Vec<Vec<u8>>>,
    has_unknown: bool,
    r: MissStep,
)
    requires
        argv.len() >= 1,
        miss_decided(before, after, argv, handler, has_unknown, r),
    ensures
        argv[0] != text("unknown") && handler is Some ==> {
            &&& r is Dispatch
            &&& views(r->Dispatch_0@).take(handler->0@.len() as int) == views(handler->0@)
            &&& views(r->Dispatch_0@).skip(handler->0@.len() as int) == argv
            &&& after == before
        },
        argv[0] != text("unknown") && handler is None && has_unknown ==> {
            &&& r is Unknown
            &&& views(r->Unknown_0@).len() == argv.len() + 1
            &&& views(r->Unknown_0@)[0] == text("unknown")
            &&& views(r->Unknown_0@).skip(1) == argv
            &&& after == before
        },
        argv[0] == text("unknown") || (handler is None && !has_unknown) ==> r is Failed
            && after.state.result@ == text("invalid command name \"") + argv[0] + text("\""),
{
    if let Some(h) = handler {
        assert((views(h@) + argv).take(h@.len() as int) =~= views(h@));
        assert((views(h@) + argv).skip(h@.len() as int) =~= argv);
    }
    assert((seq![text("unknown")] + argv).skip(1) =~= argv);
}

/// An alias invokes the command its target names. Where the target names none,
/// its words are dispatched anew, in the global namespace. Either way they are
/// the words it was made with and those of the call; too deep a nesting fails.
pub proof fn an_alias_invokes_its_target(
    before: Interp,
    after: Interp,
    depth: u32,
    found: Option<Command>,
    made: Seq<Seq<u8>>,
    call: Seq<Seq<u8>>,
    r: Result<AliasStep, Code>,
)
    requires
        made.len() >= 1,
        call.len() >= 1,
        alias_decided(before, after, depth, found, aliased(made[0], made.skip(1), call), r),
    ensures
        depth < MAX_ALIAS_DISPATCH_DEPTH ==> r is Ok,
        depth >= MAX_ALIAS_DISPATCH_DEPTH ==> r == Err::<AliasStep, Code>(Code::Error),
        r is Ok && found is Some ==> {
            &&& r->Ok_0 is Invoke
            &&& r->Ok_0->command == found->0
            &&& views(r->Ok_0->Invoke_words@) == made + call.skip(1)
            &&& after == before
        },
        r is Ok && found is None ==> {
            &&& r->Ok_0 is Fallback
            &&& views(r->Ok_0->Fallback_words@) == made + call.skip(1)
            &&& r->Ok_0->saved == before.state.current_ns
            &&& after.state.current_ns == GLOBAL
            &&& after.state.result == before.state.result
        },
{
    assert(seq![made[0]] + made.skip(1) =~= made);
}

/// An alias to the parent runs its words there, and fails where there is no
/// parent or the calls between interpreters nest too deep.
pub proof fn a_parent_alias_needs_a_parent(
    before: Interp,
    after: Interp,
    has_parent: bool,
    depth: u32,
    made: Seq<Seq<u8>>,
    call: Seq<Seq<u8>>,
    r: Result<Vec<Vec<u8>>, Code>,
)
    requires
        made.len() >= 1,
        call.len() >= 1,
        parent_alias_decided(
            before,
            after,
            has_parent,
            depth,
            aliased(made[0], made.skip(1), call),
            r,
        ),
    ensures
        r is Ok <==> has_parent && depth < MAX_CROSS_INTERP_DEPTH,
        r is Ok ==> views(r->Ok_0@) == made + call.skip(1) && after == before,
        r is Err ==> r->Err_0 == Code::Error,
        !has_parent ==> after.state.result@ == text(
            "cannot invoke a parent alias from the root interpreter",
        ),
{
    assert(seq![made[0]] + made.skip(1) =~= made);
}

/// An alias leads to the interpreter it is in, and an alias to the parent one
/// step back on the path; what is no alias leads nowhere.
pub proof fn an_alias_leads_back_to_the_parent(
    path: Seq<Seq<u8>>,
    name: Seq<u8>,
    c: Command,
)
    ensures
        c is Alias ==> alias_leads_to(path, Some(c)) == Some(path),
        c is ParentAlias ==> alias_leads_to(path.push(name), Some(c)) == Some(path),
        !(c is Alias) && !(c is ParentAlias) ==> alias_leads_to(path, Some(c)) is None,
        alias_leads_to(path, None) is None,
{
    assert(path.push(name).drop_last() =~= path);
}

/// An import is followed to its source until what is searched for is found; an
/// ensemble that an import keeps is found at once. What is neither ends the
/// search, and so does too long a chain.
pub proof fn an_import_is_followed_to_its_source(
    hops: u32,
    cmd: Command,
    deleted: bool,
    e: ImportHop,
    p: ImportHop,
)
    requires
        hops < MAX_IMPORT_HOPS,
        hops_to_ensemble(hops, cmd, deleted, e),
        hops_to_proc(hops, cmd, deleted, p),
    ensures
        cmd is Ensemble ==> e == ImportHop::Ensemble(cmd->token) && p is Stop,
        cmd is Proc ==> p is Found && e is Stop,
        cmd is Imported && (cmd->ensemble is None || deleted) ==> e is Follow && p is Follow
            && e->Follow_0@ == cmd->source@ && p->Follow_0@ == cmd->source@,
        cmd is Imported && cmd->ensemble is Some && !deleted ==> e == ImportHop::Ensemble(
            cmd->ensemble->0,
        ) && p is Stop,
        !(cmd is Imported) && !(cmd is Ensemble) && !(cmd is Proc) ==> e is Stop && p is Stop,
{
}

/// The origin of an import is its source, or the name that the ensemble it keeps
/// has now; what is no import has none.
pub proof fn an_origin_is_the_source(hops: u32, cmd: Command, name: Seq<u8>)
    requires
        hops < MAX_IMPORT_HOPS,
    ensures
        cmd is Imported && cmd->ensemble is None ==> origin_after(hops, Some(cmd), Some(name))
            == Some(cmd->source@),
        cmd is Imported && cmd->ensemble is Some ==> origin_after(hops, Some(cmd), Some(name))
            == Some(name),
        cmd is Imported ==> origin_after(hops, Some(cmd), None) == Some(cmd->source@),
        !(cmd is Imported) ==> origin_after(hops, Some(cmd), Some(name)) is None,
{
}

/// The kind that each command is reported as. Only a native handler may report
/// a kind of its own.
pub proof fn a_command_is_reported_as_its_kind(c: Command, special: Option<Seq<u8>>)
    ensures
        command_kind(c, special) == match c {
            Command::Proc { .. } => text("proc"),
            Command::Alias { .. } => text("alias"),
            Command::ParentAlias { .. } => text("alias"),
            Command::Imported { .. } => text("import"),
            Command::Ensemble { .. } => text("ensemble"),
            Command::OoObject(_) => text("object"),
            Command::ChildInterp(_) => text("interp"),
            Command::Builtin(_) => if special is Some {
                special->0
            } else {
                text("native")
            },
        },
{
}

} // verus!
