//! Child interpreters: the commands they answer to, and their lifetime.

use vstd::prelude::*;

use crate::bytes::{
    append, append_text, copied, framed, is_text, lit, same, tail_words, text, views,
};
use crate::code::Code;
use crate::dispatch::aliased;
use crate::errors::raised;
use crate::number::{decimal, decimal_round_trip, decimal_usize};
use crate::order::{ascending, precedes, rank, Rank};
use crate::release::{profile_selected, release_valid, DialectProfile};
use crate::state::{Child, GuardDomain, Interp, InterpState};
use crate::words::{first_word, invoked_word, join_words, spaced};

verus! {

/// The subcommands of a child's command, in the order they are listed in.
#[derive(Debug, Clone, Copy, PartialEq, Eq, Structural)]
pub enum ChildOption {
    Alias,
    Aliases,
    Bgerror,
    Debug,
    Eval,
    Expose,
    Hide,
    Hidden,
    Issafe,
    Invokehidden,
    Limit,
    Marktrusted,
    Recursionlimit,
}

/// Which way a command moves between the command table and the hidden table.
#[derive(Debug, Clone, Copy, PartialEq, Eq, Structural)]
pub enum CommandVisibilityOp {
    Hide,
    Expose,
}

/// What a call of a child's command asks for.
#[derive(Debug)]
pub enum ChildStep {
    /// An error was raised.
    Failed,
    /// Evaluate `script` in the child.
    Eval { script: Vec<u8> },
    Issafe,
    Delete,
    /// Move a command of the child to or from its hidden table.
    Visibility { op: CommandVisibilityOp, words: Vec<Vec<u8>> },
    /// Invoke a hidden command of the child; `usage` is for an arity error.
    Invokehidden { words: Vec<Vec<u8>>, usage: Vec<u8> },
    Hidden,
    Aliases,
    /// Install an alias in the child for a command of this interpreter.
    Alias { alias: Vec<u8>, target: Vec<u8>, prefix: Vec<Vec<u8>> },
    Recursionlimit { newlimit: Option<Vec<u8>> },
    Bgerror { handler: Option<Vec<u8>> },
    Marktrusted,
    Debug { opts: Vec<Vec<u8>> },
    Limit { ltype: Vec<u8>, opts: Vec<Vec<u8>> },
}

/// The subcommand a call names: `None` is `delete`, which is matched as it is
/// and never abbreviated.
pub open spec fn named_option(
    argv: Seq<Vec<u8>>,
    chosen: Result<ChildOption, Vec<u8>>,
) -> Result<Option<ChildOption>, Seq<u8>> {
    if argv[1]@ == text("delete") {
        Ok(None)
    } else {
        match chosen {
            Ok(o) => Ok(Some(o)),
            Err(m) => Err(m@),
        }
    }
}

/// Whether a subcommand takes a call of `n` words.
pub open spec fn arity_fits(o: Option<ChildOption>, n: int) -> bool {
    match o {
        None => true,
        Some(ChildOption::Eval) | Some(ChildOption::Limit) => n >= 3,
        Some(ChildOption::Issafe) | Some(ChildOption::Hidden) | Some(ChildOption::Aliases) => n
            == 2,
        Some(ChildOption::Hide) | Some(ChildOption::Expose) => n == 3 || n == 4,
        Some(ChildOption::Alias) => n >= 4,
        Some(ChildOption::Recursionlimit) | Some(ChildOption::Bgerror) => n <= 3,
        Some(ChildOption::Debug) => n <= 4,
        Some(ChildOption::Invokehidden) | Some(ChildOption::Marktrusted) => true,
    }
}

/// What the message for a wrong number of words says after the command's name.
pub open spec fn usage_tail(o: ChildOption) -> Seq<u8> {
    match o {
        ChildOption::Eval => text(" eval arg ?arg ...?"),
        ChildOption::Issafe => text(" issafe"),
        ChildOption::Hide => text(" hide cmdName ?hiddenCmdName?"),
        ChildOption::Expose => text(" expose hiddenCmdName ?cmdName?"),
        ChildOption::Invokehidden => text(
            " invokehidden ?-namespace ns? ?-global? ?--? cmd ?arg ..?",
        ),
        ChildOption::Hidden => text(" hidden"),
        ChildOption::Aliases => text(" aliases"),
        ChildOption::Alias => text(" alias aliasName ?targetName? ?arg ...?"),
        ChildOption::Recursionlimit => text(" recursionlimit ?newlimit?"),
        ChildOption::Bgerror => text(" bgerror ?cmdPrefix?"),
        ChildOption::Marktrusted => text(" marktrusted"),
        ChildOption::Debug => text(" debug ?-frame ?bool??"),
        ChildOption::Limit => text(" limit limitType ?-option value ...?"),
    }
}

/// The message for a wrong number of words.
pub open spec fn child_usage(argv: Seq<Vec<u8>>, tail: Seq<u8>) -> Seq<u8> {
    text("wrong # args: should be \"") + first_word(argv) + tail + text("\"")
}

/// What a safe interpreter may not do to a child.
pub open spec fn denied(o: Option<ChildOption>) -> Option<Seq<u8>> {
    match o {
        Some(ChildOption::Hide) => Some(
            text("permission denied: safe interpreter cannot hide commands"),
        ),
        Some(ChildOption::Expose) => Some(
            text("permission denied: safe interpreter cannot expose commands"),
        ),
        Some(ChildOption::Marktrusted) => Some(
            text("permission denied: safe interpreter cannot mark trusted"),
        ),
        _ => None,
    }
}

/// The error that a call of a child's command raises, if it raises one: a wrong
/// number of words comes first, then what a safe interpreter may not do.
pub open spec fn child_refusal(
    argv: Seq<Vec<u8>>,
    chosen: Result<ChildOption, Vec<u8>>,
    is_safe: bool,
) -> Option<Seq<u8>> {
    if argv.len() < 2 {
        Some(child_usage(argv, text(" cmd ?arg ...?")))
    } else {
        match named_option(argv, chosen) {
            Err(m) => Some(m),
            Ok(o) => if !arity_fits(o, argv.len() as int) {
                Some(child_usage(argv, usage_tail(o->0)))
            } else if is_safe {
                denied(o)
            } else {
                None
            },
        }
    }
}

/// Word `i` of a call, where it has one.
pub open spec fn word_at(argv: Seq<Vec<u8>>, i: int) -> Option<Seq<u8>> {
    if i < argv.len() {
        Some(argv[i]@)
    } else {
        None
    }
}

/// Whether `step` is what the call `argv` of subcommand `o` asks for.
pub open spec fn step_serves(step: ChildStep, argv: Seq<Vec<u8>>, o: Option<ChildOption>) -> bool {
    let ws = views(argv);
    match o {
        None => step is Delete,
        Some(ChildOption::Eval) => step matches ChildStep::Eval { script } && script@ == spaced(
            ws.skip(2),
        ),
        Some(ChildOption::Issafe) => step is Issafe,
        Some(ChildOption::Hide) => step matches ChildStep::Visibility { op, words } && op
            == CommandVisibilityOp::Hide && views(words@) == ws.skip(2),
        Some(ChildOption::Expose) => step matches ChildStep::Visibility { op, words } && op
            == CommandVisibilityOp::Expose && views(words@) == ws.skip(2),
        Some(ChildOption::Invokehidden) => step matches ChildStep::Invokehidden { words, usage }
            && views(words@) == ws.skip(2) && usage@ == first_word(argv) + usage_tail(
            ChildOption::Invokehidden,
        ),
        Some(ChildOption::Hidden) => step is Hidden,
        Some(ChildOption::Aliases) => step is Aliases,
        Some(ChildOption::Alias) => step matches ChildStep::Alias { alias, target, prefix }
            && alias@ == ws[2] && target@ == ws[3] && views(prefix@) == ws.skip(4),
        Some(ChildOption::Recursionlimit) => step matches ChildStep::Recursionlimit { newlimit }
            && crate::bytes::opt_view(newlimit) == word_at(argv, 2),
        Some(ChildOption::Bgerror) => step matches ChildStep::Bgerror { handler }
            && crate::bytes::opt_view(handler) == word_at(argv, 2),
        Some(ChildOption::Marktrusted) => step is Marktrusted,
        Some(ChildOption::Debug) => step matches ChildStep::Debug { opts } && views(opts@)
            == ws.skip(2),
        Some(ChildOption::Limit) => step matches ChildStep::Limit { ltype, opts } && ltype@ == ws[2]
            && views(opts@) == ws.skip(3),
    }
}

fn usage_tail_text(o: ChildOption) -> (r: &'static str)
    ensures
        text(r) == usage_tail(o),
{
    match o {
        ChildOption::Eval => " eval arg ?arg ...?",
        ChildOption::Issafe => " issafe",
        ChildOption::Hide => " hide cmdName ?hiddenCmdName?",
        ChildOption::Expose => " expose hiddenCmdName ?cmdName?",
        ChildOption::Invokehidden => " invokehidden ?-namespace ns? ?-global? ?--? cmd ?arg ..?",
        ChildOption::Hidden => " hidden",
        ChildOption::Aliases => " aliases",
        ChildOption::Alias => " alias aliasName ?targetName? ?arg ...?",
        ChildOption::Recursionlimit => " recursionlimit ?newlimit?",
        ChildOption::Bgerror => " bgerror ?cmdPrefix?",
        ChildOption::Marktrusted => " marktrusted",
        ChildOption::Debug => " debug ?-frame ?bool??",
        ChildOption::Limit => " limit limitType ?-option value ...?",
    }
}

fn arity_ok(o: ChildOption, n: usize) -> (r: bool)
    ensures
        r == arity_fits(Some(o), n as int),
{
    match o {
        ChildOption::Eval | ChildOption::Limit => n >= 3,
        ChildOption::Issafe | ChildOption::Hidden | ChildOption::Aliases => n == 2,
        ChildOption::Hide | ChildOption::Expose => n == 3 || n == 4,
        ChildOption::Alias => n >= 4,
        ChildOption::Recursionlimit | ChildOption::Bgerror => n <= 3,
        ChildOption::Debug => n <= 4,
        ChildOption::Invokehidden | ChildOption::Marktrusted => true,
    }
}

fn opt_word(argv: &[Vec<u8>], i: usize) -> (r: Option<Vec<u8>>)
    ensures
        crate::bytes::opt_view(r) == word_at(argv@, i as int),
{
    if i < argv.len() {
        Some(copied(&argv[i]))
    } else {
        None
    }
}

/// Reads the operands of subcommand `o`.
fn child_step(argv: &[Vec<u8>], o: ChildOption) -> (step: ChildStep)
    requires
        argv@.len() >= 2,
        arity_fits(Some(o), argv@.len() as int),
    ensures
        step_serves(step, argv@, Some(o)),
{
    match o {
        ChildOption::Eval => {
            let words = tail_words(argv, 2);
            ChildStep::Eval { script: join_words(&words) }
        },
        ChildOption::Issafe => ChildStep::Issafe,
        ChildOption::Hide => ChildStep::Visibility {
            op: CommandVisibilityOp::Hide,
            words: tail_words(argv, 2),
        },
        ChildOption::Expose => ChildStep::Visibility {
            op: CommandVisibilityOp::Expose,
            words: tail_words(argv, 2),
        },
        ChildOption::Invokehidden => {
            let mut usage = invoked_word(argv);
            append_text(&mut usage, usage_tail_text(o));
            ChildStep::Invokehidden { words: tail_words(argv, 2), usage }
        },
        ChildOption::Hidden => ChildStep::Hidden,
        ChildOption::Aliases => ChildStep::Aliases,
        ChildOption::Alias => ChildStep::Alias {
            alias: copied(&argv[2]),
            target: copied(&argv[3]),
            prefix: tail_words(argv, 4),
        },
        ChildOption::Recursionlimit => ChildStep::Recursionlimit { newlimit: opt_word(argv, 2) },
        ChildOption::Bgerror => ChildStep::Bgerror { handler: opt_word(argv, 2) },
        ChildOption::Marktrusted => ChildStep::Marktrusted,
        ChildOption::Debug => ChildStep::Debug { opts: tail_words(argv, 2) },
        ChildOption::Limit => ChildStep::Limit {
            ltype: copied(&argv[2]),
            opts: tail_words(argv, 3),
        },
    }
}

impl Interp {
    /// Raises the error for a wrong number of words in a call of a child's
    /// command: it shows the word the call was written with.
    pub fn child_wrong_args(&mut self, argv: &[Vec<u8>], tail: &str) -> (c: Code)
        ensures
            c == Code::Error,
            raised(*old(self), *final(self), child_usage(argv@, text(tail))),
    {
        let mut message = lit("wrong # args: should be \"");
        append(&mut message, &invoked_word(argv));
        append_text(&mut message, tail);
        append_text(&mut message, "\"");
        self.error(&message)
    }

    /// Takes a call of a child's command apart. `chosen` is what the option
    /// table answers for the second word.
    pub fn dispatch_child(
        &mut self,
        argv: &[Vec<u8>],
        chosen: &Result<ChildOption, Vec<u8>>,
    ) -> (step: ChildStep)
        ensures
            match child_refusal(argv@, *chosen, old(self).state.is_safe) {
                Some(m) => step is Failed && raised(*old(self), *final(self), m),
                None => *final(self) == *old(self) && step_serves(
                    step,
                    argv@,
                    named_option(argv@, *chosen)->Ok_0,
                ),
            },
    {
        if argv.len() < 2 {
            self.child_wrong_args(argv, " cmd ?arg ...?");
            return ChildStep::Failed;
        }
        if is_text(&argv[1], "delete") {
            return ChildStep::Delete;
        }
        let o: ChildOption = match chosen {
            Ok(o) => *o,
            Err(m) => {
                self.error(m);
                return ChildStep::Failed;
            },
        };
        if !arity_ok(o, argv.len()) {
            self.child_wrong_args(argv, usage_tail_text(o));
            return ChildStep::Failed;
        }
        if self.state.is_safe {
            let denial: Option<&str> = match o {
                ChildOption::Hide => Some(
                    "permission denied: safe interpreter cannot hide commands",
                ),
                ChildOption::Expose => Some(
                    "permission denied: safe interpreter cannot expose commands",
                ),
                ChildOption::Marktrusted => Some(
                    "permission denied: safe interpreter cannot mark trusted",
                ),
                _ => None,
            };
            if let Some(m) = denial {
                self.error(m.as_bytes());
                return ChildStep::Failed;
            }
        }
        child_step(argv, o)
    }
}

/// The names of the children, in order.
pub open spec fn child_views(cs: Seq<Child>) -> Seq<Seq<u8>> {
    Seq::new(cs.len(), |i: int| cs[i].name@)
}

/// The children are in the order of their names, and one that waits for its
/// deletion is running.
pub open spec fn children_valid(i: Interp) -> bool {
    &&& ascending(child_views(i.children@))
    &&& forall|k: int|
        0 <= k < i.children@.len() ==> ((
        #[trigger] i.children@[k]).interp.state.pending_delete ==> i.children@[k].interp.state.eval_active
            > 0)
}

/// A child as an evaluation of it begins.
pub open spec fn child_entered(before: Interp, after: Interp) -> bool {
    &&& after.state.invalidations@ == before.state.invalidations@.push(GuardDomain::Interpreter)
    &&& after.state.eval_active == before.state.eval_active + 1
    &&& after == (Interp {
        state: InterpState {
            invalidations: after.state.invalidations,
            eval_active: after.state.eval_active,
            ..before.state
        },
        ..before
    })
}

/// A child as an evaluation of it ends.
pub open spec fn child_left(before: Interp, after: Interp) -> bool {
    &&& after.state.invalidations@ == before.state.invalidations@.push(GuardDomain::Interpreter)
    &&& after.state.eval_active == before.state.eval_active - 1
    &&& after == (Interp {
        state: InterpState {
            invalidations: after.state.invalidations,
            eval_active: after.state.eval_active,
            ..before.state
        },
        ..before
    })
}

/// An evaluation of a child that entered and left it has only staled the guards
/// of the child, once on the way in and once on the way out.
pub proof fn leaving_a_child_undoes_entering(before: Interp, inside: Interp, after: Interp)
    requires
        child_entered(before, inside),
        child_left(inside, after),
    ensures
        after.state.eval_active == before.state.eval_active,
        after.state.invalidations@ == before.state.invalidations@.push(
            GuardDomain::Interpreter,
        ).push(GuardDomain::Interpreter),
        after == (Interp {
            state: InterpState { invalidations: after.state.invalidations, ..before.state },
            ..before
        }),
{
}

/// The end of an evaluation of the child at `i`; `gone` says that the child went
/// with it: its deletion had waited.
pub open spec fn child_evaluated(before: Interp, after: Interp, i: int, gone: bool) -> bool {
    let c = before.children@[i].interp;
    &&& gone == (c.state.pending_delete && c.state.eval_active == 1)
    &&& if gone {
        &&& child_set_changed(before, after)
        &&& after.children@ == before.children@.remove(i)
    } else {
        &&& after.state == before.state
        &&& after.children@.len() == before.children@.len()
        &&& after.children@[i].name == before.children@[i].name
        &&& child_left(c, after.children@[i].interp)
        &&& forall|k: int|
            0 <= k < before.children@.len() && k != i ==> #[trigger] after.children@[k]
                == before.children@[k]
    }
}

/// A child that is deleted while it runs stays to the end of its evaluation, and
/// is gone with the last one.
pub proof fn a_running_child_outlives_its_deletion(
    running: Interp,
    deleted: Interp,
    after: Interp,
    name: Seq<u8>,
    i: int,
    gone: bool,
)
    requires
        deleted_at(running.children@, deleted.children@, name, i),
        running.children@[i].interp.state.eval_active > 0,
        child_evaluated(deleted, after, i, gone),
    ensures
        deleted.children@.len() == running.children@.len(),
        deleted.children@[i].interp.state.eval_active
            == running.children@[i].interp.state.eval_active,
        gone == (running.children@[i].interp.state.eval_active == 1),
        gone ==> after.children@ == deleted.children@.remove(i),
{
}

/// The invalidations that a change of the command table notes.
pub open spec fn environment_domains() -> Seq<GuardDomain> {
    seq![
        GuardDomain::CommandEnvironment,
        GuardDomain::Namespace,
        GuardDomain::UnknownHandling,
    ]
}

/// An interpreter after its command table changed: no command is attested.
pub open spec fn environment_changed(before: Interp, after: Interp) -> bool {
    &&& after.state.guarded_commands@.len() == 0
    &&& after.state.invalidations@ == before.state.invalidations@ + environment_domains()
    &&& after == (Interp {
        state: InterpState {
            guarded_commands: after.state.guarded_commands,
            invalidations: after.state.invalidations,
            ..before.state
        },
        ..before
    })
}

/// An interpreter whose children are gone or fewer by one: its policy and its
/// command table changed.
pub open spec fn child_set_changed(before: Interp, after: Interp) -> bool {
    &&& after.state.guarded_commands@.len() == 0
    &&& after.state.invalidations@ == before.state.invalidations@.push(GuardDomain::Interpreter)
        + environment_domains()
    &&& after.state == (InterpState {
        guarded_commands: after.state.guarded_commands,
        invalidations: after.state.invalidations,
        ..before.state
    })
}

impl Interp {
    /// Notes that the command table changed.
    pub fn invalidate_command_environment(&mut self)
        ensures
            environment_changed(*old(self), *final(self)),
    {
        self.state.guarded_commands = Vec::new();
        self.state.invalidations.push(GuardDomain::CommandEnvironment);
        self.state.invalidations.push(GuardDomain::Namespace);
        self.state.invalidations.push(GuardDomain::UnknownHandling);
        assert(self.state.invalidations@ =~= old(self).state.invalidations@
            + environment_domains());
    }

    /// Where the child `name` stands among the children.
    pub fn find_child(&self, name: &[u8]) -> (r: Option<usize>)
        ensures
            match r {
                Some(i) => i < self.children@.len() && self.children@[i as int].name@ == name@,
                None => !child_views(self.children@).contains(name@),
            },
    {
        let mut i: usize = 0;
        while i < self.children.len()
            invariant
                i <= self.children@.len(),
                forall|j: int|
                    0 <= j < i ==> #[trigger] child_views(self.children@)[j] != name@,
            decreases self.children@.len() - i,
        {
            if same(&self.children[i].name, name) {
                return Some(i);
            }
            i = i + 1;
        }
        None
    }

    /// Whether there is a child `name`.
    pub fn child_exists(&self, name: &[u8]) -> (r: bool)
        ensures
            r == child_views(self.children@).contains(name@),
    {
        match self.find_child(name) {
            Some(i) => {
                assert(child_views(self.children@)[i as int] == name@);
                true
            },
            None => false,
        }
    }

    /// The names of the children, in order.
    pub fn child_names(&self) -> (r: Vec<Vec<u8>>)
        ensures
            views(r@) == child_views(self.children@),
    {
        let mut out: Vec<Vec<u8>> = Vec::new();
        let mut i: usize = 0;
        while i < self.children.len()
            invariant
                i <= self.children@.len(),
                out@.len() == i,
                forall|j: int| 0 <= j < i ==> #[trigger] out@[j]@ == self.children@[j].name@,
            decreases self.children@.len() - i,
        {
            out.push(copied(&self.children[i].name));
            i = i + 1;
        }
        assert(views(out@) =~= child_views(self.children@));
        out
    }

    /// Begins an evaluation of the child at `i`.
    pub fn enter_child(&mut self, i: usize)
        requires
            i < old(self).children@.len(),
            old(self).children@[i as int].interp.state.eval_active < usize::MAX,
        ensures
            final(self).state == old(self).state,
            final(self).children@.len() == old(self).children@.len(),
            final(self).children@[i as int].name == old(self).children@[i as int].name,
            child_entered(
                old(self).children@[i as int].interp,
                final(self).children@[i as int].interp,
            ),
            forall|k: int|
                0 <= k < old(self).children@.len() && k != i ==> #[trigger] final(self).children@[k] == old(self).children@[k],
    {
        let child: &mut Child = &mut self.children[i];
        child.interp.invalidate_guard_domain(GuardDomain::Interpreter);
        child.interp.state.eval_active = child.interp.state.eval_active + 1;
    }

    /// Ends an evaluation of the child `name` at `i`. Returns whether the child
    /// is gone: its deletion waited for the evaluation, and its command is to
    /// be removed.
    pub fn leave_child(&mut self, i: usize) -> (gone: bool)
        requires
            i < old(self).children@.len(),
            old(self).children@[i as int].interp.state.eval_active > 0,
        ensures
            child_evaluated(*old(self), *final(self), i as int, gone),
    {
        let teardown: bool = {
            let child: &mut Child = &mut self.children[i];
            child.interp.state.eval_active = child.interp.state.eval_active - 1;
            child.interp.invalidate_guard_domain(GuardDomain::Interpreter);
            child.interp.state.pending_delete && child.interp.state.eval_active == 0
        };
        if teardown {
            self.invalidate_guard_domain(GuardDomain::Interpreter);
            self.children.remove(i);
            self.invalidate_command_environment();
            assert(self.children@ =~= old(self).children@.remove(i as int));
        }
        teardown
    }
}

/// The name that the next child without one gets.
pub open spec fn made_up_name(counter: usize) -> Seq<u8> {
    text("interp") + decimal(counter as int)
}

/// Where a child of a name stands among children, or would stand.
enum Slot {
    Taken(usize),
    Free(usize),
}

impl Interp {
    fn child_slot(&self, name: &[u8]) -> (r: Slot)
        requires
            ascending(child_views(self.children@)),
        ensures
            match r {
                Slot::Taken(i) => i < self.children@.len() && self.children@[i as int].name@
                    == name@,
                Slot::Free(i) => {
                    &&& i <= self.children@.len()
                    &&& !child_views(self.children@).contains(name@)
                    &&& forall|j: int|
                        0 <= j < i ==> precedes(#[trigger] child_views(self.children@)[j], name@)
                    &&& forall|j: int|
                        i <= j < self.children@.len() ==> precedes(
                            name@,
                            #[trigger] child_views(self.children@)[j],
                        )
                },
            },
    {
        let ghost all = child_views(self.children@);
        let mut i: usize = 0;
        while i < self.children.len()
            invariant
                i <= self.children@.len(),
                all == child_views(self.children@),
                ascending(all),
                forall|j: int| 0 <= j < i ==> precedes(#[trigger] all[j], name@),
            decreases self.children@.len() - i,
        {
            match rank(&self.children[i].name, name) {
                Rank::Before => {},
                Rank::Same => {
                    return Slot::Taken(i);
                },
                Rank::After => {
                    proof {
                        crate::order::absent(all, name@, i as int);
                    }
                    return Slot::Free(i);
                },
            }
            i = i + 1;
        }
        proof {
            crate::order::absent(all, name@, i as int);
        }
        Slot::Free(i)
    }

    /// Creates a child, under a made-up name where none is given; a child of
    /// that name gives way. The child follows the release of its parent.
    /// `debug_env` says whether the environment turns frame debugging on.
    /// Returns the name, which is to become a command.
    pub fn create_child(&mut self, name: Option<Vec<u8>>, debug_env: bool) -> (r: Vec<u8>)
        requires
            children_valid(*old(self)),
            old(self).state.interp_counter < usize::MAX,
        ensures
            children_valid(*final(self)),
            r@ == match name {
                Some(n) => n@,
                None => made_up_name(old(self).state.interp_counter),
            },
            exists|k: int|
                0 <= k < final(self).children@.len() && final(self).children@[k].name@ == r@
                    && new_child(
                    (#[trigger] final(self).children@[k]).interp,
                    old(self).state.dialect_profile,
                    debug_env,
                ),
            forall|n: Seq<u8>| #[trigger]
                child_views(final(self).children@).contains(n) <==> child_views(
                    old(self).children@,
                ).contains(n) || n == r@,
            forall|c: Child| #[trigger]
                old(self).children@.contains(c) && c.name@ != r@
                    ==> final(self).children@.contains(c),
            final(self).state.interp_counter == old(self).state.interp_counter + if name is None {
                1int
            } else {
                0
            },
            final(self).state.guarded_commands@.len() == 0,
            final(self).state.invalidations@ == old(self).state.invalidations@.push(
                GuardDomain::Interpreter,
            ) + environment_domains(),
            final(self).state == (InterpState {
                interp_counter: final(self).state.interp_counter,
                guarded_commands: final(self).state.guarded_commands,
                invalidations: final(self).state.invalidations,
                ..old(self).state
            }),
    {
        self.invalidate_guard_domain(GuardDomain::Interpreter);
        self.invalidate_command_environment();
        let name: Vec<u8> = match name {
            Some(n) => n,
            None => {
                let mut n = lit("interp");
                append(&mut n, &decimal_usize(self.state.interp_counter));
                self.state.interp_counter = self.state.interp_counter + 1;
                n
            },
        };
        let mut child = Interp::new();
        let ghost born = child.state;
        child.set_dialect_profile(self.state.dialect_profile);
        let ghost pinned = child.state;
        if debug_env {
            child.state.debug_frame = true;
            child.invalidate_guard_domain(GuardDomain::Interpreter);
        }
        let ghost before = self.children@;
        let ghost names = child_views(before);
        let made = Child { name: copied(&name), interp: child };
        let ghost made_child = made;
        assert(crate::state::fresh_state(born));
        assert(profile_selected(born, pinned, self.state.dialect_profile));
        assert(new_child(made_child.interp, self.state.dialect_profile, debug_env));
        match self.child_slot(&name) {
            Slot::Taken(i) => {
                self.children.set(i, made);
                proof {
                    let after = self.children@;
                    assert(child_views(after) =~= names);
                    assert(after[i as int] == made_child);
                    assert(names[i as int] == name@);
                    assert forall|c: Child| #[trigger]
                        before.contains(c) && c.name@ != name@ implies after.contains(c) by {
                        let k = choose|k: int| 0 <= k < before.len() && before[k] == c;
                        assert(after[k] == c);
                    }
                }
            },
            Slot::Free(i) => {
                self.children.insert(i, made);
                proof {
                    let after = self.children@;
                    assert(after =~= before.insert(i as int, made_child));
                    let out = child_views(after);
                    assert(out =~= names.insert(i as int, name@));
                    assert forall|a: int, b: int| 0 <= a < b < out.len() implies precedes(
                        #[trigger] out[a],
                        #[trigger] out[b],
                    ) by {
                        if a < i && b > i {
                            assert(precedes(names[a], names[b - 1]));
                        } else if a == i {
                            assert(precedes(name@, names[b - 1]));
                        } else if a > i {
                            assert(precedes(names[a - 1], names[b - 1]));
                        } else if b < i {
                            assert(precedes(names[a], names[b]));
                        }
                    }
                    assert(after[i as int] == made_child);
                    assert(out[i as int] == name@);
                    assert forall|n: Seq<u8>| #[trigger]
                        out.contains(n) <==> names.contains(n) || n == name@ by {
                        if names.contains(n) {
                            let k = choose|k: int| 0 <= k < names.len() && names[k] == n;
                            if k < i {
                                assert(out[k] == n);
                            } else {
                                assert(out[k + 1] == n);
                            }
                        }
                        if out.contains(n) && n != name@ {
                            let k = choose|k: int| 0 <= k < out.len() && out[k] == n;
                            if k < i {
                                assert(names[k] == n);
                            } else {
                                assert(names[k - 1] == n);
                            }
                        }
                    }
                    assert forall|c: Child| #[trigger]
                        before.contains(c) && c.name@ != name@ implies after.contains(c) by {
                        let k = choose|k: int| 0 <= k < before.len() && before[k] == c;
                        if k < i {
                            assert(after[k] == c);
                        } else {
                            assert(after[k + 1] == c);
                        }
                    }
                    assert forall|k: int|
                        0 <= k < after.len() && (
                        #[trigger] after[k]).interp.state.pending_delete implies after[k].interp.state.eval_active
                        > 0 by {
                        if k < i {
                            assert(after[k] == before[k]);
                        } else if k > i {
                            assert(after[k] == before[k - 1]);
                        }
                    }
                }
            },
        }
        name
    }

    /// Deletes the child `name`. One that is running stays until its last
    /// evaluation ends. Returns whether it was there: its command is then to be
    /// removed.
    pub fn delete_child(&mut self, name: &[u8]) -> (r: bool)
        requires
            children_valid(*old(self)),
        ensures
            children_valid(*final(self)),
            r == child_views(old(self).children@).contains(name@),
            !r ==> *final(self) == *old(self),
            r ==> {
                &&& child_set_changed(*old(self), *final(self))
                &&& exists|i: int| #[trigger]
                    deleted_at(old(self).children@, final(self).children@, name@, i)
            },
    {
        let i: usize = match self.find_child(name) {
            None => return false,
            Some(i) => i,
        };
        let ghost before = self.children@;
        assert(child_views(before)[i as int] == name@);
        let busy: bool = self.children[i].interp.state.eval_active > 0;
        if busy {
            let child: &mut Child = &mut self.children[i];
            child.interp.invalidate_guard_domain(GuardDomain::Interpreter);
            child.interp.state.pending_delete = true;
        }
        self.invalidate_guard_domain(GuardDomain::Interpreter);
        if !busy {
            self.children.remove(i);
        }
        self.invalidate_command_environment();
        proof {
            let after = self.children@;
            if busy {
                assert(child_views(after) =~= child_views(before));
            } else {
                assert(after =~= before.remove(i as int));
                let names = child_views(before);
                let out = child_views(after);
                assert forall|a: int, b: int| 0 <= a < b < out.len() implies precedes(
                    #[trigger] out[a],
                    #[trigger] out[b],
                ) by {
                    let x = if a < i {
                        a
                    } else {
                        a + 1
                    };
                    let y = if b < i {
                        b
                    } else {
                        b + 1
                    };
                    assert(out[a] == names[x] && out[b] == names[y]);
                }
            }
            assert(deleted_at(before, after, name@, i as int));
        }
        true
    }

    /// Ends an evaluation in a child: its result and completion become those of
    /// the call. `outcome` is `None` where there is no such child.
    pub fn finish_child_eval(&mut self, name: &[u8], outcome: Option<(Code, Vec<u8>)>) -> (c: Code)
        ensures
            child_eval_finished(*old(self), *final(self), name@, outcome, c),
    {
        match outcome {
            Some((code, result)) => {
                self.state.result = result;
                code
            },
            None => self.error(&framed("could not find interpreter \"", name, "\"")),
        }
    }

    /// `interp marktrusted`: the interpreter is no longer safe.
    pub fn mark_trusted(&mut self)
        ensures
            trusted(*old(self), *final(self)),
    {
        self.invalidate_guard_domain(GuardDomain::Interpreter);
        self.state.is_safe = false;
    }

    /// `interp bgerror ?cmdPrefix?`. `length` is how many elements the given
    /// prefix has as a list, none where it is no list.
    pub fn bgerror_apply(&mut self, prefix: &Option<Vec<u8>>, length: usize) -> (r: Result<
        Vec<u8>,
        Vec<u8>,
    >)
        ensures
            bgerror_answered(*old(self), *final(self), *prefix, length, r),
    {
        match prefix {
            None => Ok(copied(&self.state.bgerror)),
            Some(p) => {
                if length < 1 {
                    return Err(lit("cmdPrefix must be list of length >= 1"));
                }
                self.invalidate_guard_domain(GuardDomain::Interpreter);
                self.state.bgerror = copied(p);
                Ok(copied(p))
            },
        }
    }
}

/// An interpreter that is no longer safe.
pub open spec fn trusted(before: Interp, after: Interp) -> bool {
    &&& after.state.invalidations@ == before.state.invalidations@.push(GuardDomain::Interpreter)
    &&& after == (Interp {
        state: InterpState {
            is_safe: false,
            invalidations: after.state.invalidations,
            ..before.state
        },
        ..before
    })
}

/// What `interp bgerror path ?cmdPrefix?` does and answers.
pub open spec fn bgerror_answered(
    before: Interp,
    after: Interp,
    prefix: Option<Vec<u8>>,
    length: usize,
    r: Result<Vec<u8>, Vec<u8>>,
) -> bool {
    match prefix {
        None => r matches Ok(h) && h@ == before.state.bgerror@ && after == before,
        Some(p) => if length < 1 {
            r matches Err(m) && m@ == text("cmdPrefix must be list of length >= 1") && after
                == before
        } else {
            &&& r matches Ok(h) && h@ == p@
            &&& after.state.bgerror@ == p@
            &&& after.state.invalidations@ == before.state.invalidations@.push(
                GuardDomain::Interpreter,
            )
            &&& after == (Interp {
                state: InterpState {
                    bgerror: after.state.bgerror,
                    invalidations: after.state.invalidations,
                    ..before.state
                },
                ..before
            })
        },
    }
}

/// A child as it is created by an interpreter that follows `profile`.
pub open spec fn new_child(i: Interp, profile: DialectProfile, debug_env: bool) -> bool {
    &&& i.children@.len() == 0
    &&& exists|born: InterpState, pinned: InterpState|
        {
            &&& crate::state::fresh_state(born)
            &&& #[trigger] profile_selected(born, pinned, profile)
            &&& if debug_env {
                &&& i.state.invalidations@ == pinned.invalidations@.push(GuardDomain::Interpreter)
                &&& i.state == (InterpState {
                    debug_frame: true,
                    invalidations: i.state.invalidations,
                    ..pinned
                })
            } else {
                i.state == pinned
            }
        }
}

/// A new child is the same build as its parent: it follows the same release.
pub proof fn a_child_follows_its_parent(parent: InterpState, child: Interp, debug_env: bool)
    requires
        release_valid(parent),
        new_child(child, parent.dialect_profile, debug_env),
    ensures
        release_valid(child.state),
        child.state.dialect_profile == parent.dialect_profile,
        child.state.runtime_version == parent.runtime_version,
{
}

/// The child at `i`, named `name`, is deleted: gone, or waiting for its last
/// evaluation to end.
pub open spec fn deleted_at(
    before: Seq<Child>,
    after: Seq<Child>,
    name: Seq<u8>,
    i: int,
) -> bool {
    &&& 0 <= i < before.len()
    &&& before[i].name@ == name
    &&& if before[i].interp.state.eval_active > 0 {
        &&& after.len() == before.len()
        &&& after[i].name == before[i].name
        &&& after[i].interp.state.pending_delete
        &&& after[i].interp.state.invalidations@ == before[i].interp.state.invalidations@.push(
            GuardDomain::Interpreter,
        )
        &&& after[i].interp == (Interp {
            state: InterpState {
                pending_delete: true,
                invalidations: after[i].interp.state.invalidations,
                ..before[i].interp.state
            },
            ..before[i].interp
        })
        &&& forall|k: int| 0 <= k < before.len() && k != i ==> #[trigger] after[k] == before[k]
    } else {
        after == before.remove(i)
    }
}

/// A call `child alias NAME TARGET ARG...` gives the child a command `NAME`, and
/// a later call of that command in the child runs in the parent `TARGET ARG...`
/// followed by the words of that call behind its name.
pub proof fn an_alias_in_a_child_runs_in_the_parent(
    argv: Seq<Vec<u8>>,
    chosen: Result<ChildOption, Vec<u8>>,
    is_safe: bool,
    step: ChildStep,
    call: Seq<Seq<u8>>,
)
    requires
        argv.len() >= 2,
        argv[1]@ != text("delete"),
        chosen == Ok::<ChildOption, Vec<u8>>(ChildOption::Alias),
        child_refusal(argv, chosen, is_safe) is None,
        step_serves(step, argv, named_option(argv, chosen)->Ok_0),
        call.len() >= 1,
    ensures
        argv.len() >= 4,
        step is Alias,
        step->alias@ == argv[2]@,
        aliased(step->target@, views(step->prefix@), call) == seq![argv[3]@] + views(
            argv.skip(4),
        ) + call.skip(1),
{
    assert(views(argv).skip(4) =~= views(argv.skip(4)));
}

/// What a call of a child's command is about is in the words behind the
/// subcommand, and all of them reach the step.
pub proof fn the_words_of_a_call_reach_the_child(
    argv: Seq<Vec<u8>>,
    chosen: Result<ChildOption, Vec<u8>>,
    is_safe: bool,
    step: ChildStep,
)
    requires
        argv.len() >= 2,
        child_refusal(argv, chosen, is_safe) is None,
        step_serves(step, argv, named_option(argv, chosen)->Ok_0),
    ensures
        step is Delete <==> argv[1]@ == text("delete"),
        argv[1]@ != text("delete") ==> chosen is Ok,
        argv[1]@ != text("delete") ==> match chosen->Ok_0 {
            ChildOption::Eval => (step matches ChildStep::Eval { script } && script@ == spaced(
                views(argv.skip(2)),
            )),
            ChildOption::Hide => (step matches ChildStep::Visibility { op, words } && op
                == CommandVisibilityOp::Hide && views(words@) == views(argv.skip(2))),
            ChildOption::Expose => (step matches ChildStep::Visibility { op, words } && op
                == CommandVisibilityOp::Expose && views(words@) == views(argv.skip(2))),
            ChildOption::Invokehidden => (step matches ChildStep::Invokehidden { words, .. }
                && views(words@) == views(argv.skip(2))),
            ChildOption::Alias => (step matches ChildStep::Alias { alias, target, prefix } && seq![
                alias@,
                target@,
            ] + views(prefix@) == views(argv.skip(2))),
            ChildOption::Recursionlimit => (step matches ChildStep::Recursionlimit { newlimit } && (
            if argv.len() == 2 {
                newlimit is None
            } else {
                newlimit is Some && newlimit->0@ == argv[2]@
            })),
            ChildOption::Bgerror => (step matches ChildStep::Bgerror { handler } && (if argv.len()
                == 2 {
                handler is None
            } else {
                handler is Some && handler->0@ == argv[2]@
            })),
            ChildOption::Debug => (step matches ChildStep::Debug { opts } && views(opts@) == views(
                argv.skip(2),
            )),
            ChildOption::Limit => (step matches ChildStep::Limit { ltype, opts } && seq![ltype@]
                + views(opts@) == views(argv.skip(2))),
            ChildOption::Issafe => step is Issafe,
            ChildOption::Hidden => step is Hidden,
            ChildOption::Aliases => step is Aliases,
            ChildOption::Marktrusted => step is Marktrusted,
        },
{
    let ws = views(argv);
    assert(ws.skip(2) =~= views(argv.skip(2)));
    if argv[1]@ != text("delete") {
        match chosen->Ok_0 {
            ChildOption::Alias => {
                assert(seq![ws[2], ws[3]] + ws.skip(4) =~= ws.skip(2));
            },
            ChildOption::Limit => {
                assert(seq![ws[2]] + ws.skip(3) =~= ws.skip(2));
            },
            _ => {},
        }
    }
}

/// A safe interpreter cannot hide, expose or mark trusted, and may do whatever
/// else one that is not safe may. One that is not safe is refused only for its
/// words.
pub proof fn a_safe_interpreter_is_refused_three_things(
    argv: Seq<Vec<u8>>,
    chosen: Result<ChildOption, Vec<u8>>,
)
    requires
        argv.len() >= 2,
        child_refusal(argv, chosen, false) is None,
    ensures
        child_refusal(argv, chosen, true) is Some <==> {
            &&& argv[1]@ != text("delete")
            &&& chosen matches Ok(o) && (o is Hide || o is Expose || o is Marktrusted)
        },
{
}

/// A refusal for the number of words comes before one for what the interpreter
/// may not do, and both are as they would be in an interpreter that is not safe.
pub proof fn the_words_are_looked_at_first(
    argv: Seq<Vec<u8>>,
    chosen: Result<ChildOption, Vec<u8>>,
)
    requires
        child_refusal(argv, chosen, false) is Some,
    ensures
        child_refusal(argv, chosen, true) == child_refusal(argv, chosen, false),
        argv.len() >= 2 ==> argv[1]@ != text("delete"),
        argv.len() >= 2 && chosen is Err ==> child_refusal(argv, chosen, false) == Some(
            (chosen->Err_0)@,
        ),
{
}

/// How many words a call of a subcommand has, the name of the child and the
/// subcommand among them.
pub proof fn how_many_words_a_subcommand_takes(argv: Seq<Vec<u8>>, o: ChildOption)
    requires
        argv.len() >= 2,
        argv[1]@ != text("delete"),
    ensures
        child_refusal(argv, Ok(o), false) is None <==> match o {
            ChildOption::Issafe | ChildOption::Hidden | ChildOption::Aliases => argv.len() == 2,
            ChildOption::Eval | ChildOption::Limit => 3 <= argv.len(),
            ChildOption::Hide | ChildOption::Expose => 3 <= argv.len() <= 4,
            ChildOption::Alias => 4 <= argv.len(),
            ChildOption::Recursionlimit | ChildOption::Bgerror => argv.len() <= 3,
            ChildOption::Debug => argv.len() <= 4,
            ChildOption::Invokehidden | ChildOption::Marktrusted => true,
        },
{
}

/// Children that are given no name get different ones.
pub proof fn made_up_names_differ(a: usize, b: usize)
    ensures
        made_up_name(a) == made_up_name(b) ==> a == b,
{
    if made_up_name(a) == made_up_name(b) {
        let k = text("interp").len() as int;
        assert(made_up_name(a).skip(k) =~= decimal(a as int));
        assert(made_up_name(b).skip(k) =~= decimal(b as int));
        decimal_round_trip(a as int);
        decimal_round_trip(b as int);
    }
}

/// The end of an evaluation in the child `name`: `outcome` is how the script
/// ended and what it left, `None` where there is no such child.
pub open spec fn child_eval_finished(
    before: Interp,
    after: Interp,
    name: Seq<u8>,
    outcome: Option<(Code, Vec<u8>)>,
    c: Code,
) -> bool {
    match outcome {
        Some(o) => c == o.0 && after == (Interp {
            state: InterpState { result: o.1, ..before.state },
            ..before
        }),
        None => c == Code::Error && raised(
            before,
            after,
            text("could not find interpreter \"") + name + text("\""),
        ),
    }
}

/// A script that ran in a child ends in the parent as it ended in the child, with
/// the result that it left there.
pub proof fn a_child_hands_its_result_up(
    before: Interp,
    after: Interp,
    name: Seq<u8>,
    outcome: Option<(Code, Vec<u8>)>,
    c: Code,
)
    requires
        child_eval_finished(before, after, name, outcome, c),
    ensures
        outcome matches Some(o) ==> c == o.0 && after.state.result@ == o.1@ && after.state.exc
            == before.state.exc && after.children == before.children,
        outcome is None ==> c == Code::Error && after.state.result@ == text(
            "could not find interpreter \"",
        ) + name + text("\""),
{
}

/// A child that is deleted is gone at once, unless it is running: then it is
/// marked to go, and is there until its last evaluation ends. The other children
/// stay as they are, in their order.
pub proof fn a_deleted_child_goes_unless_it_runs(
    before: Seq<Child>,
    after: Seq<Child>,
    name: Seq<u8>,
    i: int,
)
    requires
        deleted_at(before, after, name, i),
    ensures
        before[i].name@ == name,
        before[i].interp.state.eval_active == 0 ==> after.len() == before.len() - 1 && after.take(i)
            == before.take(i) && after.skip(i) == before.skip(i + 1),
        before[i].interp.state.eval_active > 0 ==> {
            &&& after.len() == before.len()
            &&& after[i].name@ == name
            &&& after[i].interp.state.pending_delete
            &&& after[i].interp.state.eval_active == before[i].interp.state.eval_active
            &&& after.take(i) == before.take(i)
            &&& after.skip(i + 1) == before.skip(i + 1)
        },
{
    if before[i].interp.state.eval_active > 0 {
        assert(after.take(i) =~= before.take(i));
        assert(after.skip(i + 1) =~= before.skip(i + 1));
    } else {
        assert(after.take(i) =~= before.take(i));
        assert(after.skip(i) =~= before.skip(i + 1));
    }
}

/// The message for a wrong number of words shows how the subcommand is written.
pub proof fn a_wrong_call_shows_the_usage(argv: Seq<Vec<u8>>, o: ChildOption, is_safe: bool)
    requires
        argv.len() >= 2,
        argv[1]@ != text("delete"),
        child_refusal(argv, Ok(o), false) is Some,
    ensures
        child_refusal(argv, Ok(o), is_safe) == Some(
            text("wrong # args: should be \"") + argv[0]@ + match o {
                ChildOption::Eval => text(" eval arg ?arg ...?"),
                ChildOption::Issafe => text(" issafe"),
                ChildOption::Hide => text(" hide cmdName ?hiddenCmdName?"),
                ChildOption::Expose => text(" expose hiddenCmdName ?cmdName?"),
                ChildOption::Hidden => text(" hidden"),
                ChildOption::Aliases => text(" aliases"),
                ChildOption::Alias => text(" alias aliasName ?targetName? ?arg ...?"),
                ChildOption::Recursionlimit => text(" recursionlimit ?newlimit?"),
                ChildOption::Bgerror => text(" bgerror ?cmdPrefix?"),
                ChildOption::Debug => text(" debug ?-frame ?bool??"),
                ChildOption::Limit => text(" limit limitType ?-option value ...?"),
                ChildOption::Marktrusted => text(" marktrusted"),
                ChildOption::Invokehidden => text(
                    " invokehidden ?-namespace ns? ?-global? ?--? cmd ?arg ..?",
                ),
            } + text("\""),
        ),
{
}

/// What a safe interpreter is told that tries what it may not.
pub proof fn a_safe_interpreter_is_told_what_it_may_not(argv: Seq<Vec<u8>>)
    requires
        argv.len() == 3,
        argv[1]@ != text("delete"),
    ensures
        child_refusal(argv, Ok(ChildOption::Hide), true) == Some(
            text("permission denied: safe interpreter cannot hide commands"),
        ),
        child_refusal(argv, Ok(ChildOption::Expose), true) == Some(
            text("permission denied: safe interpreter cannot expose commands"),
        ),
        child_refusal(argv, Ok(ChildOption::Marktrusted), true) == Some(
            text("permission denied: safe interpreter cannot mark trusted"),
        ),
        child_refusal(Seq::empty(), Ok(ChildOption::Hide), true) == Some(
            text("wrong # args: should be \"") + Seq::<u8>::empty() + text(" cmd ?arg ...?")
                + text("\""),
        ),
{
}

/// The end of an evaluation gives its share of the child back; only a child that
/// waits for its deletion goes, and with its last evaluation.
pub proof fn the_last_evaluation_takes_a_waiting_child_along(
    before: Interp,
    after: Interp,
    i: int,
    gone: bool,
)
    requires
        0 <= i < before.children@.len(),
        child_evaluated(before, after, i, gone),
    ensures
        gone <==> before.children@[i].interp.state.pending_delete
            && before.children@[i].interp.state.eval_active == 1,
        gone ==> after.children@ == before.children@.remove(i),
        !gone ==> after.children@.len() == before.children@.len()
            && after.children@[i].interp.state.eval_active
            == before.children@[i].interp.state.eval_active - 1
            && after.children@[i].interp.state.result == before.children@[i].interp.state.result
            && after.children@[i].name == before.children@[i].name && after.state == before.state,
{
}

} // verus!
