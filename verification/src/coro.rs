//! The execution context that a coroutine handoff exchanges.

use vstd::prelude::*;

use crate::bytes::same;
use crate::code::Code;
use crate::errors::ExceptionState;
use crate::frames::CmdFrame;
use crate::state::{Interp, InterpState, NsId, GLOBAL};

verus! {

/// The part of an interpreter's state that belongs to one flow of control. What
/// is defined, and the result, are shared between flows.
pub struct CoroContext {
    pub cmd_frames: Vec<CmdFrame>,
    pub current_ns: NsId,
    pub recursion_depth: usize,
    pub script_stack: Vec<Vec<u8>>,
    pub return_code: Code,
    pub return_level: usize,
    pub exc: ExceptionState,
    pub error_line: u32,
    pub arg_lines: Vec<u32>,
    pub eval_depth: u32,
}

/// The context of a flow in which nothing has run, in namespace `ns`.
pub open spec fn fresh_context(c: CoroContext, ns: NsId) -> bool {
    &&& c.cmd_frames@.len() == 0
    &&& c.current_ns == ns
    &&& c.recursion_depth == 0
    &&& c.script_stack@.len() == 0
    &&& c.return_code == Code::Okay
    &&& c.return_level == 1
    &&& c.exc@ == crate::errors::no_error()
    &&& c.error_line == 1
    &&& c.arg_lines@.len() == 0
    &&& c.eval_depth == 0
}

/// The context that an interpreter runs in.
pub open spec fn context_of(s: InterpState) -> CoroContext {
    CoroContext {
        cmd_frames: s.cmd_frames,
        current_ns: s.current_ns,
        recursion_depth: s.recursion_depth,
        script_stack: s.script_stack,
        return_code: s.return_code,
        return_level: s.return_level,
        exc: s.exc,
        error_line: s.error_line,
        arg_lines: s.arg_lines,
        eval_depth: s.eval_depth,
    }
}

/// The interpreter `i` in the context `c`.
pub open spec fn in_context(i: Interp, c: CoroContext) -> Interp {
    Interp {
        state: InterpState {
            cmd_frames: c.cmd_frames,
            current_ns: c.current_ns,
            recursion_depth: c.recursion_depth,
            script_stack: c.script_stack,
            return_code: c.return_code,
            return_level: c.return_level,
            exc: c.exc,
            error_line: c.error_line,
            arg_lines: c.arg_lines,
            eval_depth: c.eval_depth,
            ..i.state
        },
        ..i
    }
}

impl CoroContext {
    /// The context of a new coroutine that runs in `ns`.
    pub fn fresh(ns: NsId) -> (c: CoroContext)
        ensures
            fresh_context(c, ns),
    {
        CoroContext {
            cmd_frames: Vec::new(),
            current_ns: ns,
            recursion_depth: 0,
            script_stack: Vec::new(),
            return_code: Code::Okay,
            return_level: 1,
            exc: ExceptionState::default(),
            error_line: 1,
            arg_lines: Vec::new(),
            eval_depth: 0,
        }
    }

    /// A context that stands in for one that is being exchanged.
    pub fn placeholder() -> (c: CoroContext)
        ensures
            fresh_context(c, GLOBAL),
    {
        CoroContext::fresh(GLOBAL)
    }
}

/// A coroutine, by the name of its command.
pub struct Coroutine {
    pub name: Vec<u8>,
    pub context: CoroContext,
}

/// Where the coroutine `name` stands, if it is there.
pub open spec fn coro_at(cs: Seq<Coroutine>, name: Seq<u8>) -> Option<int>
    decreases cs.len(),
{
    if cs.len() == 0 {
        None
    } else if cs[0].name@ == name {
        Some(0)
    } else {
        match coro_at(cs.skip(1), name) {
            Some(i) => Some(i + 1),
            None => None,
        }
    }
}

fn find_coro(cs: &[Coroutine], name: &[u8]) -> (r: Option<usize>)
    ensures
        match r {
            Some(i) => i < cs@.len() && coro_at(cs@, name@) == Some(i as int),
            None => coro_at(cs@, name@) is None,
        },
{
    let mut i: usize = 0;
    assert(cs@.skip(0) =~= cs@);
    while i < cs.len()
        invariant
            i <= cs@.len(),
            coro_at(cs@, name@) == match coro_at(cs@.skip(i as int), name@) {
                Some(k) => Some(k + i),
                None => None,
            },
        decreases cs@.len() - i,
    {
        assert(cs@.skip(i as int)[0] == cs@[i as int]);
        assert(cs@.skip(i as int).skip(1) =~= cs@.skip(i + 1));
        if same(&cs[i].name, name) {
            return Some(i);
        }
        i = i + 1;
    }
    None
}

impl Interp {
    /// Exchanges the context that the interpreter runs in with `ctx`.
    pub fn swap_coro_ctx(&mut self, ctx: &mut CoroContext)
        ensures
            *final(self) == in_context(*old(self), *old(ctx)),
            *final(ctx) == context_of(old(self).state),
    {
        std::mem::swap(&mut self.state.cmd_frames, &mut ctx.cmd_frames);
        std::mem::swap(&mut self.state.script_stack, &mut ctx.script_stack);
        std::mem::swap(&mut self.state.arg_lines, &mut ctx.arg_lines);
        std::mem::swap(&mut self.state.exc, &mut ctx.exc);
        std::mem::swap(&mut self.state.current_ns, &mut ctx.current_ns);
        std::mem::swap(&mut self.state.recursion_depth, &mut ctx.recursion_depth);
        std::mem::swap(&mut self.state.return_code, &mut ctx.return_code);
        std::mem::swap(&mut self.state.return_level, &mut ctx.return_level);
        std::mem::swap(&mut self.state.eval_depth, &mut ctx.eval_depth);
        std::mem::swap(&mut self.state.error_line, &mut ctx.error_line);
    }

    /// Exchanges the context that the interpreter runs in with the context of
    /// the coroutine `name`. Nothing happens where that coroutine is gone.
    pub fn coro_swap_named(&mut self, coros: &mut Vec<Coroutine>, name: &[u8])
        ensures
            match coro_at(old(coros)@, name@) {
                Some(i) => {
                    &&& *final(self) == in_context(*old(self), old(coros)@[i].context)
                    &&& final(coros)@ == old(coros)@.update(
                        i,
                        (Coroutine {
                            context: context_of(old(self).state),
                            ..old(coros)@[i]
                        }),
                    )
                },
                None => *final(self) == *old(self) && *final(coros) == *old(coros),
            },
    {
        if let Some(i) = find_coro(coros, name) {
            let entry: &mut Coroutine = &mut coros[i];
            self.swap_coro_ctx(&mut entry.context);
        }
    }
}

/// A handoff is undone by another: the interpreter is as it was, and so is the
/// coroutine's context.
pub proof fn swapping_twice_changes_nothing(i: Interp, c: CoroContext)
    ensures
        in_context(in_context(i, c), context_of(i.state)) == i,
        context_of(in_context(i, c).state) == c,
{
}

/// Flows share the result and everything that is defined: a handoff changes
/// neither.
pub proof fn flows_share_the_result(i: Interp, c: CoroContext)
    ensures
        in_context(i, c).state.result == i.state.result,
        in_context(i, c).state.hidden == i.state.hidden,
        in_context(i, c).state.traces == i.state.traces,
        in_context(i, c).children == i.children,
{
}

/// A coroutine is found by its name, and one whose name is not there is not
/// found.
pub proof fn a_coroutine_is_found_by_its_name(cs: Seq<Coroutine>, name: Seq<u8>)
    ensures
        match coro_at(cs, name) {
            Some(i) => 0 <= i < cs.len() && cs[i].name@ == name,
            None => forall|i: int| 0 <= i < cs.len() ==> (#[trigger] cs[i]).name@ != name,
        },
    decreases cs.len(),
{
    if cs.len() > 0 && cs[0].name@ != name {
        let rest = cs.skip(1);
        a_coroutine_is_found_by_its_name(rest, name);
        match coro_at(rest, name) {
            Some(i) => {
                assert(rest[i] == cs[i + 1]);
            },
            None => {
                assert forall|i: int| 0 <= i < cs.len() implies (#[trigger] cs[i]).name@
                    != name by {
                    if i > 0 {
                        assert(rest[i - 1] == cs[i]);
                    }
                }
            },
        }
    }
}

/// A handoff puts the flow of the context in charge: its frames, its namespace,
/// its depth, what it returns with and the error it has.
pub proof fn a_handoff_changes_the_flow(i: Interp, c: CoroContext)
    ensures
        in_context(i, c).state.cmd_frames == c.cmd_frames,
        in_context(i, c).state.current_ns == c.current_ns,
        in_context(i, c).state.recursion_depth == c.recursion_depth,
        in_context(i, c).state.return_code == c.return_code,
        in_context(i, c).state.return_level == c.return_level,
        in_context(i, c).state.exc == c.exc,
        in_context(i, c).state.error_line == c.error_line,
        in_context(i, c).state.eval_depth == c.eval_depth,
        in_context(i, c).state.script_stack == c.script_stack,
        context_of(i.state).cmd_frames == i.state.cmd_frames,
        context_of(i.state).exc == i.state.exc,
        context_of(i.state).eval_depth == i.state.eval_depth,
{
}

/// A flow in which nothing has run is in its namespace, with no frame, no depth
/// and no error, and would return normally.
pub proof fn a_fresh_flow_has_run_nothing(c: CoroContext, ns: NsId)
    requires
        fresh_context(c, ns),
    ensures
        c.current_ns == ns,
        c.cmd_frames@.len() == 0 && c.script_stack@.len() == 0 && c.arg_lines@.len() == 0,
        c.recursion_depth == 0 && c.eval_depth == 0,
        c.return_code == Code::Okay && c.return_level == 1,
        c.exc@.info is None && c.exc@.code.len() == 0 && !c.exc@.code_explicit
            && !c.exc@.already_logged,
        c.error_line == 1,
{
}

} // verus!
