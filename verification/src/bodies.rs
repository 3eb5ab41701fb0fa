//! Script bodies: which frame a body runs in, and how a script runs command by
//! command.

use vstd::prelude::*;

use crate::bytes::{copied, framed, opt_view, text, views};
use crate::calls::{boundary_crossed, settled, too_deep};
use crate::code::Code;
use crate::errors::{framed_error, raised, trace_text};
use crate::eval::{
    frame_shared, only_frames_changed, opt_frame, script_entered, script_left, top_set,
    SavedLocation, ScriptScope,
};
use crate::frames::{
    before_line, body_frame, definition_frame, entered, frame_views, line_before, loc_view, located,
    root_frame, sourced_frame, unlocated, uplevel_frame, CmdFrame, FrameView, Location,
};
use crate::number::decimal;
use crate::state::{Interp, InterpState, NsId, NATIVE_EVAL_DEPTH_LIMIT};

verus! {

/// How a body is evaluated.
pub enum BodyPlan {
    /// As one command, whose words are the elements of a list.
    List(CmdFrame),
    /// In the enclosing frame, with its lines counted from here.
    Shared { line_base: u32 },
    /// As a script in a frame of its own.
    Framed(CmdFrame),
    /// As a script in the enclosing frame, whose line stays.
    Inline,
}

/// What a [`BodyPlan`] holds.
pub enum BodyPlanView {
    List(FrameView),
    Shared { line_base: u32 },
    Framed(FrameView),
    Inline,
}

impl View for BodyPlan {
    type V = BodyPlanView;

    open spec fn view(&self) -> BodyPlanView {
        match *self {
            BodyPlan::List(f) => BodyPlanView::List(f@),
            BodyPlan::Shared { line_base } => BodyPlanView::Shared { line_base },
            BodyPlan::Framed(f) => BodyPlanView::Framed(f@),
            BodyPlan::Inline => BodyPlanView::Inline,
        }
    }
}

/// How the body of a control command runs. A body that was written in a
/// procedure is inlined there, and keeps the frame of the procedure.
pub open spec fn control_plan(
    stack: Seq<FrameView>,
    is_list: bool,
    loc: Option<crate::frames::LocationView>,
    in_proc: bool,
) -> BodyPlanView {
    if is_list {
        BodyPlanView::List(unlocated(stack))
    } else {
        match loc {
            Some(l) => if !in_proc {
                BodyPlanView::Framed(located(stack, l.file, l.line))
            } else if stack.len() > 0 {
                BodyPlanView::Shared { line_base: before_line(l.line) }
            } else {
                BodyPlanView::Framed(unlocated(stack))
            },
            None => BodyPlanView::Framed(unlocated(stack)),
        }
    }
}

/// How the body of an `eval` runs.
pub open spec fn eval_plan(
    stack: Seq<FrameView>,
    is_list: bool,
    loc: Option<crate::frames::LocationView>,
) -> BodyPlanView {
    if is_list {
        BodyPlanView::List(unlocated(stack))
    } else {
        BodyPlanView::Framed(body_frame(stack, loc))
    }
}

/// How the body of an `uplevel` runs.
pub open spec fn uplevel_plan(
    stack: Seq<FrameView>,
    target: usize,
    is_list: bool,
    loc: Option<crate::frames::LocationView>,
) -> BodyPlanView {
    if is_list {
        BodyPlanView::List(uplevel_frame(stack, None, target))
    } else {
        BodyPlanView::Framed(uplevel_frame(stack, loc, target))
    }
}

impl Interp {
    /// How the body of a control command runs. `is_list` says whether the value
    /// is a list without a string of its own, `loc` where it was written.
    pub fn eval_control_body(&self, is_list: bool, loc: &Option<Location>, in_proc: bool) -> (p:
        BodyPlan)
        ensures
            p@ == control_plan(
                frame_views(self.state.cmd_frames@),
                is_list,
                loc_view(*loc),
                in_proc,
            ),
    {
        let stack = &self.state.cmd_frames;
        if is_list {
            return BodyPlan::List(CmdFrame::unlocated_frame(stack));
        }
        match loc {
            Some(l) => if !in_proc {
                BodyPlan::Framed(CmdFrame::located_frame(stack, &l.file, l.line))
            } else if stack.len() > 0 {
                BodyPlan::Shared { line_base: line_before(l.line) }
            } else {
                BodyPlan::Framed(CmdFrame::unlocated_frame(stack))
            },
            None => BodyPlan::Framed(CmdFrame::unlocated_frame(stack)),
        }
    }

    /// How the body of an `eval` runs.
    pub fn eval_body_obj(&self, is_list: bool, loc: &Option<Location>) -> (p: BodyPlan)
        ensures
            p@ == eval_plan(frame_views(self.state.cmd_frames@), is_list, loc_view(*loc)),
    {
        let stack = &self.state.cmd_frames;
        if is_list {
            BodyPlan::List(CmdFrame::unlocated_frame(stack))
        } else {
            BodyPlan::Framed(CmdFrame::eval_body_frame(stack, loc))
        }
    }

    /// Begins an `uplevel` to the call level `target`, which runs in the
    /// namespace `ns`. Gives the namespace to go back to with
    /// [`Interp::switch_namespace`], and how the body runs.
    pub fn eval_uplevel_obj(
        &mut self,
        target: usize,
        ns: NsId,
        is_list: bool,
        loc: &Option<Location>,
    ) -> (r: (NsId, BodyPlan))
        ensures
            r.0 == old(self).state.current_ns,
            r.1@ == uplevel_plan(
                frame_views(old(self).state.cmd_frames@),
                target,
                is_list,
                loc_view(*loc),
            ),
            *final(self) == (Interp {
                state: InterpState { current_ns: ns, ..old(self).state },
                ..*old(self)
            }),
    {
        let saved = self.switch_namespace(ns);
        let stack = &self.state.cmd_frames;
        let plan = if is_list {
            BodyPlan::List(CmdFrame::uplevel_body_frame(stack, &None, target))
        } else {
            BodyPlan::Framed(CmdFrame::uplevel_body_frame(stack, loc, target))
        };
        (saved, plan)
    }

    /// How a definition script runs: at its source where that is known.
    pub fn eval_def_body(&self, written: &Option<(Vec<u8>, u32)>) -> (p: BodyPlan)
        ensures
            p@ == match *written {
                Some(w) => BodyPlanView::Framed(
                    definition_frame(frame_views(self.state.cmd_frames@), w.0@, w.1),
                ),
                None => BodyPlanView::Inline,
            },
    {
        match written {
            Some((file, line_base)) => BodyPlan::Framed(
                CmdFrame::definition_body_frame(&self.state.cmd_frames, file, *line_base),
            ),
            None => BodyPlan::Inline,
        }
    }

    /// Points the innermost frame at the line of a condition, so that scripts in
    /// it report that line. Gives back what it pointed at.
    pub fn push_cond_line_base(&mut self, line: u32) -> (r: Option<u32>)
        ensures
            match r {
                Some(base) => {
                    &&& old(self).state.cmd_frames@.len() > 0
                    &&& base == old(self).state.cmd_frames@.last().line_base
                    &&& based_at(*old(self), *final(self), before_line(line))
                },
                None => old(self).state.cmd_frames@.len() == 0 && *final(self) == *old(self),
            },
    {
        let depth = self.state.cmd_frames.len();
        if depth == 0 {
            return None;
        }
        let base = self.state.cmd_frames[depth - 1].line_base;
        self.restore_line_base(line_before(line));
        Some(base)
    }

    /// Points the innermost frame back at what
    /// [`Interp::push_cond_line_base`] gave.
    pub fn restore_line_base(&mut self, base: u32)
        ensures
            old(self).state.cmd_frames@.len() == 0 ==> *final(self) == *old(self),
            old(self).state.cmd_frames@.len() > 0 ==> based_at(*old(self), *final(self), base),
    {
        let depth = self.state.cmd_frames.len();
        if depth > 0 {
            let top: &mut CmdFrame = &mut self.state.cmd_frames[depth - 1];
            top.line_base = base;
            assert(frame_views(self.state.cmd_frames@) =~= top_set(
                frame_views(old(self).state.cmd_frames@),
                FrameView { line_base: base, ..old(self).state.cmd_frames@.last()@ },
            ));
        }
    }

    /// Begins a body that is one command, given as a list. A value that is no
    /// list is an error, and an empty one does nothing; otherwise the frame is
    /// pushed and the command is to be dispatched.
    pub fn begin_list_command(
        &mut self,
        length: Result<usize, Vec<u8>>,
        list: &[u8],
        frame: CmdFrame,
    ) -> (r: Option<Code>)
        requires
            frame.line_base < u32::MAX,
        ensures
            list_command_begun(*old(self), *final(self), length, list@, frame@, r),
    {
        match length {
            Err(m) => Some(self.error(&m)),
            Ok(n) => {
                if n == 0 {
                    self.state.result = Vec::new();
                    return Some(Code::Okay);
                }
                let ghost given = frame@;
                let mut owned = frame;
                owned.cmd = copied(list);
                owned.line = owned.line_base + 1;
                self.state.cmd_frames.push(owned);
                assert(frame_views(self.state.cmd_frames@) =~= frame_views(
                    old(self).state.cmd_frames@,
                ).push(FrameView { cmd: list@, line: (given.line_base + 1) as u32, ..given }));
                None
            },
        }
    }

    /// Ends a body that was one command.
    pub fn end_list_command(&mut self)
        ensures
            only_frames_changed(*old(self), *final(self)),
            frame_views(final(self).state.cmd_frames@) == if old(
                self).state.cmd_frames@.len() > 0 {
                frame_views(old(self).state.cmd_frames@).drop_last()
            } else {
                Seq::empty()
            },
    {
        self.state.cmd_frames.pop();
        assert(frame_views(self.state.cmd_frames@) =~= if old(self).state.cmd_frames@.len() > 0 {
            frame_views(old(self).state.cmd_frames@).drop_last()
        } else {
            Seq::empty()
        });
    }

    /// Begins a `namespace eval` in the namespace `target`. A name that belongs
    /// to a dying namespace is refused. Gives the namespace to go back to.
    pub fn begin_ns_eval(&mut self, dying: &Option<Vec<u8>>, target: NsId) -> (r: Result<
        NsId,
        Code,
    >)
        ensures
            ns_eval_begun(*old(self), *final(self), opt_view(*dying), target, r),
    {
        match dying {
            Some(name) => {
                let msg = framed("can't create namespace \"", name, "\": already exists");
                Err(self.error(&msg))
            },
            None => Ok(self.switch_namespace(target)),
        }
    }

    /// Ends a `namespace eval` whose body ended with `code`. An error gets the
    /// frame that names the namespace, unless the caller adds its own.
    pub fn end_ns_eval(&mut self, code: Code, add_eval_frame: bool, fqn: &[u8], saved: NsId)
        ensures
            ns_eval_ended(*old(self), *final(self), code, add_eval_frame, fqn@, saved),
    {
        if code == Code::Error && add_eval_frame {
            self.append_namespace_eval_frame(fqn);
        }
        self.state.current_ns = saved;
    }
}

/// Only the lines of the innermost frame are counted anew, from `base`.
pub open spec fn based_at(before: Interp, after: Interp, base: u32) -> bool {
    &&& only_frames_changed(before, after)
    &&& frame_views(after.state.cmd_frames@) == top_set(
        frame_views(before.state.cmd_frames@),
        FrameView { line_base: base, ..before.state.cmd_frames@.last()@ },
    )
}

/// A script whose commands are being run.
pub struct ScriptRun {
    pub scope: ScriptScope,
    /// How many commands the script has.
    pub total: usize,
    /// How many of them have run.
    pub done: usize,
    /// How the last of those ended.
    pub last: Code,
}

/// How a script ends whose commands ended with `codes`: with the first code that
/// is no success.
pub open spec fn script_code(codes: Seq<Code>) -> Code
    decreases codes.len(),
{
    if codes.len() == 0 {
        Code::Okay
    } else {
        let before = script_code(codes.drop_last());
        if before != Code::Okay {
            before
        } else {
            codes.last()
        }
    }
}

impl ScriptRun {
    /// Whether this stands where the commands so far ended with `codes`.
    pub open spec fn after(self, codes: Seq<Code>) -> bool {
        &&& self.done == codes.len() <= self.total
        &&& self.last == script_code(codes)
        &&& forall|i: int| 0 <= i < codes.len() - 1 ==> codes[i] == Code::Okay
    }

    /// The next command to run, if the script goes on.
    pub fn next(&self) -> (r: Option<usize>)
        ensures
            r == if self.last == Code::Okay && self.done < self.total {
                Some(self.done)
            } else {
                None
            },
    {
        if self.last == Code::Okay && self.done < self.total {
            Some(self.done)
        } else {
            None
        }
    }

    /// Notes how the command ended.
    pub fn ended(&mut self, code: Code)
        requires
            old(self).last == Code::Okay,
            old(self).done < old(self).total,
        ensures
            *final(self) == (ScriptRun {
                done: (old(self).done + 1) as usize,
                last: code,
                ..*old(self)
            }),
            forall|codes: Seq<Code>| #[trigger]
                old(self).after(codes) ==> final(self).after(codes.push(code)),
    {
        self.done = self.done + 1;
        self.last = code;
        proof {
            assert forall|codes: Seq<Code>| #[trigger] old(self).after(codes) implies self.after(
                codes.push(code),
            ) by {
                let all = codes.push(code);
                assert(all.drop_last() =~= codes);
                assert forall|i: int| 0 <= i < all.len() - 1 implies all[i] == Code::Okay by {
                    if i == codes.len() - 1 {
                        assert(codes.last() == codes[i]);
                        assert(script_code(codes) == Code::Okay);
                    }
                }
            }
        }
    }
}

/// A script stops at the first command that does not succeed: its code is the
/// code of the last command that ran, and every one before that succeeded.
pub proof fn a_script_stops_at_the_first_failure(run: ScriptRun, codes: Seq<Code>)
    requires
        run.after(codes),
    ensures
        codes.len() > 0 ==> run.last == codes.last(),
        codes.len() == 0 ==> run.last == Code::Okay,
        forall|i: int| 0 <= i < codes.len() - 1 ==> codes[i] == Code::Okay,
{
    if codes.len() > 0 {
        all_okay(codes.drop_last());
    }
}

proof fn all_okay(codes: Seq<Code>)
    requires
        forall|i: int| 0 <= i < codes.len() ==> codes[i] == Code::Okay,
    ensures
        script_code(codes) == Code::Okay,
    decreases codes.len(),
{
    if codes.len() > 0 {
        all_okay(codes.drop_last());
    }
}

/// A script of `total` commands begins, in the frame `owned` where it has one.
/// A script without commands leaves an empty result; past the nesting bound the
/// error is raised instead.
pub open spec fn script_begins(
    before: Interp,
    after: Interp,
    owned: Option<FrameView>,
    advance_shared: bool,
    total: usize,
    r: Result<ScriptRun, Code>,
) -> bool {
    if before.state.eval_depth < NATIVE_EVAL_DEPTH_LIMIT {
        &&& r is Ok
        &&& r->Ok_0.scope == (ScriptScope {
            pushed: owned is Some,
            owns_frame: owned is Some || advance_shared,
        })
        &&& r->Ok_0.total == total
        &&& r->Ok_0.after(Seq::empty())
        &&& after.state.result@ == if total == 0 {
            Seq::empty()
        } else {
            before.state.result@
        }
        &&& script_entered(
            before,
            (Interp {
                state: InterpState { result: before.state.result, ..after.state },
                ..after
            }),
            owned,
        )
    } else {
        &&& r == Err::<ScriptRun, Code>(Code::Error)
        &&& raised(before, after, too_deep())
    }
}

/// The sourced file `name` begins, a script of `total` commands.
pub open spec fn source_begins(
    before: Interp,
    after: Interp,
    name: Seq<u8>,
    total: usize,
    r: Result<ScriptRun, Code>,
) -> bool {
    &&& views(after.state.script_stack@) == if r is Ok {
        views(before.state.script_stack@).push(name)
    } else {
        views(before.state.script_stack@)
    }
    &&& script_begins(
        (Interp {
            state: InterpState { script_stack: after.state.script_stack, ..before.state },
            ..before
        }),
        after,
        Some(entered(sourced_frame(frame_views(before.state.cmd_frames@), name))),
        false,
        total,
        r,
    )
}

/// The end of a sourced file: its script is left, a `return` at its top level
/// settled, and `info script` names the file around it again.
pub open spec fn source_left(before: Interp, after: Interp, run: ScriptRun) -> bool {
    &&& after.state.script_stack@ == before.state.script_stack@.drop_last()
    &&& script_left(
        boundary_crossed(before, run.last),
        (Interp {
            state: InterpState { script_stack: before.state.script_stack, ..after.state },
            ..after
        }),
        run.scope.pushed,
    )
}

/// A body that is a script, as it begins.
pub struct BodyRun {
    /// The script; where it cannot run, the code that it fails with.
    pub begun: Result<ScriptRun, Code>,
    /// What the frame pointed at that the body shares, to be handed to
    /// [`Interp::end_shared`] in the end.
    pub saved: Option<SavedLocation>,
}

/// A body begins in the innermost frame, which is first pointed at `line_base`.
pub open spec fn shared_begins(
    before: Interp,
    shared: Interp,
    after: Interp,
    line_base: u32,
    total: usize,
    r: BodyRun,
) -> bool {
    &&& frame_shared(before, shared, line_base, r.saved->0)
    &&& script_begins(shared, after, None, true, total, r.begun)
}

/// A body begins in the innermost frame, with its lines counted from
/// `line_base`.
pub open spec fn begins_in_shared(
    before: Interp,
    after: Interp,
    line_base: u32,
    total: usize,
    r: BodyRun,
) -> bool {
    exists|shared: Interp| #[trigger] shared_begins(before, shared, after, line_base, total, r)
}

/// A body that is a script of `total` commands begins as it is planned.
pub open spec fn body_begins(
    before: Interp,
    after: Interp,
    plan: BodyPlanView,
    total: usize,
    r: BodyRun,
) -> bool {
    let outermost = before.state.cmd_frames@.len() == 0;
    match plan {
        BodyPlanView::List(_) => false,
        BodyPlanView::Framed(f) => {
            &&& r.saved is None
            &&& script_begins(before, after, Some(entered(f)), false, total, r.begun)
        },
        BodyPlanView::Shared { line_base } => if outermost {
            &&& r.saved is None
            &&& script_begins(before, after, None, false, total, r.begun)
        } else {
            &&& r.saved is Some
            &&& begins_in_shared(before, after, line_base, total, r)
        },
        BodyPlanView::Inline => {
            let owned = if outermost {
                Some(root_frame())
            } else {
                None
            };
            &&& r.saved is None
            &&& script_begins(before, after, owned, false, total, r.begun)
        },
    }
}

impl Interp {
    /// Begins a script of `total` commands in the frame `frame`: errors in it are
    /// measured from its first line.
    pub fn begin_framed_run(&mut self, frame: CmdFrame, total: usize) -> (r: Result<
        ScriptRun,
        Code,
    >)
        ensures
            script_begins(
                *old(self),
                *final(self),
                Some(entered(frame@)),
                false,
                total,
                r,
            ),
    {
        let mut frame = frame;
        frame.proc_line_base = frame.line_base;
        self.begin_script_run(Some(frame), false, total)
    }

    /// Begins a body that is a script of `total` commands as it is planned. One
    /// that shares the frame of its command advances the lines of that frame.
    pub fn begin_body(&mut self, plan: BodyPlan, total: usize) -> (r: BodyRun)
        requires
            !(plan is List),
        ensures
            body_begins(*old(self), *final(self), plan@, total, r),
    {
        match plan {
            BodyPlan::Shared { line_base } => {
                let saved = self.share_frame(line_base);
                let ghost shared = *self;
                let begun = self.begin_script_run(None, saved.is_some(), total);
                let r = BodyRun { begun, saved };
                proof {
                    if r.saved is Some {
                        assert(shared_begins(*old(self), shared, *self, line_base, total, r));
                        assert(begins_in_shared(*old(self), *self, line_base, total, r));
                    }
                }
                r
            },
            BodyPlan::Inline => BodyRun { begun: self.eval_str(total), saved: None },
            BodyPlan::Framed(frame) | BodyPlan::List(frame) => BodyRun {
                begun: self.begin_framed_run(frame, total),
                saved: None,
            },
        }
    }

    /// Begins a script of `total` commands. A script without commands leaves an
    /// empty result. Past the nesting bound the error is raised instead.
    pub fn begin_script_run(
        &mut self,
        owned: Option<CmdFrame>,
        advance_shared: bool,
        total: usize,
    ) -> (r: Result<ScriptRun, Code>)
        ensures
            script_begins(
                *old(self),
                *final(self),
                opt_frame(owned),
                advance_shared,
                total,
                r,
            ),
    {
        match self.enter_script(owned, advance_shared) {
            None => Err(Code::Error),
            Some(scope) => {
                if total == 0 {
                    self.state.result = Vec::new();
                    assert(self.state.result@ =~= Seq::empty());
                }
                Ok(ScriptRun { scope, total, done: 0, last: Code::Okay })
            },
        }
    }

    /// Begins a whole script of `total` commands, as the embedder hands it in:
    /// in the outermost frame where nothing runs yet, else in the frame that is
    /// there.
    pub fn eval_str(&mut self, total: usize) -> (r: Result<ScriptRun, Code>)
        ensures
            ({
                let outermost = old(self).state.cmd_frames@.len() == 0;
                script_begins(
                    *old(self),
                    *final(self),
                    if outermost {
                        Some(root_frame())
                    } else {
                        None
                    },
                    false,
                    total,
                    r,
                )
            }),
    {
        let owned = if self.state.cmd_frames.len() == 0 {
            Some(CmdFrame::root())
        } else {
            None
        };
        self.begin_script_run(owned, false, total)
    }

    /// Begins the sourced file `name`, a script of `total` commands. It runs in
    /// a frame of its own, and `info script` names it.
    pub fn eval_sourced(&mut self, name: &[u8], total: usize) -> (r: Result<ScriptRun, Code>)
        ensures
            source_begins(*old(self), *final(self), name@, total, r),
    {
        let ghost before = *self;
        let frame = self.begin_source(name);
        let ghost inside = *self;
        let r = self.begin_framed_run(frame, total);
        if r.is_err() {
            let _ = self.state.script_stack.pop();
            proof {
                let pushed = views(inside.state.script_stack@);
                assert(pushed.drop_last() =~= views(before.state.script_stack@));
                assert(views(self.state.script_stack@) =~= pushed.drop_last());
            }
        }
        r
    }

    /// Ends a sourced file: a `return` at its top level ends the file.
    pub fn end_sourced(&mut self, run: ScriptRun) -> (c: Code)
        requires
            old(self).state.eval_depth > 0,
            old(self).state.script_stack@.len() > 0,
        ensures
            c == settled(run.last, old(self).state.return_level, old(self).state.return_code).0,
            source_left(*old(self), *final(self), run),
    {
        let code = self.end_script_run(run);
        self.end_source(code)
    }

    /// Ends a script, and gives the code it ends with.
    pub fn end_script_run(&mut self, run: ScriptRun) -> (c: Code)
        requires
            old(self).state.eval_depth > 0,
        ensures
            c == run.last,
            script_left(*old(self), *final(self), run.scope.pushed),
    {
        self.leave_script(run.scope);
        run.last
    }
}

/// Scripts nest no deeper than the native stack allows: one that would is
/// refused.
pub proof fn nesting_is_bounded(
    before: Interp,
    after: Interp,
    owned: Option<FrameView>,
    advance_shared: bool,
    total: usize,
    r: Result<ScriptRun, Code>,
)
    requires
        before.state.eval_depth <= NATIVE_EVAL_DEPTH_LIMIT,
        script_begins(before, after, owned, advance_shared, total, r),
    ensures
        after.state.eval_depth <= NATIVE_EVAL_DEPTH_LIMIT,
        r is Ok == (after.state.eval_depth == before.state.eval_depth + 1),
{
}

/// A condition that is evaluated at its own line leaves the lines of the frame
/// as they were, if what it ran kept the frames.
pub proof fn a_condition_leaves_the_lines(
    before: Interp,
    inside: Interp,
    ran: Interp,
    after: Interp,
    base: u32,
)
    requires
        before.state.cmd_frames@.len() > 0,
        based_at(before, inside, base),
        frame_views(ran.state.cmd_frames@) == frame_views(inside.state.cmd_frames@),
        based_at(ran, after, before.state.cmd_frames@.last().line_base),
    ensures
        frame_views(after.state.cmd_frames@) == frame_views(before.state.cmd_frames@),
{
    let was = frame_views(before.state.cmd_frames@);
    let top = was.len() - 1;
    assert(was[top] == before.state.cmd_frames@.last()@);
    let held = frame_views(ran.state.cmd_frames@);
    assert(held[top] == ran.state.cmd_frames@.last()@);
    assert(frame_views(after.state.cmd_frames@) =~= was);
}

/// A script that begins is one level deeper, in the frame it has of its own. The
/// result stays, but for a script without commands, which leaves an empty one.
/// Past the nesting bound none begins.
pub proof fn a_script_begins_one_level_deeper(
    before: Interp,
    after: Interp,
    owned: Option<FrameView>,
    advance_shared: bool,
    total: usize,
    r: Result<ScriptRun, Code>,
)
    requires
        script_begins(before, after, owned, advance_shared, total, r),
    ensures
        r is Ok <==> before.state.eval_depth < NATIVE_EVAL_DEPTH_LIMIT,
        r is Ok ==> after.state.eval_depth == before.state.eval_depth + 1,
        r is Ok && total == 0 ==> after.state.result@ == Seq::<u8>::empty(),
        r is Ok && total > 0 ==> after.state.result@ == before.state.result@,
        r is Ok && owned is Some ==> frame_views(after.state.cmd_frames@) == frame_views(
            before.state.cmd_frames@,
        ).push(owned->0),
        r is Ok && owned is None ==> frame_views(after.state.cmd_frames@) == frame_views(
            before.state.cmd_frames@,
        ),
        r is Err ==> after.state.result@ == text("too many nested evaluations (infinite loop?)"),
{
}

/// A sourced file is the one that `info script` names while it runs, and the one
/// around it is named again when it is left. A `return` at its top level ends
/// only the file.
pub proof fn a_sourced_file_is_named_while_it_runs(
    before: Interp,
    inside: Interp,
    ran: Interp,
    after: Interp,
    name: Seq<u8>,
    total: usize,
    r: Result<ScriptRun, Code>,
    run: ScriptRun,
)
    requires
        source_begins(before, inside, name, total, r),
        r is Ok,
        ran.state.script_stack == inside.state.script_stack,
        source_left(ran, after, run),
    ensures
        views(inside.state.script_stack@).len() > 0,
        views(inside.state.script_stack@).last() == name,
        views(after.state.script_stack@) == views(before.state.script_stack@),
        run.last == Code::Return && ran.state.return_level <= 1 ==> after.state.return_level == 0
            && after.state.return_code == Code::Okay,
{
    let was = views(before.state.script_stack@);
    let now = views(inside.state.script_stack@);
    assert(now == was.push(name));
    assert(now.len() == inside.state.script_stack@.len());
    assert(views(inside.state.script_stack@.drop_last()) =~= now.drop_last());
    assert(now.drop_last() =~= was);
}

/// The body of a control command in a procedure shares the procedure's frame,
/// numbered so that its first line is the one it begins on. Elsewhere it has a
/// frame of its own: at its place where that is known, and without one where it
/// is not or where the body is a list.
pub proof fn a_body_in_a_procedure_shares_its_frame(
    stack: Seq<FrameView>,
    l: crate::frames::LocationView,
    target: usize,
)
    ensures
        stack.len() > 0 && l.line >= 1 ==> control_plan(stack, false, Some(l), true)
            == (BodyPlanView::Shared { line_base: (l.line - 1) as u32 }),
        control_plan(stack, false, Some(l), false) == BodyPlanView::Framed(
            body_frame(stack, Some(l)),
        ),
        control_plan(stack, false, None, true) == BodyPlanView::Framed(body_frame(stack, None)),
        control_plan(stack, false, None, false) == BodyPlanView::Framed(body_frame(stack, None)),
        control_plan(stack, true, Some(l), true) == BodyPlanView::List(body_frame(stack, None)),
        eval_plan(stack, true, Some(l)) == BodyPlanView::List(body_frame(stack, None)),
        eval_plan(stack, false, Some(l)) == BodyPlanView::Framed(body_frame(stack, Some(l))),
        eval_plan(stack, false, None) == BodyPlanView::Framed(body_frame(stack, None)),
        uplevel_plan(stack, target, false, Some(l)) matches BodyPlanView::Framed(f) && f.level
            == target && f.file == l.file,
        uplevel_plan(stack, target, true, Some(l)) matches BodyPlanView::List(f) && f.level
            == target && f.file is None,
{
}

/// A body runs in the namespace `target`, unless that is being deleted under
/// the name `dying`.
pub open spec fn ns_eval_begun(
    before: Interp,
    after: Interp,
    dying: Option<Seq<u8>>,
    target: NsId,
    r: Result<NsId, Code>,
) -> bool {
    match dying {
        Some(name) => {
            &&& r == Err::<NsId, Code>(Code::Error)
            &&& raised(
                before,
                after,
                text("can't create namespace \"") + name + text("\": already exists"),
            )
        },
        None => {
            &&& r == Ok::<NsId, Code>(before.state.current_ns)
            &&& after == (Interp {
                state: InterpState { current_ns: target, ..before.state },
                ..before
            })
        },
    }
}

/// A body has run in the namespace `fqn`, and the caller's is current again.
pub open spec fn ns_eval_ended(
    before: Interp,
    after: Interp,
    code: Code,
    add_eval_frame: bool,
    fqn: Seq<u8>,
    saved: NsId,
) -> bool {
    &&& after.state.exc@ == if code == Code::Error && add_eval_frame {
        framed_error(before.state, text("in namespace eval \"") + fqn + text("\" script"))
    } else {
        before.state.exc@
    }
    &&& after == (Interp {
        state: InterpState { exc: after.state.exc, current_ns: saved, ..before.state },
        ..before
    })
}

/// A body that is a list begins, as one command in a frame of its own. `r` is
/// its completion where it is over at once.
pub open spec fn list_command_begun(
    before: Interp,
    after: Interp,
    length: Result<usize, Vec<u8>>,
    list: Seq<u8>,
    frame: FrameView,
    r: Option<Code>,
) -> bool {
    match length {
        Err(m) => r == Some(Code::Error) && raised(before, after, m@),
        Ok(n) => if n == 0 {
            &&& r == Some(Code::Okay)
            &&& after.state.result@.len() == 0
            &&& after == (Interp {
                state: InterpState { result: after.state.result, ..before.state },
                ..before
            })
        } else {
            &&& r is None
            &&& only_frames_changed(before, after)
            &&& frame_views(after.state.cmd_frames@) == frame_views(before.state.cmd_frames@).push(
                FrameView { cmd: list, line: (frame.line_base + 1) as u32, ..frame },
            )
        },
    }
}

/// A `namespace eval` leaves the namespace of its caller current, whatever its
/// body did, and the body itself runs in the one it names. An error of the body
/// is marked with that namespace.
pub proof fn a_namespace_eval_comes_back(
    before: Interp,
    inside: Interp,
    ran: Interp,
    after: Interp,
    target: NsId,
    r: Result<NsId, Code>,
    code: Code,
    fqn: Seq<u8>,
)
    requires
        ns_eval_begun(before, inside, None, target, r),
        ns_eval_ended(ran, after, code, true, fqn, r->Ok_0),
    ensures
        r is Ok,
        inside.state.current_ns == target,
        after.state.current_ns == before.state.current_ns,
        after.state.result == ran.state.result,
        code != Code::Error ==> after.state.exc@ == ran.state.exc@,
        code == Code::Error ==> trace_text(after.state) == trace_text(ran.state) + (text(
            "\n    (",
        ) + (text("in namespace eval \"") + fqn + text("\" script")) + text(" line ") + decimal(
            ran.state.error_line as int,
        ) + text(")")),
{
}

/// An empty list is over at once, with an empty result; a list that is none is
/// an error; any other is one command, which its frame shows on the first line
/// of the body.
pub proof fn a_list_body_is_one_command(
    before: Interp,
    after: Interp,
    length: Result<usize, Vec<u8>>,
    list: Seq<u8>,
    frame: FrameView,
    r: Option<Code>,
)
    requires
        frame.line_base < u32::MAX,
        list_command_begun(before, after, length, list, frame, r),
    ensures
        length matches Err(m) ==> r == Some(Code::Error) && after.state.result@ == m@,
        length is Ok && length->Ok_0 == 0 ==> r == Some(Code::Okay) && after.state.result@
            == Seq::<u8>::empty() && after.state.cmd_frames == before.state.cmd_frames,
        length is Ok && length->Ok_0 > 0 ==> {
            let fs = frame_views(after.state.cmd_frames@);
            &&& r is None
            &&& fs.len() == before.state.cmd_frames@.len() + 1
            &&& fs.last().cmd == list
            &&& fs.last().line == frame.line_base + 1
            &&& fs.last().file == frame.file && fs.last().level == frame.level
            &&& after.state.result == before.state.result
        },
{
}

/// A body begins in the frame that is planned for it: one of its own, pushed on
/// the stack; the innermost one, with its place put aside; or none, but for the
/// root where there is no other.
pub proof fn a_body_begins_in_the_frame_planned(
    before: Interp,
    after: Interp,
    plan: BodyPlanView,
    total: usize,
    r: BodyRun,
)
    requires
        body_begins(before, after, plan, total, r),
        before.state.eval_depth < NATIVE_EVAL_DEPTH_LIMIT,
    ensures
        r.begun is Ok,
        after.state.eval_depth == before.state.eval_depth + 1,
        plan matches BodyPlanView::Framed(f) ==> r.saved is None && frame_views(
            after.state.cmd_frames@,
        ) == frame_views(before.state.cmd_frames@).push(
            FrameView { proc_line_base: f.line_base, ..f },
        ),
        plan is Inline && before.state.cmd_frames@.len() > 0 ==> r.saved is None && frame_views(
            after.state.cmd_frames@,
        ) == frame_views(before.state.cmd_frames@),
        plan is Inline && before.state.cmd_frames@.len() == 0 ==> r.saved is None && frame_views(
            after.state.cmd_frames@,
        ) == frame_views(before.state.cmd_frames@).push(root_frame()),
        plan is Shared && before.state.cmd_frames@.len() > 0 ==> {
            let top = before.state.cmd_frames@.last()@;
            let fs = frame_views(after.state.cmd_frames@);
            &&& r.saved matches Some(s) && s.line_base == top.line_base && s.line == top.line
                && s.cmd@ == top.cmd
            &&& fs.len() == before.state.cmd_frames@.len()
            &&& fs.last().line_base == plan->line_base
            &&& fs.last().file == top.file && fs.last().proc_name == top.proc_name
            &&& fs.drop_last() == frame_views(before.state.cmd_frames@).drop_last()
        },
{
    if let BodyPlanView::Shared { line_base } = plan {
        if before.state.cmd_frames@.len() > 0 {
            let shared = choose|shared: Interp| #[trigger]
                shared_begins(before, shared, after, line_base, total, r);
            let was = frame_views(before.state.cmd_frames@);
            let fs = frame_views(after.state.cmd_frames@);
            assert(fs.drop_last() =~= was.drop_last());
        }
    }
}

} // verus!
