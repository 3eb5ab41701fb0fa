//! The evaluation of scripts: nesting, frames, argument locations, and the tail
//! of an outermost evaluation.

use vstd::prelude::*;

use crate::bytes::{copied, copied_opt, opt_view, slice_of, views};
use crate::calls::{boundary_crossed, settled, too_deep};
use crate::code::Code;
use crate::errors::{code_text, error_ended, no_error, raised, trace_text};
use crate::frames::{
    entered, frame_views, loc_view, sourced_frame, CmdFrame, FrameView, Location, LocationView,
};
use crate::lines::{count_newlines, line_at, line_of, newlines, newlines_concat, ElementOffset};
use crate::state::{ArgLoc, Interp, InterpState, NsId, NATIVE_EVAL_DEPTH_LIMIT};

verus! {

/// What an evaluation gives back when it ends.
#[derive(Debug, Clone, Copy, PartialEq, Eq, Structural)]
pub struct ScriptScope {
    /// Whether it pushed a frame of its own.
    pub pushed: bool,
    /// Whether the lines of its commands are reported.
    pub owns_frame: bool,
}

/// What is left to do once an evaluation has ended: the texts are written to
/// the global variables, and then [`Interp::end_outermost_eval`] ends it.
pub struct Tail {
    /// Whether the evaluation is an outermost one.
    pub outermost: bool,
    /// The trace and the code of an error that nothing caught, for the global
    /// variables.
    pub published: Option<(Vec<u8>, Vec<u8>)>,
}

/// An evaluation begins: one level deeper, in a frame of its own where it has
/// one.
pub open spec fn script_entered(before: Interp, after: Interp, frame: Option<FrameView>) -> bool {
    &&& after.state.eval_depth == before.state.eval_depth + 1
    &&& frame_views(after.state.cmd_frames@) == match frame {
        Some(f) => frame_views(before.state.cmd_frames@).push(f),
        None => frame_views(before.state.cmd_frames@),
    }
    &&& after == (Interp {
        state: InterpState {
            eval_depth: after.state.eval_depth,
            cmd_frames: after.state.cmd_frames,
            ..before.state
        },
        ..before
    })
}

/// An evaluation ends: one level less deep, without the frame it pushed.
pub open spec fn script_left(before: Interp, after: Interp, pushed: bool) -> bool {
    &&& after.state.eval_depth == before.state.eval_depth - 1
    &&& frame_views(after.state.cmd_frames@) == if pushed && before.state.cmd_frames@.len() > 0 {
        frame_views(before.state.cmd_frames@).drop_last()
    } else {
        frame_views(before.state.cmd_frames@)
    }
    &&& after == (Interp {
        state: InterpState {
            eval_depth: after.state.eval_depth,
            cmd_frames: after.state.cmd_frames,
            ..before.state
        },
        ..before
    })
}

/// Leaving an evaluation undoes entering it, if what ran in between kept the
/// depth and the frames.
pub proof fn leaving_undoes_entering(before: Interp, inside: Interp, after: Interp, frame: Option<
    FrameView,
>)
    requires
        script_entered(before, inside, frame),
        script_left(inside, after, frame is Some),
    ensures
        after.state.eval_depth == before.state.eval_depth,
        frame_views(after.state.cmd_frames@) == frame_views(before.state.cmd_frames@),
{
    if let Some(f) = frame {
        assert(frame_views(before.state.cmd_frames@).push(f).drop_last() =~= frame_views(
            before.state.cmd_frames@,
        ));
        assert(frame_views(inside.state.cmd_frames@).len() == inside.state.cmd_frames@.len());
    }
}

/// An optional frame as a plain value.
pub open spec fn opt_frame(f: Option<CmdFrame>) -> Option<FrameView> {
    match f {
        Some(x) => Some(x@),
        None => None,
    }
}

/// The last frame of a stack changed to `f`.
pub open spec fn top_set(stack: Seq<FrameView>, f: FrameView) -> Seq<FrameView> {
    stack.drop_last().push(f)
}

/// Only the frames changed.
pub open spec fn only_frames_changed(before: Interp, after: Interp) -> bool {
    after == (Interp {
        state: InterpState { cmd_frames: after.state.cmd_frames, ..before.state },
        ..before
    })
}

/// The location of a frame that an inline body borrows.
pub struct SavedLocation {
    pub line_base: u32,
    pub line: u32,
    pub cmd: Vec<u8>,
}

/// One evaluation more.
pub open spec fn one_level_down(i: Interp) -> Interp {
    Interp {
        state: InterpState { eval_depth: (i.state.eval_depth + 1) as u32, ..i.state },
        ..i
    }
}

/// One evaluation fewer, none below zero.
pub open spec fn one_level_up(i: Interp) -> Interp {
    Interp {
        state: InterpState {
            eval_depth: if i.state.eval_depth == 0 {
                0
            } else {
                (i.state.eval_depth - 1) as u32
            },
            ..i.state
        },
        ..i
    }
}

/// An activation that is entered inside another and left again changes nothing,
/// whatever it completed with: only the outermost one publishes an error.
pub proof fn inner_activations_publish_nothing(
    i: Interp,
    after: Interp,
    code: Code,
    t: Tail,
    drain: bool,
)
    requires
        0 < i.state.eval_depth < NATIVE_EVAL_DEPTH_LIMIT,
        eval_finished(one_level_up(one_level_down(i)), code, t),
        tail_ended(i, after, t, drain),
    ensures
        t.published is None,
        after == i,
        !drain,
{
}

/// What a callback does while an error is published is not lost: the error that
/// it leaves is ended with the other, and a background error that it queues is
/// reported.
pub proof fn publication_comes_before_the_end(written: Interp, after: Interp, t: Tail, drain: bool)
    requires
        t.outermost,
        t.published is Some,
        tail_ended(written, after, t, drain),
    ensures
        after.state.exc@ == no_error(),
        after.state.during is None,
        drain == (written.state.bg_queue@.len() > 0),
        after.state.bg_queue == written.state.bg_queue,
{
}

/// The innermost frame is pointed at `line_base`, and `saved` is what it pointed
/// at.
pub open spec fn frame_shared(
    before: Interp,
    after: Interp,
    line_base: u32,
    saved: SavedLocation,
) -> bool {
    let top = before.state.cmd_frames@.last()@;
    &&& saved.line_base == top.line_base
    &&& saved.line == top.line
    &&& saved.cmd@ == top.cmd
    &&& only_frames_changed(before, after)
    &&& frame_views(after.state.cmd_frames@) == top_set(
        frame_views(before.state.cmd_frames@),
        FrameView { line_base, cmd: Seq::empty(), ..top },
    )
}

/// The innermost frame points at `saved` again.
pub open spec fn frame_restored(before: Interp, after: Interp, saved: SavedLocation) -> bool {
    &&& only_frames_changed(before, after)
    &&& frame_views(after.state.cmd_frames@) == if before.state.cmd_frames@.len() == 0 {
        Seq::empty()
    } else {
        top_set(
            frame_views(before.state.cmd_frames@),
            FrameView {
                line_base: saved.line_base,
                line: saved.line,
                cmd: saved.cmd@,
                ..before.state.cmd_frames@.last()@
            },
        )
    }
}

/// An inline body that shares its frame leaves no trace in it: whatever line and
/// command its commands noted there, the frame is as it was.
pub proof fn a_shared_frame_comes_back(
    before: Interp,
    inside: Interp,
    later: Interp,
    after: Interp,
    line_base: u32,
    saved: SavedLocation,
    line: u32,
    cmd: Seq<u8>,
)
    requires
        before.state.cmd_frames@.len() > 0,
        frame_shared(before, inside, line_base, saved),
        frame_views(later.state.cmd_frames@) == top_set(
            frame_views(inside.state.cmd_frames@),
            FrameView { line, cmd, ..inside.state.cmd_frames@.last()@ },
        ),
        frame_restored(later, after, saved),
    ensures
        frame_views(after.state.cmd_frames@) == frame_views(before.state.cmd_frames@),
{
    let b = frame_views(before.state.cmd_frames@);
    let i = frame_views(inside.state.cmd_frames@);
    let l = frame_views(later.state.cmd_frames@);
    assert(i.len() == b.len() && l.len() == b.len());
    assert(i.last() == inside.state.cmd_frames@.last()@);
    assert(l.last() == later.state.cmd_frames@.last()@);
    assert(b.last() == before.state.cmd_frames@.last()@);
    assert(i.drop_last() =~= b.drop_last());
    assert(l.drop_last() =~= b.drop_last());
    assert(frame_views(after.state.cmd_frames@) =~= b);
}

impl Interp {
    /// Enters the activation that compiled code stands in for. Past the nesting
    /// bound an error is raised and none is entered.
    pub fn codegen_activation_enter(&mut self) -> (r: bool)
        ensures
            r == (old(self).state.eval_depth < NATIVE_EVAL_DEPTH_LIMIT),
            r ==> *final(self) == one_level_down(*old(self)),
            !r ==> raised(*old(self), *final(self), too_deep()),
    {
        if self.state.eval_depth >= NATIVE_EVAL_DEPTH_LIMIT {
            self.error("too many nested evaluations (infinite loop?)".as_bytes());
            return false;
        }
        self.state.eval_depth = self.state.eval_depth + 1;
        true
    }

    /// Leaves an activation that compiled code stood in for.
    pub fn codegen_activation_leave(&mut self, code: Code) -> (t: Tail)
        ensures
            *final(self) == one_level_up(*old(self)),
            eval_finished(*final(self), code, t),
    {
        if self.state.eval_depth > 0 {
            self.state.eval_depth = self.state.eval_depth - 1;
        }
        self.finish_outermost_eval(code)
    }

    /// Begins the evaluation of a script. `owned` is the frame of a body that
    /// has its own; `advance_shared` reports the lines of one that shares the
    /// enclosing frame.
    pub fn enter_script(&mut self, owned: Option<CmdFrame>, advance_shared: bool) -> (r: Option<
        ScriptScope,
    >)
        ensures
            match r {
                Some(s) => {
                    &&& old(self).state.eval_depth < NATIVE_EVAL_DEPTH_LIMIT
                    &&& s.pushed == owned is Some
                    &&& s.owns_frame == (owned is Some || advance_shared)
                    &&& script_entered(*old(self), *final(self), opt_frame(owned))
                },
                None => {
                    &&& old(self).state.eval_depth >= NATIVE_EVAL_DEPTH_LIMIT
                    &&& raised(*old(self), *final(self), too_deep())
                },
            },
    {
        if !self.codegen_activation_enter() {
            return None;
        }
        let pushed = owned.is_some();
        if let Some(f) = owned {
            self.state.cmd_frames.push(f);
        }
        assert(script_entered(*old(self), *self, opt_frame(owned))) by {
            let after = frame_views(self.state.cmd_frames@);
            if let Some(f) = owned {
                assert(after =~= frame_views(old(self).state.cmd_frames@).push(f@));
            }
        }
        Some(ScriptScope { pushed, owns_frame: pushed || advance_shared })
    }

    /// Begins the evaluation of a body in a frame of its own: errors in it are
    /// measured from the body's first line.
    pub fn enter_framed(&mut self, frame: CmdFrame) -> (r: Option<ScriptScope>)
        ensures
            match r {
                Some(s) => {
                    &&& old(self).state.eval_depth < NATIVE_EVAL_DEPTH_LIMIT
                    &&& s == (ScriptScope { pushed: true, owns_frame: true })
                    &&& script_entered(*old(self), *final(self), Some(entered(frame@)))
                },
                None => {
                    &&& old(self).state.eval_depth >= NATIVE_EVAL_DEPTH_LIMIT
                    &&& raised(*old(self), *final(self), too_deep())
                },
            },
    {
        let mut frame = frame;
        frame.proc_line_base = frame.line_base;
        self.enter_script(Some(frame), false)
    }

    /// Ends the evaluation of a script.
    pub fn leave_script(&mut self, scope: ScriptScope)
        requires
            old(self).state.eval_depth > 0,
        ensures
            script_left(*old(self), *final(self), scope.pushed),
    {
        if scope.pushed {
            self.state.cmd_frames.pop();
            assert(old(self).state.cmd_frames@.len() > 0 ==> frame_views(self.state.cmd_frames@)
                =~= frame_views(old(self).state.cmd_frames@).drop_last());
        }
        self.state.eval_depth = self.state.eval_depth - 1;
        assert(self.state.cmd_frames@.len() == 0 && old(self).state.cmd_frames@.len() == 0
            ==> frame_views(self.state.cmd_frames@) =~= frame_views(
            old(self).state.cmd_frames@,
        ));
    }

    /// Notes the command `src[start..end]` as the one being executed.
    pub fn begin_command(&mut self, src: &[u8], start: usize, end: usize, owns_frame: bool)
        requires
            start <= end <= src@.len(),
            owns_frame && old(self).state.cmd_frames@.len() > 0 ==> line_at(src@, start as int)
                + old(self).state.cmd_frames@.last().line_base <= u32::MAX,
        ensures
            only_frames_changed(*old(self), *final(self)),
            frame_views(final(self).state.cmd_frames@) == at_command(
                frame_views(old(self).state.cmd_frames@),
                src@,
                start as int,
                end as int,
                owns_frame,
            ),
    {
        let depth = self.state.cmd_frames.len();
        if depth > 0 {
            let top: &mut CmdFrame = &mut self.state.cmd_frames[depth - 1];
            if owns_frame {
                top.line = top.line_base + line_of(src, start);
            }
            top.cmd = slice_of(src, start, end);
        }
        assert(frame_views(self.state.cmd_frames@) =~= if depth == 0 {
            Seq::empty()
        } else {
            let top = old(self).state.cmd_frames@.last()@;
            top_set(
                frame_views(old(self).state.cmd_frames@),
                FrameView {
                    cmd: src@.subrange(start as int, end as int),
                    line: if owns_frame {
                        (top.line_base + line_at(src@, start as int)) as u32
                    } else {
                        top.line
                    },
                    ..top
                },
            )
        });
    }

    /// Points the shared frame at `line_base` for an inline body, and gives back
    /// what it pointed at. `None` where there is no frame to share.
    pub fn share_frame(&mut self, line_base: u32) -> (r: Option<SavedLocation>)
        ensures
            r is Some == (old(self).state.cmd_frames@.len() > 0),
            r is None ==> *final(self) == *old(self),
            r matches Some(s) ==> frame_shared(*old(self), *final(self), line_base, s),
    {
        let depth = self.state.cmd_frames.len();
        if depth == 0 {
            return None;
        }
        let top: &mut CmdFrame = &mut self.state.cmd_frames[depth - 1];
        let saved = SavedLocation {
            line_base: top.line_base,
            line: top.line,
            cmd: copied(&top.cmd),
        };
        top.line_base = line_base;
        top.cmd = Vec::new();
        proof {
            let before = old(self).state.cmd_frames@.last()@;
            assert(self.state.cmd_frames@.last()@.cmd =~= Seq::empty());
            assert(frame_views(self.state.cmd_frames@) =~= top_set(
                frame_views(old(self).state.cmd_frames@),
                FrameView { line_base, cmd: Seq::empty(), ..before },
            ));
        }
        Some(saved)
    }

    /// Points the shared frame back at what [`Interp::share_frame`] gave.
    pub fn restore_frame(&mut self, saved: SavedLocation)
        ensures
            frame_restored(*old(self), *final(self), saved),
    {
        let depth = self.state.cmd_frames.len();
        let ghost kept = saved;
        if depth > 0 {
            let top: &mut CmdFrame = &mut self.state.cmd_frames[depth - 1];
            top.line_base = saved.line_base;
            top.line = saved.line;
            top.cmd = saved.cmd;
        }
        assert(frame_views(self.state.cmd_frames@) =~= if depth == 0 {
            Seq::empty()
        } else {
            top_set(
                frame_views(old(self).state.cmd_frames@),
                FrameView {
                    line_base: kept.line_base,
                    line: kept.line,
                    cmd: kept.cmd@,
                    ..old(self).state.cmd_frames@.last()@
                },
            )
        });
    }

    /// Where the lines of a command substitution begin that starts at `offset`
    /// of `src`: `None` where it is no part of `src` or no frame is there.
    pub fn subst_line_base(&self, src: &[u8], offset: usize) -> (r: Option<u32>)
        requires
            offset <= src@.len() && self.state.cmd_frames@.len() > 0 ==> line_at(
                src@,
                offset as int,
            ) + self.state.cmd_frames@.last().line_base <= u32::MAX,
        ensures
            match r {
                Some(b) => {
                    &&& offset <= src@.len()
                    &&& self.state.cmd_frames@.len() > 0
                    &&& b == self.state.cmd_frames@.last().line_base + line_at(
                        src@,
                        offset as int,
                    ) - 1
                },
                None => offset > src@.len() || self.state.cmd_frames@.len() == 0,
            },
    {
        let depth = self.state.cmd_frames.len();
        if depth == 0 || offset > src.len() {
            return None;
        }
        Some(self.state.cmd_frames[depth - 1].line_base + line_of(src, offset) - 1)
    }

    /// Begins a command substitution that starts at `offset` of `src`. It shares
    /// the innermost frame, which reports the lines of `src` until it is handed
    /// back to [`Interp::end_shared`]. `None` where the substitution is no
    /// part of `src` or no frame is there: it then reports no lines of its own.
    pub fn begin_command_subst(&mut self, src: &[u8], offset: usize) -> (r: Option<SavedLocation>)
        requires
            offset <= src@.len() && old(self).state.cmd_frames@.len() > 0 ==> line_at(
                src@,
                offset as int,
            ) + old(self).state.cmd_frames@.last().line_base <= u32::MAX,
        ensures
            match r {
                Some(s) => {
                    &&& offset <= src@.len()
                    &&& old(self).state.cmd_frames@.len() > 0
                    &&& frame_shared(
                        *old(self),
                        *final(self),
                        (old(self).state.cmd_frames@.last().line_base + line_at(
                            src@,
                            offset as int,
                        ) - 1) as u32,
                        s,
                    )
                },
                None => {
                    &&& offset > src@.len() || old(self).state.cmd_frames@.len() == 0
                    &&& *final(self) == *old(self)
                },
            },
    {
        match self.subst_line_base(src, offset) {
            Some(base) => self.share_frame(base),
            None => None,
        }
    }

    /// Ends a script that shared the innermost frame, where it did: the frame
    /// points at what it pointed at before.
    pub fn end_shared(&mut self, saved: Option<SavedLocation>)
        ensures
            match saved {
                Some(s) => frame_restored(*old(self), *final(self), s),
                None => *final(self) == *old(self),
            },
    {
        if let Some(s) = saved {
            self.restore_frame(s);
        }
    }

    /// What an outermost evaluation publishes; an inner one leaves everything to
    /// it.
    pub fn finish_outermost_eval(&self, code: Code) -> (t: Tail)
        ensures
            eval_finished(*self, code, t),
    {
        let outermost: bool = self.state.eval_depth == 0;
        let published: Option<(Vec<u8>, Vec<u8>)> = if outermost && code == Code::Error {
            Some(self.publish_error())
        } else {
            None
        };
        Tail { outermost, published }
    }

    /// Ends an evaluation, after what it publishes is written. Returns whether
    /// the background errors that wait are to be reported.
    pub fn end_outermost_eval(&mut self, tail: &Tail) -> (drain: bool)
        ensures
            tail_ended(*old(self), *final(self), *tail, drain),
    {
        if tail.published.is_some() {
            self.end_error();
        }
        tail.outermost && self.state.bg_queue.len() > 0
    }

    /// Begins a sourced file, and gives the frame its script runs in.
    pub fn begin_source(&mut self, name: &[u8]) -> (f: CmdFrame)
        ensures
            f@ == sourced_frame(frame_views(old(self).state.cmd_frames@), name@),
            views(final(self).state.script_stack@) == views(old(self).state.script_stack@).push(
                name@,
            ),
            *final(self) == (Interp {
                state: InterpState {
                    script_stack: final(self).state.script_stack,
                    ..old(self).state
                },
                ..*old(self)
            }),
    {
        self.state.script_stack.push(copied(name));
        assert(views(self.state.script_stack@) =~= views(old(self).state.script_stack@).push(
            name@,
        ));
        CmdFrame::sourced_body_frame(&self.state.cmd_frames, name)
    }

    /// Ends a sourced file: a `return` at its top level ends the file.
    pub fn end_source(&mut self, code: Code) -> (c: Code)
        requires
            old(self).state.script_stack@.len() > 0,
        ensures
            c == settled(code, old(self).state.return_level, old(self).state.return_code).0,
            final(self).state.script_stack@ == old(self).state.script_stack@.drop_last(),
            *final(self) == (Interp {
                state: InterpState {
                    script_stack: final(self).state.script_stack,
                    ..boundary_crossed(*old(self), code).state
                },
                ..*old(self)
            }),
    {
        self.state.script_stack.pop();
        self.settle_return(code)
    }

    /// The file being sourced, empty at the top level.
    pub fn current_script(&self) -> (r: Vec<u8>)
        ensures
            r@ == if self.state.script_stack@.len() == 0 {
                Seq::empty()
            } else {
                self.state.script_stack@.last()@
            },
    {
        let depth = self.state.script_stack.len();
        if depth == 0 {
            let none: Vec<u8> = Vec::new();
            assert(none@ =~= Seq::empty());
            none
        } else {
            copied(&self.state.script_stack[depth - 1])
        }
    }

    /// Renames the file being sourced; at the top level there is one from then
    /// on.
    pub fn set_current_script(&mut self, name: &[u8])
        ensures
            views(final(self).state.script_stack@) == if old(
                self).state.script_stack@.len() == 0 {
                seq![name@]
            } else {
                views(old(self).state.script_stack@).drop_last().push(name@)
            },
            *final(self) == (Interp {
                state: InterpState {
                    script_stack: final(self).state.script_stack,
                    ..old(self).state
                },
                ..*old(self)
            }),
    {
        self.state.script_stack.pop();
        let ghost rest = self.state.script_stack@;
        self.state.script_stack.push(copied(name));
        assert(views(self.state.script_stack@) =~= views(rest).push(name@));
        assert(old(self).state.script_stack@.len() > 0 ==> views(rest) =~= views(
            old(self).state.script_stack@,
        ).drop_last());
        assert(old(self).state.script_stack@.len() == 0 ==> views(rest).push(name@) =~= seq![
            name@,
        ]);
    }

    /// Redirects evaluation to namespace `ns` for the body of an `uplevel` or a
    /// `namespace eval`, and gives back the one to return to.
    pub fn switch_namespace(&mut self, ns: NsId) -> (saved: NsId)
        ensures
            saved == old(self).state.current_ns,
            *final(self) == (Interp {
                state: InterpState { current_ns: ns, ..old(self).state },
                ..*old(self)
            }),
    {
        let saved = self.state.current_ns;
        self.state.current_ns = ns;
        saved
    }

    /// The file being sourced, if any.
    pub fn current_source_file(&self) -> (r: Option<Vec<u8>>)
        ensures
            opt_view(r) == if self.state.script_stack@.len() == 0 {
                None
            } else {
                Some(self.state.script_stack@.last()@)
            },
    {
        let depth = self.state.script_stack.len();
        if depth == 0 {
            None
        } else {
            Some(copied(&self.state.script_stack[depth - 1]))
        }
    }

    /// Records the code that an `exit` asks for.
    pub fn set_exit(&mut self, code: i32)
        ensures
            *final(self) == (Interp {
                state: InterpState { exit_code: Some(code), ..old(self).state },
                ..*old(self)
            }),
    {
        self.state.exit_code = Some(code);
    }

    /// Whether an `exit` is pending, which nothing catches.
    pub fn exit_pending(&self) -> (r: bool)
        ensures
            r == self.state.exit_code is Some,
    {
        self.state.exit_code.is_some()
    }

    /// Takes the code of a pending `exit`.
    pub fn take_exit(&mut self) -> (r: Option<i32>)
        ensures
            r == old(self).state.exit_code,
            *final(self) == (Interp {
                state: InterpState { exit_code: None, ..old(self).state },
                ..*old(self)
            }),
    {
        self.state.exit_code.take()
    }
}

/// What the end of an evaluation leaves to do: an outermost one publishes an
/// error that nothing caught.
pub open spec fn eval_finished(i: Interp, code: Code, t: Tail) -> bool {
    &&& t.outermost == (i.state.eval_depth == 0)
    &&& match t.published {
        Some(p) => {
            &&& t.outermost
            &&& code == Code::Error
            &&& p.0@ == trace_text(i.state)
            &&& p.1@ == code_text(i.state)
        },
        None => !t.outermost || code != Code::Error,
    }
}

/// The end of an evaluation, once what it publishes is written: the error is
/// over, and the background errors are reported that wait by then.
pub open spec fn tail_ended(before: Interp, after: Interp, t: Tail, drain: bool) -> bool {
    &&& if t.published is Some {
        error_ended(before, after)
    } else {
        after == before
    }
    &&& drain == (t.outermost && before.state.bg_queue@.len() > 0)
}

/// The arguments of a command as its words are substituted.
pub struct ArgBuilder {
    /// The argument values, by what names them.
    pub values: Vec<u64>,
    /// The source line of each.
    pub lines: Vec<u32>,
    /// The positions of the arguments that are literals of a file.
    pub literals: Vec<usize>,
    /// Whether the command is in a file.
    pub in_file: bool,
    /// The line of the command, and where its first word begins.
    pub cmd_line: u32,
    pub first_start: usize,
}

/// The line of a word that begins at `start`, in a command at `cmd_line` whose
/// first word begins at `first`.
pub open spec fn word_line(src: Seq<u8>, cmd_line: u32, first: int, start: int) -> int {
    cmd_line + newlines(src.subrange(first, if start < src.len() {
        start
    } else {
        src.len() as int
    }))
}

/// The offset of element `k` of an expanded word, none where it is unknown.
pub open spec fn element_offset(offsets: Option<Vec<ElementOffset>>, k: int) -> ElementOffset {
    match offsets {
        Some(o) => if k < o@.len() {
            o@[k]
        } else {
            ElementOffset { newlines: 0, literal: false }
        },
        None => ElementOffset { newlines: 0, literal: false },
    }
}

impl ArgBuilder {
    /// The literal positions point at arguments, in ascending order.
    pub open spec fn valid(self) -> bool {
        &&& self.values@.len() == self.lines@.len()
        &&& forall|i: int|
            0 <= i < self.literals@.len() ==> #[trigger] self.literals@[i] < self.values@.len()
    }

    /// Begins the arguments of the command that the top frame executes, whose
    /// first word begins at `first_start`.
    pub fn begin(i: &Interp, first_start: usize) -> (b: ArgBuilder)
        ensures
            b.valid(),
            b.values@.len() == 0,
            b.literals@.len() == 0,
            b.first_start == first_start,
            b.cmd_line == if i.state.cmd_frames@.len() == 0 {
                0
            } else {
                i.state.cmd_frames@.last().line
            },
            b.in_file == (i.state.cmd_frames@.len() > 0 && i.state.cmd_frames@.last().file is Some),
    {
        let depth = i.state.cmd_frames.len();
        let (cmd_line, in_file): (u32, bool) = if depth == 0 {
            (0, false)
        } else {
            let top = &i.state.cmd_frames[depth - 1];
            (top.line, top.file.is_some())
        };
        ArgBuilder {
            values: Vec::new(),
            lines: Vec::new(),
            literals: Vec::new(),
            in_file,
            cmd_line,
            first_start,
        }
    }

    /// The line of a word that begins at `start`.
    pub fn line_of_word(&self, src: &[u8], start: usize) -> (line: u32)
        requires
            self.first_start <= start,
            self.first_start <= src@.len(),
            word_line(src@, self.cmd_line, self.first_start as int, start as int) <= u32::MAX,
        ensures
            line == word_line(src@, self.cmd_line, self.first_start as int, start as int),
    {
        let end: usize = if start < src.len() {
            start
        } else {
            src.len()
        };
        let between = vstd::slice::slice_subrange(src, self.first_start, end);
        self.cmd_line + count_newlines(between)
    }

    /// Adds the value of one word.
    pub fn push_word(&mut self, value: u64, line: u32, literal: bool)
        requires
            old(self).valid(),
        ensures
            final(self).valid(),
            final(self).values@ == old(self).values@.push(value),
            final(self).lines@ == old(self).lines@.push(line),
            final(self).literals@ == if old(self).in_file && literal {
                old(self).literals@.push(old(self).values@.len() as usize)
            } else {
                old(self).literals@
            },
            *final(self) == (ArgBuilder {
                values: final(self).values,
                lines: final(self).lines,
                literals: final(self).literals,
                ..*old(self)
            }),
    {
        let at = self.values.len();
        self.values.push(value);
        self.lines.push(line);
        if self.in_file && literal {
            self.literals.push(at);
        }
    }

    /// Adds the elements of one expanded word. `offsets` are those of the
    /// elements of a literal word.
    pub fn push_expanded(&mut self, values: &[u64], line: u32, offsets: &Option<Vec<ElementOffset>>)
        requires
            old(self).valid(),
            forall|k: int|
                0 <= k < values@.len() ==> line + #[trigger] element_offset(*offsets, k).newlines
                    <= u32::MAX,
        ensures
            final(self).valid(),
            final(self).values@ == old(self).values@ + values@,
            final(self).lines@.take(old(self).lines@.len() as int) == old(self).lines@,
            forall|k: int|
                0 <= k < values@.len() ==> final(self).lines@[old(self).lines@.len() + k] == line
                    + #[trigger] element_offset(*offsets, k).newlines,
            final(self).literals@ == old(self).literals@ + literal_positions(
                *offsets,
                old(self).in_file,
                old(self).values@.len() as int,
                values@.len() as int,
            ),
            *final(self) == (ArgBuilder {
                values: final(self).values,
                lines: final(self).lines,
                literals: final(self).literals,
                ..*old(self)
            }),
    {
        let ghost start = *self;
        let mut k: usize = 0;
        assert(self.literals@ =~= start.literals@ + literal_positions(
            *offsets,
            start.in_file,
            start.values@.len() as int,
            0,
        ));
        while k < values.len()
            invariant
                k <= values@.len(),
                start == *old(self),
                start.valid(),
                self.valid(),
                self.in_file == start.in_file,
                self.cmd_line == start.cmd_line,
                self.first_start == start.first_start,
                self.values@ == start.values@ + values@.take(k as int),
                self.lines@.len() == start.lines@.len() + k,
                self.lines@.take(start.lines@.len() as int) == start.lines@,
                forall|j: int|
                    0 <= j < k ==> self.lines@[start.lines@.len() + j] == line
                        + #[trigger] element_offset(*offsets, j).newlines,
                forall|j: int|
                    0 <= j < values@.len() ==> line + #[trigger] element_offset(
                        *offsets,
                        j,
                    ).newlines <= u32::MAX,
                self.literals@ == start.literals@ + literal_positions(
                    *offsets,
                    start.in_file,
                    start.values@.len() as int,
                    k as int,
                ),
            decreases values@.len() - k,
        {
            let off: ElementOffset = match offsets {
                Some(o) => if k < o.len() {
                    o[k]
                } else {
                    ElementOffset { newlines: 0, literal: false }
                },
                None => ElementOffset { newlines: 0, literal: false },
            };
            assert(off == element_offset(*offsets, k as int));
            let ghost before = self.lines@;
            self.push_word(values[k], line + off.newlines, off.literal);
            assert(self.lines@.take(start.lines@.len() as int) =~= before.take(
                start.lines@.len() as int,
            ));
            assert(self.values@ =~= start.values@ + values@.take(k + 1));
            assert(self.literals@ =~= start.literals@ + literal_positions(
                *offsets,
                start.in_file,
                start.values@.len() as int,
                k + 1,
            ));
            k = k + 1;
        }
        assert(values@.take(k as int) =~= values@);
    }
}

/// The positions of the first `n` elements of an expanded word, whose first
/// element is argument `at`, that are literals of a file.
pub open spec fn literal_positions(
    offsets: Option<Vec<ElementOffset>>,
    in_file: bool,
    at: int,
    n: int,
) -> Seq<usize>
    decreases n,
{
    if n <= 0 {
        Seq::empty()
    } else {
        let before = literal_positions(offsets, in_file, at, n - 1);
        if in_file && element_offset(offsets, n - 1).literal {
            before.push((at + n - 1) as usize)
        } else {
            before
        }
    }
}

/// The argument locations as plain values.
pub open spec fn arg_loc_views(ls: Seq<ArgLoc>) -> Seq<(u64, LocationView)> {
    Seq::new(ls.len(), |i: int| (ls[i].value, ls[i].loc@))
}

/// The location that was recorded last for `value`.
pub open spec fn last_location(ls: Seq<(u64, LocationView)>, value: u64) -> Option<LocationView>
    decreases ls.len(),
{
    if ls.len() == 0 {
        None
    } else if ls.last().0 == value {
        Some(ls.last().1)
    } else {
        last_location(ls.drop_last(), value)
    }
}

/// The locations that the literals of a command add.
pub open spec fn literal_locations(b: ArgBuilder, file: Option<Seq<u8>>) -> Seq<
    (u64, LocationView),
> {
    Seq::new(
        b.literals@.len(),
        |i: int|
            (
                b.values@[b.literals@[i] as int],
                LocationView { file, line: b.lines@[b.literals@[i] as int] },
            ),
    )
}

/// The file of the command that the top frame executes.
pub open spec fn top_file(s: InterpState) -> Option<Seq<u8>> {
    if s.cmd_frames@.len() == 0 {
        None
    } else {
        s.cmd_frames@.last()@.file
    }
}

impl Interp {
    /// Records where the arguments of a command were written, for as long as
    /// it runs. Returns how many locations were recorded.
    pub fn begin_arguments(&mut self, b: &ArgBuilder) -> (pushed: usize)
        requires
            b.valid(),
        ensures
            pushed == b.literals@.len(),
            arg_loc_views(final(self).state.arg_locs@) == arg_loc_views(old(self).state.arg_locs@)
                + literal_locations(*b, top_file(old(self).state)),
            final(self).state.arg_lines@ == b.lines@,
            *final(self) == (Interp {
                state: InterpState {
                    arg_locs: final(self).state.arg_locs,
                    arg_lines: final(self).state.arg_lines,
                    ..old(self).state
                },
                ..*old(self)
            }),
    {
        let depth = self.state.cmd_frames.len();
        let file: Option<Vec<u8>> = if depth == 0 {
            None
        } else {
            copied_opt(&self.state.cmd_frames[depth - 1].file)
        };
        let ghost all = literal_locations(*b, opt_view(file));
        let ghost before = arg_loc_views(self.state.arg_locs@);
        let mut i: usize = 0;
        assert(arg_loc_views(self.state.arg_locs@) =~= before + all.take(0));
        while i < b.literals.len()
            invariant
                i <= b.literals@.len(),
                b.valid(),
                all == literal_locations(*b, opt_view(file)),
                opt_view(file) == top_file(old(self).state),
                arg_loc_views(self.state.arg_locs@) == before + all.take(i as int),
                *self == (Interp {
                    state: InterpState {
                        arg_locs: self.state.arg_locs,
                        ..old(self).state
                    },
                    ..*old(self)
                }),
            decreases b.literals@.len() - i,
        {
            let at = b.literals[i];
            let ghost so_far = arg_loc_views(self.state.arg_locs@);
            let loc = Location { file: copied_opt(&file), line: b.lines[at] };
            self.state.arg_locs.push(ArgLoc { value: b.values[at], loc });
            assert(arg_loc_views(self.state.arg_locs@) =~= so_far.push(all[i as int]));
            assert(all.take(i + 1) =~= all.take(i as int).push(all[i as int]));
            i = i + 1;
        }
        assert(all.take(i as int) =~= all);
        let mut lines: Vec<u32> = Vec::new();
        let mut k: usize = 0;
        while k < b.lines.len()
            invariant
                k <= b.lines@.len(),
                lines@ == b.lines@.take(k as int),
            decreases b.lines@.len() - k,
        {
            lines.push(b.lines[k]);
            assert(b.lines@.take(k + 1) =~= b.lines@.take(k as int).push(b.lines@[k as int]));
            k = k + 1;
        }
        assert(b.lines@.take(k as int) =~= b.lines@);
        self.state.arg_lines = lines;
        i
    }

    /// Forgets the locations that were recorded for a command.
    pub fn end_arguments(&mut self, pushed: usize)
        requires
            pushed <= old(self).state.arg_locs@.len(),
        ensures
            final(self).state.arg_locs@ == old(self).state.arg_locs@.take(
                old(self).state.arg_locs@.len() - pushed,
            ),
            *final(self) == (Interp {
                state: InterpState { arg_locs: final(self).state.arg_locs, ..old(self).state },
                ..*old(self)
            }),
    {
        let keep = self.state.arg_locs.len() - pushed;
        self.state.arg_locs.truncate(keep);
        assert(self.state.arg_locs@ =~= old(self).state.arg_locs@.take(keep as int));
    }

    /// Where a value was written, `None` for one that was computed. The newest
    /// record counts.
    pub fn arg_loc(&self, value: u64) -> (r: Option<Location>)
        ensures
            loc_view(r) == last_location(arg_loc_views(self.state.arg_locs@), value),
    {
        let ghost all = arg_loc_views(self.state.arg_locs@);
        let mut n: usize = self.state.arg_locs.len();
        assert(all.take(n as int) =~= all);
        while n > 0
            invariant
                n <= self.state.arg_locs@.len(),
                all == arg_loc_views(self.state.arg_locs@),
                last_location(all, value) == last_location(all.take(n as int), value),
            decreases n,
        {
            let at = &self.state.arg_locs[n - 1];
            assert(all.take(n as int).last() == all[n - 1]);
            if at.value == value {
                return Some(Location { file: copied_opt(&at.loc.file), line: at.loc.line });
            }
            assert(all.take(n as int).drop_last() =~= all.take(n - 1));
            n = n - 1;
        }
        None
    }

    /// The source line of argument `idx` of the command being dispatched, or
    /// the command's own line.
    pub fn arg_line(&self, idx: usize) -> (line: u32)
        ensures
            line == if idx < self.state.arg_lines@.len() {
                self.state.arg_lines@[idx as int]
            } else {
                command_line(self.state)
            },
    {
        if idx < self.state.arg_lines.len() {
            self.state.arg_lines[idx]
        } else {
            self.current_cmd_line()
        }
    }

    /// The line of the command being executed.
    pub fn current_cmd_line(&self) -> (line: u32)
        ensures
            line == command_line(self.state),
    {
        let depth = self.state.cmd_frames.len();
        if depth == 0 {
            1
        } else {
            self.state.cmd_frames[depth - 1].line
        }
    }

    /// Where element `index` of a list literal was written: `None` for a value
    /// that was computed, that has no file, or that is no list with such an
    /// element.
    pub fn list_element_location(
        &self,
        value: u64,
        offsets: &Option<Vec<ElementOffset>>,
        index: usize,
    ) -> (r: Option<Location>)
        requires
            ({
                let at = last_location(arg_loc_views(self.state.arg_locs@), value);
                at is Some ==> at->0.line + element_offset(*offsets, index as int).newlines
                    <= u32::MAX
            }),
        ensures
            loc_view(r) == match last_location(arg_loc_views(self.state.arg_locs@), value) {
                Some(l) => if l.file is Some && offsets is Some && index < offsets->0@.len() {
                    Some(
                        LocationView {
                            file: l.file,
                            line: (l.line + offsets->0@[index as int].newlines) as u32,
                        },
                    )
                } else {
                    None
                },
                None => None,
            },
    {
        let loc = match self.arg_loc(value) {
            Some(l) => l,
            None => return None,
        };
        if loc.file.is_none() {
            return None;
        }
        match offsets {
            Some(o) => {
                if index < o.len() {
                    Some(Location { file: loc.file, line: loc.line + o[index].newlines })
                } else {
                    None
                }
            },
            None => None,
        }
    }

    /// Begins the dispatch of a command: the result is reset, and the command
    /// is counted. Returns whether any command is traced; where none is, the
    /// command is called without a look at traces.
    pub fn begin_dispatch(&mut self) -> (traced: bool)
        requires
            old(self).state.cmd_count < u64::MAX,
        ensures
            traced == (old(self).state.traces.cmd_traces@.len() > 0),
            final(self).state.result@.len() == 0,
            *final(self) == (Interp {
                state: InterpState {
                    result: final(self).state.result,
                    cmd_count: (old(self).state.cmd_count + 1) as u64,
                    ..old(self).state
                },
                ..*old(self)
            }),
    {
        self.state.result = Vec::new();
        self.state.cmd_count = self.state.cmd_count + 1;
        self.state.traces.cmd_traces.len() > 0
    }
}

/// The line of the command being executed, the first without one.
pub open spec fn command_line(s: InterpState) -> u32 {
    if s.cmd_frames@.len() == 0 {
        1
    } else {
        s.cmd_frames@.last().line
    }
}

/// Forgetting the locations of a command undoes recording them.
pub proof fn arguments_leave_no_trace(before: Interp, inside: Interp, after: Interp, b: ArgBuilder)
    requires
        b.valid(),
        arg_loc_views(inside.state.arg_locs@) == arg_loc_views(before.state.arg_locs@)
            + literal_locations(b, top_file(before.state)),
        after.state.arg_locs@ == inside.state.arg_locs@.take(
            inside.state.arg_locs@.len() - b.literals@.len(),
        ),
    ensures
        arg_loc_views(after.state.arg_locs@) == arg_loc_views(before.state.arg_locs@),
{
    let old_locs = arg_loc_views(before.state.arg_locs@);
    let all = arg_loc_views(inside.state.arg_locs@);
    assert(all.len() == old_locs.len() + b.literals@.len());
    assert(all.take(old_locs.len() as int) =~= old_locs);
    assert(arg_loc_views(after.state.arg_locs@) =~= all.take(old_locs.len() as int));
}

/// An error that reaches the outermost evaluation is published, with its trace
/// and its code; nothing else is, and no inner evaluation publishes anything.
pub proof fn an_uncaught_error_is_published(i: Interp, code: Code, t: Tail)
    requires
        eval_finished(i, code, t),
    ensures
        t.published is Some <==> i.state.eval_depth == 0 && code == Code::Error,
        t.published matches Some(p) ==> {
            &&& i.state.exc@.info is Some ==> p.0@ == i.state.exc@.info->0
            &&& i.state.exc@.info is None ==> p.0@ == i.state.result@
            &&& i.state.exc@.code.len() > 0 ==> p.1@ == i.state.exc@.code
        },
        t.outermost <==> i.state.eval_depth == 0,
{
}

/// A word stands as many lines below its command as there are newlines between
/// the command's first word and it.
pub proof fn a_word_is_below_by_the_newlines_before_it(
    src: Seq<u8>,
    cmd_line: u32,
    first: int,
    a: int,
    b: int,
)
    requires
        0 <= first <= a <= b <= src.len(),
    ensures
        word_line(src, cmd_line, first, first) == cmd_line,
        word_line(src, cmd_line, first, b) == word_line(src, cmd_line, first, a) + newlines(
            src.subrange(a, b),
        ),
{
    let x = src.subrange(first, a);
    let y = src.subrange(a, b);
    assert(src.subrange(first, b) =~= x + y);
    newlines_concat(x, y);
    assert(src.subrange(first, first).len() == 0);
}

/// What is known of an element of an expanded word, nothing where nothing was
/// recorded.
pub proof fn an_unrecorded_element_is_on_its_words_line(
    offsets: Option<Vec<ElementOffset>>,
    k: int,
)
    ensures
        offsets is None ==> element_offset(offsets, k).newlines == 0 && !element_offset(
            offsets,
            k,
        ).literal,
        offsets is Some && 0 <= k < offsets->0@.len() ==> element_offset(offsets, k)
            == offsets->0@[k],
        offsets is Some && k >= offsets->0@.len() ==> element_offset(offsets, k).newlines == 0
            && !element_offset(offsets, k).literal,
{
}

/// The literal elements of an expanded word in a file are found at the arguments
/// that they became, in order; outside a file there are none.
pub proof fn literal_elements_are_found_in_order(
    offsets: Option<Vec<ElementOffset>>,
    at: int,
    n: int,
)
    requires
        0 <= n,
    ensures
        literal_positions(offsets, true, at, n + 1) == if element_offset(offsets, n).literal {
            literal_positions(offsets, true, at, n) + seq![(at + n) as usize]
        } else {
            literal_positions(offsets, true, at, n)
        },
        literal_positions(offsets, true, at, 0).len() == 0,
        literal_positions(offsets, false, at, n).len() == 0,
    decreases n,
{
    if n > 0 {
        literal_elements_are_found_in_order(offsets, at, n - 1);
    }
    let was = literal_positions(offsets, true, at, n);
    assert(was.push((at + n) as usize) =~= was + seq![(at + n) as usize]);
}

/// The location of a value is the one that was recorded last for it; recording
/// that of another value does not change it.
pub proof fn the_last_location_counts(
    ls: Seq<(u64, LocationView)>,
    value: u64,
    other: u64,
    loc: LocationView,
)
    ensures
        last_location(ls.push((value, loc)), value) == Some(loc),
        other != value ==> last_location(ls.push((value, loc)), other) == last_location(ls, other),
        last_location(Seq::empty(), value) is None,
{
    assert(ls.push((value, loc)).drop_last() =~= ls);
}

/// Each literal argument of a command is located in the command's file, on its
/// own line.
pub proof fn a_literal_is_located_on_its_line(b: ArgBuilder, file: Option<Seq<u8>>, i: int)
    requires
        b.valid(),
        0 <= i < b.literals@.len(),
    ensures
        literal_locations(b, file).len() == b.literals@.len(),
        literal_locations(b, file)[i].0 == b.values@[b.literals@[i] as int],
        literal_locations(b, file)[i].1.file == file,
        literal_locations(b, file)[i].1.line == b.lines@[b.literals@[i] as int],
{
}

/// A stack whose innermost frame executes the command `start..end` of `src`.
pub open spec fn at_command(
    stack: Seq<FrameView>,
    src: Seq<u8>,
    start: int,
    end: int,
    owns_frame: bool,
) -> Seq<FrameView> {
    if stack.len() == 0 {
        Seq::empty()
    } else {
        let top = stack.last();
        top_set(
            stack,
            FrameView {
                cmd: src.subrange(start, end),
                line: if owns_frame {
                    (top.line_base + line_at(src, start)) as u32
                } else {
                    top.line
                },
                ..top
            },
        )
    }
}

/// The innermost frame shows the command that is executed and, if it is the
/// script's own, the line of the file that the command begins on. The frames
/// around it stay.
pub proof fn the_innermost_frame_shows_the_command(
    stack: Seq<FrameView>,
    src: Seq<u8>,
    start: int,
    end: int,
    owns_frame: bool,
)
    requires
        stack.len() > 0,
        0 <= start <= end <= src.len(),
        owns_frame ==> stack.last().line_base + line_at(src, start) <= u32::MAX,
    ensures
        ({
            let now = at_command(stack, src, start, end, owns_frame);
            let top = stack.last();
            &&& now.len() == stack.len()
            &&& now.drop_last() == stack.drop_last()
            &&& now.last().cmd == src.subrange(start, end)
            &&& owns_frame ==> now.last().line == top.line_base + 1 + newlines(src.take(start))
            &&& !owns_frame ==> now.last().line == top.line
            &&& now.last().file == top.file && now.last().level == top.level
            &&& now.last().line_base == top.line_base
        }),
{
    let now = at_command(stack, src, start, end, owns_frame);
    assert(now.drop_last() =~= stack.drop_last());
    assert(crate::lines::upto(src, start) =~= src.take(start));
}

} // verus!
