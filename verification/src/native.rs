//! Procedure bodies that run through a compiled entry.

use vstd::prelude::*;

use crate::calls::too_deep;
use crate::code::Code;
use crate::errors::raised;
use crate::eval::{eval_finished, one_level_up, script_entered, Tail};
use crate::frames::{entered, frame_views, CmdFrame};
use crate::state::{Interp, InterpState, NATIVE_EVAL_DEPTH_LIMIT};

verus! {

/// What a compiled entry came back with.
pub enum NativeOutcome {
    /// It did nothing and leaves the body to its source.
    Declined,
    /// It ran. No result stands for an empty one.
    Completed { code: i32, result: Option<Vec<u8>> },
}

/// Whether a compiled body may run: not while a step trace is active, which
/// would see none of its commands.
pub fn may_run_native(i: &Interp, has_entry: bool) -> (r: bool)
    ensures
        r == (has_entry && i.state.traces.step_active@.len() == 0),
{
    has_entry && i.state.traces.step_active.len() == 0
}

impl Interp {
    /// The value that a compiled body may read from a slot directly: that of a
    /// scalar, and only while no variable is traced.
    pub fn codegen_slot_scalar(&self, scalar: Option<u64>) -> (r: Option<u64>)
        ensures
            r == if self.state.traces.traces@.len() > 0 {
                None
            } else {
                scalar
            },
    {
        if self.state.traces.traces.len() > 0 {
            None
        } else {
            scalar
        }
    }
}

/// The interpreter after the entry came back, before the activation ends.
pub open spec fn body_returned(before: Interp, after: Interp, outcome: NativeOutcome) -> bool {
    &&& frame_views(after.state.cmd_frames@) == frame_views(before.state.cmd_frames@).drop_last()
    &&& match outcome {
        NativeOutcome::Declined => {
            &&& after.state.result == before.state.result
            &&& after.state.native_proc_dispatches == before.state.native_proc_dispatches
        },
        NativeOutcome::Completed { code, result } => {
            &&& after.state.result@ == match result {
                Some(r) => r@,
                None => before.state.result@,
            }
            &&& after.state.native_proc_dispatches == if before.state.native_proc_dispatches
                == u64::MAX {
                u64::MAX
            } else {
                (before.state.native_proc_dispatches + 1) as u64
            }
        },
    }
    &&& after == (Interp {
        state: InterpState {
            cmd_frames: after.state.cmd_frames,
            result: after.state.result,
            native_proc_dispatches: after.state.native_proc_dispatches,
            ..before.state
        },
        ..before
    })
}

impl Interp {
    /// Begins a compiled body: the activation and the frame that the source
    /// body would have, and an empty result. `false` where the nesting bound
    /// refuses it, with the error raised.
    pub fn begin_native_body(&mut self, frame: CmdFrame) -> (r: bool)
        ensures
            r == (old(self).state.eval_depth < NATIVE_EVAL_DEPTH_LIMIT),
            r ==> {
                &&& final(self).state.result@.len() == 0
                &&& script_entered(
                    *old(self),
                    (Interp {
                        state: InterpState { result: old(self).state.result, ..final(self).state },
                        ..*final(self)
                    }),
                    Some(entered(frame@)),
                )
            },
            !r ==> raised(*old(self), *final(self), too_deep()),
    {
        if self.enter_framed(frame).is_none() {
            return false;
        }
        self.state.result = Vec::new();
        true
    }

    /// Ends a compiled body. A body that was declined gives its frame back, so
    /// that the source body can run in it; one that ran ends with its code. The
    /// activation is left next, by [`Interp::leave_native_body`].
    pub fn end_native_body(&mut self, outcome: NativeOutcome) -> (r: Result<Code, CmdFrame>)
        requires
            old(self).state.cmd_frames@.len() > 0,
        ensures
            body_returned(*old(self), *final(self), outcome),
            match outcome {
                NativeOutcome::Declined => r is Err && r->Err_0 == old(
                    self).state.cmd_frames@.last(),
                NativeOutcome::Completed { code, .. } => r is Ok && r->Ok_0.number() == code
                    && r->Ok_0.is_canonical(),
            },
    {
        let ghost before = *self;
        let popped = self.state.cmd_frames.pop();
        assert(frame_views(self.state.cmd_frames@) =~= frame_views(
            before.state.cmd_frames@,
        ).drop_last());
        match outcome {
            NativeOutcome::Declined => Err(popped.unwrap()),
            NativeOutcome::Completed { code, result } => {
                if self.state.native_proc_dispatches < u64::MAX {
                    self.state.native_proc_dispatches = self.state.native_proc_dispatches + 1;
                }
                if let Some(r) = result {
                    self.state.result = r;
                }
                Ok(Code::from_int(code))
            },
        }
    }

    /// Leaves the activation of a compiled body: with the code that it ended
    /// with, or with success where it was declined.
    pub fn leave_native_body(&mut self, ended: &Result<Code, CmdFrame>) -> (t: Tail)
        ensures
            *final(self) == one_level_up(*old(self)),
            eval_finished(
                *final(self),
                match *ended {
                    Ok(code) => code,
                    Err(_) => Code::Okay,
                },
                t,
            ),
    {
        let code = match ended {
            Ok(code) => *code,
            Err(_) => Code::Okay,
        };
        self.codegen_activation_leave(code)
    }
}

/// A body that was declined leaves the frames as they were before it, and the
/// source body gets the frame that was made for the call.
pub proof fn declining_leaves_the_frames(before: Interp, inside: Interp, after: Interp, f: CmdFrame)
    requires
        script_entered(before, inside, Some(entered(f@))),
        body_returned(inside, after, NativeOutcome::Declined),
    ensures
        frame_views(after.state.cmd_frames@) == frame_views(before.state.cmd_frames@),
        after.state.native_proc_dispatches == before.state.native_proc_dispatches,
{
    assert(frame_views(before.state.cmd_frames@).push(entered(f@)).drop_last() =~= frame_views(
        before.state.cmd_frames@,
    ));
}

/// A native body that completed with a result leaves that result; one that
/// completed without leaves what was there. Only one that completed counts as
/// dispatched, and either way its frame is gone.
pub proof fn a_native_body_leaves_its_result(before: Interp, after: Interp, outcome: NativeOutcome)
    requires
        before.state.cmd_frames@.len() > 0,
        before.state.native_proc_dispatches < u64::MAX,
        body_returned(before, after, outcome),
    ensures
        outcome matches NativeOutcome::Completed { code, result: Some(r) } ==> after.state.result@
            == r@,
        outcome matches NativeOutcome::Completed { code, result: None } ==> after.state.result@
            == before.state.result@,
        outcome is Declined ==> after.state.result == before.state.result,
        outcome is Completed ==> after.state.native_proc_dispatches
            == before.state.native_proc_dispatches + 1,
        outcome is Declined ==> after.state.native_proc_dispatches
            == before.state.native_proc_dispatches,
        after.state.cmd_frames@.len() == before.state.cmd_frames@.len() - 1,
{
    assert(frame_views(after.state.cmd_frames@).len() == after.state.cmd_frames@.len());
}

} // verus!
