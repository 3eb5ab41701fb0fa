//! Raising errors, and the traces that build up as they unwind.

use vstd::prelude::*;

use crate::bytes::{
    append, append_text, copied, copied_opt, has_prefix, lit, opt_view, slice_of, starts_with, text,
    views,
};
use crate::code::Code;
use crate::frames::{frame_views, FrameView};
use crate::lines::{line_at, line_of};
use crate::number::{decimal, decimal_u64, decimal_usize};
use crate::state::{Interp, InterpState};

verus! {

/// The error trace of one flow of execution.
pub struct ExceptionState {
    /// The trace, `None` until its first frame is logged.
    pub info: Option<Vec<u8>>,
    /// The error code.
    pub code: Vec<u8>,
    /// Whether `code` was given outright, so that an empty one stays empty.
    pub code_explicit: bool,
    /// Whether the running command was already logged deeper in its script.
    pub already_logged: bool,
}

/// What an [`ExceptionState`] holds.
pub struct ExceptionView {
    pub info: Option<Seq<u8>>,
    pub code: Seq<u8>,
    pub code_explicit: bool,
    pub already_logged: bool,
}

impl View for ExceptionState {
    type V = ExceptionView;

    open spec fn view(&self) -> ExceptionView {
        ExceptionView {
            info: opt_view(self.info),
            code: self.code@,
            code_explicit: self.code_explicit,
            already_logged: self.already_logged,
        }
    }
}

/// An error that was just raised: no trace yet.
pub open spec fn fresh_error(code: Seq<u8>) -> ExceptionView {
    ExceptionView { info: None, code, code_explicit: false, already_logged: false }
}

/// The state between errors.
pub open spec fn no_error() -> ExceptionView {
    fresh_error(Seq::empty())
}

impl Default for ExceptionState {
    fn default() -> (r: ExceptionState)
        ensures
            r@ == no_error(),
    {
        ExceptionState {
            info: None,
            code: Vec::new(),
            code_explicit: false,
            already_logged: false,
        }
    }
}

/// The error code of a message that comes with none of its own.
pub open spec fn default_code(msg: Seq<u8>) -> Seq<u8> {
    if starts_with(msg, text("wrong # args:")) {
        text("TCL WRONGARGS")
    } else {
        text("NONE")
    }
}

/// `after` is `before` with another result and another error trace.
pub open spec fn only_error_changed(before: Interp, after: Interp) -> bool {
    after == (Interp {
        state: InterpState { result: after.state.result, exc: after.state.exc, ..before.state },
        ..before
    })
}

/// An error with the message `msg` and the code `code` was raised.
pub open spec fn raised_with(before: Interp, after: Interp, msg: Seq<u8>, code: Seq<u8>) -> bool {
    &&& only_error_changed(before, after)
    &&& after.state.result@ == msg
    &&& after.state.exc@ == fresh_error(code)
}

/// An error with the message `msg` was raised.
pub open spec fn raised(before: Interp, after: Interp, msg: Seq<u8>) -> bool {
    raised_with(before, after, msg, default_code(msg))
}

/// Only the error trace changed.
pub open spec fn only_trace_changed(before: Interp, after: Interp) -> bool {
    after == (Interp {
        state: InterpState { exc: after.state.exc, ..before.state },
        ..before
    })
}

/// The trace so far: the result where nothing is logged yet.
pub open spec fn trace_text(s: InterpState) -> Seq<u8> {
    match s.exc@.info {
        Some(t) => t,
        None => s.result@,
    }
}

/// The error code so far.
pub open spec fn code_text(s: InterpState) -> Seq<u8> {
    if s.exc@.code.len() == 0 && !s.exc@.code_explicit {
        text("NONE")
    } else {
        s.exc@.code
    }
}

/// `s` cut to `limit` bytes, with dots where that cut something off.
pub open spec fn ellipsified(s: Seq<u8>, limit: int) -> Seq<u8> {
    if s.len() > limit {
        s.take(limit) + text("...")
    } else {
        s
    }
}

/// A name in quotes, cut to 60 bytes.
pub open spec fn quoted_name(name: Seq<u8>) -> Seq<u8> {
    text("\"") + ellipsified(name, 60) + text("\"")
}

/// What a procedure-like body adds to the error trace as an error leaves it.
pub enum ProcFrame {
    /// A procedure, by the name it was called with.
    Proc(Vec<u8>),
    /// An `apply` body, by its lambda expression.
    Lambda(Vec<u8>),
    /// A method body.
    Method { kind: Vec<u8>, owner: Vec<u8>, what: MethodFrameWhat },
}

/// Which body of an object or class a method frame names.
pub enum MethodFrameWhat {
    Named(Vec<u8>),
    Constructor,
    Destructor,
}

/// The words of a procedure frame, the line apart.
pub open spec fn proc_frame_text(f: ProcFrame) -> Seq<u8> {
    match f {
        ProcFrame::Proc(n) => text("procedure") + text(" ") + quoted_name(n@),
        ProcFrame::Lambda(n) => text("lambda term") + text(" ") + quoted_name(n@),
        ProcFrame::Method { kind, owner, what } => kind@ + text(" ") + quoted_name(owner@)
            + match what {
            MethodFrameWhat::Named(name) => text(" method ") + quoted_name(name@),
            MethodFrameWhat::Constructor => text(" constructor"),
            MethodFrameWhat::Destructor => text(" destructor"),
        },
    }
}

/// The line of a logged command within the body it belongs to.
pub open spec fn logged_line(stack: Seq<FrameView>, raw_line: u32) -> int {
    if stack.len() == 0 {
        raw_line as int
    } else {
        let n = stack.last().line_base + raw_line - stack.last().proc_line_base;
        if n < 1 {
            1
        } else {
            n
        }
    }
}

/// What a command adds to the error trace as an error leaves it.
pub open spec fn command_entry(started: bool, cmd: Seq<u8>) -> Seq<u8> {
    text("\n    ") + if started {
        text("invoked from within")
    } else {
        text("while executing")
    } + text("\n\"") + ellipsified(cmd, 150) + text("\"")
}

/// The error stack after a command was logged at variable level `active` of
/// `top`.
pub open spec fn logged_stack(
    stack: Seq<Seq<u8>>,
    reset: bool,
    cmd: Seq<u8>,
    top: usize,
    active: usize,
) -> Seq<Seq<u8>> {
    let base = if reset {
        seq![text("INNER"), cmd]
    } else {
        stack
    };
    if top > active {
        base + seq![text("UP"), decimal(top - active)]
    } else {
        base
    }
}

/// Appends `name` in quotes, cut to 60 bytes.
fn append_quoted_name(out: &mut Vec<u8>, name: &[u8])
    ensures
        final(out)@ == old(out)@ + quoted_name(name@),
{
    append_text(out, "\"");
    append_ellipsified(out, name, 60);
    append_text(out, "\"");
    assert(out@ =~= old(out)@ + quoted_name(name@));
}

/// Appends `s` cut to `limit` bytes.
fn append_ellipsified(out: &mut Vec<u8>, s: &[u8], limit: usize)
    ensures
        final(out)@ == old(out)@ + ellipsified(s@, limit as int),
{
    if s.len() > limit {
        append(out, &slice_of(s, 0, limit));
        append_text(out, "...");
        assert(s@.subrange(0, limit as int) =~= s@.take(limit as int));
        assert(out@ =~= old(out)@ + ellipsified(s@, limit as int));
    } else {
        append(out, s);
    }
}

/// Appends the element value `v` to an error stack.
fn push_word(stack: &mut Vec<Vec<u8>>, v: Vec<u8>)
    ensures
        views(final(stack)@) == views(old(stack)@).push(v@),
{
    stack.push(v);
    assert(views(stack@) =~= views(old(stack)@).push(v@));
}

/// The error trace that a flow of execution took with it.
pub struct ErrorSnapshot {
    pub info: Option<Vec<u8>>,
    pub code: Vec<u8>,
    pub code_explicit: bool,
}

/// A command that an error unwinds out of is logged, unless one was logged
/// deeper in the same script. `r` is the trace where it was.
pub open spec fn command_logged(
    before: Interp,
    after: Interp,
    cmd: Seq<u8>,
    raw_line: u32,
    top: usize,
    active: usize,
    r: Option<Vec<u8>>,
) -> bool {
    match r {
        None => before.state.exc.already_logged && after == before,
        Some(t) => {
            &&& !before.state.exc.already_logged
            &&& t@ == trace_text(before.state) + command_entry(before.state.exc.info is Some, cmd)
            &&& after.state.exc@ == (ExceptionView {
                info: Some(t@),
                already_logged: true,
                ..before.state.exc@
            })
            &&& after.state.error_line == logged_line(
                frame_views(before.state.cmd_frames@),
                raw_line,
            )
            &&& views(after.state.error_stack@) == logged_stack(
                views(before.state.error_stack@),
                before.state.reset_error_stack,
                cmd,
                top,
                active,
            )
            &&& !after.state.reset_error_stack
            &&& after == (Interp {
                state: InterpState {
                    exc: after.state.exc,
                    error_line: after.state.error_line,
                    error_stack: after.state.error_stack,
                    reset_error_stack: false,
                    ..before.state
                },
                ..before
            })
        },
    }
}

impl Interp {
    /// Raises an error with the message `msg`.
    pub fn error(&mut self, msg: &[u8]) -> (c: Code)
        ensures
            c == Code::Error,
            raised(*old(self), *final(self), msg@),
    {
        if has_prefix(msg, "wrong # args:".as_bytes()) {
            self.error_with_code(msg, "TCL WRONGARGS".as_bytes())
        } else {
            self.error_with_code(msg, "NONE".as_bytes())
        }
    }

    /// Raises an error with the message `msg` and the error code `code`.
    pub fn error_with_code(&mut self, msg: &[u8], code: &[u8]) -> (c: Code)
        ensures
            c == Code::Error,
            raised_with(*old(self), *final(self), msg@, code@),
    {
        self.set_result_bytes(msg);
        self.set_error_state(code)
    }

    /// Begins an error whose message is already the result.
    pub fn set_error_state(&mut self, code: &[u8]) -> (c: Code)
        ensures
            c == Code::Error,
            only_trace_changed(*old(self), *final(self)),
            final(self).state.exc@ == fresh_error(code@),
    {
        self.state.exc = ExceptionState {
            info: None,
            code: copied(code),
            code_explicit: false,
            already_logged: false,
        };
        Code::Error
    }

    /// Raises an error whose trace begins at `info`, so that the command that
    /// raises it is not logged again.
    pub fn raise_with_info(&mut self, msg: &[u8], info: &[u8], code: &[u8]) -> (c: Code)
        ensures
            c == Code::Error,
            only_error_changed(*old(self), *final(self)),
            final(self).state.result@ == msg@,
            final(self).state.exc@ == (ExceptionView {
                info: Some(info@),
                code: code@,
                code_explicit: false,
                already_logged: true,
            }),
    {
        self.set_result_bytes(msg);
        self.state.exc = ExceptionState {
            info: Some(copied(info)),
            code: copied(code),
            code_explicit: false,
            already_logged: true,
        };
        Code::Error
    }

    /// Applies the options of a `return -code error`. A trace that is given and
    /// not empty is taken as it is; `stack_elements` are the elements of the
    /// given error stack where it is a list.
    pub fn process_return_error(
        &mut self,
        errorinfo: &Option<Vec<u8>>,
        errorcode: &Option<Vec<u8>>,
        stack_elements: Option<Vec<Vec<u8>>>,
    )
        ensures
            final(self).state.exc@ == returned_error(opt_view(*errorinfo), opt_view(*errorcode)),
            match stack_elements {
                Some(es) => final(self).state.error_stack == es
                    && !final(self).state.reset_error_stack,
                None => final(self).state.error_stack == old(self).state.error_stack
                    && final(self).state.reset_error_stack == old(self).state.reset_error_stack,
            },
            *final(self) == (Interp {
                state: InterpState {
                    exc: final(self).state.exc,
                    error_stack: final(self).state.error_stack,
                    reset_error_stack: final(self).state.reset_error_stack,
                    ..old(self).state
                },
                ..*old(self)
            }),
    {
        let info: Option<Vec<u8>> = match errorinfo {
            Some(i) => if i.len() > 0 {
                Some(copied(i))
            } else {
                None
            },
            None => None,
        };
        let already_logged = info.is_some();
        let code: Vec<u8> = match errorcode {
            Some(c) => copied(c),
            None => lit("NONE"),
        };
        self.state.exc = ExceptionState {
            info,
            code,
            code_explicit: errorcode.is_some(),
            already_logged,
        };
        if let Some(es) = stack_elements {
            self.state.error_stack = es;
            self.state.reset_error_stack = false;
        }
    }

    /// The error trace so far.
    pub fn error_info(&self) -> (r: Vec<u8>)
        ensures
            r@ == trace_text(self.state),
    {
        match &self.state.exc.info {
            Some(t) => copied(t),
            None => copied(&self.state.result),
        }
    }

    /// The error code so far.
    pub fn error_code(&self) -> (r: Vec<u8>)
        ensures
            r@ == code_text(self.state),
    {
        if self.state.exc.code.len() == 0 && !self.state.exc.code_explicit {
            lit("NONE")
        } else {
            copied(&self.state.exc.code)
        }
    }

    /// Keeps an empty error code empty.
    pub fn mark_error_code_explicit(&mut self)
        ensures
            only_trace_changed(*old(self), *final(self)),
            final(self).state.exc@ == (ExceptionView {
                code_explicit: true,
                ..old(self).state.exc@
            }),
    {
        self.state.exc.code_explicit = true;
    }

    /// Lets the enclosing command be logged.
    pub fn clear_error_logged(&mut self)
        ensures
            only_trace_changed(*old(self), *final(self)),
            final(self).state.exc@ == (ExceptionView {
                already_logged: false,
                ..old(self).state.exc@
            }),
    {
        self.state.exc.already_logged = false;
    }

    /// Appends `entry` to the trace, which begins with the result where nothing
    /// is logged yet.
    fn extend_trace(&mut self, entry: &[u8], logged: bool)
        ensures
            only_trace_changed(*old(self), *final(self)),
            final(self).state.exc@ == (ExceptionView {
                info: Some(trace_text(old(self).state) + entry@),
                already_logged: logged,
                ..old(self).state.exc@
            }),
    {
        let mut buf = self.error_info();
        append(&mut buf, entry);
        self.state.exc.info = Some(buf);
        self.state.exc.already_logged = logged;
    }

    /// Records a command in the error stack: the innermost one begins it, and
    /// an active variable frame below the top one is noted as a step up.
    pub fn error_stack_log(&mut self, command: &[u8], top: usize, active: usize)
        ensures
            views(final(self).state.error_stack@) == logged_stack(
                views(old(self).state.error_stack@),
                old(self).state.reset_error_stack,
                command@,
                top,
                active,
            ),
            !final(self).state.reset_error_stack,
            *final(self) == (Interp {
                state: InterpState {
                    error_stack: final(self).state.error_stack,
                    reset_error_stack: final(self).state.reset_error_stack,
                    ..old(self).state
                },
                ..*old(self)
            }),
    {
        if self.state.reset_error_stack {
            self.state.reset_error_stack = false;
            let mut fresh: Vec<Vec<u8>> = Vec::new();
            push_word(&mut fresh, lit("INNER"));
            push_word(&mut fresh, copied(command));
            assert(views(fresh@) =~= seq![text("INNER"), command@]);
            self.state.error_stack = fresh;
        }
        if top > active {
            let ghost base = views(self.state.error_stack@);
            push_word(&mut self.state.error_stack, lit("UP"));
            push_word(&mut self.state.error_stack, decimal_usize(top - active));
            assert(views(self.state.error_stack@) =~= base + seq![
                text("UP"),
                decimal(top - active),
            ]);
        }
    }

    /// Records the call that an error unwinds out of: `call` is the list of its
    /// words. Nothing is recorded before the innermost command is.
    pub fn error_stack_push_call(&mut self, call: &[u8])
        ensures
            views(final(self).state.error_stack@) == if old(self).state.reset_error_stack {
                views(old(self).state.error_stack@)
            } else {
                views(old(self).state.error_stack@) + seq![text("CALL"), call@]
            },
            *final(self) == (Interp {
                state: InterpState {
                    error_stack: final(self).state.error_stack,
                    ..old(self).state
                },
                ..*old(self)
            }),
    {
        if self.state.reset_error_stack {
            return;
        }
        push_word(&mut self.state.error_stack, lit("CALL"));
        push_word(&mut self.state.error_stack, copied(call));
        assert(views(self.state.error_stack@) =~= views(old(self).state.error_stack@) + seq![
            text("CALL"),
            call@,
        ]);
    }

    /// Marks the start of a new error: the next logged command begins another
    /// error stack.
    pub fn mark_error_stack_reset(&mut self)
        ensures
            *final(self) == (Interp {
                state: InterpState { reset_error_stack: true, ..old(self).state },
                ..*old(self)
            }),
    {
        self.state.reset_error_stack = true;
    }

    /// Logs a command that an error unwinds out of, at line `raw_line` of its
    /// script, with the variable frames at `top` and `active`. A command that
    /// was logged deeper in the same script is not logged again. Returns the
    /// trace where it was logged, for a variable trace on it to see.
    pub fn log_command_bytes(&mut self, raw_line: u32, cmd: &[u8], top: usize, active: usize) -> (r:
        Option<Vec<u8>>)
        requires
            old(self).state.cmd_frames@.len() > 0 ==> old(self).state.cmd_frames@.last().line_base
                + raw_line <= u32::MAX,
        ensures
            command_logged(*old(self), *final(self), cmd@, raw_line, top, active, r),
    {
        if self.state.exc.already_logged {
            return None;
        }
        self.error_stack_log(cmd, top, active);
        let depth = self.state.cmd_frames.len();
        let line: u32 = if depth == 0 {
            raw_line
        } else {
            let f = &self.state.cmd_frames[depth - 1];
            let reported: u32 = f.line_base + raw_line;
            if reported <= f.proc_line_base {
                1
            } else {
                reported - f.proc_line_base
            }
        };
        self.state.error_line = line;
        let mut entry = lit("\n    ");
        if self.state.exc.info.is_some() {
            append_text(&mut entry, "invoked from within");
        } else {
            append_text(&mut entry, "while executing");
        }
        append_text(&mut entry, "\n\"");
        append_ellipsified(&mut entry, cmd, 150);
        append_text(&mut entry, "\"");
        assert(entry@ =~= command_entry(old(self).state.exc.info is Some, cmd@));
        self.extend_trace(&entry, true);
        Some(self.error_info())
    }

    /// Logs the command `src[start..end]` that an error unwinds out of.
    pub fn log_command_info(
        &mut self,
        src: &[u8],
        start: usize,
        end: usize,
        top: usize,
        active: usize,
    ) -> (r: Option<Vec<u8>>)
        requires
            start <= end <= src@.len(),
            line_at(src@, start as int) <= u32::MAX,
            old(self).state.cmd_frames@.len() > 0 ==> old(self).state.cmd_frames@.last().line_base
                + line_at(src@, start as int) <= u32::MAX,
        ensures
            command_logged(
                *old(self),
                *final(self),
                src@.subrange(start as int, end as int),
                line_at(src@, start as int) as u32,
                top,
                active,
                r,
            ),
    {
        if self.state.exc.already_logged {
            return None;
        }
        let cmd = slice_of(src, start, end);
        self.log_command_bytes(line_of(src, start), &cmd, top, active)
    }

    /// Ends the command `src[start..end]`: one that ended in an error is logged,
    /// with the variable frames at `top` and `active`.
    pub fn end_command(
        &mut self,
        code: Code,
        src: &[u8],
        start: usize,
        end: usize,
        top: usize,
        active: usize,
    ) -> (r: Option<Vec<u8>>)
        requires
            start <= end <= src@.len(),
            line_at(src@, start as int) <= u32::MAX,
            old(self).state.cmd_frames@.len() > 0 ==> old(self).state.cmd_frames@.last().line_base
                + line_at(src@, start as int) <= u32::MAX,
        ensures
            code != Code::Error ==> r is None && *final(self) == *old(self),
            code == Code::Error ==> command_logged(
                *old(self),
                *final(self),
                src@.subrange(start as int, end as int),
                line_at(src@, start as int) as u32,
                top,
                active,
                r,
            ),
    {
        if code == Code::Error {
            self.log_command_info(src, start, end, top, active)
        } else {
            None
        }
    }

    /// Appends the frame `(inner line N)`, `N` being the line of the innermost
    /// logged command.
    pub fn append_frame_line(&mut self, inner: &[u8])
        ensures
            only_trace_changed(*old(self), *final(self)),
            final(self).state.exc@ == (ExceptionView {
                info: Some(
                    trace_text(old(self).state) + (text("\n    (") + inner@ + text(" line ")
                        + decimal(old(self).state.error_line as int) + text(")")),
                ),
                ..old(self).state.exc@
            }),
    {
        let mut entry = lit("\n    (");
        append(&mut entry, inner);
        append_text(&mut entry, " line ");
        append(&mut entry, &decimal_u64(self.state.error_line as u64));
        append_text(&mut entry, ")");
        let logged = self.state.exc.already_logged;
        self.extend_trace(&entry, logged);
    }

    /// Appends the frame of a procedure-like body, and lets the command that
    /// called it be logged.
    pub fn make_proc_error(&mut self, frame: &ProcFrame)
        ensures
            only_trace_changed(*old(self), *final(self)),
            final(self).state.exc@ == framed_error(old(self).state, proc_frame_text(*frame)),
    {
        let mut inner: Vec<u8> = Vec::new();
        match frame {
            ProcFrame::Proc(n) => {
                append_text(&mut inner, "procedure");
                append_text(&mut inner, " ");
                append_quoted_name(&mut inner, n);
            },
            ProcFrame::Lambda(n) => {
                append_text(&mut inner, "lambda term");
                append_text(&mut inner, " ");
                append_quoted_name(&mut inner, n);
            },
            ProcFrame::Method { kind, owner, what } => {
                append(&mut inner, kind);
                append_text(&mut inner, " ");
                append_quoted_name(&mut inner, owner);
                match what {
                    MethodFrameWhat::Named(name) => {
                        append_text(&mut inner, " method ");
                        append_quoted_name(&mut inner, name);
                    },
                    MethodFrameWhat::Constructor => append_text(&mut inner, " constructor"),
                    MethodFrameWhat::Destructor => append_text(&mut inner, " destructor"),
                }
            },
        }
        assert(inner@ =~= proc_frame_text(*frame));
        self.append_frame_line(&inner);
        self.clear_error_logged();
    }

    /// Appends the frame of an `eval`, `uplevel` or `foreach` body.
    pub fn append_body_frame(&mut self, label: &[u8])
        ensures
            only_trace_changed(*old(self), *final(self)),
            final(self).state.exc@ == framed_error(
                old(self).state,
                text("\"") + label@ + text("\" body"),
            ),
    {
        let inner = crate::bytes::framed("\"", label, "\" body");
        self.append_frame_line(&inner);
        self.clear_error_logged();
    }

    /// Appends the frame of a `namespace eval` body.
    pub fn append_namespace_eval_frame(&mut self, fqn: &[u8])
        ensures
            only_trace_changed(*old(self), *final(self)),
            final(self).state.exc@ == framed_error(
                old(self).state,
                text("in namespace eval \"") + fqn@ + text("\" script"),
            ),
    {
        let inner = crate::bytes::framed("in namespace eval \"", fqn, "\" script");
        self.append_frame_line(&inner);
        self.clear_error_logged();
    }

    /// Appends the frame of a lambda expression that could not be parsed.
    pub fn append_lambda_parse_frame(&mut self, name: &[u8])
        ensures
            only_trace_changed(*old(self), *final(self)),
            final(self).state.exc@ == noted_error(
                old(self).state,
                text("\n    (parsing lambda expression \"") + name@ + text("\")"),
            ),
    {
        let entry = crate::bytes::framed("\n    (parsing lambda expression \"", name, "\")");
        self.extend_trace(&entry, false);
    }

    /// Appends a frame that names no line.
    pub fn append_frame_noline(&mut self, note: &[u8])
        ensures
            only_trace_changed(*old(self), *final(self)),
            final(self).state.exc@ == noted_error(
                old(self).state,
                text("\n    (") + note@ + text(")"),
            ),
    {
        let entry = crate::bytes::framed("\n    (", note, ")");
        self.extend_trace(&entry, false);
    }

    /// Appends a line of context to the trace.
    pub fn append_error_info_context(&mut self, note: &[u8])
        ensures
            only_trace_changed(*old(self), *final(self)),
            final(self).state.exc@ == noted_error(old(self).state, text("\n    ") + note@),
    {
        let mut entry = lit("\n    ");
        append(&mut entry, note);
        self.extend_trace(&entry, false);
    }

    /// Takes a copy of the error trace for another flow of execution.
    pub fn snapshot_error(&self) -> (s: ErrorSnapshot)
        ensures
            opt_view(s.info) == self.state.exc@.info,
            s.code@ == self.state.exc@.code,
            s.code_explicit == self.state.exc@.code_explicit,
    {
        ErrorSnapshot {
            info: copied_opt(&self.state.exc.info),
            code: copied(&self.state.exc.code),
            code_explicit: self.state.exc.code_explicit,
        }
    }

    /// Puts a trace that was taken from another flow of execution here.
    pub fn restore_error(&mut self, snap: ErrorSnapshot)
        ensures
            only_trace_changed(*old(self), *final(self)),
            final(self).state.exc@ == (ExceptionView {
                info: opt_view(snap.info),
                code: snap.code@,
                code_explicit: snap.code_explicit,
                already_logged: old(self).state.exc@.already_logged,
            }),
    {
        self.state.exc.info = snap.info;
        self.state.exc.code = snap.code;
        self.state.exc.code_explicit = snap.code_explicit;
    }

    /// The result and the whole error trace, for a cleanup to run in between.
    pub fn error_snapshot(&self) -> (s: (Vec<u8>, ExceptionState))
        ensures
            taken_from(s, *self),
    {
        (
            self.result_bytes(),
            ExceptionState {
                info: copied_opt(&self.state.exc.info),
                code: copied(&self.state.exc.code),
                code_explicit: self.state.exc.code_explicit,
                already_logged: self.state.exc.already_logged,
            },
        )
    }

    /// Brings back what [`Interp::error_snapshot`] took.
    pub fn error_restore(&mut self, snap: (Vec<u8>, ExceptionState))
        ensures
            brought_back(*old(self), *final(self), snap),
    {
        self.state.result = snap.0;
        self.state.exc = snap.1;
    }

    /// Hands out the trace and the code of the error for the global variables.
    /// The error is ended, by [`Interp::end_error`], once they are written: the
    /// callbacks of these variables still see it.
    pub fn publish_error(&self) -> (r: (Vec<u8>, Vec<u8>))
        ensures
            r.0@ == trace_text(self.state),
            r.1@ == code_text(self.state),
    {
        (self.error_info(), self.error_code())
    }

    /// Ends the error, with what the callbacks of its publication left, and makes
    /// ready for the next one.
    pub fn end_error(&mut self)
        ensures
            error_ended(*old(self), *final(self)),
    {
        self.state.exc = ExceptionState::default();
        self.clear_during();
        self.mark_error_stack_reset();
    }

    /// Keeps the options of the exception that the next one supersedes.
    pub fn set_during(&mut self, options: Vec<u8>)
        ensures
            *final(self) == (Interp {
                state: InterpState { during: Some(options), ..old(self).state },
                ..*old(self)
            }),
    {
        self.state.during = Some(options);
    }

    /// Forgets the superseded exception.
    pub fn clear_during(&mut self)
        ensures
            *final(self) == (Interp {
                state: InterpState { during: None, ..old(self).state },
                ..*old(self)
            }),
    {
        self.state.during = None;
    }
}

/// The error is over: its trace and the exception that it superseded are gone,
/// and the next one begins another error stack.
pub open spec fn error_ended(before: Interp, after: Interp) -> bool {
    &&& after.state.exc@ == no_error()
    &&& after == (Interp {
        state: InterpState {
            exc: after.state.exc,
            during: None,
            reset_error_stack: true,
            ..before.state
        },
        ..before
    })
}

/// `snap` holds the result and the error trace of `i`.
pub open spec fn taken_from(snap: (Vec<u8>, ExceptionState), i: Interp) -> bool {
    snap.0@ == i.state.result@ && snap.1@ == i.state.exc@
}

/// The result and the error trace are those of `snap`, and nothing else changed.
pub open spec fn brought_back(
    before: Interp,
    after: Interp,
    snap: (Vec<u8>, ExceptionState),
) -> bool {
    &&& only_error_changed(before, after)
    &&& after.state.result@ == snap.0@
    &&& after.state.exc@ == snap.1@
}

/// An error survives a cleanup: whatever ran in between, the result and the
/// trace are as they were taken, and the rest is as the cleanup left it.
pub proof fn an_error_survives_a_cleanup(
    failed: Interp,
    cleaned: Interp,
    after: Interp,
    snap: (Vec<u8>, ExceptionState),
)
    requires
        taken_from(snap, failed),
        brought_back(cleaned, after, snap),
    ensures
        after.state.result@ == failed.state.result@,
        after.state.exc@ == failed.state.exc@,
        trace_text(after.state) == trace_text(failed.state),
        code_text(after.state) == code_text(failed.state),
        only_error_changed(cleaned, after),
{
}

/// The trace with a line of its own, the enclosing command to be logged next.
pub open spec fn noted_error(s: InterpState, entry: Seq<u8>) -> ExceptionView {
    ExceptionView { info: Some(trace_text(s) + entry), already_logged: false, ..s.exc@ }
}

/// The trace with the frame `(inner line N)`, the enclosing command to be
/// logged next.
pub open spec fn framed_error(s: InterpState, inner: Seq<u8>) -> ExceptionView {
    noted_error(
        s,
        text("\n    (") + inner + text(" line ") + decimal(s.error_line as int) + text(")"),
    )
}

/// The first command that an error is logged for was being executed: the trace
/// is the message and that command.
pub proof fn the_first_logged_command_was_executing(
    before: Interp,
    failed: Interp,
    after: Interp,
    msg: Seq<u8>,
    cmd: Seq<u8>,
    raw_line: u32,
    top: usize,
    active: usize,
    r: Option<Vec<u8>>,
)
    requires
        raised(before, failed, msg),
        command_logged(failed, after, cmd, raw_line, top, active, r),
        cmd.len() <= 150,
    ensures
        r is Some,
        r->0@ == msg + (text("\n    ") + text("while executing") + text("\n\"") + cmd + text(
            "\"",
        )),
        trace_text(after.state) == r->0@,
        after.state.result@ == msg,
        starts_with(msg, text("wrong # args:")) ==> after.state.exc@.code == text(
            "TCL WRONGARGS",
        ),
        !starts_with(msg, text("wrong # args:")) ==> after.state.exc@.code == text("NONE"),
{
}

/// A command that an error leaves through another command or frame was invoked
/// from within it. What was logged before stays in front.
pub proof fn further_commands_were_invoked_from(
    failed: Interp,
    framed: Interp,
    after: Interp,
    inner: Seq<u8>,
    cmd: Seq<u8>,
    raw_line: u32,
    top: usize,
    active: usize,
    r: Option<Vec<u8>>,
)
    requires
        only_trace_changed(failed, framed),
        framed.state.exc@ == framed_error(failed.state, inner),
        command_logged(framed, after, cmd, raw_line, top, active, r),
        cmd.len() <= 150,
    ensures
        r is Some,
        r->0@ == trace_text(failed.state) + (text("\n    (") + inner + text(" line ") + decimal(
            failed.state.error_line as int,
        ) + text(")")) + (text("\n    ") + text("invoked from within") + text("\n\"") + cmd
            + text("\"")),
        trace_text(after.state) == r->0@,
        after.state.result@ == failed.state.result@,
        after.state.exc@.code == failed.state.exc@.code,
{
}

/// One error is logged for a script once: while the innermost command of it is
/// logged, the commands around it leave the trace alone.
pub proof fn a_script_is_logged_once(
    before: Interp,
    between: Interp,
    after: Interp,
    cmd: Seq<u8>,
    line: u32,
    outer: Seq<u8>,
    outer_line: u32,
    top: usize,
    active: usize,
    r: Option<Vec<u8>>,
    s: Option<Vec<u8>>,
)
    requires
        command_logged(before, between, cmd, line, top, active, r),
        command_logged(between, after, outer, outer_line, top, active, s),
    ensures
        s is None,
        after == between,
{
}

/// A command of more than 150 bytes is shown by its first 150 and three dots; a
/// name in a frame by its first 60.
pub proof fn long_commands_are_cut(cmd: Seq<u8>, name: Seq<u8>)
    ensures
        cmd.len() > 150 ==> command_entry(false, cmd) == text("\n    ") + text("while executing")
            + text("\n\"") + (cmd.take(150) + text("...")) + text("\""),
        cmd.len() > 150 ==> command_entry(true, cmd) == text("\n    ") + text(
            "invoked from within",
        ) + text("\n\"") + (cmd.take(150) + text("...")) + text("\""),
        name.len() > 60 ==> quoted_name(name) == text("\"") + (name.take(60) + text("..."))
            + text("\""),
        name.len() <= 60 ==> quoted_name(name) == text("\"") + name + text("\""),
{
}

/// The stack that a logged error tells begins with the innermost command, and
/// a command that was run at an outer level of the variables is marked with how
/// far up that was.
pub proof fn the_error_stack_begins_inside(
    before: Interp,
    after: Interp,
    cmd: Seq<u8>,
    raw_line: u32,
    top: usize,
    active: usize,
    r: Option<Vec<u8>>,
)
    requires
        command_logged(before, after, cmd, raw_line, top, active, r),
        r is Some,
    ensures
        before.state.reset_error_stack ==> {
            &&& views(after.state.error_stack@).len() >= 2
            &&& views(after.state.error_stack@)[0] == text("INNER")
            &&& views(after.state.error_stack@)[1] == cmd
        },
        !before.state.reset_error_stack ==> views(after.state.error_stack@).take(
            before.state.error_stack@.len() as int,
        ) == views(before.state.error_stack@),
        active >= top ==> after.state.error_stack@.len() == (if before.state.reset_error_stack {
            2
        } else {
            before.state.error_stack@.len()
        }),
        active < top ==> {
            let n = after.state.error_stack@.len() as int;
            &&& n == (if before.state.reset_error_stack {
                2
            } else {
                before.state.error_stack@.len()
            }) + 2
            &&& views(after.state.error_stack@)[n - 2] == text("UP")
            &&& views(after.state.error_stack@)[n - 1] == decimal(top - active)
        },
{
    assert(views(after.state.error_stack@).len() == after.state.error_stack@.len());
    assert(views(before.state.error_stack@).len() == before.state.error_stack@.len());
    if !before.state.reset_error_stack {
        assert(views(after.state.error_stack@).take(before.state.error_stack@.len() as int)
            =~= views(before.state.error_stack@));
    }
}

/// The line of an error is counted from the first line of the body that the
/// command stands in, which is line one.
pub proof fn lines_are_counted_within_the_body(stack: Seq<FrameView>, raw_line: u32)
    ensures
        stack.len() == 0 ==> logged_line(stack, raw_line) == raw_line,
        stack.len() > 0 && stack.last().line_base == stack.last().proc_line_base && raw_line >= 1
            ==> logged_line(stack, raw_line) == raw_line,
        stack.len() > 0 && stack.last().line_base + raw_line > stack.last().proc_line_base ==>
            logged_line(stack, raw_line) + stack.last().proc_line_base
            == stack.last().line_base + raw_line,
        stack.len() > 0 ==> logged_line(stack, raw_line) >= 1,
{
}

/// The error that `return -code error` asks for, with the trace and the code it
/// gives.
pub open spec fn returned_error(
    errorinfo: Option<Seq<u8>>,
    errorcode: Option<Seq<u8>>,
) -> ExceptionView {
    let given = errorinfo is Some && errorinfo->0.len() > 0;
    ExceptionView {
        info: if given {
            errorinfo
        } else {
            None
        },
        code: match errorcode {
            Some(c) => c,
            None => text("NONE"),
        },
        code_explicit: errorcode is Some,
        already_logged: given,
    }
}

/// An error that `return` asks for has the trace it gives, and is not logged for
/// the command it leaves if it gives one; without one its trace begins anew. Its
/// code is the one it gives, and else `NONE`.
pub proof fn return_gives_its_own_trace(info: Seq<u8>, code: Seq<u8>)
    ensures
        info.len() > 0 ==> returned_error(Some(info), Some(code)).info == Some(info)
            && returned_error(Some(info), Some(code)).already_logged,
        info.len() == 0 ==> returned_error(Some(info), Some(code)).info is None
            && !returned_error(Some(info), Some(code)).already_logged,
        returned_error(None, Some(code)).info is None && !returned_error(
            None,
            Some(code),
        ).already_logged,
        returned_error(Some(info), Some(code)).code == code && returned_error(
            Some(info),
            Some(code),
        ).code_explicit,
        returned_error(Some(info), None).code == text("NONE") && !returned_error(
            Some(info),
            None,
        ).code_explicit,
{
}

/// The code of an error is the one it was given, and `NONE` where it was given
/// none.
pub proof fn an_error_without_a_code_has_none(s: InterpState)
    ensures
        s.exc@.code.len() > 0 || s.exc@.code_explicit ==> code_text(s) == s.exc@.code,
        s.exc@.code.len() == 0 && !s.exc@.code_explicit ==> code_text(s) == text("NONE"),
        s.exc@.info is Some ==> trace_text(s) == s.exc@.info->0,
        s.exc@.info is None ==> trace_text(s) == s.result@,
{
}

/// A frame in the trace says what kind of body it was and names it; a method is
/// named with its owner.
pub proof fn a_frame_names_its_body(n: Vec<u8>)
    requires
        n@.len() <= 60,
    ensures
        proc_frame_text(ProcFrame::Proc(n)) == text("procedure") + text(" ") + (text("\"") + n@
            + text("\"")),
        proc_frame_text(ProcFrame::Lambda(n)) == text("lambda term") + text(" ") + (text("\"")
            + n@ + text("\"")),
{
}

/// An error that is over leaves nothing for the next one: no trace, no code, no
/// superseded error, and a stack that begins anew. The result stays.
pub proof fn an_ended_error_is_forgotten(before: Interp, after: Interp)
    requires
        error_ended(before, after),
    ensures
        after.state.exc@.info is None && after.state.exc@.code.len() == 0
            && !after.state.exc@.code_explicit && !after.state.exc@.already_logged,
        after.state.during is None,
        after.state.reset_error_stack,
        after.state.result == before.state.result,
{
}

} // verus!
