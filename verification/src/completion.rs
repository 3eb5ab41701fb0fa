//! How a script completed, as a host sees it: the code, the result and the
//! return options, taken before an error is published.

use vstd::prelude::*;

use crate::bodies::{source_left, ScriptRun};
use crate::bytes::{copied_opt, copied_words, opt_view, text, views};
use crate::calls::{boundary_crossed, settled};
use crate::code::Code;
use crate::errors::{code_text, trace_text};
use crate::eval::{eval_finished, script_left, Tail};
use crate::state::{Interp, InterpState};

verus! {

/// The options that tell of an error.
#[derive(Debug)]
pub struct ErrorOptions {
    pub info: Vec<u8>,
    pub code: Vec<u8>,
    /// The elements of the error stack.
    pub stack: Vec<Vec<u8>>,
    pub line: u32,
    /// The options of the error that this one superseded.
    pub during: Option<Vec<u8>>,
}

/// How a script completed.
#[derive(Debug)]
pub struct ScriptCompletion {
    pub code: Code,
    pub result: Vec<u8>,
    /// The `-code` option: for a `return` the code it ends with.
    pub option_code: i64,
    /// The `-level` option.
    pub level: usize,
    /// Where the script failed.
    pub error: Option<ErrorOptions>,
}

/// Whether `e` tells of the error that `s` holds.
pub open spec fn tells_of(e: ErrorOptions, s: InterpState) -> bool {
    &&& e.info@ == trace_text(s)
    &&& e.code@ == code_text(s)
    &&& views(e.stack@) == views(s.error_stack@)
    &&& e.line == s.error_line
    &&& opt_view(e.during) == opt_view(s.during)
}

/// Whether `c` is what a script completed with `code` in the state `s`.
pub open spec fn captured(s: InterpState, code: Code, c: ScriptCompletion) -> bool {
    &&& c.code == code
    &&& c.result@ == s.result@
    &&& c.option_code == if code == Code::Return {
        s.return_code.number()
    } else {
        code.number()
    }
    &&& c.level == if code == Code::Return {
        s.return_level
    } else {
        0
    }
    &&& match c.error {
        Some(e) => code == Code::Error && tells_of(e, s),
        None => code != Code::Error,
    }
}

impl Interp {
    /// What a script completed with, where it ended with `code`.
    pub fn capture_completion(&self, code: Code) -> (c: ScriptCompletion)
        ensures
            captured(self.state, code, c),
    {
        let returns: bool = code == Code::Return;
        ScriptCompletion {
            code,
            result: self.result_bytes(),
            option_code: if returns {
                self.state.return_code.as_int()
            } else {
                code.as_int()
            },
            level: if returns {
                self.state.return_level
            } else {
                0
            },
            error: if code == Code::Error {
                Some(
                    ErrorOptions {
                        info: self.error_info(),
                        code: self.error_code(),
                        stack: copied_words(&self.state.error_stack),
                        line: self.state.error_line,
                        during: copied_opt(&self.state.during),
                    },
                )
            } else {
                None
            },
        }
    }

    /// Ends a script, and gives what it completed with. An outermost script that
    /// failed publishes its error only after that.
    pub fn eval_completion(&mut self, run: ScriptRun) -> (r: (ScriptCompletion, Tail))
        requires
            old(self).state.eval_depth > 0,
        ensures
            captured(old(self).state, run.last, r.0),
            script_left(*old(self), *final(self), run.scope.pushed),
            eval_finished(*final(self), run.last, r.1),
    {
        let code = self.end_script_run(run);
        let c = self.capture_completion(code);
        let tail = self.finish_outermost_eval(code);
        (c, tail)
    }

    /// Ends a sourced file, and gives what it completed with: a `return` at its
    /// top level is settled first, and an outermost error is published last.
    pub fn eval_sourced_completion(&mut self, run: ScriptRun) -> (r: (ScriptCompletion, Tail))
        requires
            old(self).state.eval_depth > 0,
            old(self).state.script_stack@.len() > 0,
        ensures
            ({
                let crossed = boundary_crossed(*old(self), run.last);
                let code = settled(
                    run.last,
                    old(self).state.return_level,
                    old(self).state.return_code,
                ).0;
                &&& captured(crossed.state, code, r.0)
                &&& source_left(*old(self), *final(self), run)
                &&& eval_finished(*final(self), code, r.1)
            }),
    {
        let code = self.end_sourced(run);
        let c = self.capture_completion(code);
        let tail = self.finish_outermost_eval(code);
        (c, tail)
    }
}

/// What an outermost error is published as is what its completion tells: the
/// trace and the code are taken before the state that holds them is reset.
pub proof fn a_completion_tells_what_is_published(
    ended: Interp,
    c: ScriptCompletion,
    t: Tail,
)
    requires
        ended.state.eval_depth == 0,
        captured(ended.state, Code::Error, c),
        eval_finished(ended, Code::Error, t),
    ensures
        t.published matches Some(p) && c.error matches Some(e) && e.info@ == p.0@ && e.code@
            == p.1@,
{
}

/// A completion tells the code that the script ended with and the result it
/// left. A `return` tells the code and the level that it asks for; any other
/// completion tells its own number and no level. An error, and nothing else,
/// tells its trace, code and line.
pub proof fn a_completion_tells_how_the_script_ended(
    s: InterpState,
    code: Code,
    c: ScriptCompletion,
)
    requires
        captured(s, code, c),
    ensures
        c.code == code,
        c.result@ == s.result@,
        code == Code::Return ==> c.option_code == s.return_code.number() && c.level
            == s.return_level,
        code == Code::Okay ==> c.option_code == 0 && c.level == 0,
        code == Code::Error ==> c.option_code == 1 && c.level == 0,
        code == Code::Break ==> c.option_code == 3 && c.level == 0,
        code == Code::Continue ==> c.option_code == 4 && c.level == 0,
        code is Other ==> c.option_code == code->Other_0 && c.level == 0,
        c.error is Some <==> code == Code::Error,
        c.error is Some && s.exc@.info is Some ==> c.error->0.info@ == s.exc@.info->0,
        c.error is Some && s.exc@.info is None ==> c.error->0.info@ == s.result@,
        c.error is Some && s.exc@.code.len() > 0 ==> c.error->0.code@ == s.exc@.code,
        c.error is Some && s.exc@.code.len() == 0 && !s.exc@.code_explicit ==> c.error->0.code@
            == text("NONE"),
        c.error is Some ==> c.error->0.line == s.error_line,
        c.error is Some ==> views(c.error->0.stack@) == views(s.error_stack@),
{
}

} // verus!
