//! The state of one interpreter.

use vstd::prelude::*;

use crate::bytes::copied;
use crate::code::Code;
use crate::commands::HiddenCommand;
use crate::errors::ExceptionState;
use crate::frames::{CmdFrame, Location};
use crate::limits::LimitSet;
use crate::release::{default_runtime_version, lenient_profile, DialectProfile, TclVersion};
use crate::traces::TraceTable;

verus! {

/// A namespace, by its position in the namespace tree.
pub type NsId = usize;

/// The global namespace.
pub const GLOBAL: NsId = 0;

/// How deep procedure calls may nest until `interp recursionlimit` says
/// otherwise.
pub const RECURSION_LIMIT: usize = 1000;

/// How deep script bodies of every kind may nest: the bound that keeps the
/// native stack safe, whatever `interp recursionlimit` says.
pub const NATIVE_EVAL_DEPTH_LIMIT: u32 = 128;

/// A part of the interpreter that a speculative guard may depend on.
#[derive(Debug, Clone, Copy, PartialEq, Eq, Structural)]
pub enum GuardDomain {
    CommandEnvironment,
    Namespace,
    UnknownHandling,
    CommandTrace,
    VariableTrace,
    Interpreter,
    ObjectDispatch,
}

/// The words a forwarded call was written with, so that a `wrong # args`
/// message can show the call as its author wrote it.
pub struct EnsembleRewrite {
    /// The words of the call as it was written.
    pub source: Vec<Vec<u8>>,
    /// How many leading words of `source` the rewritten prefix stands for.
    pub removed: usize,
    /// How many leading words of the rewritten call the prefix takes.
    pub inserted: usize,
}

/// The source location of one argument value. `value` names the value itself,
/// not its spelling.
pub struct ArgLoc {
    pub value: u64,
    pub loc: Location,
}

/// A background error waiting for the event loop.
pub struct BgError {
    pub message: Vec<u8>,
    pub options: Vec<u8>,
}

/// The qualified names that a command guard attests, with the identities that
/// hold of each.
pub struct GuardedCommand {
    pub fqn: Vec<u8>,
    /// Ascending, nothing twice.
    pub identities: Vec<u64>,
}

/// The state behind an [`Interp`], its children apart.
pub struct InterpState {
    /// The current result.
    pub result: Vec<u8>,
    /// The error trace as it builds up.
    pub exc: ExceptionState,
    /// The line of the innermost command that was logged into the trace. It
    /// survives `catch` and the start of another error.
    pub error_line: u32,
    /// The error stack: element values, innermost first.
    pub error_stack: Vec<Vec<u8>>,
    /// Whether the next command that is logged begins a new error stack.
    pub reset_error_stack: bool,
    /// The options of the exception that a handler's own exception supersedes.
    pub during: Option<Vec<u8>>,
    /// The completion that a pending `return` ends with.
    pub return_code: Code,
    /// How many boundaries that `return` has still to cross.
    pub return_level: usize,
    /// The files being sourced, outermost first.
    pub script_stack: Vec<Vec<u8>>,
    pub cmd_frames: Vec<CmdFrame>,
    /// The source line of each word of the command being dispatched.
    pub arg_lines: Vec<u32>,
    pub arg_locs: Vec<ArgLoc>,
    /// How many script bodies are being evaluated.
    pub eval_depth: u32,
    /// How many procedure calls are active.
    pub recursion_depth: usize,
    pub recursion_limit: usize,
    pub current_ns: NsId,
    /// How many commands have been dispatched.
    pub cmd_count: u64,
    /// How many procedure bodies ran through a compiled entry.
    pub native_proc_dispatches: u64,
    /// The code that an `exit` asked for.
    pub exit_code: Option<i32>,
    /// The background-error handler's command prefix, empty for none.
    pub bgerror: Vec<u8>,
    pub bg_queue: Vec<BgError>,
    pub ensemble_rewrite: Option<EnsembleRewrite>,
    pub limits: LimitSet,
    /// Counts the polls of the time limit.
    pub limit_tick: u32,
    pub debug_frame: bool,
    pub is_safe: bool,
    /// How many evaluations of this interpreter as a child are running.
    pub eval_active: usize,
    /// Whether the interpreter is deleted once none is.
    pub pending_delete: bool,
    /// The number of the next child that gets a made-up name.
    pub interp_counter: usize,
    pub traces: TraceTable,
    /// The hidden commands, in the order of their names.
    pub hidden: Vec<HiddenCommand>,
    pub runtime_version: TclVersion,
    pub dialect_profile: DialectProfile,
    /// The object commands that come with the release, by qualified name.
    pub registry_object_roots: Vec<Vec<u8>>,
    /// Grows with every change of the set of variable traces; never zero.
    pub var_trace_epoch: u64,
    pub guarded_commands: Vec<GuardedCommand>,
    /// The guard domains that were invalidated, oldest first.
    pub invalidations: Vec<GuardDomain>,
}

/// One child interpreter.
pub struct Child {
    pub name: Vec<u8>,
    pub interp: Interp,
}

/// An interpreter with its children.
pub struct Interp {
    pub state: InterpState,
    /// In the order of their names.
    pub children: Vec<Child>,
}

impl Interp {
    /// Sets the result.
    pub fn set_result_bytes(&mut self, bytes: &[u8])
        ensures
            final(self).state.result@ == bytes@,
            *final(self) == (Interp {
                state: InterpState { result: final(self).state.result, ..old(self).state },
                ..*old(self)
            }),
    {
        self.state.result = copied(bytes);
    }

    /// Makes `value` the result.
    pub fn set_result(&mut self, value: Vec<u8>)
        ensures
            *final(self) == (Interp {
                state: InterpState { result: value, ..old(self).state },
                ..*old(self)
            }),
    {
        self.state.result = value;
    }

    /// Makes `value` the result, which others may hold as well.
    pub fn set_obj_result(&mut self, value: &[u8])
        ensures
            final(self).state.result@ == value@,
            *final(self) == (Interp {
                state: InterpState { result: final(self).state.result, ..old(self).state },
                ..*old(self)
            }),
    {
        self.state.result = copied(value);
    }

    /// The current result, where it stands.
    pub fn get_obj_result(&self) -> (r: &Vec<u8>)
        ensures
            *r == self.state.result,
    {
        &self.state.result
    }

    /// The current result.
    pub fn result_bytes(&self) -> (r: Vec<u8>)
        ensures
            r@ == self.state.result@,
    {
        copied(&self.state.result)
    }

    /// Notes that guards over `domain` no longer hold.
    pub fn invalidate_guard_domain(&mut self, domain: GuardDomain)
        ensures
            final(self).state.invalidations@ == old(self).state.invalidations@.push(domain),
            final(self).state.var_trace_epoch == if domain == GuardDomain::VariableTrace {
                next_epoch(old(self).state.var_trace_epoch)
            } else {
                old(self).state.var_trace_epoch
            },
            *final(self) == (Interp {
                state: InterpState {
                    invalidations: final(self).state.invalidations,
                    var_trace_epoch: final(self).state.var_trace_epoch,
                    ..old(self).state
                },
                ..*old(self)
            }),
    {
        if domain == GuardDomain::VariableTrace {
            self.state.var_trace_epoch = if self.state.var_trace_epoch == u64::MAX {
                1
            } else {
                self.state.var_trace_epoch + 1
            };
        }
        self.state.invalidations.push(domain);
    }
}

/// The state of an interpreter in which nothing has run.
pub open spec fn fresh_state(s: InterpState) -> bool {
    &&& s.result@.len() == 0
    &&& s.exc@ == crate::errors::no_error()
    &&& s.error_line == 1
    &&& s.error_stack@.len() == 0
    &&& s.reset_error_stack
    &&& s.during is None
    &&& s.return_code == Code::Okay
    &&& s.return_level == 1
    &&& s.script_stack@.len() == 0
    &&& s.cmd_frames@.len() == 0
    &&& s.arg_lines@.len() == 0
    &&& s.arg_locs@.len() == 0
    &&& s.eval_depth == 0
    &&& s.recursion_depth == 0
    &&& s.recursion_limit == RECURSION_LIMIT
    &&& s.current_ns == GLOBAL
    &&& s.cmd_count == 0
    &&& s.native_proc_dispatches == 0
    &&& s.exit_code is None
    &&& s.bgerror@.len() == 0
    &&& s.bg_queue@.len() == 0
    &&& s.ensemble_rewrite is None
    &&& s.limits@ == crate::limits::no_limits()
    &&& s.limit_tick == 0
    &&& !s.debug_frame
    &&& !s.is_safe
    &&& s.eval_active == 0
    &&& !s.pending_delete
    &&& s.interp_counter == 0
    &&& s.traces.empty()
    &&& s.hidden@.len() == 0
    &&& s.runtime_version == default_runtime_version()
    &&& s.dialect_profile == lenient_profile()
    &&& s.registry_object_roots@.len() == 0
    &&& s.var_trace_epoch == 1
    &&& s.guarded_commands@.len() == 0
    &&& s.invalidations@.len() == 0
}

impl Interp {
    /// An interpreter in which nothing has run.
    pub fn new() -> (i: Interp)
        ensures
            fresh_state(i.state),
            i.children@.len() == 0,
    {
        let profile = DialectProfile::lenient();
        Interp {
            state: InterpState {
                result: Vec::new(),
                exc: ExceptionState::default(),
                error_line: 1,
                error_stack: Vec::new(),
                reset_error_stack: true,
                during: None,
                return_code: Code::Okay,
                return_level: 1,
                script_stack: Vec::new(),
                cmd_frames: Vec::new(),
                arg_lines: Vec::new(),
                arg_locs: Vec::new(),
                eval_depth: 0,
                recursion_depth: 0,
                recursion_limit: RECURSION_LIMIT,
                current_ns: GLOBAL,
                cmd_count: 0,
                native_proc_dispatches: 0,
                exit_code: None,
                bgerror: Vec::new(),
                bg_queue: Vec::new(),
                ensemble_rewrite: None,
                limits: LimitSet::default(),
                limit_tick: 0,
                debug_frame: false,
                is_safe: false,
                eval_active: 0,
                pending_delete: false,
                interp_counter: 0,
                traces: TraceTable::default(),
                hidden: Vec::new(),
                runtime_version: profile.version,
                dialect_profile: profile,
                registry_object_roots: Vec::new(),
                var_trace_epoch: 1,
                guarded_commands: Vec::new(),
                invalidations: Vec::new(),
            },
            children: Vec::new(),
        }
    }
}

/// The trace epoch after `n`: one more, and never zero.
pub open spec fn next_epoch(n: u64) -> u64 {
    if n == u64::MAX {
        1
    } else {
        (n + 1) as u64
    }
}

/// An epoch is followed by another one, and none is zero: what was remembered
/// under an epoch is not taken for what holds under the next.
pub proof fn an_epoch_is_followed_by_another(n: u64)
    ensures
        next_epoch(n) != 0,
        next_epoch(n) != n,
        n < u64::MAX ==> next_epoch(n) == n + 1,
{
}

} // verus!
