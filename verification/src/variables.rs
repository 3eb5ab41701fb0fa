//! What the variable commands make of a store's answer and of the traces that
//! fired around it.

use vstd::prelude::*;

use crate::bytes::{append, append_text, copied, framed, lit, opt_view, text, views};
use crate::code::Code;
use crate::errors::{raised, ExceptionView};
use crate::state::{Interp, InterpState, NsId};
use crate::traces::{
    access_message, display_name, shown_variable, TraceAccess, TraceTable, VarOp,
};

verus! {

/// The word a callback is told the operation by: the operation's letter where
/// the trace was set in the old style.
pub open spec fn op_word(op: VarOp, old_style: bool) -> Seq<u8> {
    if old_style {
        match op {
            VarOp::Read => text("r"),
            VarOp::Write => text("w"),
            VarOp::Unset => text("u"),
            VarOp::Array => text("a"),
        }
    } else {
        op.word()
    }
}

/// The word a callback is told the operation by.
pub fn callback_op_word(op: VarOp, old_style: bool) -> (r: Vec<u8>)
    ensures
        r@ == op_word(op, old_style),
{
    if old_style {
        match op {
            VarOp::Read => lit("r"),
            VarOp::Write => lit("w"),
            VarOp::Unset => lit("u"),
            VarOp::Array => lit("a"),
        }
    } else {
        lit(op.name())
    }
}

/// The operands that a callback is told an access by: the variable, the element
/// or nothing, and the operation.
pub open spec fn access_operands(a: TraceAccess, op: VarOp, old_style: bool) -> Seq<Seq<u8>> {
    seq![
        a.reported@,
        match a.report_elem {
            Some(e) => e@,
            None => Seq::empty(),
        },
        op_word(op, old_style),
    ]
}

/// The operands that a callback is told an access by: they become a list behind
/// the callback's command.
pub fn var_callback_operands(a: &TraceAccess, op: VarOp, old_style: bool) -> (r: Vec<Vec<u8>>)
    ensures
        views(r@) == access_operands(*a, op, old_style),
{
    let mut out: Vec<Vec<u8>> = Vec::new();
    out.push(copied(&a.reported));
    let elem: Vec<u8> = match &a.report_elem {
        Some(e) => copied(e),
        None => {
            let none: Vec<u8> = Vec::new();
            assert(none@ =~= Seq::empty());
            none
        },
    };
    out.push(elem);
    out.push(callback_op_word(op, old_style));
    assert(views(out@) =~= access_operands(*a, op, old_style));
    out
}

/// The script that runs a callback: its command prefix, then its arguments as a
/// list.
pub fn callback_script(command: &[u8], arguments: &[u8]) -> (r: Vec<u8>)
    ensures
        r@ == command@ + text(" ") + arguments@,
{
    let mut line = copied(command);
    append_text(&mut line, " ");
    append(&mut line, arguments);
    line
}

/// The message of the callback that stopped an access.
pub open spec fn pending_reason(i: Interp) -> Seq<u8> {
    match opt_view(i.state.traces.pending_err) {
        Some(m) => m,
        None => Seq::empty(),
    }
}

/// The access `op` to `name` failed with the error of the callback that stopped
/// it, which is no longer pending.
pub open spec fn access_failed(before: Interp, after: Interp, op: VarOp, name: Seq<u8>) -> bool {
    &&& after.state.result@ == access_message(op, name, pending_reason(before))
    &&& after.state.exc@ == match op {
        VarOp::Array => before.state.exc@,
        VarOp::Read => ExceptionView {
            code: text("TCL READ VARNAME"),
            code_explicit: false,
            ..before.state.exc@
        },
        _ => ExceptionView {
            code: text("TCL WRITE VARNAME"),
            code_explicit: false,
            ..before.state.exc@
        },
    }
    &&& after == (Interp {
        state: InterpState {
            result: after.state.result,
            exc: after.state.exc,
            traces: TraceTable { pending_err: None, ..before.state.traces },
            ..before.state
        },
        ..before
    })
}

/// Why a value is not in a variable as it was given.
#[derive(Debug, Clone, Copy, PartialEq, Eq, Structural)]
pub enum StoreError {
    /// The store refused it.
    Refused,
    /// It is stored, but a write trace failed.
    TraceError,
}

impl Interp {
    /// Whether any variable is traced.
    pub fn has_var_traces(&self) -> (r: bool)
        ensures
            r == (self.state.traces.traces@.len() > 0),
    {
        self.state.traces.traces.len() > 0
    }

    /// Ends the read traces of a variable: where a callback failed, the read
    /// fails, even if it removed the last trace. `elem` is the element that the name itself names, `key` the one
    /// that stands apart from it.
    pub fn fire_read_trace(
        &mut self,
        base: &[u8],
        elem: &Option<Vec<u8>>,
        key: &Option<Vec<u8>>,
        errored: bool,
    ) -> (r: Option<Code>)
        ensures
            read_traced(
                *old(self),
                *final(self),
                base@,
                if *key is Some {
                    opt_view(*key)
                } else {
                    opt_view(*elem)
                },
                errored,
                r,
            ),
    {
        if !errored {
            return None;
        }
        let reason = self.take_pending_error();
        let shown = if key.is_some() {
            shown_variable(base, key)
        } else {
            shown_variable(base, elem)
        };
        Some(self.var_trace_error(&shown, VarOp::Read, &reason))
    }

    /// Whether the `array` traces of a name fire: for an array or for a variable
    /// that is not there yet, never for a scalar or an element.
    pub fn array_trace_due(&self, elem: &Option<Vec<u8>>, is_array: bool, exists_there: bool) -> (r:
        bool)
        ensures
            r == (self.state.traces.traces@.len() > 0 && *elem is None && (is_array
                || !exists_there)),
    {
        self.state.traces.traces.len() > 0 && elem.is_none() && (is_array || !exists_there)
    }

    /// Ends the `array` traces of a name that were due: where a callback failed,
    /// the `array` command fails.
    pub fn fire_array_trace(&mut self, base: &[u8], errored: bool) -> (r: Option<Code>)
        ensures
            if errored {
                r == Some(Code::Error) && access_failed(
                    *old(self),
                    *final(self),
                    VarOp::Array,
                    base@,
                )
            } else {
                r is None && *final(self) == *old(self)
            },
    {
        if !errored {
            return None;
        }
        let reason = self.take_pending_error();
        Some(self.var_trace_error(base, VarOp::Array, &reason))
    }

    /// The message of a read or a write that a callback stopped, for one who
    /// reports it without raising it. The errors of other callbacks stop nothing,
    /// and are dropped.
    pub fn fire_var_traces_for(&mut self, var: &[u8], op: VarOp, errored: bool) -> (r: Option<
        Vec<u8>,
    >)
        ensures
            if errored {
                &&& opt_view(r) == if op == VarOp::Read || op == VarOp::Write {
                    Some(access_message(op, var@, pending_reason(*old(self))))
                } else {
                    None
                }
                &&& *final(self) == (Interp {
                    state: InterpState {
                        traces: TraceTable { pending_err: None, ..old(self).state.traces },
                        ..old(self).state
                    },
                    ..*old(self)
                })
            } else {
                r is None && *final(self) == *old(self)
            },
    {
        if !errored {
            return None;
        }
        let reason = self.take_pending_error();
        let mut m = lit("can't ");
        match op {
            VarOp::Read => append_text(&mut m, "read"),
            VarOp::Write => append_text(&mut m, "set"),
            VarOp::Unset | VarOp::Array => {
                return None;
            },
        }
        append_text(&mut m, " \"");
        append(&mut m, var);
        append_text(&mut m, "\": ");
        append(&mut m, &reason);
        Some(m)
    }

    /// The current value for a command that reads, changes and writes. A read
    /// trace that fails leaves no value, and its error is dropped.
    pub fn read_for_update(&mut self, errored: bool, value: Option<Vec<u8>>) -> (r: Option<Vec<u8>>)
        ensures
            if errored {
                &&& r is None
                &&& *final(self) == (Interp {
                    state: InterpState {
                        traces: TraceTable { pending_err: None, ..old(self).state.traces },
                        ..old(self).state
                    },
                    ..*old(self)
                })
            } else {
                r == value && *final(self) == *old(self)
            },
    {
        if errored {
            self.state.traces.pending_err = None;
            return None;
        }
        value
    }

    /// How setting a variable ends: `stored` says whether the store took the
    /// value, `errored` whether a write trace failed after that.
    pub fn var_set(&self, stored: bool, errored: bool) -> (r: Result<(), StoreError>)
        ensures
            r == if !stored {
                Err::<(), StoreError>(StoreError::Refused)
            } else if errored {
                Err::<(), StoreError>(StoreError::TraceError)
            } else {
                Ok::<(), StoreError>(())
            },
    {
        if !stored {
            Err(StoreError::Refused)
        } else if errored {
            Err(StoreError::TraceError)
        } else {
            Ok(())
        }
    }

    /// Publishes a variable that was set: its value as the write traces left it,
    /// empty where they unset it. A failed store publishes nothing.
    pub fn store_var_result(&mut self, stored: Result<(), StoreError>, now: &Option<Vec<u8>>) -> (r:
        Result<(), StoreError>)
        ensures
            r == stored,
            store_answered(*old(self), *final(self), stored is Ok, opt_view(*now)),
    {
        if stored.is_ok() {
            match now {
                Some(v) => {
                    self.set_result_bytes(v);
                },
                None => {
                    self.state.result = Vec::new();
                    assert(self.state.result@ =~= Seq::empty());
                },
            }
        }
        stored
    }

    /// Refuses to change a constant. An element of an array is none.
    pub fn const_write_check(&mut self, name: &[u8], is_element: bool, is_constant: bool) -> (r:
        Option<Code>)
        ensures
            constant_checked(*old(self), *final(self), name@, !is_element && is_constant, r),
    {
        if !is_element && is_constant {
            let msg = framed("can't set \"", name, "\": variable is a constant");
            return Some(self.error(&msg));
        }
        None
    }
}

/// The namespace and the simple name that a `global`, `variable` or `upvar`
/// argument means: an unqualified one in `context`, a qualified one where
/// `resolved` says, if its namespace is there.
pub fn resolve_var_target(
    context: NsId,
    name: &[u8],
    is_qualified: bool,
    resolved: Option<(NsId, Vec<u8>)>,
) -> (r: Option<(NsId, Vec<u8>)>)
    ensures
        is_qualified ==> r == resolved,
        !is_qualified ==> (r matches Some(t) && t.0 == context && t.1@ == name@),
{
    if is_qualified {
        resolved
    } else {
        Some((context, copied(name)))
    }
}

/// What is to be done around an unset, decided before the variable goes.
#[derive(Debug, Clone, Copy, PartialEq, Eq, Structural)]
pub struct UnsetPlan {
    /// Find out whose traces fire: after the unset, the name may mean another
    /// variable.
    pub resolve: bool,
    /// List the elements of the array, which have traces of their own.
    pub list_elements: bool,
}

impl Interp {
    /// What is to be done around an unset of a name; `is_element` says whether
    /// it names an element.
    pub fn begin_unset(&self, is_element: bool) -> (p: UnsetPlan)
        ensures
            p.resolve == (self.state.traces.traces@.len() > 0),
            p.list_elements == (p.resolve && !is_element),
    {
        let traced = self.state.traces.traces.len() > 0;
        UnsetPlan { resolve: traced, list_elements: traced && !is_element }
    }
}

impl UnsetPlan {
    /// Whether the unset traces fire, once it is known whether the variable was
    /// there.
    pub fn fires(self, existed: bool) -> (r: bool)
        ensures
            r == (existed && self.resolve),
    {
        existed && self.resolve
    }
}

/// A callback is told the variable, the element or nothing, and the operation:
/// by its word, or by its letter where the trace was set in the old style.
pub proof fn a_callback_is_told_the_access(a: TraceAccess)
    ensures
        access_operands(a, VarOp::Read, false) == seq![
            a.reported@,
            if a.report_elem is Some {
                a.report_elem->0@
            } else {
                Seq::empty()
            },
            text("read"),
        ],
        access_operands(a, VarOp::Write, false)[2] == text("write"),
        access_operands(a, VarOp::Unset, false)[2] == text("unset"),
        access_operands(a, VarOp::Array, false)[2] == text("array"),
        access_operands(a, VarOp::Read, true)[2] == text("r"),
        access_operands(a, VarOp::Write, true)[2] == text("w"),
        access_operands(a, VarOp::Unset, true)[2] == text("u"),
        access_operands(a, VarOp::Array, true)[2] == text("a"),
        forall|op: VarOp, old_style: bool|
            (#[trigger] access_operands(a, op, old_style)).len() == 3 && access_operands(
                a,
                op,
                old_style,
            )[0] == a.reported@,
{
}

/// An access that a callback stopped fails with the callback's own message, and
/// that message is not held any longer.
pub proof fn a_stopped_access_fails_with_the_callbacks_message(
    before: Interp,
    after: Interp,
    op: VarOp,
    name: Seq<u8>,
    m: Seq<u8>,
)
    requires
        access_failed(before, after, op, name),
        opt_view(before.state.traces.pending_err) == Some(m),
    ensures
        after.state.result@ == access_message(op, name, m),
        after.state.traces.pending_err is None,
        op is Read ==> after.state.exc@.code == text("TCL READ VARNAME"),
        op is Write ==> after.state.exc@.code == text("TCL WRITE VARNAME"),
        after.state.exc@.info == before.state.exc@.info,
{
}

/// The read traces of a variable have run; `errored` says that one stopped the
/// read, and `r` is the code it fails with.
pub open spec fn read_traced(
    before: Interp,
    after: Interp,
    base: Seq<u8>,
    elem: Option<Seq<u8>>,
    errored: bool,
    r: Option<Code>,
) -> bool {
    if errored {
        &&& r == Some(Code::Error)
        &&& access_failed(before, after, VarOp::Read, display_name(base, elem))
    } else {
        r is None && after == before
    }
}

/// A write to `name` is refused where that is a constant.
pub open spec fn constant_checked(
    before: Interp,
    after: Interp,
    name: Seq<u8>,
    is_constant: bool,
    r: Option<Code>,
) -> bool {
    if is_constant {
        r == Some(Code::Error) && raised(
            before,
            after,
            text("can't set \"") + name + text("\": variable is a constant"),
        )
    } else {
        r is None && after == before
    }
}

/// The result of a write is the value that the variable then has.
pub open spec fn store_answered(
    before: Interp,
    after: Interp,
    stored: bool,
    now: Option<Seq<u8>>,
) -> bool {
    &&& !stored ==> after == before
    &&& stored ==> {
        &&& after.state.result@ == match now {
            Some(v) => v,
            None => Seq::empty(),
        }
        &&& after == (Interp {
            state: InterpState { result: after.state.result, ..before.state },
            ..before
        })
    }
}

/// A read that a trace stopped fails, with the message of that trace behind the
/// name as it was written; any other read goes on as if there were no traces.
pub proof fn a_stopped_read_names_the_variable(
    before: Interp,
    after: Interp,
    base: Seq<u8>,
    elem: Option<Seq<u8>>,
    errored: bool,
    r: Option<Code>,
    m: Seq<u8>,
)
    requires
        read_traced(before, after, base, elem, errored, r),
        opt_view(before.state.traces.pending_err) == Some(m),
    ensures
        r is Some <==> errored,
        !errored ==> after == before,
        errored && elem is None ==> after.state.result@ == text("can't ") + text("read") + text(
            " \"",
        ) + base + text("\": ") + m,
        errored && elem is Some ==> after.state.result@ == text("can't ") + text("read") + text(
            " \"",
        ) + (base + text("(") + elem->0 + text(")")) + text("\": ") + m,
        errored ==> r == Some(Code::Error) && after.state.traces.pending_err is None,
{
}

/// A constant is not written; a variable that is none may be. A write answers
/// the value that the variable has after it, traces included.
pub proof fn a_write_answers_the_value(
    before: Interp,
    checked: Interp,
    after: Interp,
    name: Seq<u8>,
    is_constant: bool,
    r: Option<Code>,
    value: Seq<u8>,
)
    requires
        constant_checked(before, checked, name, is_constant, r),
        store_answered(checked, after, r is None, Some(value)),
    ensures
        is_constant ==> r == Some(Code::Error) && after.state.result@ == text("can't set \"")
            + name + text("\": variable is a constant"),
        !is_constant ==> r is None && after.state.result@ == value && after.state.exc
            == before.state.exc && after.state.traces == before.state.traces,
{
}

} // verus!
