//! Procedure calls: arity, binding of the parameters, and the way a body ends.

use vstd::prelude::*;

use crate::bytes::{
    append, append_text, copied, copied_opt, is_text, lit, opt_view, tail_words, text, views,
};
use crate::code::Code;
use crate::ensemble::prefixed_all;
use crate::errors::{
    default_code, framed_error, proc_frame_text, raised, trace_text, ExceptionView,
    MethodFrameWhat, ProcFrame,
};
use crate::frames::{CmdFrame, FrameKind, FrameView, MethodContext, MethodView};
use crate::number::decimal;
use crate::state::{EnsembleRewrite, Interp, InterpState, NsId};
use crate::teardown::{
    frame_callbacks, kept_holds, survivors, traces_dropped, Doomed, Local,
};
use crate::traces::{teardown_views, TeardownCallback};
use crate::words::spaced;

verus! {

/// A formal parameter: its name, and its default value where it has one.
#[derive(Debug)]
pub struct Param {
    pub name: Vec<u8>,
    pub default: Option<Vec<u8>>,
}

/// What a [`Param`] holds.
pub struct ParamView {
    pub name: Seq<u8>,
    pub default: Option<Seq<u8>>,
}

impl View for Param {
    type V = ParamView;

    open spec fn view(&self) -> ParamView {
        ParamView { name: self.name@, default: opt_view(self.default) }
    }
}

/// The parameters of a procedure as plain values.
pub open spec fn param_views(ps: Seq<Param>) -> Seq<ParamView> {
    Seq::new(ps.len(), |i: int| ps[i]@)
}

/// A procedure: its parameters, its body, and the namespace it runs in.
#[derive(Debug)]
pub struct ProcDef {
    pub params: Vec<Param>,
    pub body: Vec<u8>,
    pub ns: NsId,
    /// The qualified name it was defined under.
    pub fqn: Vec<u8>,
    /// The file it was defined in, if any.
    pub source: Option<Vec<u8>>,
    /// The line of that file before the body, zero without one.
    pub body_line_base: u32,
    /// The compiled body, where a module supplied one.
    pub native: Option<u64>,
}

/// Whether the last parameter collects the remaining arguments.
pub open spec fn has_catch_all(ps: Seq<ParamView>) -> bool {
    ps.len() > 0 && ps.last().name == text("args")
}

/// The parameters that take one argument each.
pub open spec fn positional(ps: Seq<ParamView>) -> Seq<ParamView> {
    if has_catch_all(ps) {
        ps.drop_last()
    } else {
        ps
    }
}

/// How many of `ps` have no default.
pub open spec fn required(ps: Seq<ParamView>) -> nat
    decreases ps.len(),
{
    if ps.len() == 0 {
        0
    } else {
        required(ps.drop_last()) + if ps.last().default is None {
            1nat
        } else {
            0nat
        }
    }
}

/// Whether a call with `supplied` arguments is refused outright.
pub open spec fn wrong_arity(ps: Seq<ParamView>, supplied: int) -> bool {
    ||| supplied < required(positional(ps))
    ||| !has_catch_all(ps) && supplied > ps.len()
}

/// Whether binding `supplied` arguments reaches the positional parameter `i`
/// with nothing to bind it to.
pub open spec fn unbound_at(ps: Seq<ParamView>, supplied: int, i: int) -> bool {
    supplied <= i && ps[i].default is None
}

/// Whether binding goes through all the positional parameters. A parameter with
/// a default does not yield its place to a later one without.
pub open spec fn binds_all(ps: Seq<ParamView>, supplied: int) -> bool {
    forall|i: int| 0 <= i < positional(ps).len() ==> !#[trigger] unbound_at(ps, supplied, i)
}

/// What the positional parameter `i` is bound to.
pub open spec fn bound_value(ps: Seq<ParamView>, args: Seq<Seq<u8>>, i: int) -> Seq<u8> {
    if i < args.len() {
        args[i]
    } else {
        ps[i].default->0
    }
}

/// How a parameter is shown in a usage message.
pub open spec fn param_word(ps: Seq<ParamView>, i: int) -> Seq<u8> {
    if i + 1 == ps.len() && ps[i].name == text("args") {
        text("?arg ...?")
    } else if ps[i].default is Some {
        text("?") + ps[i].name + text("?")
    } else {
        ps[i].name
    }
}

/// The parameters `from..to` as a usage message shows them.
pub open spec fn params_text(ps: Seq<ParamView>, from: int, to: int) -> Seq<u8>
    decreases to - from,
{
    if to <= from {
        Seq::empty()
    } else {
        params_text(ps, from, to - 1) + text(" ") + param_word(ps, to - 1)
    }
}

/// The usage message of a procedure that is called by `name`, without the
/// first `from` parameters.
pub open spec fn usage_message(name: Seq<u8>, ps: Seq<ParamView>, from: int) -> Seq<u8> {
    text("wrong # args: should be \"") + name + params_text(ps, from, ps.len() as int) + text("\"")
}

/// Appends the parameters from `from` on.
fn append_params(out: &mut Vec<u8>, params: &[Param], from: usize)
    requires
        from <= params@.len(),
    ensures
        final(out)@ == old(out)@ + params_text(
            param_views(params@),
            from as int,
            params@.len() as int,
        ),
{
    let ghost ps = param_views(params@);
    let ghost start = out@;
    let mut i: usize = from;
    assert(out@ =~= start + params_text(ps, from as int, from as int));
    while i < params.len()
        invariant
            from <= i <= params@.len(),
            ps == param_views(params@),
            out@ == start + params_text(ps, from as int, i as int),
        decreases params@.len() - i,
    {
        append_text(out, " ");
        let p = &params[i];
        if i + 1 == params.len() && is_text(&p.name, "args") {
            append_text(out, "?arg ...?");
        } else if p.default.is_some() {
            append_text(out, "?");
            append(out, &p.name);
            append_text(out, "?");
        } else {
            append(out, &p.name);
        }
        assert(out@ =~= start + (params_text(ps, from as int, i as int) + text(" ") + param_word(
            ps,
            i as int,
        )));
        i = i + 1;
    }
}

/// Builds a usage message from leading words and the parameters from `from` on.
pub fn proc_usage_words(words: &[Vec<u8>], params: &[Param], from: usize) -> (r: Vec<u8>)
    requires
        from <= params@.len(),
    ensures
        r@ == usage_message(spaced(views(words@)), param_views(params@), from as int),
{
    let mut m = lit("wrong # args: should be \"");
    append(&mut m, &crate::words::join_words(words));
    append_params(&mut m, params, from);
    append_text(&mut m, "\"");
    m
}

/// Builds the usage message of a procedure. The name of a procedure is shown as
/// the list element `element`; a prefix of several words stays as it is.
pub fn proc_usage(called: &[u8], element: &[u8], params: &[Param], quote_name: bool) -> (r: Vec<
    u8,
>)
    ensures
        r@ == usage_message(
            if quote_name {
                element@
            } else {
                called@
            },
            param_views(params@),
            0,
        ),
{
    let mut m = lit("wrong # args: should be \"");
    if quote_name {
        append(&mut m, element);
    } else {
        append(&mut m, called);
    }
    append_params(&mut m, params, 0);
    append_text(&mut m, "\"");
    m
}

/// How many parameters the words that a rewrite inserted have filled.
pub open spec fn filled_by_rewrite(rw: EnsembleRewrite, supplied: int) -> int {
    let user_args = if rw.source@.len() >= rw.removed {
        rw.source@.len() - rw.removed
    } else {
        0
    };
    if supplied >= user_args {
        supplied - user_args
    } else {
        0
    }
}

/// The leading words of the call as its author wrote it.
pub open spec fn rewritten_prefix(rw: EnsembleRewrite) -> Seq<Seq<u8>> {
    if rw.removed <= rw.source@.len() {
        views(rw.source@).take(rw.removed as int)
    } else {
        views(rw.source@)
    }
}

/// The message for a wrong number of arguments: in the words of the forwarded
/// call, where one is active and the parameters it filled are there to drop.
pub open spec fn wrong_args_message(
    rewrite: Option<EnsembleRewrite>,
    name: Seq<u8>,
    ps: Seq<ParamView>,
    supplied: int,
) -> Seq<u8> {
    match rewrite {
        Some(rw) => if filled_by_rewrite(rw, supplied) <= ps.len() {
            usage_message(spaced(rewritten_prefix(rw)), ps, filled_by_rewrite(rw, supplied))
        } else {
            usage_message(name, ps, 0)
        },
        None => usage_message(name, ps, 0),
    }
}

impl Interp {
    /// The message for a wrong number of arguments to a procedure or method.
    pub fn proc_wrong_args(
        &self,
        called: &[u8],
        element: &[u8],
        params: &[Param],
        supplied: usize,
        quote_name: bool,
    ) -> (r: Vec<u8>)
        ensures
            r@ == wrong_args_message(
                self.state.ensemble_rewrite,
                if quote_name {
                    element@
                } else {
                    called@
                },
                param_views(params@),
                supplied as int,
            ),
    {
        if let Some(rw) = &self.state.ensemble_rewrite {
            let user_args: usize = if rw.source.len() >= rw.removed {
                rw.source.len() - rw.removed
            } else {
                0
            };
            let filled: usize = if supplied >= user_args {
                supplied - user_args
            } else {
                0
            };
            if filled <= params.len() {
                let prefix: Vec<Vec<u8>> = first_words(&rw.source, rw.removed);
                return proc_usage_words(&prefix, params, filled);
            }
        }
        proc_usage(called, element, params, quote_name)
    }
}

/// The first `n` words of `ws`, or all where there are fewer.
fn first_words(ws: &[Vec<u8>], n: usize) -> (r: Vec<Vec<u8>>)
    ensures
        views(r@) == if n <= ws@.len() {
            views(ws@).take(n as int)
        } else {
            views(ws@)
        },
{
    let end: usize = if n <= ws.len() {
        n
    } else {
        ws.len()
    };
    let mut out: Vec<Vec<u8>> = Vec::new();
    let mut i: usize = 0;
    while i < end
        invariant
            i <= end <= ws@.len(),
            out@.len() == i,
            forall|j: int| 0 <= j < i ==> #[trigger] out@[j]@ == ws@[j]@,
        decreases end - i,
    {
        out.push(copied(&ws[i]));
        i = i + 1;
    }
    assert(views(out@) =~= views(ws@).take(end as int));
    assert(views(ws@).take(ws@.len() as int) =~= views(ws@));
    out
}

/// A variable of a call that stands for one of its namespace.
#[derive(Debug)]
pub struct VarLink {
    pub local: Vec<u8>,
    pub target: Vec<u8>,
}

impl View for VarLink {
    type V = (Seq<u8>, Seq<u8>);

    open spec fn view(&self) -> (Seq<u8>, Seq<u8>) {
        (self.local@, self.target@)
    }
}

/// The links as plain values.
pub open spec fn link_views(links: Seq<VarLink>) -> Seq<(Seq<u8>, Seq<u8>)> {
    Seq::new(links.len(), |i: int| links[i]@)
}

fn copied_links(links: &[VarLink]) -> (r: Vec<VarLink>)
    ensures
        link_views(r@) == link_views(links@),
{
    let mut out: Vec<VarLink> = Vec::new();
    let mut i: usize = 0;
    while i < links.len()
        invariant
            i <= links@.len(),
            out@.len() == i,
            forall|j: int| 0 <= j < i ==> (#[trigger] out@[j])@ == links@[j]@,
        decreases links@.len() - i,
    {
        out.push(
            VarLink { local: copied(&links[i].local), target: copied(&links[i].target) },
        );
        i = i + 1;
    }
    assert(link_views(out@) =~= link_views(links@));
    out
}

/// What a call brings beside its procedure and its arguments.
pub struct CallMeta {
    /// The frame that the body adds to an error trace.
    pub err: ProcFrame,
    /// The qualified name of the procedure.
    pub fqn: Option<Vec<u8>>,
    /// The file the body was defined in.
    pub source: Option<Vec<u8>>,
    pub body_line_base: u32,
    /// The instance variables of a method, to be linked before its parameters
    /// are bound.
    pub link_vars: Vec<VarLink>,
    /// Run at the level of the caller, as a method does that is reached from
    /// another one of its call chain.
    pub same_level: bool,
    /// Leave `break` and `continue` that escape the body to the caller.
    pub keep_loop_codes: bool,
    /// The command prefix for a usage message, in place of the called name.
    pub usage_prefix: Option<Vec<u8>>,
    /// The words for `info level`, in place of the name and the arguments.
    pub level_words: Option<Vec<Vec<u8>>>,
    /// Show the called name as a list element.
    pub quote_name: bool,
    pub native: Option<u64>,
}

/// One variable that a call binds.
#[derive(Debug)]
pub struct Binding {
    pub name: Vec<u8>,
    pub value: Vec<u8>,
}

/// Whether binding `i` gives the positional parameter `i` its value.
pub open spec fn binds_param(
    bs: Seq<Binding>,
    ps: Seq<ParamView>,
    args: Seq<Seq<u8>>,
    i: int,
) -> bool {
    &&& !unbound_at(ps, args.len() as int, i)
    &&& bs[i].name@ == ps[i].name
    &&& bs[i].value@ == bound_value(ps, args, i)
}

/// A call that has begun.
pub struct ProcCall {
    /// The namespace to return to.
    pub saved_ns: NsId,
    /// The words for `info level`.
    pub words: Vec<Vec<u8>>,
    /// Whether the frame of the call is at the level of the caller.
    pub same_level: bool,
    /// The variables to link in that frame, in order, before any is bound.
    pub links: Vec<VarLink>,
    /// What to bind, in order.
    pub bindings: Vec<Binding>,
    /// Whether a parameter is left with nothing to bind it to, so that the
    /// call fails once `bindings` are made.
    pub short: bool,
    /// The arguments that the catch-all parameter collects.
    pub rest: Option<Vec<Vec<u8>>>,
}

/// The name a usage message shows for a call.
pub open spec fn shown_name(meta: CallMeta, called: Seq<u8>, element: Seq<u8>) -> Seq<u8> {
    if meta.quote_name {
        element
    } else {
        match opt_view(meta.usage_prefix) {
            Some(p) => p,
            None => called,
        }
    }
}

/// Whether `call` is the beginning of the call of `ps` with `args`.
pub open spec fn call_begins(
    call: ProcCall,
    ps: Seq<ParamView>,
    args: Seq<Seq<u8>>,
    called: Seq<u8>,
    meta: CallMeta,
    saved_ns: NsId,
) -> bool {
    let n = args.len() as int;
    &&& call.saved_ns == saved_ns
    &&& call.same_level == meta.same_level
    &&& link_views(call.links@) == link_views(meta.link_vars@)
    &&& views(call.words@) == match meta.level_words {
        Some(w) => views(w@),
        None => seq![called] + args,
    }
    &&& call.short == !binds_all(ps, n)
    &&& call.bindings@.len() <= positional(ps).len()
    &&& call.short ==> call.bindings@.len() < positional(ps).len() && unbound_at(
        ps,
        n,
        call.bindings@.len() as int,
    )
    &&& !call.short ==> call.bindings@.len() == positional(ps).len()
    &&& forall|i: int|
        0 <= i < call.bindings@.len() ==> #[trigger] binds_param(call.bindings@, ps, args, i)
    &&& match call.rest {
        Some(r) => has_catch_all(ps) && !call.short && views(r@) == args.skip(
            if n < positional(ps).len() {
                n
            } else {
                positional(ps).len() as int
            },
        ),
        None => !has_catch_all(ps) || call.short,
    }
}

fn required_count(params: &[Param], end: usize) -> (r: usize)
    requires
        end <= params@.len(),
    ensures
        r == required(param_views(params@).take(end as int)),
{
    let mut n: usize = 0;
    let mut i: usize = 0;
    assert(param_views(params@).take(0).len() == 0);
    while i < end
        invariant
            i <= end <= params@.len(),
            n <= i,
            n == required(param_views(params@).take(i as int)),
        decreases end - i,
    {
        assert(param_views(params@).take(i + 1).drop_last() =~= param_views(params@).take(
            i as int,
        ));
        if params[i].default.is_none() {
            n = n + 1;
        }
        i = i + 1;
    }
    n
}

/// Binds the positional parameters in order, up to one that is left with
/// nothing.
fn bind_params(params: &[Param], end: usize, args: &[Vec<u8>]) -> (r: (Vec<Binding>, bool))
    requires
        end <= params@.len(),
    ensures
        ({
            let ps = param_views(params@);
            let n = args@.len() as int;
            &&& r.0@.len() <= end
            &&& r.1 ==> r.0@.len() < end && unbound_at(ps, n, r.0@.len() as int)
            &&& !r.1 ==> r.0@.len() == end
            &&& forall|i: int|
                0 <= i < r.0@.len() ==> #[trigger] binds_param(r.0@, ps, views(args@), i)
        }),
{
    let ghost ps = param_views(params@);
    let ghost n = args@.len() as int;
    let mut out: Vec<Binding> = Vec::new();
    let mut i: usize = 0;
    while i < end
        invariant
            i <= end <= params@.len(),
            ps == param_views(params@),
            n == args@.len(),
            out@.len() == i,
            forall|j: int| 0 <= j < i ==> #[trigger] binds_param(out@, ps, views(args@), j),
        decreases end - i,
    {
        let value: Vec<u8> = if i < args.len() {
            copied(&args[i])
        } else {
            match &params[i].default {
                Some(d) => copied(d),
                None => {
                    assert(unbound_at(ps, n, i as int));
                    return (out, true);
                },
            }
        };
        let ghost before = out@;
        out.push(Binding { name: copied(&params[i].name), value });
        assert forall|j: int| 0 <= j < i + 1 implies #[trigger] binds_param(
            out@,
            ps,
            views(args@),
            j,
        ) by {
            if j < i {
                assert(binds_param(before, ps, views(args@), j));
            }
        }
        i = i + 1;
    }
    (out, false)
}

/// The message for calls that nest too deep.
pub open spec fn too_deep() -> Seq<u8> {
    text("too many nested evaluations (infinite loop?)")
}

/// A call is entered: one level deeper, in the namespace of the procedure.
pub open spec fn call_entered(before: Interp, after: Interp, ns: NsId) -> bool {
    &&& before.state.recursion_depth < before.state.recursion_limit
    &&& after == (Interp {
        state: InterpState {
            recursion_depth: (before.state.recursion_depth + 1) as usize,
            current_ns: ns,
            ..before.state
        },
        ..before
    })
}

/// Calls nest no deeper than the limit that was set when they began.
pub proof fn calls_nest_within_the_limit(before: Interp, after: Interp, ns: NsId)
    requires
        call_entered(before, after, ns),
    ensures
        after.state.recursion_depth == before.state.recursion_depth + 1,
        after.state.recursion_depth <= after.state.recursion_limit,
{
}

impl Interp {
    /// Begins a call of a procedure that runs in namespace `ns`. `element` is
    /// the name that a usage message shows, as a list element.
    pub fn begin_call(
        &mut self,
        params: &[Param],
        ns: NsId,
        args: &[Vec<u8>],
        called: &[u8],
        element: &[u8],
        meta: &CallMeta,
    ) -> (r: Result<ProcCall, Code>)
        ensures
            call_decided(
                *old(self),
                *final(self),
                param_views(params@),
                ns,
                views(args@),
                called@,
                element@,
                *meta,
                r,
            ),
    {
        let ghost ps = param_views(params@);
        let catch_all = params.len() > 0 && is_text(&params[params.len() - 1].name, "args");
        let end: usize = if catch_all {
            params.len() - 1
        } else {
            params.len()
        };
        proof {
            assert(positional(ps) =~= ps.take(end as int));
        }
        let supplied = args.len();
        let needed = required_count(params, end);
        if supplied < needed || (!catch_all && supplied > params.len()) {
            let usage: &[u8] = match &meta.usage_prefix {
                Some(p) => p,
                None => called,
            };
            let message = self.proc_wrong_args(usage, element, params, supplied, meta.quote_name);
            return Err(self.error(&message));
        }
        if self.state.recursion_depth >= self.state.recursion_limit {
            return Err(self.error("too many nested evaluations (infinite loop?)".as_bytes()));
        }
        self.state.recursion_depth = self.state.recursion_depth + 1;
        let saved_ns = self.state.current_ns;
        self.state.current_ns = ns;
        let words: Vec<Vec<u8>> = match &meta.level_words {
            Some(w) => crate::bytes::copied_words(w),
            None => {
                let mut w: Vec<Vec<u8>> = Vec::new();
                w.push(copied(called));
                let mut i: usize = 0;
                while i < args.len()
                    invariant
                        i <= args@.len(),
                        w@.len() == i + 1,
                        w@[0]@ == called@,
                        forall|j: int| 0 <= j < i ==> #[trigger] w@[j + 1]@ == args@[j]@,
                    decreases args@.len() - i,
                {
                    w.push(copied(&args[i]));
                    i = i + 1;
                }
                proof {
                    let all = seq![called@] + views(args@);
                    assert forall|k: int| 0 <= k < all.len() implies views(w@)[k] == all[k] by {
                        if k > 0 {
                            assert(w@[(k - 1) + 1]@ == args@[k - 1]@);
                        }
                    }
                    assert(views(w@) =~= all);
                }
                w
            },
        };
        let (bindings, short) = bind_params(params, end, args);
        let rest: Option<Vec<Vec<u8>>> = if catch_all && !short {
            let from: usize = if supplied < end {
                supplied
            } else {
                end
            };
            Some(tail_words(args, from))
        } else {
            None
        };
        proof {
            if short {
                assert(unbound_at(ps, args@.len() as int, bindings@.len() as int));
            } else {
                assert forall|i: int| 0 <= i < positional(ps).len() implies !#[trigger] unbound_at(
                    ps,
                    args@.len() as int,
                    i,
                ) by {
                    assert(binds_param(bindings@, ps, views(args@), i));
                }
            }
        }
        let links = copied_links(&meta.link_vars);
        Ok(
            ProcCall {
                saved_ns,
                words,
                same_level: meta.same_level,
                links,
                bindings,
                short,
                rest,
            },
        )
    }

    /// Gives up a call whose parameters could not all be bound. `short` says
    /// that one was left with nothing; otherwise a variable refused its value.
    pub fn abandon_call(
        &mut self,
        params: &[Param],
        supplied: usize,
        called: &[u8],
        element: &[u8],
        meta: &CallMeta,
        saved_ns: NsId,
        short: bool,
    ) -> (c: Code)
        requires
            old(self).state.recursion_depth > 0,
        ensures
            c == Code::Error,
            raised(
                (Interp {
                    state: InterpState {
                        recursion_depth: (old(self).state.recursion_depth - 1) as usize,
                        current_ns: saved_ns,
                        ..old(self).state
                    },
                    ..*old(self)
                }),
                *final(self),
                if short {
                    wrong_args_message(
                        old(self).state.ensemble_rewrite,
                        shown_name(*meta, called@, element@),
                        param_views(params@),
                        supplied as int,
                    )
                } else {
                    text("proc parameter binding failed")
                },
            ),
    {
        self.state.current_ns = saved_ns;
        self.state.recursion_depth = self.state.recursion_depth - 1;
        if short {
            let usage: &[u8] = match &meta.usage_prefix {
                Some(p) => p,
                None => called,
            };
            let message = self.proc_wrong_args(usage, element, params, supplied, meta.quote_name);
            self.error(&message)
        } else {
            self.error("proc parameter binding failed".as_bytes())
        }
    }
}

/// The method that a call runs, for `info frame`.
pub open spec fn method_of(f: ProcFrame) -> Option<MethodView> {
    match f {
        ProcFrame::Method { kind, owner, what } => Some(
            MethodView {
                method: match what {
                    MethodFrameWhat::Named(n) => n@,
                    _ => Seq::empty(),
                },
                kind: kind@,
                owner: owner@,
            },
        ),
        _ => None,
    }
}

/// The frame that the body of a call runs in.
pub open spec fn body_frame_of(meta: CallMeta, level: usize, index: usize) -> FrameView {
    FrameView {
        kind: if meta.source is Some {
            FrameKind::Source
        } else {
            FrameKind::Proc
        },
        file: opt_view(meta.source),
        proc_name: opt_view(meta.fqn),
        level,
        omit_level: false,
        frame_index: index,
        line_base: meta.body_line_base,
        proc_line_base: meta.body_line_base,
        cmd: Seq::empty(),
        line: 1,
        oo: method_of(meta.err),
        lambda: match meta.err {
            ProcFrame::Lambda(e) => Some(e@),
            _ => None,
        },
    }
}

/// The frame for the body of a call, in the call frame at `index` and `level`.
pub fn proc_body_frame(meta: &CallMeta, level: usize, index: usize) -> (f: CmdFrame)
    ensures
        f@ == body_frame_of(*meta, level, index),
{
    let oo: Option<MethodContext> = match &meta.err {
        ProcFrame::Method { kind, owner, what } => {
            let method: Vec<u8> = match what {
                MethodFrameWhat::Named(n) => copied(n),
                _ => {
                    let none: Vec<u8> = Vec::new();
                    assert(none@ =~= Seq::empty());
                    none
                },
            };
            Some(MethodContext { method, kind: copied(kind), owner: copied(owner) })
        },
        _ => None,
    };
    let lambda: Option<Vec<u8>> = match &meta.err {
        ProcFrame::Lambda(e) => Some(copied(e)),
        _ => None,
    };
    let cmd: Vec<u8> = Vec::new();
    assert(cmd@ =~= Seq::empty());
    CmdFrame {
        kind: if meta.source.is_some() {
            FrameKind::Source
        } else {
            FrameKind::Proc
        },
        file: copied_opt(&meta.source),
        proc_name: copied_opt(&meta.fqn),
        level,
        omit_level: false,
        frame_index: index,
        line_base: meta.body_line_base,
        proc_line_base: meta.body_line_base,
        cmd,
        line: 1,
        oo,
        lambda,
    }
}

/// A `return` as it crosses one boundary: the completion, and the pending level
/// and code.
pub open spec fn settled(code: Code, level: usize, pending: Code) -> (Code, usize, Code) {
    if code != Code::Return {
        (code, level, pending)
    } else if level <= 1 {
        (pending, 0, Code::Okay)
    } else {
        (Code::Return, (level - 1) as usize, pending)
    }
}

/// The message for a loop code that escapes a body, if it is one.
pub open spec fn escape_message(code: Code) -> Option<Seq<u8>> {
    match code {
        Code::Break => Some(text("invoked \"break\" outside of a loop")),
        Code::Continue => Some(text("invoked \"continue\" outside of a loop")),
        _ => None,
    }
}

/// An interpreter that has crossed a return boundary.
pub open spec fn boundary_crossed(before: Interp, code: Code) -> Interp {
    let s = settled(code, before.state.return_level, before.state.return_code);
    Interp {
        state: InterpState { return_level: s.1, return_code: s.2, ..before.state },
        ..before
    }
}

/// How a call ends: the completion, and the interpreter with the error that
/// the call adds to. `call` is the list of the words of the call.
pub open spec fn call_ended(
    before: Interp,
    after: Interp,
    code: Code,
    c: Code,
    frame: ProcFrame,
    keep_loop_codes: bool,
    call: Option<Seq<u8>>,
) -> bool {
    let s = settled(code, before.state.return_level, before.state.return_code);
    let crossed = boundary_crossed(before, code);
    let escape = if keep_loop_codes || code == Code::Return {
        None
    } else {
        escape_message(s.0)
    };
    match escape {
        Some(m) => c == Code::Error && loop_code_escaped(crossed, after, m, frame, call),
        None => c == s.0 && if c != Code::Error {
            after == crossed
        } else if code != Code::Return {
            error_left(crossed, after, frame, call)
        } else {
            after.state.exc@ == (ExceptionView { already_logged: false, ..crossed.state.exc@ })
                && after == (Interp {
                state: InterpState { exc: after.state.exc, ..crossed.state },
                ..crossed
            })
        },
    }
}

/// A loop code that escaped a body: an error with the message `m` that the
/// body's frame is logged for.
pub open spec fn loop_code_escaped(
    before: Interp,
    after: Interp,
    m: Seq<u8>,
    frame: ProcFrame,
    call: Option<Seq<u8>>,
) -> bool {
    &&& after.state.result@ == m
    &&& after.state.exc@ == (ExceptionView {
        info: Some(
            m + (text("\n    (") + proc_frame_text(frame) + text(" line ") + decimal(
                before.state.error_line as int,
            ) + text(")")),
        ),
        code: default_code(m),
        code_explicit: false,
        already_logged: false,
    })
    &&& views(after.state.error_stack@) == stack_with_call(before.state, call)
    &&& after == (Interp {
        state: InterpState {
            result: after.state.result,
            exc: after.state.exc,
            error_stack: after.state.error_stack,
            ..before.state
        },
        ..before
    })
}

/// The error stack with the call that an error leaves, where the innermost
/// command is in it.
pub open spec fn stack_with_call(s: InterpState, call: Option<Seq<u8>>) -> Seq<Seq<u8>> {
    if s.reset_error_stack || call is None {
        views(s.error_stack@)
    } else {
        views(s.error_stack@) + seq![text("CALL"), call->0]
    }
}

/// An error that has unwound out of a body: its frame is logged, and the call
/// is in the error stack.
pub open spec fn error_left(
    before: Interp,
    after: Interp,
    frame: ProcFrame,
    call: Option<Seq<u8>>,
) -> bool {
    &&& after.state.exc@ == framed_error(before.state, proc_frame_text(frame))
    &&& views(after.state.error_stack@) == stack_with_call(before.state, call)
    &&& after == (Interp {
        state: InterpState {
            exc: after.state.exc,
            error_stack: after.state.error_stack,
            ..before.state
        },
        ..before
    })
}

/// The body of a call is left: the traces on the variables of its frame are
/// gone, and the namespace is that of the caller.
pub open spec fn body_left(before: Interp, after: Interp, level: usize, saved_ns: NsId) -> bool {
    traces_dropped(
        (Interp { state: InterpState { current_ns: saved_ns, ..before.state }, ..before }),
        after,
        Doomed::Frame(level),
    )
}

/// A body that is left leaves no trace on a variable of its frame behind, so
/// that none is there for the next frame at that level.
pub proof fn a_left_body_leaves_no_traces(
    before: Interp,
    after: Interp,
    level: usize,
    saved_ns: NsId,
    i: int,
)
    requires
        body_left(before, after, level, saved_ns),
        0 <= i < after.state.traces.traces@.len(),
    ensures
        after.state.traces.traces@[i].frame_level != Some(level),
{
    kept_holds(before.state.traces.traces@, survivors(Doomed::Frame(level)));
}

impl Interp {
    /// Notes a `return -level L -code C`.
    pub fn set_return_state(&mut self, level: usize, code: Code)
        ensures
            *final(self) == (Interp {
                state: InterpState { return_level: level, return_code: code, ..old(self).state },
                ..*old(self)
            }),
    {
        self.state.return_level = level;
        self.state.return_code = code;
    }

    /// Takes a body's completion across a return boundary: a `return` loses one
    /// level, and at the last one completes with its pending code. Other codes
    /// pass.
    pub fn settle_return(&mut self, code: Code) -> (c: Code)
        ensures
            c == settled(code, old(self).state.return_level, old(self).state.return_code).0,
            *final(self) == boundary_crossed(*old(self), code),
    {
        if code != Code::Return {
            return code;
        }
        if self.state.return_level > 0 {
            self.state.return_level = self.state.return_level - 1;
        }
        if self.state.return_level == 0 {
            let c = self.state.return_code;
            self.state.return_code = Code::Okay;
            c
        } else {
            Code::Return
        }
    }

    /// Leaves the body of a call, whose frame is at `level` and has the variables
    /// `locals`, for the namespace it was made from. The traces on these variables
    /// go with the frame; their callbacks run next, and are told by what comes
    /// back.
    pub fn leave_body(&mut self, level: usize, locals: &[Local], saved_ns: NsId) -> (r: Vec<
        TeardownCallback,
    >)
        ensures
            teardown_views(r@) == frame_callbacks(old(self).state.traces.traces@, level, locals@),
            body_left(*old(self), *final(self), level, saved_ns),
    {
        let callbacks = self.frame_teardown_unset_traces(level, locals);
        self.state.current_ns = saved_ns;
        self.clear_frame_var_traces(level);
        callbacks
    }

    /// Ends a call whose body completed with `code`. `call` is the list of the
    /// words of the call.
    pub fn end_call(
        &mut self,
        code: Code,
        frame: &ProcFrame,
        keep_loop_codes: bool,
        call: &Option<Vec<u8>>,
    ) -> (c: Code)
        requires
            old(self).state.recursion_depth > 0,
        ensures
            call_ended(
                (Interp {
                    state: InterpState {
                        recursion_depth: (old(self).state.recursion_depth - 1) as usize,
                        ..old(self).state
                    },
                    ..*old(self)
                }),
                *final(self),
                code,
                c,
                *frame,
                keep_loop_codes,
                opt_view(*call),
            ),
    {
        self.state.recursion_depth = self.state.recursion_depth - 1;
        let ghost before = *self;
        let from_return = code == Code::Return;
        let passed = self.settle_return(code);
        let ghost crossed = *self;
        let c: Code = if passed == Code::Break && !keep_loop_codes && !from_return {
            self.error("invoked \"break\" outside of a loop".as_bytes())
        } else if passed == Code::Continue && !keep_loop_codes && !from_return {
            self.error("invoked \"continue\" outside of a loop".as_bytes())
        } else {
            passed
        };
        let ghost mid = *self;
        if c == Code::Error {
            if !from_return {
                self.make_proc_error(frame);
                if let Some(words) = call {
                    self.error_stack_push_call(words);
                }
                assert(error_left(mid, *self, *frame, opt_view(*call)));
            } else {
                self.clear_error_logged();
            }
        }
        proof {
            if !keep_loop_codes && !from_return && escape_message(passed) is Some {
                assert(loop_code_escaped(
                    crossed,
                    *self,
                    escape_message(passed)->0,
                    *frame,
                    opt_view(*call),
                ));
            }
        }
        c
    }
}

/// A call gives back the depth that it took, however its body completed.
pub proof fn ending_a_call_gives_its_depth_back(
    before: Interp,
    after: Interp,
    code: Code,
    c: Code,
    frame: ProcFrame,
    keep_loop_codes: bool,
    call: Option<Seq<u8>>,
)
    requires
        call_ended(before, after, code, c, frame, keep_loop_codes, call),
    ensures
        after.state.recursion_depth == before.state.recursion_depth,
        after.state.current_ns == before.state.current_ns,
        after.state.eval_depth == before.state.eval_depth,
        after.state.cmd_frames == before.state.cmd_frames,
{
}

/// A body that does not end with `return` leaves a pending `return` alone, and
/// its code passes unless it is a loop code that escapes.
pub proof fn only_return_is_settled(code: Code, level: usize, pending: Code)
    requires
        code != Code::Return,
    ensures
        settled(code, level, pending) == (code, level, pending),
{
}

/// A `return` crosses as many boundaries as its level says, and completes the
/// last of them with its code.
pub proof fn return_crosses_its_levels(level: usize, pending: Code)
    ensures
        level > 1 ==> settled(Code::Return, level, pending) == (
            Code::Return,
            (level - 1) as usize,
            pending,
        ),
        level <= 1 ==> settled(Code::Return, level, pending) == (pending, 0usize, Code::Okay),
{
}

/// An argument that a call supplies is what the parameter at its position is
/// bound to, whether or not the parameter has a default. A default is bound only
/// where the arguments do not reach. The bindings are in the order of the
/// parameters.
pub proof fn a_supplied_argument_is_bound(
    call: ProcCall,
    ps: Seq<ParamView>,
    args: Seq<Seq<u8>>,
    called: Seq<u8>,
    meta: CallMeta,
    saved_ns: NsId,
    i: int,
)
    requires
        call_begins(call, ps, args, called, meta, saved_ns),
        0 <= i < call.bindings@.len(),
    ensures
        call.bindings@[i].name@ == ps[i].name,
        i < args.len() ==> call.bindings@[i].value@ == args[i],
        i >= args.len() ==> ps[i].default == Some(call.bindings@[i].value@),
{
    assert(binds_param(call.bindings@, ps, args, i));
}

/// Which parameters a call binds. A last parameter named `args` is bound to the
/// list of the arguments that the parameters before it leave over, and no other
/// parameter takes more than one. A call that is not short binds every
/// parameter; one that is short stops at the first that no argument reaches and
/// that has no default.
pub proof fn every_parameter_is_bound(
    call: ProcCall,
    ps: Seq<ParamView>,
    args: Seq<Seq<u8>>,
    called: Seq<u8>,
    meta: CallMeta,
    saved_ns: NsId,
)
    requires
        call_begins(call, ps, args, called, meta, saved_ns),
        ps.len() > 0,
    ensures
        !call.short && ps.last().name == text("args") ==> {
            &&& call.bindings@.len() == ps.len() - 1
            &&& call.rest matches Some(r)
            &&& if args.len() >= ps.len() - 1 {
                args == args.take(ps.len() - 1) + views(r@)
            } else {
                views(r@) == Seq::<Seq<u8>>::empty()
            }
        },
        !call.short && ps.last().name != text("args") ==> call.bindings@.len() == ps.len()
            && call.rest is None,
        call.short ==> {
            &&& call.rest is None
            &&& call.bindings@.len() < ps.len()
            &&& args.len() <= call.bindings@.len()
            &&& ps[call.bindings@.len() as int].default is None
        },
        call.short <==> exists|i: int|
            {
                &&& args.len() <= i < ps.len()
                &&& (#[trigger] ps[i]).default is None
                &&& i + 1 < ps.len() || ps[i].name != text("args")
            },
{
    let n = args.len() as int;
    if !call.short && has_catch_all(ps) {
        let k = if n < ps.len() - 1 {
            n
        } else {
            ps.len() - 1
        };
        assert(args =~= args.take(k) + args.skip(k));
    }
    if call.short {
        let i = call.bindings@.len() as int;
        assert(unbound_at(ps, n, i));
        assert(ps[i].default is None);
    }
    if exists|i: int|
        {
            &&& args.len() <= i < ps.len()
            &&& (#[trigger] ps[i]).default is None
            &&& i + 1 < ps.len() || ps[i].name != text("args")
        } {
        let i = choose|i: int|
            {
                &&& args.len() <= i < ps.len()
                &&& (#[trigger] ps[i]).default is None
                &&& i + 1 < ps.len() || ps[i].name != text("args")
            };
        assert(unbound_at(ps, n, i));
        assert(0 <= i < positional(ps).len());
    }
}

/// The words that a call's frame shows are those it was written with, the name
/// first, unless others were given for it. The call comes back to the namespace
/// it was made from.
pub proof fn a_call_shows_its_words(
    call: ProcCall,
    ps: Seq<ParamView>,
    args: Seq<Seq<u8>>,
    called: Seq<u8>,
    meta: CallMeta,
    saved_ns: NsId,
)
    requires
        call_begins(call, ps, args, called, meta, saved_ns),
    ensures
        meta.level_words is None ==> {
            &&& views(call.words@).len() == args.len() + 1
            &&& views(call.words@)[0] == called
            &&& views(call.words@).skip(1) == args
        },
        meta.level_words matches Some(ws) ==> views(call.words@) == views(ws@),
        call.saved_ns == saved_ns,
{
    if meta.level_words is None {
        assert((seq![called] + args).skip(1) =~= args);
    }
}

/// When a call is refused for its number of arguments: when there are fewer than
/// parameters without a default, and when there are more than parameters. A
/// last parameter named `args` counts for neither: it takes any number.
pub proof fn when_the_number_of_arguments_is_wrong(ps: Seq<ParamView>, supplied: int)
    ensures
        ({
            let rest = ps.len() > 0 && ps.last().name == text("args");
            let named = if rest {
                ps.take(ps.len() - 1)
            } else {
                ps
            };
            wrong_arity(ps, supplied) <==> {
                ||| supplied < named.filter(|p: ParamView| p.default is None).len()
                ||| supplied > named.len() && !rest
            }
        }),
{
    required_are_counted(positional(ps));
    if ps.len() > 0 {
        assert(ps.take(ps.len() - 1) =~= ps.drop_last());
    }
}

/// Counting the parameters without a default.
proof fn required_are_counted(ps: Seq<ParamView>)
    ensures
        required(ps) == ps.filter(|p: ParamView| p.default is None).len(),
    decreases ps.len(),
{
    reveal(Seq::filter);
    if ps.len() > 0 {
        required_are_counted(ps.drop_last());
    }
}

/// With every parameter required, exactly as many arguments as parameters will
/// do; with none required, any number up to that; and with a last parameter
/// named `args`, any larger number too.
pub proof fn how_many_arguments_will_do(ps: Seq<ParamView>, supplied: int)
    requires
        0 <= supplied,
    ensures
        (forall|i: int| 0 <= i < ps.len() ==> (#[trigger] ps[i]).default is None && ps[i].name
            != text("args")) ==> (wrong_arity(ps, supplied) <==> supplied != ps.len()),
        (forall|i: int| 0 <= i < ps.len() ==> (#[trigger] ps[i]).default is Some && ps[i].name
            != text("args")) ==> (wrong_arity(ps, supplied) <==> supplied > ps.len()),
        (forall|i: int| 0 <= i < ps.len() - 1 ==> (#[trigger] ps[i]).default is None)
            && ps.len() > 0 && ps.last().name == text("args") ==> (wrong_arity(ps, supplied)
            <==> supplied < ps.len() - 1),
{
    required_counts(positional(ps));
}

/// What all and none required come to.
proof fn required_counts(ps: Seq<ParamView>)
    ensures
        (forall|i: int| 0 <= i < ps.len() ==> (#[trigger] ps[i]).default is None) ==> required(ps)
            == ps.len(),
        (forall|i: int| 0 <= i < ps.len() ==> (#[trigger] ps[i]).default is Some) ==> required(ps)
            == 0,
    decreases ps.len(),
{
    if ps.len() > 0 {
        required_counts(ps.drop_last());
        let q = ps.drop_last();
        assert(forall|i: int| 0 <= i < q.len() ==> #[trigger] q[i] == ps[i]);
        if forall|i: int| 0 <= i < ps.len() ==> (#[trigger] ps[i]).default is None {
            assert(ps.last().default is None);
        }
        if forall|i: int| 0 <= i < ps.len() ==> (#[trigger] ps[i]).default is Some {
            assert(ps.last().default is Some);
        }
    }
}

/// Whether `shown` are the words that a usage message has for the parameters
/// `ps`: the name of one that a call must supply, the name between question
/// marks of one that it need not, and `?arg ...?` for a last one named `args`.
pub open spec fn shows_parameters(ps: Seq<ParamView>, shown: Seq<Seq<u8>>) -> bool {
    &&& shown.len() == ps.len()
    &&& forall|i: int|
        0 <= i < ps.len() ==> #[trigger] shown[i] == if i == ps.len() - 1 && ps[i].name == text(
            "args",
        ) {
            text("?arg ...?")
        } else {
            match ps[i].default {
                None => ps[i].name,
                Some(_) => text("?") + ps[i].name + text("?"),
            }
        }
}

/// The message for a wrong number of arguments shows the name and, each behind a
/// space, the words for the parameters.
pub proof fn a_usage_message_shows_the_parameters(
    name: Seq<u8>,
    ps: Seq<ParamView>,
    supplied: int,
    shown: Seq<Seq<u8>>,
)
    requires
        shows_parameters(ps, shown),
    ensures
        wrong_args_message(None, name, ps, supplied) == text("wrong # args: should be \"") + name
            + prefixed_all(shown) + text("\""),
{
    shown_one_by_one(ps, shown, 0, ps.len() as int);
    assert(shown.skip(0).take(ps.len() as int) =~= shown);
}

/// The words for the parameters `from..to`.
proof fn shown_one_by_one(ps: Seq<ParamView>, shown: Seq<Seq<u8>>, from: int, to: int)
    requires
        shows_parameters(ps, shown),
        0 <= from <= to <= ps.len(),
    ensures
        params_text(ps, from, to) == prefixed_all(shown.skip(from).take(to - from)),
    decreases to - from,
{
    let ws = shown.skip(from).take(to - from);
    if from < to {
        shown_one_by_one(ps, shown, from, to - 1);
        assert(ws.drop_last() =~= shown.skip(from).take(to - 1 - from));
        assert(ws.last() == shown[to - 1]);
    }
}

/// The message for a call that an ensemble forwarded shows the words that the
/// author wrote, as far as the forward took them, and the parameters that the
/// author's own arguments are for: those that the forward filled are left out.
pub proof fn a_forwarded_usage_message_shows_what_was_written(
    rw: EnsembleRewrite,
    name: Seq<u8>,
    ps: Seq<ParamView>,
    supplied: int,
    shown: Seq<Seq<u8>>,
)
    requires
        shows_parameters(ps, shown),
        rw.removed <= rw.source@.len(),
        rw.source@.len() - rw.removed <= supplied <= rw.source@.len() - rw.removed + ps.len(),
    ensures
        wrong_args_message(Some(rw), name, ps, supplied) == text("wrong # args: should be \"")
            + spaced(views(rw.source@).take(rw.removed as int)) + prefixed_all(
            shown.skip(supplied - (rw.source@.len() - rw.removed)),
        ) + text("\""),
{
    let filled = supplied - (rw.source@.len() - rw.removed);
    shown_one_by_one(ps, shown, filled, ps.len() as int);
    assert(shown.skip(filled).take(ps.len() - filled) =~= shown.skip(filled));
}

/// The name that a usage message shows: the one that a method or another prefix
/// puts in its place, and else the one that was called.
pub proof fn a_usage_message_names_what_was_called(
    meta: CallMeta,
    called: Seq<u8>,
    element: Seq<u8>,
)
    ensures
        meta.quote_name ==> shown_name(meta, called, element) == element,
        !meta.quote_name && meta.usage_prefix is Some ==> shown_name(meta, called, element)
            == meta.usage_prefix->0@,
        !meta.quote_name && meta.usage_prefix is None ==> shown_name(meta, called, element)
            == called,
{
}

/// A body that ends normally, or with a code of its own, ends its call so, and
/// leaves the result and the error trace alone.
pub proof fn a_call_ends_as_its_body_did(
    before: Interp,
    after: Interp,
    code: Code,
    c: Code,
    frame: ProcFrame,
    keep_loop_codes: bool,
    call: Option<Seq<u8>>,
)
    requires
        call_ended(before, after, code, c, frame, keep_loop_codes, call),
        code is Okay || code is Other || (keep_loop_codes && (code is Break || code is Continue)),
    ensures
        c == code,
        after == before,
{
}

/// `return` ends the call that it leaves with the code it asks for: `return`
/// alone with success. Its value is the result of the call.
pub proof fn return_ends_the_call(
    before: Interp,
    after: Interp,
    c: Code,
    frame: ProcFrame,
    keep_loop_codes: bool,
    call: Option<Seq<u8>>,
)
    requires
        call_ended(before, after, Code::Return, c, frame, keep_loop_codes, call),
    ensures
        before.state.return_level <= 1 ==> c == before.state.return_code
            && after.state.return_level == 0 && after.state.return_code == Code::Okay,
        before.state.return_level > 1 ==> c == Code::Return && after.state.return_level
            == before.state.return_level - 1 && after.state.return_code
            == before.state.return_code,
        after.state.result@ == before.state.result@,
        trace_text(after.state) == trace_text(before.state),
{
}

/// A `break` or `continue` that leaves a body is an error that says so, unless
/// the body is part of its caller's loop.
pub proof fn a_loop_code_stays_in_its_body(
    before: Interp,
    after: Interp,
    code: Code,
    c: Code,
    frame: ProcFrame,
    call: Option<Seq<u8>>,
)
    requires
        call_ended(before, after, code, c, frame, false, call),
        code is Break || code is Continue,
    ensures
        c == Code::Error,
        code is Break ==> after.state.result@ == text("invoked \"break\" outside of a loop"),
        code is Continue ==> after.state.result@ == text(
            "invoked \"continue\" outside of a loop",
        ),
        trace_text(after.state) == after.state.result@ + (text("\n    (") + proc_frame_text(frame)
            + text(" line ") + decimal(before.state.error_line as int) + text(")")),
{
}

/// An error that leaves a body is still that error: its message and code stay,
/// and its trace is what it was with the body's frame and line behind it.
pub proof fn an_error_leaves_with_its_frame(
    before: Interp,
    after: Interp,
    c: Code,
    frame: ProcFrame,
    keep_loop_codes: bool,
    call: Option<Seq<u8>>,
)
    requires
        call_ended(before, after, Code::Error, c, frame, keep_loop_codes, call),
    ensures
        c == Code::Error,
        after.state.result@ == before.state.result@,
        after.state.exc@.code == before.state.exc@.code,
        trace_text(after.state) == trace_text(before.state) + (text("\n    (") + proc_frame_text(
            frame,
        ) + text(" line ") + decimal(before.state.error_line as int) + text(")")),
        call is Some && !before.state.reset_error_stack ==> views(
            after.state.error_stack@,
        ) == views(before.state.error_stack@) + seq![text("CALL"), call->0],
        call is None || before.state.reset_error_stack ==> views(after.state.error_stack@)
            == views(before.state.error_stack@),
{
}

/// Whether `r` is what becomes of the call of `ps` with `args` in the namespace
/// `ns`.
pub open spec fn call_decided(
    before: Interp,
    after: Interp,
    ps: Seq<ParamView>,
    ns: NsId,
    args: Seq<Seq<u8>>,
    called: Seq<u8>,
    element: Seq<u8>,
    meta: CallMeta,
    r: Result<ProcCall, Code>,
) -> bool {
    let n = args.len() as int;
    if wrong_arity(ps, n) {
        &&& r is Err && r->Err_0 == Code::Error
        &&& raised(
            before,
            after,
            wrong_args_message(
                before.state.ensemble_rewrite,
                shown_name(meta, called, element),
                ps,
                n,
            ),
        )
    } else if before.state.recursion_depth >= before.state.recursion_limit {
        &&& r is Err && r->Err_0 == Code::Error
        &&& raised(before, after, too_deep())
    } else {
        &&& r is Ok
        &&& call_begins(r->Ok_0, ps, args, called, meta, before.state.current_ns)
        &&& call_entered(before, after, ns)
    }
}

/// A call with a number of arguments that will do begins, in the namespace of
/// the procedure and one level deeper, unless calls nest too deep. Every
/// supplied argument is bound to the parameter at its position.
pub proof fn a_call_with_its_arguments_begins(
    before: Interp,
    after: Interp,
    ps: Seq<ParamView>,
    ns: NsId,
    args: Seq<Seq<u8>>,
    called: Seq<u8>,
    element: Seq<u8>,
    meta: CallMeta,
    r: Result<ProcCall, Code>,
)
    requires
        forall|i: int|
            0 <= i < ps.len() ==> (#[trigger] ps[i]).name != text("args") && ps[i].default is None,
        call_decided(before, after, ps, ns, args, called, element, meta, r),
    ensures
        r is Ok <==> args.len() == ps.len() && before.state.recursion_depth
            < before.state.recursion_limit,
        r is Ok ==> after.state.current_ns == ns && after.state.recursion_depth
            == before.state.recursion_depth + 1 && r->Ok_0.saved_ns == before.state.current_ns,
        r is Ok ==> !r->Ok_0.short && r->Ok_0.rest is None && r->Ok_0.bindings@.len()
            == args.len(),
        r is Ok ==> forall|i: int|
            0 <= i < args.len() ==> (#[trigger] r->Ok_0.bindings@[i]).name@ == ps[i].name
                && r->Ok_0.bindings@[i].value@ == args[i],
        r is Err ==> r->Err_0 == Code::Error,
        r is Err && args.len() == ps.len() ==> after.state.result@ == text(
            "too many nested evaluations (infinite loop?)",
        ),
        r is Err && args.len() != ps.len() ==> after.state.exc@.code == default_code(
            after.state.result@,
        ),
{
    how_many_arguments_will_do(ps, args.len() as int);
    if r is Ok {
        let c = r->Ok_0;
        if ps.len() > 0 {
            every_parameter_is_bound(c, ps, args, called, meta, before.state.current_ns);
        } else {
            assert(!has_catch_all(ps));
            assert(binds_all(ps, 0));
        }
        assert forall|i: int| 0 <= i < args.len() implies (
        #[trigger] c.bindings@[i]).name@ == ps[i].name && c.bindings@[i].value@ == args[i] by {
            a_supplied_argument_is_bound(
                c,
                ps,
                args,
                called,
                meta,
                before.state.current_ns,
                i,
            );
        }
    }
}

} // verus!
