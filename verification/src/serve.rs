//! Requests that an interpreter makes of a child: the child is entered, asked
//! and left again, and its answer becomes the result of the call.

use vstd::prelude::*;

use crate::bytes::{copied, copied_words, text, views};
use crate::child::{
    bgerror_answered, child_entered, child_left, child_views, children_valid, trusted,
};
use crate::code::Code;
use crate::commands::hidden_views;
use crate::definitions::registered;
use crate::errors::raised;
use crate::limits::{
    commands_limit_answered, deadline_in_range, debug_answered, flag, flag_text,
    recursion_limit_answered, time_limit_answered, LimitType, Reply,
};
use crate::number::{decimal, decimal_i64};
use crate::order::{ascending, precedes, precedes_irreflexive};
use crate::state::{Child, Interp, InterpState};

verus! {

/// What a child is asked.
pub enum ChildRequest {
    /// Nothing: the child is only looked at.
    Visit,
    Issafe,
    Hidden,
    /// `names` are the aliases that the child's namespaces hold.
    Aliases { names: Vec<Vec<u8>> },
    /// To take a command into its table.
    Register { name: Vec<u8> },
    Marktrusted,
    Recursionlimit(Option<Vec<u8>>),
    /// `length` is how many elements the prefix has as a list, none where it is
    /// no list.
    Bgerror { prefix: Option<Vec<u8>>, length: usize },
    /// `truth` is what the second word says as a boolean.
    Debug { opts: Vec<Vec<u8>>, truth: Result<bool, Vec<u8>> },
    /// `kind` is what the table of limit types answers.
    Limit { kind: Result<LimitType, Vec<u8>>, opts: Vec<Vec<u8>> },
}

/// What the child answers.
pub enum ChildReply {
    Flag(bool),
    Names(Vec<Vec<u8>>),
    Nothing,
    Number(i64),
    Value(Reply),
    Refused(Vec<u8>),
}

/// Whether the request can be made of `i`: its limits are well formed, the
/// options are all looked up, and no number is out of range.
pub open spec fn request_fits(i: Interp, q: ChildRequest) -> bool {
    match q {
        ChildRequest::Recursionlimit(_) => i.state.recursion_limit <= i64::MAX,
        ChildRequest::Limit { kind, opts } => {
            &&& i.state.limits@.valid()
            &&& match kind {
                Ok(LimitType::Commands(chosen)) => chosen@.len() == (opts@.len() + 1) / 2,
                Ok(LimitType::Time(chosen)) => chosen@.len() == (opts@.len() + 1) / 2
                    && deadline_in_range(i.state.limits@, opts@, chosen@),
                Err(_) => true,
            }
        },
        _ => true,
    }
}

/// Whether `a` is what an interpreter answers to `q` as it changes from `before`
/// to `after`.
pub open spec fn request_served(
    before: Interp,
    after: Interp,
    q: ChildRequest,
    a: ChildReply,
) -> bool {
    match q {
        ChildRequest::Visit => a is Nothing && after == before,
        ChildRequest::Aliases { names } => {
            &&& a matches ChildReply::Names(ns) && views(ns@) == views(names@)
            &&& after == before
        },
        ChildRequest::Register { name } => a is Nothing && registered(before, after, name@),
        ChildRequest::Issafe => a == ChildReply::Flag(before.state.is_safe) && after == before,
        ChildRequest::Hidden => {
            &&& a matches ChildReply::Names(ns) && views(ns@) == hidden_views(before.state.hidden@)
            &&& after == before
        },
        ChildRequest::Marktrusted => a is Nothing && trusted(before, after),
        ChildRequest::Recursionlimit(newlimit) => match a {
            ChildReply::Number(n) => recursion_limit_answered(before, after, newlimit, Ok(n)),
            ChildReply::Refused(m) => recursion_limit_answered(before, after, newlimit, Err(m)),
            _ => false,
        },
        ChildRequest::Bgerror { prefix, length } => match a {
            ChildReply::Value(Reply::Text(h)) => bgerror_answered(
                before,
                after,
                prefix,
                length,
                Ok(h),
            ),
            ChildReply::Refused(m) => bgerror_answered(before, after, prefix, length, Err(m)),
            _ => false,
        },
        ChildRequest::Debug { opts, truth } => match a {
            ChildReply::Value(v) => debug_answered(before, after, opts@, truth, Ok(v)),
            ChildReply::Refused(m) => debug_answered(before, after, opts@, truth, Err(m)),
            _ => false,
        },
        ChildRequest::Limit { kind, opts } => {
            let r: Result<Reply, Vec<u8>> = match a {
                ChildReply::Value(v) => Ok(v),
                ChildReply::Refused(m) => Err(m),
                _ => Err(arbitrary()),
            };
            &&& a is Value || a is Refused
            &&& match kind {
                Ok(LimitType::Commands(chosen)) => commands_limit_answered(
                    before,
                    after,
                    opts@,
                    chosen@,
                    r,
                ),
                Ok(LimitType::Time(chosen)) => time_limit_answered(
                    before,
                    after,
                    opts@,
                    chosen@,
                    r,
                ),
                Err(m) => after == before && (r matches Err(e) && e@ == m@),
            }
        },
    }
}

impl Interp {
    /// Answers a request.
    pub fn serve_request(&mut self, q: &ChildRequest) -> (a: ChildReply)
        requires
            request_fits(*old(self), *q),
        ensures
            request_served(*old(self), *final(self), *q, a),
    {
        match q {
            ChildRequest::Visit => ChildReply::Nothing,
            ChildRequest::Aliases { names } => ChildReply::Names(copied_words(names)),
            ChildRequest::Register { name } => {
                self.ns_register(name);
                ChildReply::Nothing
            },
            ChildRequest::Issafe => ChildReply::Flag(self.state.is_safe),
            ChildRequest::Hidden => ChildReply::Names(self.hidden_names()),
            ChildRequest::Marktrusted => {
                self.mark_trusted();
                ChildReply::Nothing
            },
            ChildRequest::Recursionlimit(newlimit) => match self.recursion_limit_apply(newlimit) {
                Ok(n) => ChildReply::Number(n),
                Err(m) => ChildReply::Refused(m),
            },
            ChildRequest::Bgerror { prefix, length } => match self.bgerror_apply(prefix, *length) {
                Ok(h) => ChildReply::Value(Reply::Text(h)),
                Err(m) => ChildReply::Refused(m),
            },
            ChildRequest::Debug { opts, truth } => match self.debug_apply(opts, truth) {
                Ok(v) => ChildReply::Value(v),
                Err(m) => ChildReply::Refused(m),
            },
            ChildRequest::Limit { kind, opts } => match self.limit_apply(kind, opts) {
                Ok(v) => ChildReply::Value(v),
                Err(m) => ChildReply::Refused(m),
            },
        }
    }
}

/// The first child `name`.
pub open spec fn child_named(cs: Seq<Child>, name: Seq<u8>) -> Option<Interp>
    decreases cs.len(),
{
    if cs.len() == 0 {
        None
    } else if cs[0].name@ == name {
        Some(cs[0].interp)
    } else {
        child_named(cs.skip(1), name)
    }
}

/// The interpreter that a path of child names leads to from `i`: itself, where
/// the path is empty.
pub open spec fn interp_at(i: Interp, path: Seq<Seq<u8>>) -> Option<Interp>
    decreases path.len(),
{
    if path.len() == 0 {
        Some(i)
    } else {
        match child_named(i.children@, path[0]) {
            Some(c) => interp_at(c, path.skip(1)),
            None => None,
        }
    }
}

/// A path leads where its parts lead one after the other.
pub proof fn paths_compose(i: Interp, a: Seq<Seq<u8>>, b: Seq<Seq<u8>>)
    ensures
        interp_at(i, a + b) == match interp_at(i, a) {
            Some(c) => interp_at(c, b),
            None => None,
        },
    decreases a.len(),
{
    if a.len() == 0 {
        assert(a + b =~= b);
    } else {
        assert((a + b)[0] == a[0]);
        assert((a + b).skip(1) =~= a.skip(1) + b);
        if let Some(c) = child_named(i.children@, a[0]) {
            paths_compose(c, a.skip(1), b);
        }
    }
}

/// Only the child at `i` of `before` may differ in `after`.
pub open spec fn others_kept(before: Interp, after: Interp, i: int) -> bool {
    &&& after.state == before.state
    &&& after.children@.len() == before.children@.len()
    &&& after.children@[i].name == before.children@[i].name
    &&& forall|k: int|
        0 <= k < before.children@.len() && k != i ==> #[trigger] after.children@[k]
            == before.children@[k]
}

/// Whether the interpreters on a path can be entered and the last one asked.
pub open spec fn path_fits(i: Interp, path: Seq<Seq<u8>>, q: ChildRequest) -> bool
    decreases path.len(),
{
    if path.len() == 0 {
        request_fits(i, q)
    } else {
        &&& children_valid(i)
        &&& forall|k: int|
            0 <= k < i.children@.len() && (#[trigger] i.children@[k]).name@ == path[0] ==> {
                &&& i.children@[k].interp.state.eval_active < usize::MAX
                &&& path_fits(i.children@[k].interp, path.skip(1), q)
            }
    }
}

/// Whether `a` is what the interpreter at the end of a path answers. Each child
/// on the way is entered, and left again in turn. `None` is a path that leads
/// nowhere.
pub open spec fn path_served(
    before: Interp,
    after: Interp,
    path: Seq<Seq<u8>>,
    q: ChildRequest,
    a: Option<ChildReply>,
) -> bool
    decreases path.len(),
{
    if path.len() == 0 {
        a is Some && request_served(before, after, q, a->0)
    } else if child_views(before.children@).contains(path[0]) {
        exists|i: int, inside: Interp, asked: Interp|
            {
                &&& 0 <= i < before.children@.len()
                &&& before.children@[i].name@ == path[0]
                &&& others_kept(before, after, i)
                &&& #[trigger] child_entered(before.children@[i].interp, inside)
                &&& path_served(inside, asked, path.skip(1), q, a)
                &&& #[trigger] child_left(asked, after.children@[i].interp)
            }
    } else {
        a is None && after == before
    }
}

/// Serving a request neither begins nor ends an evaluation of the interpreter
/// that is asked, nor deletes it.
proof fn serving_keeps_the_lifetime(
    before: Interp,
    after: Interp,
    path: Seq<Seq<u8>>,
    q: ChildRequest,
    a: Option<ChildReply>,
)
    requires
        path_served(before, after, path, q, a),
    ensures
        after.state.eval_active == before.state.eval_active,
        after.state.pending_delete == before.state.pending_delete,
{
}

proof fn entering_fits(before: Interp, inside: Interp, path: Seq<Seq<u8>>, q: ChildRequest)
    requires
        path_fits(before, path, q),
        child_entered(before, inside),
    ensures
        path_fits(inside, path, q),
{
}

/// A child is found by its name where the name is listed.
proof fn named_where_listed(cs: Seq<Child>, name: Seq<u8>)
    ensures
        child_named(cs, name) is Some == child_views(cs).contains(name),
    decreases cs.len(),
{
    let names = child_views(cs);
    if cs.len() > 0 {
        assert(names[0] == cs[0].name@);
        named_where_listed(cs.skip(1), name);
        let rest = child_views(cs.skip(1));
        if rest.contains(name) {
            let k = choose|k: int| 0 <= k < rest.len() && rest[k] == name;
            assert(names[k + 1] == name);
        }
        if names.contains(name) && names[0] != name {
            let k = choose|k: int| 0 <= k < names.len() && names[k] == name;
            assert(rest[k - 1] == name);
        }
    }
}

/// The child of a name is the one that stands under it.
proof fn named_is_the_one(cs: Seq<Child>, name: Seq<u8>, i: int)
    requires
        ascending(child_views(cs)),
        0 <= i < cs.len(),
        cs[i].name@ == name,
    ensures
        child_named(cs, name) == Some(cs[i].interp),
    decreases cs.len(),
{
    let names = child_views(cs);
    assert(names[0] == cs[0].name@ && names[i] == name);
    if i > 0 {
        assert(precedes(names[0], names[i]));
        precedes_irreflexive(name);
        let rest = child_views(cs.skip(1));
        assert forall|x: int, y: int| 0 <= x < y < rest.len() implies precedes(
            #[trigger] rest[x],
            #[trigger] rest[y],
        ) by {
            assert(rest[x] == names[x + 1] && rest[y] == names[y + 1]);
        }
        named_is_the_one(cs.skip(1), name, i - 1);
    }
}

/// A request along a path is answered exactly where the path leads to an
/// interpreter.
pub proof fn a_path_answers_where_it_leads(
    before: Interp,
    after: Interp,
    path: Seq<Seq<u8>>,
    q: ChildRequest,
    a: Option<ChildReply>,
)
    requires
        path_fits(before, path, q),
        path_served(before, after, path, q, a),
    ensures
        a is Some == interp_at(before, path) is Some,
    decreases path.len(),
{
    if path.len() > 0 {
        named_where_listed(before.children@, path[0]);
        if child_views(before.children@).contains(path[0]) {
            let (i, inside, asked) = choose|i: int, inside: Interp, asked: Interp|
                {
                    &&& 0 <= i < before.children@.len()
                    &&& before.children@[i].name@ == path[0]
                    &&& others_kept(before, after, i)
                    &&& #[trigger] child_entered(before.children@[i].interp, inside)
                    &&& path_served(inside, asked, path.skip(1), q, a)
                    &&& #[trigger] child_left(asked, after.children@[i].interp)
                };
            let c = before.children@[i].interp;
            named_is_the_one(before.children@, path[0], i);
            entering_fits(c, inside, path.skip(1), q);
            a_path_answers_where_it_leads(inside, asked, path.skip(1), q, a);
            assert(inside.children == c.children);
            assert(interp_at(inside, path.skip(1)) is Some == interp_at(c, path.skip(1)) is Some);
        }
    }
}

/// A request of a child keeps the children in order, and none that waits for its
/// deletion is left without a running evaluation.
pub proof fn serving_keeps_the_children(
    before: Interp,
    after: Interp,
    path: Seq<Seq<u8>>,
    q: ChildRequest,
    a: Option<ChildReply>,
)
    requires
        path.len() > 0,
        children_valid(before),
        path_served(before, after, path, q, a),
    ensures
        children_valid(after),
        child_views(after.children@) == child_views(before.children@),
{
    if child_views(before.children@).contains(path[0]) {
        let (i, inside, asked) = choose|i: int, inside: Interp, asked: Interp|
            {
                &&& 0 <= i < before.children@.len()
                &&& before.children@[i].name@ == path[0]
                &&& others_kept(before, after, i)
                &&& #[trigger] child_entered(before.children@[i].interp, inside)
                &&& path_served(inside, asked, path.skip(1), q, a)
                &&& #[trigger] child_left(asked, after.children@[i].interp)
            };
        serving_keeps_the_lifetime(inside, asked, path.skip(1), q, a);
        assert(child_views(after.children@) =~= child_views(before.children@));
        assert forall|k: int|
            0 <= k < after.children@.len() && (
            #[trigger] after.children@[k]).interp.state.pending_delete implies after.children@[k].interp.state.eval_active
            > 0 by {
            assert(before.children@[k].interp.state.pending_delete);
        }
    }
}

impl Interp {
    /// Makes a request of the interpreter that the names of a path from `at` on
    /// lead to.
    fn serve_path(&mut self, path: &[Vec<u8>], at: usize, q: &ChildRequest) -> (a: Option<
        ChildReply,
    >)
        requires
            at <= path@.len(),
            path_fits(*old(self), views(path@).skip(at as int), *q),
        ensures
            path_served(*old(self), *final(self), views(path@).skip(at as int), *q, a),
        decreases path@.len() - at,
    {
        let ghost rest = views(path@).skip(at as int);
        if at == path.len() {
            return Some(self.serve_request(q));
        }
        assert(rest[0] == path@[at as int]@);
        assert(rest.skip(1) =~= views(path@).skip(at + 1));
        let i: usize = match self.find_child(&path[at]) {
            None => return None,
            Some(i) => i,
        };
        assert(child_views(self.children@)[i as int] == rest[0]);
        self.enter_child(i);
        let ghost inside = self.children@[i as int].interp;
        proof {
            entering_fits(old(self).children@[i as int].interp, inside, rest.skip(1), *q);
        }
        let child: &mut Child = &mut self.children[i];
        let a = child.interp.serve_path(path, at + 1, q);
        let ghost asked = self.children@[i as int].interp;
        proof {
            serving_keeps_the_lifetime(inside, asked, rest.skip(1), *q, a);
        }
        self.leave_child(i);
        proof {
            assert(others_kept(*old(self), *self, i as int));
            assert(child_entered(old(self).children@[i as int].interp, inside));
            assert(child_left(asked, self.children@[i as int].interp));
        }
        a
    }

    /// Makes a request of the interpreter that a path of child names leads to,
    /// which is this one where the path is empty. `None` where a name on the
    /// path is not a child of the one before it.
    pub fn with_child_path(&mut self, path: &[Vec<u8>], q: &ChildRequest) -> (a: Option<ChildReply>)
        requires
            path_fits(*old(self), views(path@), *q),
        ensures
            path_served(*old(self), *final(self), views(path@), *q, a),
            a is Some == interp_at(*old(self), views(path@)) is Some,
            path@.len() > 0 ==> children_valid(*final(self)),
    {
        assert(views(path@).skip(0) =~= views(path@));
        let a = self.serve_path(path, 0, q);
        proof {
            a_path_answers_where_it_leads(*old(self), *self, views(path@), *q, a);
            if path@.len() > 0 {
                serving_keeps_the_children(*old(self), *self, views(path@), *q, a);
            }
        }
        a
    }

    /// Makes a request of the child `name`; `None` where there is none.
    pub fn with_child(&mut self, name: &[u8], q: &ChildRequest) -> (a: Option<ChildReply>)
        requires
            path_fits(*old(self), seq![name@], *q),
        ensures
            path_served(*old(self), *final(self), seq![name@], *q, a),
            a is Some == child_views(old(self).children@).contains(name@),
            children_valid(*final(self)),
    {
        let mut path: Vec<Vec<u8>> = Vec::new();
        path.push(copied(name));
        assert(views(path@) =~= seq![name@]);
        let a = self.with_child_path(&path, q);
        proof {
            reveal_with_fuel(interp_at, 2);
            named_where_listed(old(self).children@, name@);
        }
        a
    }

    /// Makes the answer to a request of a child the result of the call. Names and
    /// lists come back, to be made the result.
    pub fn answer_child_call(&mut self, q: &ChildRequest, a: Option<ChildReply>) -> (r: (
        Code,
        Option<Vec<Vec<u8>>>,
    ))
        ensures
            call_answered(*old(self), *final(self), child_answer(*q, a), r),
    {
        match a {
            Some(ChildReply::Flag(b)) => {
                self.set_result(flag(b));
                (Code::Okay, None)
            },
            Some(ChildReply::Names(ns)) => (Code::Okay, Some(ns)),
            Some(ChildReply::Nothing) => {
                self.set_result(Vec::new());
                assert(self.state.result@ =~= Seq::empty());
                (Code::Okay, None)
            },
            Some(ChildReply::Number(n)) => {
                self.set_result(decimal_i64(n));
                (Code::Okay, None)
            },
            Some(ChildReply::Value(Reply::Text(t))) => {
                self.set_result(t);
                (Code::Okay, None)
            },
            Some(ChildReply::Value(Reply::List(l))) => (Code::Okay, Some(l)),
            Some(ChildReply::Refused(m)) => (self.error(&m), None),
            None => match q {
                ChildRequest::Issafe => {
                    self.set_result(flag(false));
                    (Code::Okay, None)
                },
                ChildRequest::Hidden | ChildRequest::Aliases { .. } => {
                    let none: Vec<Vec<u8>> = Vec::new();
                    assert(views(none@) =~= Seq::empty());
                    (Code::Okay, Some(none))
                },
                ChildRequest::Visit | ChildRequest::Marktrusted | ChildRequest::Register {
                    ..
                } => {
                    self.set_result(Vec::new());
                    assert(self.state.result@ =~= Seq::empty());
                    (Code::Okay, None)
                },
                _ => (self.error("could not find interpreter".as_bytes()), None),
            },
        }
    }
}

/// What the call of a child's command ends with.
pub enum CallAnswer {
    Text(Seq<u8>),
    List(Seq<Seq<u8>>),
    Refused(Seq<u8>),
}

/// What a call that made a request of a child ends with: `a` is the child's
/// answer, `None` where the child is not there.
pub open spec fn child_answer(q: ChildRequest, a: Option<ChildReply>) -> CallAnswer {
    match a {
        Some(ChildReply::Flag(b)) => CallAnswer::Text(flag_text(b)),
        Some(ChildReply::Names(ns)) => CallAnswer::List(views(ns@)),
        Some(ChildReply::Nothing) => CallAnswer::Text(Seq::empty()),
        Some(ChildReply::Number(n)) => CallAnswer::Text(decimal(n as int)),
        Some(ChildReply::Value(Reply::Text(t))) => CallAnswer::Text(t@),
        Some(ChildReply::Value(Reply::List(l))) => CallAnswer::List(views(l@)),
        Some(ChildReply::Refused(m)) => CallAnswer::Refused(m@),
        None => match q {
            ChildRequest::Issafe => CallAnswer::Text(flag_text(false)),
            ChildRequest::Hidden | ChildRequest::Aliases { .. } => CallAnswer::List(Seq::empty()),
            ChildRequest::Visit
            | ChildRequest::Marktrusted
            | ChildRequest::Register { .. } => CallAnswer::Text(Seq::empty()),
            _ => CallAnswer::Refused(text("could not find interpreter")),
        },
    }
}

/// A child that was marked trusted answers from then on that it is not safe; one
/// that was not answers as it was.
pub proof fn a_trusted_child_answers_that_it_is_not_safe(
    before: Interp,
    between: Interp,
    after: Interp,
    done: ChildReply,
    a: ChildReply,
)
    requires
        request_served(before, between, ChildRequest::Marktrusted, done),
        request_served(between, after, ChildRequest::Issafe, a),
    ensures
        a == ChildReply::Flag(false),
        child_answer(ChildRequest::Issafe, Some(a)) == CallAnswer::Text(text("0")),
{
}

/// The handler for background errors that was set is the one answered from then
/// on. An empty list is refused, and the handler stays.
pub proof fn a_background_handler_answers_what_was_set(
    before: Interp,
    between: Interp,
    after: Interp,
    prefix: Vec<u8>,
    length: usize,
    unused: usize,
    done: ChildReply,
    a: ChildReply,
)
    requires
        request_served(
            before,
            between,
            ChildRequest::Bgerror { prefix: Some(prefix), length },
            done,
        ),
        request_served(
            between,
            after,
            ChildRequest::Bgerror { prefix: None, length: unused },
            a,
        ),
    ensures
        length >= 1 ==> child_answer(
            ChildRequest::Bgerror { prefix: None, length: unused },
            Some(a),
        ) == CallAnswer::Text(prefix@),
        length < 1 ==> done is Refused && child_answer(
            ChildRequest::Bgerror { prefix: None, length: unused },
            Some(a),
        ) == CallAnswer::Text(before.state.bgerror@),
        after == between,
{
}

/// The hidden commands and the aliases of a child are answered as lists of their
/// names, a number by its decimal spelling, and a refusal by its message.
pub proof fn an_answer_is_what_the_child_said(
    q: ChildRequest,
    ns: Vec<Vec<u8>>,
    n: i64,
    t: Vec<u8>,
)
    ensures
        child_answer(q, Some(ChildReply::Names(ns))) == CallAnswer::List(views(ns@)),
        child_answer(q, Some(ChildReply::Number(n))) == CallAnswer::Text(decimal(n as int)),
        child_answer(q, Some(ChildReply::Flag(true))) == CallAnswer::Text(text("1")),
        child_answer(q, Some(ChildReply::Flag(false))) == CallAnswer::Text(text("0")),
        child_answer(q, Some(ChildReply::Refused(t))) == CallAnswer::Refused(t@),
        child_answer(q, Some(ChildReply::Value(Reply::Text(t)))) == CallAnswer::Text(t@),
        child_answer(q, Some(ChildReply::Value(Reply::List(ns)))) == CallAnswer::List(
            views(ns@),
        ),
        child_answer(q, Some(ChildReply::Nothing)) == CallAnswer::Text(Seq::empty()),
{
}

/// A name leads to the child that has it, and to none where no child has it.
pub proof fn a_child_is_found_by_its_name(cs: Seq<Child>, name: Seq<u8>)
    ensures
        match child_named(cs, name) {
            Some(c) => exists|i: int|
                0 <= i < cs.len() && (#[trigger] cs[i]).name@ == name && cs[i].interp == c,
            None => forall|i: int| 0 <= i < cs.len() ==> (#[trigger] cs[i]).name@ != name,
        },
    decreases cs.len(),
{
    if cs.len() > 0 {
        if cs[0].name@ == name {
            assert(cs[0].interp == child_named(cs, name)->0);
        } else {
            let rest = cs.skip(1);
            a_child_is_found_by_its_name(rest, name);
            match child_named(rest, name) {
                Some(c) => {
                    let i = choose|i: int|
                        0 <= i < rest.len() && (#[trigger] rest[i]).name@ == name
                            && rest[i].interp == c;
                    assert(cs[i + 1] == rest[i]);
                },
                None => {
                    assert forall|i: int| 0 <= i < cs.len() implies (#[trigger] cs[i]).name@
                        != name by {
                        if i > 0 {
                            assert(rest[i - 1] == cs[i]);
                        }
                    }
                },
            }
        }
    }
}

/// A path leads through the children one by one: the empty path to the
/// interpreter itself, and a path of one name to the child of that name.
pub proof fn a_path_leads_through_the_children(i: Interp, name: Seq<u8>)
    ensures
        interp_at(i, Seq::empty()) == Some(i),
        interp_at(i, seq![name]) == child_named(i.children@, name),
{
    reveal_with_fuel(interp_at, 2);
    assert(seq![name].skip(1) =~= Seq::<Seq<u8>>::empty());
}

/// A call ends with `answer`: `r` is its code, and the list that its result is
/// to be made of where it is one.
pub open spec fn call_answered(
    before: Interp,
    after: Interp,
    answer: CallAnswer,
    r: (Code, Option<Vec<Vec<u8>>>),
) -> bool {
    match answer {
        CallAnswer::Text(t) => {
            &&& r == (Code::Okay, None::<Vec<Vec<u8>>>)
            &&& after.state.result@ == t
            &&& after == (Interp {
                state: InterpState { result: after.state.result, ..before.state },
                ..before
            })
        },
        CallAnswer::List(ws) => {
            &&& r.0 == Code::Okay
            &&& r.1 matches Some(l) && views(l@) == ws
            &&& after == before
        },
        CallAnswer::Refused(m) => {
            &&& r == (Code::Error, None::<Vec<Vec<u8>>>)
            &&& raised(before, after, m)
        },
    }
}

/// A call that a child answered succeeds with the answer, and one that it
/// refused is an error with the child's message.
pub proof fn a_refusal_is_an_error(
    before: Interp,
    after: Interp,
    answer: CallAnswer,
    r: (Code, Option<Vec<Vec<u8>>>),
)
    requires
        call_answered(before, after, answer, r),
    ensures
        r.0 == Code::Error <==> answer is Refused,
        r.0 == Code::Error || r.0 == Code::Okay,
        answer matches CallAnswer::Text(t) ==> after.state.result@ == t && r.1 is None,
        answer matches CallAnswer::List(ws) ==> r.1 is Some && views((r.1->0)@) == ws,
        answer matches CallAnswer::Refused(m) ==> after.state.result@ == m,
{
}

/// What a call says of a child that is not there: it is not safe, has no hidden
/// commands and no aliases, and cannot be configured.
pub proof fn a_missing_child_cannot_be_configured(q: ChildRequest)
    ensures
        q is Issafe ==> child_answer(q, None) == CallAnswer::Text(text("0")),
        q is Hidden || q is Aliases ==> child_answer(q, None) == CallAnswer::List(Seq::empty()),
        q is Recursionlimit || q is Bgerror || q is Debug || q is Limit ==> child_answer(q, None)
            == CallAnswer::Refused(text("could not find interpreter")),
        q is Marktrusted || q is Visit || q is Register ==> child_answer(q, None)
            == CallAnswer::Text(Seq::empty()),
{
}

/// The answers that change nothing: whether a child is safe, and what names it
/// has hidden or aliased.
pub proof fn asking_changes_nothing(before: Interp, after: Interp, q: ChildRequest, a: ChildReply)
    requires
        request_served(before, after, q, a),
        q is Issafe || q is Hidden || q is Aliases || q is Visit,
    ensures
        after == before,
        q is Issafe ==> a == ChildReply::Flag(before.state.is_safe),
        q is Hidden ==> a is Names && a->Names_0@.len() == before.state.hidden@.len()
            && forall|i: int|
            0 <= i < before.state.hidden@.len() ==> (#[trigger] a->Names_0@[i])@
                == before.state.hidden@[i].name@,
        q matches ChildRequest::Aliases { names } ==> a is Names && views(a->Names_0@) == views(
            names@,
        ),
{
    if q is Hidden {
        let ns = a->Names_0;
        let hs = hidden_views(before.state.hidden@);
        assert(views(ns@).len() == ns@.len());
        assert(hs.len() == before.state.hidden@.len());
        assert forall|i: int| 0 <= i < before.state.hidden@.len() implies (#[trigger] ns@[i])@
            == before.state.hidden@[i].name@ by {
            assert(views(ns@)[i] == hs[i]);
        }
    }
}

} // verus!
