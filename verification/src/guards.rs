//! Which commands carry an attested identity, and what a speculative guard over
//! one may rest on. Tokens are issued and checked by the guard manager; what it
//! is handed is decided here.

use vstd::prelude::*;

use crate::bytes::{copied, same};
use crate::child::{environment_changed, environment_domains};
use crate::code::Code;
use crate::imports::holds_token;
use crate::number::{decimal, decimal_u64};
use crate::state::{GuardDomain, GuardedCommand, Interp, InterpState};

verus! {

/// Why a guard was not asked for.
#[derive(Debug, Clone, Copy, PartialEq, Eq, Structural)]
pub enum GuardRefusal {
    /// A trace exists in a domain that the guard assumes to have none.
    PrerequisiteUnsatisfied,
}

/// A computation that compiled code may ask for directly.
#[derive(Debug, Clone, Copy, PartialEq, Eq, Structural)]
pub enum Intrinsic {
    StringLength,
    /// One without a direct form.
    Another,
}

/// Whether numbers ascend, none twice.
pub open spec fn rising(ids: Seq<u64>) -> bool {
    forall|i: int, j: int| 0 <= i < j < ids.len() ==> ids[i] < ids[j]
}

/// The identities attested of `fqn`.
pub open spec fn attested(gs: Seq<GuardedCommand>, fqn: Seq<u8>) -> Option<Seq<u64>>
    decreases gs.len(),
{
    if gs.len() == 0 {
        None
    } else if gs.last().fqn@ == fqn {
        Some(gs.last().identities@)
    } else {
        attested(gs.drop_last(), fqn)
    }
}

/// Whether every attested name has its identities in order, one at least.
pub open spec fn guards_valid(gs: Seq<GuardedCommand>) -> bool {
    forall|i: int|
        0 <= i < gs.len() ==> rising((#[trigger] gs[i]).identities@) && gs[i].identities@.len() > 0
}

/// The identities attested of a name that may not resolve.
pub open spec fn attested_of(gs: Seq<GuardedCommand>, fqn: Option<Vec<u8>>) -> Option<Seq<u64>> {
    match fqn {
        Some(f) => attested(gs, f@),
        None => None,
    }
}

/// The identity that a guard for `expected` observes: `expected` itself where it
/// is attested, else the first one that is.
pub open spec fn observed(ids: Option<Seq<u64>>, expected: u64) -> Option<u64> {
    match ids {
        Some(s) => if s.contains(expected) {
            Some(expected)
        } else {
            Some(s[0])
        },
        None => None,
    }
}

/// Whether some number is in both.
pub open spec fn share_one(a: Seq<u64>, b: Seq<u64>) -> bool {
    exists|k: int| 0 <= k < a.len() && b.contains(#[trigger] a[k])
}

/// The command table changed, and after that `ids` are attested of `fqn` alone.
pub open spec fn registered(
    before: Interp,
    after: Interp,
    fqn: Option<Vec<u8>>,
    ids: Seq<u64>,
) -> bool {
    let gs = after.state.guarded_commands@;
    &&& fqn is Some && ids.len() > 0 ==> gs.len() == 1 && gs[0].fqn@ == fqn->0@
        && gs[0].identities@ == ids
    &&& fqn is None || ids.len() == 0 ==> gs.len() == 0
    &&& after.state.invalidations@ == before.state.invalidations@ + environment_domains()
    &&& after == (Interp {
        state: InterpState {
            guarded_commands: after.state.guarded_commands,
            invalidations: after.state.invalidations,
            ..before.state
        },
        ..before
    })
}

/// The place where `x` goes into `ids`.
fn place_in(ids: &[u64], x: u64) -> (at: usize)
    requires
        rising(ids@),
    ensures
        at <= ids@.len(),
        forall|j: int| 0 <= j < at ==> ids@[j] < x,
        forall|j: int| at <= j < ids@.len() ==> ids@[j] >= x,
{
    let mut i: usize = 0;
    while i < ids.len()
        invariant
            i <= ids@.len(),
            rising(ids@),
            forall|j: int| 0 <= j < i ==> ids@[j] < x,
        decreases ids@.len() - i,
    {
        if ids[i] >= x {
            return i;
        }
        i = i + 1;
    }
    i
}

/// Adds `x` to `ids`, in its place and once.
fn add_identity(ids: &mut Vec<u64>, x: u64)
    requires
        rising(old(ids)@),
    ensures
        rising(final(ids)@),
        forall|y: u64| #[trigger] final(ids)@.contains(y) <==> old(ids)@.contains(y) || y == x,
        final(ids)@.len() > 0,
{
    let at = place_in(ids, x);
    if at < ids.len() && ids[at] == x {
        assert(ids@[at as int] == x);
        return;
    }
    let ghost before = ids@;
    ids.insert(at, x);
    proof {
        assert forall|y: u64| #[trigger] ids@.contains(y) <==> before.contains(y) || y == x by {
            if before.contains(y) {
                let k = choose|k: int| 0 <= k < before.len() && before[k] == y;
                if k < at {
                    assert(ids@[k] == y);
                } else {
                    assert(ids@[k + 1] == y);
                }
            }
            assert(ids@[at as int] == x);
            if ids@.contains(y) && y != x {
                let k = choose|k: int| 0 <= k < ids@.len() && ids@[k] == y;
                if k < at {
                    assert(before[k] == y);
                } else {
                    assert(before[k - 1] == y);
                }
            }
        }
    }
}

/// The numbers of `all` in order, each once.
fn in_order(all: &[u64]) -> (r: Vec<u64>)
    ensures
        rising(r@),
        forall|y: u64| #[trigger] r@.contains(y) <==> all@.contains(y),
        r@.len() == 0 <==> all@.len() == 0,
{
    let mut out: Vec<u64> = Vec::new();
    let mut i: usize = 0;
    while i < all.len()
        invariant
            i <= all@.len(),
            rising(out@),
            forall|y: u64| #[trigger] out@.contains(y) <==> all@.take(i as int).contains(y),
            out@.len() == 0 <==> i == 0,
        decreases all@.len() - i,
    {
        let ghost before = all@.take(i as int);
        add_identity(&mut out, all[i]);
        proof {
            assert(all@.take(i + 1) =~= before.push(all@[i as int]));
            assert forall|y: u64| #[trigger] out@.contains(y) <==> all@.take(i + 1).contains(
                y,
            ) by {
                let now = all@.take(i + 1);
                if before.contains(y) {
                    let k = choose|k: int| 0 <= k < before.len() && before[k] == y;
                    assert(now[k] == y);
                }
                assert(now[i as int] == all@[i as int]);
                if now.contains(y) && y != all@[i as int] {
                    let k = choose|k: int| 0 <= k < now.len() && now[k] == y;
                    assert(before[k] == y);
                }
            }
        }
        i = i + 1;
    }
    assert(all@.take(i as int) =~= all@);
    out
}

impl Interp {
    /// The identities attested of `fqn`.
    fn identities_of(&self, fqn: &[u8]) -> (r: Option<&Vec<u64>>)
        ensures
            match r {
                Some(ids) => attested(self.state.guarded_commands@, fqn@) == Some(ids@),
                None => attested(self.state.guarded_commands@, fqn@) is None,
            },
            guards_valid(self.state.guarded_commands@) && r is Some ==> r->0@.len() > 0,
    {
        let gs = &self.state.guarded_commands;
        let mut i: usize = gs.len();
        assert(gs@.take(i as int) =~= gs@);
        while i > 0
            invariant
                i <= gs@.len(),
                gs@ == self.state.guarded_commands@,
                attested(gs@, fqn@) == attested(gs@.take(i as int), fqn@),
            decreases i,
        {
            assert(gs@.take(i as int).drop_last() =~= gs@.take(i - 1));
            assert(gs@.take(i as int).last() == gs@[i - 1]);
            i = i - 1;
            if same(&gs[i].fqn, fqn) {
                return Some(&gs[i].identities);
            }
        }
        None
    }

    /// Notes that a built-in command was registered. What was attested of any
    /// command no longer is.
    pub fn register_builtin(&mut self)
        ensures
            environment_changed(*old(self), *final(self)),
    {
        self.invalidate_command_environment();
    }

    /// Notes that a built-in command with a known meaning was registered, under
    /// the name `fqn` if it resolves to one.
    pub fn register_guarded_builtin(&mut self, fqn: &Option<Vec<u8>>, identity: u64)
        ensures
            registered(*old(self), *final(self), *fqn, seq![identity]),
            guards_valid(final(self).state.guarded_commands@),
    {
        self.register_builtin();
        if let Some(f) = fqn {
            let mut ids: Vec<u64> = Vec::new();
            ids.push(identity);
            assert(ids@ =~= seq![identity]);
            self.state.guarded_commands.push(GuardedCommand { fqn: copied(f), identities: ids });
        }
    }

    /// Notes that a built-in command was registered that has all the
    /// `identities`, under the name `fqn` if it resolves to one.
    pub fn register_spec_builtin(&mut self, fqn: &Option<Vec<u8>>, identities: &[u64])
        ensures
            guards_valid(final(self).state.guarded_commands@),
            registered(
                *old(self),
                *final(self),
                *fqn,
                match attested_of(final(self).state.guarded_commands@, *fqn) {
                    Some(ids) => ids,
                    None => Seq::empty(),
                },
            ),
            match attested_of(final(self).state.guarded_commands@, *fqn) {
                Some(ids) => {
                    &&& identities@.len() > 0
                    &&& rising(ids)
                    &&& forall|y: u64| #[trigger] ids.contains(y) <==> identities@.contains(y)
                },
                None => *fqn is None || identities@.len() == 0,
            },
    {
        self.register_builtin();
        if let Some(f) = fqn {
            let ids = in_order(identities);
            if ids.len() > 0 {
                self.state.guarded_commands.push(
                    GuardedCommand { fqn: copied(f), identities: ids },
                );
            }
        }
    }

    /// What a guard on the command `fqn` observes: the identity to hand to the
    /// guard manager beside `expected`. A guard that assumes the absence of
    /// traces is refused where there are any.
    pub fn prepare_command_guard(
        &self,
        fqn: &Option<Vec<u8>>,
        expected: u64,
        domains: &[GuardDomain],
    ) -> (r: Result<Option<u64>, GuardRefusal>)
        requires
            guards_valid(self.state.guarded_commands@),
        ensures
            guard_prepared(self.state, *fqn, expected, domains@, r),
    {
        if (has_domain(domains, GuardDomain::CommandTrace) && self.state.traces.cmd_traces.len()
            > 0) || (has_domain(domains, GuardDomain::VariableTrace)
            && self.state.traces.traces.len() > 0) {
            return Err(GuardRefusal::PrerequisiteUnsatisfied);
        }
        match fqn {
            None => Ok(None),
            Some(f) => match self.identities_of(f) {
                None => Ok(None),
                Some(ids) => if holds_token(ids, expected) {
                    Ok(Some(expected))
                } else {
                    Ok(Some(ids[0]))
                },
            },
        }
    }

    /// Whether a guard still holds on the command `fqn`, by the identities that
    /// the guard manager accepts for its token.
    pub fn check_command_guard(&self, fqn: &Option<Vec<u8>>, accepted: &[u64]) -> (r: bool)
        ensures
            r == guard_holds(self.state, *fqn, accepted@),
    {
        match fqn {
            None => false,
            Some(f) => match self.identities_of(f) {
                None => false,
                Some(ids) => {
                    let mut i: usize = 0;
                    while i < ids.len()
                        invariant
                            i <= ids@.len(),
                            attested(self.state.guarded_commands@, f@) == Some(ids@),
                            *fqn == Some(*f),
                            forall|k: int| 0 <= k < i ==> !accepted@.contains(#[trigger] ids@[k]),
                        decreases ids@.len() - i,
                    {
                        if holds_token(accepted, ids[i]) {
                            assert(share_one(ids@, accepted@)) by {
                                assert(accepted@.contains(ids@[i as int]));
                            }
                            return true;
                        }
                        i = i + 1;
                    }
                    false
                },
            },
        }
    }

    /// Whether a guard for exactly `expected` still holds on the command `fqn`.
    /// `accepted` says whether the guard manager accepts it.
    pub fn check_command_guard_identity(
        &self,
        fqn: &Option<Vec<u8>>,
        expected: u64,
        accepted: bool,
    ) -> (r: bool)
        ensures
            r == (accepted && match attested_of(self.state.guarded_commands@, *fqn) {
                Some(ids) => ids.contains(expected),
                None => false,
            }),
    {
        match fqn {
            None => false,
            Some(f) => match self.identities_of(f) {
                None => false,
                Some(ids) => accepted && holds_token(ids, expected),
            },
        }
    }

    /// Runs an intrinsic on its arguments, given by their lengths in
    /// characters. `None` leaves the call to ordinary dispatch.
    pub fn execute_intrinsic(&mut self, intrinsic: Intrinsic, lengths: &[u64]) -> (r: Option<Code>)
        ensures
            if intrinsic == Intrinsic::StringLength && lengths@.len() == 1 {
                &&& r == Some(Code::Okay)
                &&& final(self).state.result@ == decimal(lengths@[0] as int)
                &&& *final(self) == (Interp {
                    state: InterpState { result: final(self).state.result, ..old(self).state },
                    ..*old(self)
                })
            } else {
                r is None && *final(self) == *old(self)
            },
    {
        if intrinsic == Intrinsic::StringLength && lengths.len() == 1 {
            let n = decimal_u64(lengths[0]);
            self.set_result_bytes(&n);
            Some(Code::Okay)
        } else {
            None
        }
    }

    /// Notes that the policy of the interpreter changed.
    pub fn invalidate_interpreter_policy(&mut self)
        ensures
            final(self).state.invalidations@ == old(self).state.invalidations@.push(
                GuardDomain::Interpreter,
            ),
            *final(self) == (Interp {
                state: InterpState {
                    invalidations: final(self).state.invalidations,
                    ..old(self).state
                },
                ..*old(self)
            }),
    {
        self.invalidate_guard_domain(GuardDomain::Interpreter);
    }
}

fn has_domain(domains: &[GuardDomain], d: GuardDomain) -> (r: bool)
    ensures
        r == domains@.contains(d),
{
    let mut i: usize = 0;
    while i < domains.len()
        invariant
            i <= domains@.len(),
            forall|j: int| 0 <= j < i ==> domains@[j] != d,
        decreases domains@.len() - i,
    {
        if domains[i] == d {
            return true;
        }
        i = i + 1;
    }
    false
}

/// After any change of the command table nothing is attested, so that no guard
/// observes an identity until a command is registered with one.
pub proof fn a_changed_table_attests_nothing(before: Interp, after: Interp, fqn: Option<Vec<u8>>)
    requires
        environment_changed(before, after),
    ensures
        attested_of(after.state.guarded_commands@, fqn) is None,
        forall|expected: u64|
            (#[trigger] observed(attested_of(after.state.guarded_commands@, fqn), expected)) is None,
{
}

/// A command that was just registered with an identity is observed with it, and
/// with no other.
pub proof fn a_registered_identity_is_observed(
    before: Interp,
    after: Interp,
    fqn: Vec<u8>,
    identity: u64,
    expected: u64,
)
    requires
        registered(before, after, Some(fqn), seq![identity]),
    ensures
        observed(attested_of(after.state.guarded_commands@, Some(fqn)), expected) == Some(identity),
{
    let gs = after.state.guarded_commands@;
    assert(gs.last() == gs[0]);
    assert(seq![identity].contains(expected) ==> expected == identity);
}

/// A guard observes the identity it expects wherever that is attested, else the
/// first that is, and nothing where nothing is.
pub proof fn a_guard_observes_what_is_attested(ids: Seq<u64>, expected: u64)
    requires
        ids.len() > 0,
    ensures
        ids.contains(expected) ==> observed(Some(ids), expected) == Some(expected),
        !ids.contains(expected) ==> observed(Some(ids), expected) == Some(ids[0])
            && observed(Some(ids), expected) != Some(expected),
        observed(None, expected) is None,
{
}

/// What is attested of a name is what was noted for it last; what is noted for
/// another name does not count.
pub proof fn the_last_attestation_counts(
    gs: Seq<GuardedCommand>,
    g: GuardedCommand,
    fqn: Seq<u8>,
)
    ensures
        g.fqn@ == fqn ==> attested(gs.push(g), fqn) == Some(g.identities@),
        g.fqn@ != fqn ==> attested(gs.push(g), fqn) == attested(gs, fqn),
        attested(Seq::empty(), fqn) is None,
{
    assert(gs.push(g).drop_last() =~= gs);
}

/// Whether `r` is what a guard for the identity `expected` observes: none can be
/// prepared over `domains` in which traces are set.
pub open spec fn guard_prepared(
    s: InterpState,
    fqn: Option<Vec<u8>>,
    expected: u64,
    domains: Seq<GuardDomain>,
    r: Result<Option<u64>, GuardRefusal>,
) -> bool {
    &&& r is Err <==> (domains.contains(GuardDomain::CommandTrace) && s.traces.cmd_traces@.len()
        > 0) || (domains.contains(GuardDomain::VariableTrace) && s.traces.traces@.len() > 0)
    &&& r matches Ok(seen) ==> seen == observed(attested_of(s.guarded_commands@, fqn), expected)
}

/// Whether one of the identities `accepted` is attested of a command.
pub open spec fn guard_holds(s: InterpState, fqn: Option<Vec<u8>>, accepted: Seq<u64>) -> bool {
    match attested_of(s.guarded_commands@, fqn) {
        Some(ids) => share_one(ids, accepted),
        None => false,
    }
}

/// A guard that was prepared holds for what it observed, and one that observed
/// nothing holds for no identity. Traces in its domains refuse it.
pub proof fn a_prepared_guard_holds(
    s: InterpState,
    fqn: Option<Vec<u8>>,
    expected: u64,
    domains: Seq<GuardDomain>,
    r: Result<Option<u64>, GuardRefusal>,
    accepted: Seq<u64>,
)
    requires
        guards_valid(s.guarded_commands@),
        guard_prepared(s, fqn, expected, domains, r),
    ensures
        s.traces.cmd_traces@.len() > 0 && domains.contains(GuardDomain::CommandTrace) ==> r is Err,
        s.traces.traces@.len() > 0 && domains.contains(GuardDomain::VariableTrace) ==> r is Err,
        s.traces.cmd_traces@.len() == 0 && s.traces.traces@.len() == 0 ==> r is Ok,
        r is Ok && r->Ok_0 is None ==> !guard_holds(s, fqn, accepted),
        r is Ok && r->Ok_0 is Some ==> guard_holds(s, fqn, seq![r->Ok_0->0]),
        r is Ok && guard_holds(s, fqn, seq![expected]) ==> r->Ok_0 == Some(expected),
{
    if r is Ok {
        let at = attested_of(s.guarded_commands@, fqn);
        if let Some(ids) = at {
            attested_is_held(s.guarded_commands@, fqn->0@);
            let seen = r->Ok_0->0;
            assert(ids.contains(ids[0]));
            assert(ids.contains(seen));
            let k = choose|k: int| 0 <= k < ids.len() && ids[k] == seen;
            assert(seq![seen][0] == seen);
            assert(seq![seen].contains(ids[k]));
            if guard_holds(s, fqn, seq![expected]) {
                let j = choose|j: int| 0 <= j < ids.len() && seq![expected].contains(ids[j]);
                assert(ids[j] == expected);
            }
        }
    }
}

/// What is attested of a name is held for one of the commands.
proof fn attested_is_held(gs: Seq<GuardedCommand>, fqn: Seq<u8>)
    requires
        guards_valid(gs),
    ensures
        attested(gs, fqn) matches Some(ids) ==> ids.len() > 0,
    decreases gs.len(),
{
    if gs.len() > 0 {
        assert(gs[gs.len() - 1].identities@.len() > 0);
        assert forall|i: int| 0 <= i < gs.drop_last().len() implies rising(
            (#[trigger] gs.drop_last()[i]).identities@,
        ) && gs.drop_last()[i].identities@.len() > 0 by {
            assert(gs[i].identities@.len() > 0);
        }
        attested_is_held(gs.drop_last(), fqn);
    }
}

} // verus!
