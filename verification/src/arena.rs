//! Numbers for command names: the first use of a name gives it the next number,
//! and it keeps that number.

use vstd::prelude::*;

use crate::bytes::{copied, opt_view, same, views};

verus! {

/// The names that have a number, each at the place of its number.
pub struct CmdArena {
    pub fqns: Vec<Vec<u8>>,
}

impl View for CmdArena {
    type V = Seq<Seq<u8>>;

    open spec fn view(&self) -> Seq<Seq<u8>> {
        views(self.fqns@)
    }
}

impl CmdArena {
    /// Whether every name has one number, and every number fits.
    pub open spec fn valid(self) -> bool {
        &&& self@.no_duplicates()
        &&& self@.len() <= u32::MAX + 1
    }

    /// No name has a number yet.
    pub fn new() -> (a: CmdArena)
        ensures
            a.valid(),
            a@.len() == 0,
    {
        CmdArena { fqns: Vec::new() }
    }

    /// The number of `fqn`, a new one where it has none yet.
    pub fn intern_cmd(&mut self, fqn: &[u8]) -> (id: u32)
        requires
            old(self).valid(),
            old(self)@.contains(fqn@) || old(self)@.len() <= u32::MAX,
        ensures
            final(self).valid(),
            id < final(self)@.len(),
            final(self)@[id as int] == fqn@,
            final(self)@ == if old(self)@.contains(fqn@) {
                old(self)@
            } else {
                old(self)@.push(fqn@)
            },
    {
        let mut i: usize = 0;
        while i < self.fqns.len()
            invariant
                i <= self.fqns@.len(),
                *self == *old(self),
                self.valid(),
                forall|j: int| 0 <= j < i ==> #[trigger] self@[j] != fqn@,
            decreases self.fqns@.len() - i,
        {
            if same(&self.fqns[i], fqn) {
                assert(self@[i as int] == fqn@);
                return i as u32;
            }
            i = i + 1;
        }
        let ghost before = self@;
        assert(!before.contains(fqn@));
        let id: u32 = self.fqns.len() as u32;
        self.fqns.push(copied(fqn));
        proof {
            assert(self@ =~= before.push(fqn@));
            assert forall|a: int, b: int| 0 <= a < b < self@.len() implies self@[a] != self@[b] by {
                if b == before.len() {
                    assert(before[a] == self@[a]);
                }
            }
        }
        id
    }

    /// The number of the command that a name resolves to.
    pub fn find_command_id(&mut self, resolved: &Option<Vec<u8>>) -> (r: Option<u32>)
        requires
            old(self).valid(),
            *resolved matches Some(f) ==> old(self)@.contains(f@) || old(self)@.len() <= u32::MAX,
        ensures
            final(self).valid(),
            match opt_view(*resolved) {
                Some(f) => {
                    &&& r matches Some(id) && id < final(self)@.len() && final(self)@[id as int]
                        == f
                    &&& final(self)@ == if old(self)@.contains(f) {
                        old(self)@
                    } else {
                        old(self)@.push(f)
                    }
                },
                None => r is None && *final(self) == *old(self),
            },
    {
        match resolved {
            Some(f) => Some(self.intern_cmd(f)),
            None => None,
        }
    }

    /// The name that has the number `id`.
    pub fn command_fqn(&self, id: u32) -> (r: Option<Vec<u8>>)
        ensures
            opt_view(r) == if id < self@.len() {
                Some(self@[id as int])
            } else {
                None
            },
    {
        if (id as usize) < self.fqns.len() {
            Some(copied(&self.fqns[id as usize]))
        } else {
            None
        }
    }
}

/// A number and a name belong to each other for good: two names never have the
/// same number, and a name that has one keeps it while others get theirs.
pub proof fn numbers_are_stable(before: Seq<Seq<u8>>, fqn: Seq<u8>, a: int, b: int)
    requires
        before.no_duplicates(),
        0 <= a < before.len(),
        0 <= b < before.len(),
    ensures
        before[a] == before[b] <==> a == b,
        before.push(fqn)[a] == before[a],
{
}

} // verus!
