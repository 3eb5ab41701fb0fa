//! What introspection lists: commands, functions, the words of a call and the
//! error stack.

use vstd::prelude::*;

use crate::bytes::{copied_words, views};
use crate::dispatch::{listed_names, NamedCommand};
use crate::state::{Interp, NsId, GLOBAL};
use crate::words::{join_words, spaced};

verus! {

/// The names listed for a namespace; one that is not there has none.
pub open spec fn listed_for(i: Interp, entries: Option<Vec<NamedCommand>>) -> Seq<Seq<u8>> {
    match entries {
        Some(es) => listed_names(i.state, es@),
        None => Seq::empty(),
    }
}

/// The namespace that a qualifier names: an empty one is the global namespace.
/// `found` is the namespace that a lookup from the current one finds.
pub fn listed_namespace(qualifier: &[u8], found: Option<NsId>) -> (r: Option<NsId>)
    ensures
        r == if qualifier@.len() == 0 {
            Some(GLOBAL)
        } else {
            found
        },
{
    if qualifier.len() == 0 {
        Some(GLOBAL)
    } else {
        found
    }
}

/// The words of a call, where it has any.
pub fn level_words(words: &Option<Vec<Vec<u8>>>) -> (r: Option<Vec<Vec<u8>>>)
    ensures
        match r {
            Some(ws) => words is Some && words->0@.len() > 0 && views(ws@) == views(words->0@),
            None => words is None || words->0@.len() == 0,
        },
{
    match words {
        Some(ws) => if ws.len() == 0 {
            None
        } else {
            Some(copied_words(ws))
        },
        None => None,
    }
}

impl Interp {
    /// The commands of the current namespace that the release has; `entries` are
    /// all that the namespace holds.
    pub fn command_names(&self, entries: &[NamedCommand]) -> (r: Vec<Vec<u8>>)
        ensures
            views(r@) == listed_names(self.state, entries@),
    {
        self.visible_command_names_in(entries)
    }

    /// The commands of a namespace that the release has; `None` where the
    /// namespace is not there.
    pub fn commands_in_namespace(&self, entries: &Option<Vec<NamedCommand>>) -> (r: Vec<Vec<u8>>)
        ensures
            views(r@) == listed_for(*self, *entries),
    {
        match entries {
            Some(es) => self.visible_command_names_in(es),
            None => {
                let none: Vec<Vec<u8>> = Vec::new();
                assert(views(none@) =~= Seq::empty());
                none
            },
        }
    }

    /// The functions of expressions: a release without a table of function
    /// commands has those of `built_in`, another the commands of the functions'
    /// namespace.
    pub fn mathfunc_names(
        &self,
        has_table: bool,
        built_in: &[Vec<u8>],
        entries: &Option<Vec<NamedCommand>>,
    ) -> (r: Vec<Vec<u8>>)
        ensures
            views(r@) == if has_table {
                listed_for(*self, *entries)
            } else {
                views(built_in@)
            },
    {
        if !has_table {
            return copied_words(built_in);
        }
        self.commands_in_namespace(entries)
    }

    /// The error stack as a list; `elements` are its values, each as an element
    /// of a list.
    pub fn error_stack_value(&self, elements: &[Vec<u8>]) -> (r: Vec<u8>)
        requires
            elements@.len() == self.state.error_stack@.len(),
        ensures
            r@ == spaced(views(elements@)),
    {
        join_words(elements)
    }
}

} // verus!
