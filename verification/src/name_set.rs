//! A set of column names.

use crate::text::texts;
use vstd::prelude::*;

verus! {

/// A set of names, held by a hash set of the `hashbrown` crate.
#[verifier::external_body]
pub struct NameSet {
    names: hashbrown::HashSet<String>,
}

/// The names that the set holds.
pub uninterp spec fn names_in(set: NameSet) -> Set<Seq<char>>;

impl NameSet {
    /// Calls `hashbrown::HashSet::new`. Trusted: the set holds no name.
    #[verifier::external_body]
    pub(crate) fn new() -> (r: NameSet)
        ensures
            names_in(r) == Set::<Seq<char>>::empty(),
    {
        NameSet { names: hashbrown::HashSet::new() }
    }

    /// Calls `hashbrown::HashSet::insert`. Trusted: the set then holds the name besides those that
    /// it held, and the result tells whether the name was not among them. Strings are hashed and
    /// compared by their text.
    #[verifier::external_body]
    pub(crate) fn insert(&mut self, name: String) -> (r: bool)
        ensures
            names_in(*final(self)) == names_in(*old(self)).insert(name@),
            r == !names_in(*old(self)).contains(name@),
    {
        self.names.insert(name)
    }

    /// Calls `hashbrown::HashSet::contains`. Trusted: the result tells whether the set holds the
    /// name.
    #[verifier::external_body]
    pub(crate) fn contains(&self, name: &String) -> (r: bool)
        ensures
            r == names_in(*self).contains(name@),
    {
        self.names.contains(name)
    }

    /// Calls `hashbrown::HashSet::len`. Trusted: the result is the number of names in the set.
    #[verifier::external_body]
    pub(crate) fn len(&self) -> (r: usize)
        ensures
            r == names_in(*self).len(),
    {
        self.names.len()
    }

    /// Calls `into_iter` of `hashbrown::HashSet` and collects what it yields. Trusted: every name
    /// of the set comes out, once, and nothing else does. In which order is left open, as the
    /// hasher is seeded anew in each process.
    #[verifier::external_body]
    pub(crate) fn into_names(self) -> (r: Vec<String>)
        ensures
            texts(r@).no_duplicates(),
            texts(r@).to_set() == names_in(self),
    {
        self.names.into_iter().collect()
    }
}

} // verus!
