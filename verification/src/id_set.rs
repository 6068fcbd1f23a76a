//! A set of identifiers kept in the hash set of `bevy::utils`.

use vstd::prelude::*;

verus! {

/// A set of 64-bit identifiers, stored in a `bevy::utils::HashSet<u64>`.
///
/// The verifier does not look inside the hash set. What it holds is named by
/// [`id_set_members`]; the three functions below are the only way in.
#[verifier::external_body]
pub struct IdSet {
    inner: bevy::utils::HashSet<u64>,
}

/// The identifiers that a set holds.
pub uninterp spec fn id_set_members(set: IdSet) -> Set<u64>;

impl View for IdSet {
    type V = Set<u64>;

    open spec fn view(&self) -> Set<u64> {
        id_set_members(*self)
    }
}

/// Calls `HashSet::new`. Taken on trust: the new set holds nothing.
#[verifier::external_body]
pub(crate) fn id_set_new() -> (set: IdSet)
    ensures
        id_set_members(set) == Set::<u64>::empty(),
{
    IdSet { inner: bevy::utils::HashSet::new() }
}

/// Calls `HashSet::contains`. Taken on trust: the answer is whether the
/// identifier is among the set's members.
#[verifier::external_body]
pub(crate) fn id_set_contains(set: &IdSet, id: u64) -> (found: bool)
    ensures
        found == id_set_members(*set).contains(id),
{
    set.inner.contains(&id)
}

/// Calls `HashSet::insert`. Taken on trust: afterwards the set holds what it
/// held before and the identifier, and the answer is whether the identifier
/// was new to it.
#[verifier::external_body]
pub(crate) fn id_set_insert(set: &mut IdSet, id: u64) -> (fresh: bool)
    ensures
        id_set_members(*final(set)) == id_set_members(*old(set)).insert(id),
        fresh == !id_set_members(*old(set)).contains(id),
{
    set.inner.insert(id)
}

impl IdSet {
    /// An empty set.
    pub fn new() -> (set: IdSet)
        ensures
            set@ == Set::<u64>::empty(),
    {
        id_set_new()
    }

    /// Whether the set holds `id`.
    pub fn contains(&self, id: u64) -> (found: bool)
        ensures
            found == self@.contains(id),
    {
        id_set_contains(self, id)
    }

    /// Adds `id` to the set and says whether it was new.
    pub fn insert(&mut self, id: u64) -> (fresh: bool)
        ensures
            final(self)@ == old(self)@.insert(id),
            fresh == !old(self)@.contains(id),
    {
        id_set_insert(self, id)
    }
}

} // verus!
