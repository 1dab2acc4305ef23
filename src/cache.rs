//! The shared metadata: a write-once cell, and the facade that pairs a
//! backend with it.

use vstd::prelude::*;
use crate::meta::Metadata;

verus! {

/// A cell that holds at most one metadata value: the first one committed.
pub struct MetaCell {
    value: Option<Metadata>,
}

impl View for MetaCell {
    type V = Option<Metadata>;

    closed spec fn view(&self) -> Option<Metadata> {
        self.value
    }
}

/// What a cell holds after `m` is offered to it: what it held, if anything, else `m`.
pub open spec fn commit_spec(held: Option<Metadata>, m: Metadata) -> Option<Metadata> {
    match held {
        Some(w) => Some(w),
        None => Some(m),
    }
}

/// What a cell holds after each value of `offers` is offered to it, in order.
pub open spec fn commit_all(held: Option<Metadata>, offers: Seq<Metadata>) -> Option<Metadata>
    decreases offers.len(),
{
    if offers.len() == 0 {
        held
    } else {
        commit_all(commit_spec(held, offers[0]), offers.drop_first())
    }
}

impl MetaCell {
    /// An empty cell.
    pub fn new() -> (r: MetaCell)
        ensures
            r@ is None,
    {
        MetaCell { value: None }
    }

    /// A cell seeded with `m`, for metadata that was loaded locally.
    pub fn with_meta(m: Metadata) -> (r: MetaCell)
        ensures
            r@ == Some(m),
    {
        MetaCell { value: Some(m) }
    }

    /// The committed value, if any.
    pub fn get(&self) -> (r: Option<&Metadata>)
        ensures
            r matches Some(m) ==> self@ == Some(*m),
            r is None ==> self@ is None,
    {
        match &self.value {
            Some(m) => Some(m),
            None => None,
        }
    }

    /// Offers `m` to the cell. It is kept only if the cell was empty; the
    /// result says whether it was.
    pub fn commit(&mut self, m: Metadata) -> (r: bool)
        ensures
            final(self)@ == commit_spec(old(self)@, m),
            r == old(self)@ is None,
    {
        if self.value.is_none() {
            self.value = Some(m);
            true
        } else {
            false
        }
    }
}

/// However many initialisations race, the cell ends up holding the first
/// value committed, and a cell that already holds a value keeps it.
pub proof fn lemma_first_commit_wins(held: Option<Metadata>, offers: Seq<Metadata>)
    requires
        offers.len() > 0 || held is Some,
    ensures
        commit_all(held, offers) == (match held {
            Some(w) => Some(w),
            None => Some(offers[0]),
        }),
    decreases offers.len(),
{
    if offers.len() > 0 {
        lemma_first_commit_wins(commit_spec(held, offers[0]), offers.drop_first());
    }
}

/// A backend together with the metadata it serves.
pub struct Sube<T> {
    backend: T,
}

impl<T> Sube<T> {
    /// Wraps a backend.
    pub fn new(backend: T) -> (r: Sube<T>)
        ensures
            r.backend() == backend,
    {
        Sube { backend }
    }

    pub closed spec fn backend(&self) -> T {
        self.backend
    }

    /// The wrapped backend.
    pub fn inner(&self) -> (r: &T)
        ensures
            *r == self.backend(),
    {
        &self.backend
    }
}

} // verus!
