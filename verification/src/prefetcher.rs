//! Resolving the names of the preload list when the server starts.

use vstd::prelude::*;

use crate::answers::RTYPE_A;
use crate::message::{dname_wire, name_from_text};
use crate::wire::{build_query, query_octets};

verus! {

/// The progress through the preload list: how many names have been
/// resolved and handed to the cache, out of at most `limit`.
pub struct Prefetch {
    count: u32,
    limit: u32,
}

/// What to do with the next line of the preload list.
pub enum PrefetchStep {
    /// Enough names were preloaded: stop.
    Done,
    /// Ask upstream this query.
    Query(Vec<u8>),
    /// The line is not a domain name: stop.
    BadName,
}

/// The query that preloads the name written as `text`: type A, ID zero.
pub open spec fn prefetch_query_of(text: Seq<char>) -> Option<Seq<u8>> {
    match dname_wire(text) {
        Some(w) => Some(query_octets(w, RTYPE_A, 0)),
        None => None,
    }
}

impl Prefetch {
    /// The progress never passes its bound.
    #[verifier::type_invariant]
    spec fn within_limit(&self) -> bool {
        self.count <= self.limit
    }

    pub closed spec fn spec_count(&self) -> u32 {
        self.count
    }

    pub closed spec fn spec_limit(&self) -> u32 {
        self.limit
    }

    /// No name preloaded yet, at most `limit` to go.
    pub fn new(limit: u32) -> (p: Prefetch)
        ensures
            p.spec_count() == 0,
            p.spec_limit() == limit,
    {
        Prefetch { count: 0, limit }
    }

    /// How many names have been preloaded.
    pub fn count(&self) -> (r: u32)
        ensures
            r == self.spec_count(),
            r <= self.spec_limit(),
    {
        proof {
            use_type_invariant(self);
        }
        self.count
    }

    /// What to do with the line `line` of the list: stop once `limit` names
    /// are preloaded; else ask upstream for its A records, or stop where the
    /// line is no domain name.
    pub fn step(&self, line: &str) -> (s: PrefetchStep)
        ensures
            self.spec_count() >= self.spec_limit() ==> s is Done,
            self.spec_count() < self.spec_limit() ==> match prefetch_query_of(line@) {
                Some(q) => s matches PrefetchStep::Query(m) && m@ == q,
                None => s is BadName,
            },
    {
        if self.count >= self.limit {
            return PrefetchStep::Done;
        }
        match name_from_text(line) {
            Some(w) => PrefetchStep::Query(build_query(&w, RTYPE_A, 0)),
            None => PrefetchStep::BadName,
        }
    }

    /// Records that one more name was resolved and handed to the cache.
    pub fn sent(&mut self)
        requires
            old(self).spec_count() < old(self).spec_limit(),
        ensures
            final(self).spec_count() == old(self).spec_count() + 1,
            final(self).spec_limit() == old(self).spec_limit(),
    {
        self.count = self.count + 1;
    }
}

} // verus!
