//! Revocation of capability tokens.

use vstd::prelude::*;
use std::collections::BTreeSet;

verus! {

broadcast use vstd::std_specs::btree::group_btree_axioms;

/// The set of revoked token identifiers.
pub struct RevocationManager {
    revoked: BTreeSet<u64>,
}

impl RevocationManager {
    /// The identifiers revoked so far.
    pub closed spec fn view(&self) -> Set<u64> {
        self.revoked@
    }

    pub fn new() -> (r: Self)
        ensures
            r@ == Set::<u64>::empty(),
    {
        RevocationManager { revoked: BTreeSet::new() }
    }

    /// Marks `token_id` as revoked.
    pub fn revoke(&mut self, token_id: u64)
        ensures
            final(self)@ == old(self)@.insert(token_id),
    {
        self.revoked.insert(token_id);
    }

    /// Whether `token_id` has been revoked.
    pub fn is_revoked(&self, token_id: u64) -> (r: bool)
        ensures
            r == self@.contains(token_id),
    {
        self.revoked.contains(&token_id)
    }

    /// Lifts the revocation of `token_id`.
    pub fn unrevoke(&mut self, token_id: u64)
        ensures
            final(self)@ == old(self)@.remove(token_id),
    {
        self.revoked.remove(&token_id);
    }
}

} // verus!
