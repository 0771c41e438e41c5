//! The committed-transaction cache: transaction identifiers provisionally
//! committed within one candidate. A lookup falls back to the durable
//! commit store, so the cache itself holds only the local additions.

use vstd::prelude::*;
use crate::commit_store::CommitStore;
use crate::ids::{contains_id, copy_ids, id_in, ids_view};

verus! {

/// Transaction identifiers provisionally committed within one candidate.
pub struct TransactionCommitCache {
    pub committed: Vec<Vec<u8>>,
}

impl TransactionCommitCache {
    /// The cached identifiers, in insertion order.
    pub open spec fn ids(self) -> Seq<Seq<u8>> {
        ids_view(self.committed@)
    }

    /// Whether `id` is cached locally (the durable store aside).
    pub open spec fn has(self, id: Seq<u8>) -> bool {
        id_in(self.ids(), id)
    }

    /// An empty cache.
    pub fn new() -> (r: Self)
        ensures
            r.ids() == Seq::<Seq<u8>>::empty(),
    {
        let r = TransactionCommitCache { committed: Vec::new() };
        proof {
            assert(r.ids() =~= Seq::<Seq<u8>>::empty());
        }
        r
    }

    /// Caches `id` as provisionally committed.
    pub fn add(&mut self, id: Vec<u8>)
        ensures
            final(self).ids() == old(self).ids().push(id@),
    {
        let ghost prior = self.ids();
        self.committed.push(id);
        proof {
            assert(self.ids() =~= prior.push(id@));
        }
    }

    /// Whether `id` is committed: cached locally or durable in the store.
    pub fn contains(&self, id: &Vec<u8>, store: &CommitStore) -> (r: bool)
        ensures
            r == (self.has(id@) || store.has_txn(id@)),
    {
        contains_id(&self.committed, id) || store.contains_transaction(id)
    }

    /// A fresh copy of the cache.
    pub fn duplicate(&self) -> (r: Self)
        ensures
            r.ids() == self.ids(),
    {
        TransactionCommitCache { committed: copy_ids(&self.committed) }
    }
}

} // verus!
