//! The durable commit store, as the assembler consumes it: a read-only
//! record of the transaction and batch identifiers already committed to the
//! ledger. The assembler only ever asks membership questions of it.

use vstd::prelude::*;
use crate::ids::{contains_id, id_in, ids_view};

verus! {

/// A read-only snapshot of the ledger's committed identifiers, fixed for
/// the lifetime of one candidate.
pub struct CommitStore {
    pub committed_transactions: Vec<Vec<u8>>,
    pub committed_batches: Vec<Vec<u8>>,
}

impl CommitStore {
    /// Whether the ledger has committed the transaction `id`.
    pub open spec fn has_txn(self, id: Seq<u8>) -> bool {
        id_in(ids_view(self.committed_transactions@), id)
    }

    /// Whether the ledger has committed the batch `id`.
    pub open spec fn has_batch(self, id: Seq<u8>) -> bool {
        id_in(ids_view(self.committed_batches@), id)
    }

    /// A store that has committed nothing.
    pub fn new() -> (r: Self)
        ensures
            forall|id: Seq<u8>| !r.has_txn(id),
            forall|id: Seq<u8>| !r.has_batch(id),
            r.committed_transactions@.len() == 0,
            r.committed_batches@.len() == 0,
    {
        CommitStore { committed_transactions: Vec::new(), committed_batches: Vec::new() }
    }

    /// Looks the transaction `id` up in the store.
    pub fn contains_transaction(&self, id: &Vec<u8>) -> (r: bool)
        ensures
            r == self.has_txn(id@),
    {
        contains_id(&self.committed_transactions, id)
    }

    /// Looks the batch `id` up in the store.
    pub fn contains_batch(&self, id: &Vec<u8>) -> (r: bool)
        ensures
            r == self.has_batch(id@),
    {
        contains_id(&self.committed_batches, id)
    }
}

} // verus!
