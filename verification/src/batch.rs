//! Batches and transactions as the assembler sees them: a batch is an
//! ordered, non-empty group of transactions with a content-derived
//! identifier; a transaction carries its identifier and the identifiers it
//! depends on (as the raw bytes of its header, hex-encoded before any
//! lookup).

use vstd::prelude::*;
use crate::ids::ids_view;

verus! {

/// A transaction: its identifier (a hex signature, as bytes) and the raw
/// dependency bytes from its header.
#[derive(Clone, Debug)]
pub struct Transaction {
    pub header_signature: Vec<u8>,
    pub dependencies: Vec<Vec<u8>>,
}

/// A batch: an ordered group of transactions admitted or rejected as a
/// unit, with a content-derived identifier and a diagnostic trace flag.
#[derive(Clone, Debug)]
pub struct Batch {
    pub header_signature: Vec<u8>,
    pub transactions: Vec<Transaction>,
    pub trace: bool,
}

/// A transaction's identifier.
pub open spec fn tid(t: Transaction) -> Seq<u8> {
    t.header_signature@
}

/// A transaction's dependency identifiers, still as raw bytes.
pub open spec fn tdeps(t: Transaction) -> Seq<Seq<u8>> {
    ids_view(t.dependencies@)
}

/// A batch's identifier.
pub open spec fn bid(b: Batch) -> Seq<u8> {
    b.header_signature@
}

/// The identifiers of a batch's transactions, in order.
pub open spec fn batch_txn_ids(b: Batch) -> Seq<Seq<u8>> {
    b.transactions@.map(|i: int, t: Transaction| tid(t))
}

/// The identifiers of a sequence of batches, in order.
pub open spec fn batch_ids(s: Seq<Batch>) -> Seq<Seq<u8>> {
    s.map(|i: int, b: Batch| bid(b))
}

/// Two transactions with the same content.
pub open spec fn txn_view_eq(a: Transaction, b: Transaction) -> bool {
    tid(a) == tid(b) && tdeps(a) == tdeps(b)
}

/// Two batches with the same content.
pub open spec fn batch_view_eq(a: Batch, b: Batch) -> bool {
    &&& bid(a) == bid(b)
    &&& a.trace == b.trace
    &&& a.transactions@.len() == b.transactions@.len()
    &&& forall|j: int|
        0 <= j < a.transactions@.len() ==> txn_view_eq(a.transactions@[j], b.transactions@[j])
}

/// Two batch sequences with the same content, element for element.
pub open spec fn batches_view_eq(a: Seq<Batch>, b: Seq<Batch>) -> bool {
    a.len() == b.len() && forall|i: int| 0 <= i < a.len() ==> batch_view_eq(a[i], b[i])
}

/// Batch sequences with the same content have the same identifiers.
pub proof fn lemma_batches_view_eq_ids(a: Seq<Batch>, b: Seq<Batch>)
    requires
        batches_view_eq(a, b),
    ensures
        batch_ids(a) == batch_ids(b),
{
    assert(batch_ids(a) =~= batch_ids(b));
}

/// Content equality of batch sequences is transitive.
pub proof fn lemma_batches_view_eq_trans(a: Seq<Batch>, b: Seq<Batch>, c: Seq<Batch>)
    requires
        batches_view_eq(a, b),
        batches_view_eq(b, c),
    ensures
        batches_view_eq(a, c),
{
    assert forall|i: int| 0 <= i < a.len() implies batch_view_eq(a[i], c[i]) by {
        assert(batch_view_eq(a[i], b[i]));
        assert(batch_view_eq(b[i], c[i]));
    }
}

/// A fresh copy of a transaction.
pub fn clone_transaction(t: &Transaction) -> (r: Transaction)
    ensures
        txn_view_eq(r, *t),
{
    let r = Transaction {
        header_signature: crate::ids::copy_id(&t.header_signature),
        dependencies: crate::ids::copy_ids(&t.dependencies),
    };
    r
}

/// A fresh copy of a batch.
pub fn clone_batch(b: &Batch) -> (r: Batch)
    ensures
        batch_view_eq(r, *b),
{
    let mut transactions: Vec<Transaction> = Vec::new();
    let mut j: usize = 0;
    while j < b.transactions.len()
        invariant
            0 <= j <= b.transactions@.len(),
            transactions@.len() == j,
            forall|k: int|
                0 <= k < j ==> txn_view_eq(transactions@[k], b.transactions@[k]),
        decreases b.transactions@.len() - j,
    {
        transactions.push(clone_transaction(&b.transactions[j]));
        j += 1;
    }
    Batch {
        header_signature: crate::ids::copy_id(&b.header_signature),
        transactions,
        trace: b.trace,
    }
}

/// A fresh copy of a sequence of batches.
pub fn clone_batches(v: &Vec<Batch>) -> (r: Vec<Batch>)
    ensures
        batches_view_eq(r@, v@),
{
    let mut r: Vec<Batch> = Vec::new();
    let mut i: usize = 0;
    while i < v.len()
        invariant
            0 <= i <= v.len(),
            r@.len() == i,
            forall|k: int| 0 <= k < i ==> batch_view_eq(r@[k], v@[k]),
        decreases v.len() - i,
    {
        r.push(clone_batch(&v[i]));
        i += 1;
    }
    r
}

} // verus!
