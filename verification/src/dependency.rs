//! Dependency and double-commit checking. A batch is admissible against a
//! committed-transaction cache and the durable store when, walking its
//! transactions in order, no transaction is already committed and every
//! dependency is already committed — durably, earlier in the candidate, or
//! earlier in the same batch.

use vstd::prelude::*;
use crate::batch::{batch_txn_ids, Batch, tdeps, tid, Transaction};
use crate::chain_commit_state::TransactionCommitCache;
use crate::commit_store::CommitStore;
use crate::encoding::{hex_encode, hex_of};
use crate::ids::{copy_id, id_in};

verus! {

/// The outcome of holding one batch against the dependency rules.
pub enum AdmissionVerdict {
    /// Every transaction is new and all its dependencies are satisfied.
    Admissible,
    /// Some transaction is already committed, durably or in the candidate.
    AlreadyCommitted,
    /// Some transaction has an unsatisfied dependency.
    MissingDependency,
}

/// Whether the dependency bytes `d` (hex-encoded for the lookup) are
/// satisfied by the cache or the durable store.
pub open spec fn dep_ok(cache: Seq<Seq<u8>>, store: CommitStore, d: Seq<u8>) -> bool {
    id_in(cache, hex_of(d)) || store.has_txn(hex_of(d))
}

/// Whether every dependency of `t` is satisfied.
pub open spec fn txn_deps_ok(cache: Seq<Seq<u8>>, store: CommitStore, t: Transaction) -> bool {
    forall|k: int| 0 <= k < tdeps(t).len() ==> dep_ok(cache, store, tdeps(t)[k])
}

/// Whether `t` is already committed, in the cache or durably.
pub open spec fn txn_committed(cache: Seq<Seq<u8>>, store: CommitStore, t: Transaction) -> bool {
    id_in(cache, tid(t)) || store.has_txn(tid(t))
}

/// The verdict on `b`'s transactions from position `j` on, the cache grown
/// by each admitted transaction's identifier as the walk proceeds.
pub open spec fn batch_admission_from(
    cache: Seq<Seq<u8>>,
    store: CommitStore,
    b: Batch,
    j: int,
) -> AdmissionVerdict
    decreases b.transactions@.len() - j,
{
    if j < 0 || j >= b.transactions@.len() {
        AdmissionVerdict::Admissible
    } else {
        let t = b.transactions@[j];
        if txn_committed(cache, store, t) {
            AdmissionVerdict::AlreadyCommitted
        } else if !txn_deps_ok(cache, store, t) {
            AdmissionVerdict::MissingDependency
        } else {
            batch_admission_from(cache.push(tid(t)), store, b, j + 1)
        }
    }
}

/// The verdict on the whole of `b`.
pub open spec fn batch_admission(cache: Seq<Seq<u8>>, store: CommitStore, b: Batch) -> AdmissionVerdict {
    batch_admission_from(cache, store, b, 0)
}

/// Whether `b` passes the dependency rules outright.
pub open spec fn batch_deps_ok(cache: Seq<Seq<u8>>, store: CommitStore, b: Batch) -> bool {
    batch_admission(cache, store, b) is Admissible
}

/// Membership in a pushed identifier list.
pub proof fn lemma_id_in_push(c: Seq<Seq<u8>>, x: Seq<u8>, d: Seq<u8>)
    ensures
        id_in(c.push(x), d) <==> (id_in(c, d) || d == x),
{
    if id_in(c.push(x), d) {
        let k = choose|k: int| 0 <= k < c.push(x).len() && c.push(x)[k] == d;
        if k < c.len() {
            assert(c[k] == d);
        } else {
            assert(d == x);
        }
    }
    if id_in(c, d) {
        let k = choose|k: int| 0 <= k < c.len() && c[k] == d;
        assert(c.push(x)[k] == d);
    }
    if d == x {
        assert(c.push(x)[c.len() as int] == d);
    }
}

/// Membership in a concatenation of identifier lists.
pub proof fn lemma_id_in_concat(x: Seq<Seq<u8>>, y: Seq<Seq<u8>>, d: Seq<u8>)
    ensures
        id_in(x + y, d) <==> (id_in(x, d) || id_in(y, d)),
{
    if id_in(x + y, d) {
        let k = choose|k: int| 0 <= k < (x + y).len() && (x + y)[k] == d;
        if k < x.len() {
            assert(x[k] == d);
        } else {
            assert(y[k - x.len()] == d);
        }
    }
    if id_in(x, d) {
        let k = choose|k: int| 0 <= k < x.len() && x[k] == d;
        assert((x + y)[k] == d);
    }
    if id_in(y, d) {
        let k = choose|k: int| 0 <= k < y.len() && y[k] == d;
        assert((x + y)[x.len() + k] == d);
    }
}

/// What admissibility of the tail from `j` says of each transaction: none
/// is committed, none is already in the cache, and every dependency is in
/// the cache, the store, or an earlier transaction of the same walk.
pub proof fn lemma_admissible_facts(cache: Seq<Seq<u8>>, store: CommitStore, b: Batch, j: int)
    requires
        0 <= j <= b.transactions@.len(),
        batch_admission_from(cache, store, b, j) is Admissible,
    ensures
        forall|j2: int|
            j <= j2 < b.transactions@.len() ==> !store.has_txn(tid(#[trigger] b.transactions@[j2])),
        forall|j2: int|
            j <= j2 < b.transactions@.len() ==> !id_in(cache, tid(#[trigger] b.transactions@[j2])),
        forall|j2: int, k: int|
            j <= j2 < b.transactions@.len() && 0 <= k < tdeps(b.transactions@[j2]).len() ==> {
                let d = hex_of(#[trigger] tdeps(b.transactions@[j2])[k]);
                id_in(cache, d) || store.has_txn(d) || (exists|j3: int|
                    j <= j3 < j2 && tid(b.transactions@[j3]) == d)
            },
    decreases b.transactions@.len() - j,
{
    if j < b.transactions@.len() {
        let t = b.transactions@[j];
        lemma_admissible_facts(cache.push(tid(t)), store, b, j + 1);
        assert forall|j2: int|
            j <= j2 < b.transactions@.len() implies !id_in(
            cache,
            tid(#[trigger] b.transactions@[j2]),
        ) by {
            if j2 > j {
                lemma_id_in_push(cache, tid(t), tid(b.transactions@[j2]));
            }
        }
        assert forall|j2: int, k: int|
            j <= j2 < b.transactions@.len() && 0 <= k < tdeps(b.transactions@[j2]).len() implies {
            let d = hex_of(#[trigger] tdeps(b.transactions@[j2])[k]);
            id_in(cache, d) || store.has_txn(d) || (exists|j3: int|
                j <= j3 < j2 && tid(b.transactions@[j3]) == d)
        } by {
            let d = hex_of(tdeps(b.transactions@[j2])[k]);
            if j2 == j {
                assert(dep_ok(cache, store, tdeps(t)[k]));
            } else {
                lemma_id_in_push(cache, tid(t), d);
                if id_in(cache.push(tid(t)), d) && !id_in(cache, d) {
                    assert(tid(b.transactions@[j]) == d);
                }
            }
        }
    }
}

/// The identifiers of all transactions of a batch list, in order.
pub open spec fn admitted_txn_ids(batches: Seq<Batch>) -> Seq<Seq<u8>>
    decreases batches.len(),
{
    if batches.len() == 0 {
        Seq::empty()
    } else {
        batch_txn_ids(batches[0]) + admitted_txn_ids(batches.drop_first())
    }
}

/// Appending a batch appends its transaction identifiers.
pub proof fn lemma_admitted_push(batches: Seq<Batch>, b: Batch)
    ensures
        admitted_txn_ids(batches.push(b)) == admitted_txn_ids(batches) + batch_txn_ids(b),
    decreases batches.len(),
{
    if batches.len() == 0 {
        assert(batches.push(b).drop_first() =~= Seq::<Batch>::empty());
        assert(batches.push(b)[0] == b);
        assert(admitted_txn_ids(Seq::<Batch>::empty()) == Seq::<Seq<u8>>::empty());
        assert(admitted_txn_ids(batches.push(b)) == batch_txn_ids(b) + Seq::<Seq<u8>>::empty());
        assert(admitted_txn_ids(batches.push(b)) =~= admitted_txn_ids(batches) + batch_txn_ids(b));
    } else {
        lemma_admitted_push(batches.drop_first(), b);
        assert(batches.push(b).drop_first() =~= batches.drop_first().push(b));
        assert(batches.push(b)[0] == batches[0]);
        assert(admitted_txn_ids(batches.push(b)) == batch_txn_ids(batches[0])
            + admitted_txn_ids(batches.drop_first().push(b)));
        assert(admitted_txn_ids(batches.push(b)) == batch_txn_ids(batches[0]) + (admitted_txn_ids(
            batches.drop_first(),
        ) + batch_txn_ids(b)));
        assert(admitted_txn_ids(batches.push(b)) =~= admitted_txn_ids(batches) + batch_txn_ids(b));
    }
}

/// An identifier is among a batch list's transaction identifiers exactly
/// when some transaction of some listed batch carries it.
pub proof fn lemma_admitted_membership(batches: Seq<Batch>, d: Seq<u8>)
    ensures
        id_in(admitted_txn_ids(batches), d) <==> (exists|i: int, j: int|
            0 <= i < batches.len() && 0 <= j < batches[i].transactions@.len() && tid(
                batches[i].transactions@[j],
            ) == d),
    decreases batches.len(),
{
    if batches.len() == 0 {
    } else {
        let b0 = batches[0];
        lemma_admitted_membership(batches.drop_first(), d);
        lemma_id_in_concat(batch_txn_ids(b0), admitted_txn_ids(batches.drop_first()), d);
        if id_in(batch_txn_ids(b0), d) {
            let k = choose|k: int| 0 <= k < batch_txn_ids(b0).len() && batch_txn_ids(b0)[k] == d;
            assert(tid(batches[0].transactions@[k]) == d);
        }
        if exists|i: int, j: int|
            0 <= i < batches.drop_first().len() && 0 <= j
                < batches.drop_first()[i].transactions@.len() && tid(
                batches.drop_first()[i].transactions@[j],
            ) == d {
            let (i, j) = choose|i: int, j: int|
                0 <= i < batches.drop_first().len() && 0 <= j
                    < batches.drop_first()[i].transactions@.len() && tid(
                    batches.drop_first()[i].transactions@[j],
                ) == d;
            assert(batches.drop_first()[i] == batches[i + 1]);
        }
        if exists|i: int, j: int|
            0 <= i < batches.len() && 0 <= j < batches[i].transactions@.len() && tid(
                batches[i].transactions@[j],
            ) == d {
            let (i, j) = choose|i: int, j: int|
                0 <= i < batches.len() && 0 <= j < batches[i].transactions@.len() && tid(
                    batches[i].transactions@[j],
                ) == d;
            if i == 0 {
                assert(batch_txn_ids(b0)[j] == d);
            } else {
                assert(batches.drop_first()[i - 1] == batches[i]);
                assert(tid(batches.drop_first()[i - 1].transactions@[j]) == d);
            }
        }
    }
}

impl TransactionCommitCache {
    /// Walks `batch`'s transactions in order against this cache and the
    /// store; on an admissible batch the cache gains every transaction
    /// identifier of the batch, otherwise it is left untouched.
    pub fn check_batch_dependencies(
        &mut self,
        batch: &Batch,
        store: &CommitStore,
    ) -> (r: AdmissionVerdict)
        ensures
            r == batch_admission(old(self).ids(), *store, *batch),
            r is Admissible ==> final(self).ids() == old(self).ids() + batch_txn_ids(*batch),
            !(r is Admissible) ==> final(self).ids() == old(self).ids(),
    {
        let mut scratch = self.duplicate();
        let mut j: usize = 0;
        while j < batch.transactions.len()
            invariant
                0 <= j <= batch.transactions@.len(),
                scratch.ids() == old(self).ids() + batch_txn_ids(*batch).take(j as int),
                batch_admission(old(self).ids(), *store, *batch) == batch_admission_from(
                    scratch.ids(),
                    *store,
                    *batch,
                    j as int,
                ),
                self.ids() == old(self).ids(),
            decreases batch.transactions@.len() - j,
        {
            let t = &batch.transactions[j];
            let ghost pre_ids = scratch.ids();
            if scratch.contains(&t.header_signature, store) {
                proof {
                    assert(txn_committed(pre_ids, *store, batch.transactions@[j as int]));
                }
                return AdmissionVerdict::AlreadyCommitted;
            }
            let mut k: usize = 0;
            while k < t.dependencies.len()
                invariant
                    0 <= k <= t.dependencies@.len(),
                    0 <= j < batch.transactions@.len(),
                    *t == batch.transactions@[j as int],
                    forall|k2: int|
                        0 <= k2 < k ==> dep_ok(pre_ids, *store, tdeps(*t)[k2]),
                    scratch.ids() == pre_ids,
                    self.ids() == old(self).ids(),
                    pre_ids == old(self).ids() + batch_txn_ids(*batch).take(j as int),
                    !txn_committed(pre_ids, *store, batch.transactions@[j as int]),
                    batch_admission(old(self).ids(), *store, *batch) == batch_admission_from(
                        pre_ids,
                        *store,
                        *batch,
                        j as int,
                    ),
                decreases t.dependencies@.len() - k,
            {
                let hexd = hex_encode(&t.dependencies[k]);
                proof {
                    assert(hexd@ == hex_of(tdeps(*t)[k as int]));
                }
                if !scratch.contains(&hexd, store) {
                    proof {
                        let tt = batch.transactions@[j as int];
                        assert(0 <= j < batch.transactions@.len());
                        assert(tdeps(tt).len() == tt.dependencies@.len());
                        assert(tdeps(tt)[k as int] == tt.dependencies@[k as int]@);
                        assert(!dep_ok(pre_ids, *store, tdeps(tt)[k as int]));
                        assert(!txn_deps_ok(pre_ids, *store, tt));
                    }
                    return AdmissionVerdict::MissingDependency;
                }
                k += 1;
            }
            proof {
                assert(txn_deps_ok(pre_ids, *store, batch.transactions@[j as int]));
            }
            scratch.add(copy_id(&t.header_signature));
            proof {
                assert(batch_txn_ids(*batch)[j as int] == tid(batch.transactions@[j as int]));
                assert(old(self).ids() + batch_txn_ids(*batch).take(j + 1) =~= (old(self).ids()
                    + batch_txn_ids(*batch).take(j as int)).push(
                    tid(batch.transactions@[j as int]),
                ));
            }
            j += 1;
        }
        proof {
            assert(batch_txn_ids(*batch).take(batch.transactions@.len() as int) =~= batch_txn_ids(
                *batch,
            ));
        }
        *self = scratch;
        AdmissionVerdict::Admissible
    }
}

} // verus!
