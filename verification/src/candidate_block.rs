//! The candidate-block assembler: the single-use state machine that owns
//! the batches accepted into the block under construction.
//!
//! External collaborators stay outside the assembler. The durable commit
//! store is a read-only snapshot fixed at construction. Batch injectors and
//! the validation-rule enforcer are driven by the caller through an
//! explicit admission protocol: `add_batch` either drops the batch or asks
//! the caller to poll the injectors (`PollInjectors`, only for the
//! candidate's first admissible batch) and then to evaluate the whole
//! prospective batch sequence (`EvaluateRules`); the caller reports back
//! through `provide_injected_batches` and `apply_rule_decision`, and the
//! latter returns the batches to hand to the execution scheduler.
//! `summarize` and `finalize` take the scheduler's report as a value.

use vstd::prelude::*;
use vstd::pervasive::unreached;
use crate::batch::{
    batch_ids, batch_txn_ids, batch_view_eq, batches_view_eq, bid, clone_batch, clone_batches,
    lemma_batches_view_eq_ids, lemma_batches_view_eq_trans, tdeps, tid, Batch,
};
use crate::chain_commit_state::TransactionCommitCache;
use crate::commit_store::CommitStore;
use crate::dependency::{
    admitted_txn_ids, batch_admission, batch_deps_ok, lemma_admissible_facts,
    lemma_admitted_membership, lemma_admitted_push, AdmissionVerdict,
};
use crate::encoding::{concat_id_bytes, concat_ids, hex_encode, hex_of, sha256_digest, sha256_of};
use crate::execution::{classify_batch, disposition, BatchDisposition, ExecutionResults};
use crate::ids::{contains_id, copy_id, copy_ids, id_in, ids_view};

verus! {

/// The structural failure a caller can see: asking for a block of a
/// candidate that never admitted a batch.
#[derive(PartialEq, Eq, Structural, Clone, Copy, Debug)]
pub enum CandidateBlockError {
    BlockEmpty,
}

/// The caller's report of the validation-rule enforcer's verdict on the
/// prospective batch sequence.
#[derive(Clone, Copy, Debug)]
pub enum RuleDecision {
    /// The rules accept the sequence.
    Accept,
    /// The rules reject the sequence.
    Reject,
    /// The enforcer itself failed; treated as a rejection of the batch.
    EvaluationError,
}

/// Where the assembler stands within one `add_batch` exchange.
pub enum Phase {
    /// No admission under way.
    Open,
    /// The batch passed the dependency rules, the candidate is empty, and
    /// the injectors have not been polled: the caller must poll them.
    AwaitingInjection { batch: Batch, new_cache: TransactionCommitCache },
    /// The full prospective sequence is fixed: the caller must report the
    /// rule enforcer's verdict.
    AwaitingRule { batches_to_add: Vec<Batch>, injected: usize, new_cache: TransactionCommitCache },
}

/// What `add_batch` asks of the caller.
#[derive(Debug)]
pub enum AddBatchStep {
    /// The batch or one of its transactions is already committed; dropped.
    DroppedCommitted,
    /// A transaction dependency is unsatisfied; dropped, the cache
    /// untouched.
    DroppedMissingDependency,
    /// Poll every injector for this candidate's mandatory prefix batches,
    /// then call `provide_injected_batches`.
    PollInjectors,
    /// Evaluate the carried sequence against the validation rules, then
    /// call `apply_rule_decision`.
    EvaluateRules(Vec<Batch>),
}

/// One batch to hand to the execution scheduler.
#[derive(Clone, Debug)]
pub struct ScheduleEntry {
    pub batch: Batch,
    pub injected: bool,
}

/// The block the assembler produces, short of serialization and signing:
/// the surviving batches in order, the ending state root (hex), the
/// caller's consensus payload, and the summary digest.
#[derive(Clone, Debug)]
pub struct BlockTemplate {
    pub previous_block_id: Vec<u8>,
    pub batches: Vec<Batch>,
    pub state_hash: Vec<u8>,
    pub consensus: Vec<u8>,
    pub summary: Vec<u8>,
}

/// What `finalize` reports: the block when one was produced, and always
/// the batches to resubmit, the last batch seen, and the injected batch
/// identifiers.
#[derive(Clone, Debug)]
pub struct FinalizeBlockResult {
    pub block: Option<BlockTemplate>,
    pub remaining_batches: Vec<Batch>,
    pub last_batch: Batch,
    pub injected_batch_ids: Vec<Vec<u8>>,
}

/// The candidate block under construction.
pub struct CandidateBlock {
    pub previous_block_id: Vec<u8>,
    pub commit_store: CommitStore,
    pub max_batches: usize,
    pub summary: Option<Vec<u8>>,
    pub remaining_batches: Vec<Batch>,
    pub pending_batches: Vec<Batch>,
    pub pending_batch_ids: Vec<Vec<u8>>,
    pub injected_batch_ids: Vec<Vec<u8>>,
    pub injected_len: usize,
    pub committed_txn_cache: TransactionCommitCache,
    pub injectors_polled: bool,
    pub cancelled: bool,
    pub block_batches: Vec<Batch>,
    pub state_hash: Option<Vec<u8>>,
    pub phase: Phase,
}

/// `ids` is exactly the identifier list of `pending`.
pub open spec fn ids_mirrored_in(pending: Seq<Batch>, ids: Seq<Vec<u8>>) -> bool {
    &&& ids.len() == pending.len()
    &&& forall|i: int| 0 <= i < pending.len() ==> ids[i]@ == bid(#[trigger] pending[i])
}

/// Injected batches occupy exactly the first `inj` positions of `pending`,
/// and `inj_ids` mirrors them.
pub open spec fn injected_prefix_in(pending: Seq<Batch>, inj: int, inj_ids: Seq<Vec<u8>>) -> bool {
    &&& 0 <= inj <= pending.len()
    &&& inj_ids.len() == inj
    &&& forall|i: int| 0 <= i < inj ==> inj_ids[i]@ == bid(#[trigger] pending[i])
}

/// `cache_ids` holds exactly the transaction identifiers of the externally
/// supplied (non-injected) batches of `pending`, in order.
pub open spec fn cache_mirrors_in(pending: Seq<Batch>, inj: int, cache_ids: Seq<Seq<u8>>) -> bool {
    cache_ids == admitted_txn_ids(pending.skip(inj))
}

/// No externally supplied batch of `pending`, nor any of its
/// transactions, is durably committed.
pub open spec fn no_committed_in(pending: Seq<Batch>, inj: int, store: CommitStore) -> bool {
    &&& forall|i: int|
        inj <= i < pending.len() ==> !store.has_batch(bid(#[trigger] pending[i]))
    &&& forall|i: int, j: int|
        inj <= i < pending.len() && 0 <= j < pending[i].transactions@.len() ==> !store.has_txn(
            tid(#[trigger] pending[i].transactions@[j]),
        )
}

/// Dependency `k` of transaction `j` of batch `i` is satisfied: durably
/// committed, or carried by an earlier externally supplied transaction
/// (same batch included).
pub open spec fn dep_satisfied_in(
    pending: Seq<Batch>,
    inj: int,
    store: CommitStore,
    i: int,
    j: int,
    k: int,
) -> bool {
    let d = hex_of(tdeps(pending[i].transactions@[j])[k]);
    store.has_txn(d) || (exists|i2: int, j2: int|
        inj <= i2 <= i && 0 <= j2 < pending[i2].transactions@.len() && (i2 < i || j2 < j) && tid(
            pending[i2].transactions@[j2],
        ) == d)
}

/// Every dependency of every externally supplied batch is satisfied.
pub open spec fn deps_ordered_in(pending: Seq<Batch>, inj: int, store: CommitStore) -> bool {
    forall|i: int, j: int, k: int|
        inj <= i < pending.len() && 0 <= j < pending[i].transactions@.len() && 0 <= k < tdeps(
            pending[i].transactions@[j],
        ).len() ==> #[trigger] dep_satisfied_in(pending, inj, store, i, j, k)
}

/// No two externally supplied batches of `pending` share an identifier.
pub open spec fn ids_unique_in(pending: Seq<Batch>, inj: int) -> bool {
    forall|i: int, i2: int|
        inj <= i < pending.len() && inj <= i2 < i ==> bid(#[trigger] pending[i]) != bid(
            #[trigger] pending[i2],
        )
}

/// What holds of a batch held in an in-flight admission against the
/// listed pending identifiers, cache and store: it is not a duplicate,
/// not durably committed, it passes the dependency rules, and
/// `new_cache_ids` is the cache it commits.
pub open spec fn entry_ok_in(
    pending_ids: Seq<Vec<u8>>,
    cache_ids: Seq<Seq<u8>>,
    store: CommitStore,
    b: Batch,
    new_cache_ids: Seq<Seq<u8>>,
) -> bool {
    &&& !id_in(ids_view(pending_ids), bid(b))
    &&& !store.has_batch(bid(b))
    &&& batch_deps_ok(cache_ids, store, b)
    &&& new_cache_ids == cache_ids + batch_txn_ids(b)
}

impl CandidateBlock {
    /// Dependency `k` of transaction `j` of pending batch `i` is
    /// satisfied within this candidate.
    pub open spec fn dep_satisfied_at(self, i: int, j: int, k: int) -> bool {
        dep_satisfied_in(
            self.pending_batches@,
            self.injected_len as int,
            self.commit_store,
            i,
            j,
            k,
        )
    }

    /// What holds of a batch held in an in-flight admission.
    pub open spec fn pending_entry_ok(self, b: Batch, new_cache: TransactionCommitCache) -> bool {
        entry_ok_in(
            self.pending_batch_ids@,
            self.committed_txn_cache.ids(),
            self.commit_store,
            b,
            new_cache.ids(),
        )
    }

    /// What each phase guarantees of its payload.
    pub open spec fn phase_ok(self) -> bool {
        match self.phase {
            Phase::Open => true,
            Phase::AwaitingInjection { batch, new_cache } => {
                &&& self.pending_batches@.len() == 0
                &&& self.injected_len == 0
                &&& self.injectors_polled
                &&& self.pending_entry_ok(batch, new_cache)
            },
            Phase::AwaitingRule { batches_to_add, injected, new_cache } => {
                &&& batches_to_add@.len() == injected + 1
                &&& (injected > 0 ==> self.pending_batches@.len() == 0 && self.injected_len == 0)
                &&& self.pending_entry_ok(batches_to_add@[injected as int], new_cache)
            },
        }
    }

    /// A summary is only ever computed together with a state root.
    pub open spec fn summary_consistent(self) -> bool {
        self.summary is Some ==> self.state_hash is Some
    }

    /// The assembler's well-formedness: everything constructors establish
    /// and every method preserves.
    pub open spec fn wf(self) -> bool {
        &&& ids_mirrored_in(self.pending_batches@, self.pending_batch_ids@)
        &&& injected_prefix_in(
            self.pending_batches@,
            self.injected_len as int,
            self.injected_batch_ids@,
        )
        &&& cache_mirrors_in(
            self.pending_batches@,
            self.injected_len as int,
            self.committed_txn_cache.ids(),
        )
        &&& no_committed_in(self.pending_batches@, self.injected_len as int, self.commit_store)
        &&& deps_ordered_in(self.pending_batches@, self.injected_len as int, self.commit_store)
        &&& ids_unique_in(self.pending_batches@, self.injected_len as int)
        &&& self.phase_ok()
        &&& self.summary_consistent()
    }

    /// Whether the candidate can take another batch: no summary yet, and
    /// below the cap when one is set.
    pub open spec fn spec_can_add_batch(self) -> bool {
        self.summary is None && (self.max_batches == 0 || self.pending_batches@.len()
            < self.max_batches)
    }

    /// The batch would be dropped as already committed: its identifier is
    /// pending or durable, or one of its transactions is.
    pub open spec fn spec_drop_committed(self, batch: Batch) -> bool {
        ||| id_in(ids_view(self.pending_batch_ids@), bid(batch))
        ||| self.commit_store.has_batch(bid(batch))
        ||| batch_admission(self.committed_txn_cache.ids(), self.commit_store, batch)
            is AlreadyCommitted
    }

    /// The batch would be dropped for an unsatisfied dependency.
    pub open spec fn spec_drop_missing_dep(self, batch: Batch) -> bool {
        &&& !self.spec_drop_committed(batch)
        &&& batch_admission(self.committed_txn_cache.ids(), self.commit_store, batch)
            is MissingDependency
    }

    /// The batch passes every admission check.
    pub open spec fn spec_admissible(self, batch: Batch) -> bool {
        &&& !id_in(ids_view(self.pending_batch_ids@), bid(batch))
        &&& !self.commit_store.has_batch(bid(batch))
        &&& batch_deps_ok(self.committed_txn_cache.ids(), self.commit_store, batch)
    }

    /// A fresh candidate extending `previous_block_id`, with the ledger's
    /// committed identifiers fixed in `commit_store`; `max_batches == 0`
    /// leaves the candidate unbounded.
    pub fn new(previous_block_id: Vec<u8>, commit_store: CommitStore, max_batches: usize) -> (r:
        Self)
        ensures
            r.wf(),
            r.previous_block_id == previous_block_id,
            r.commit_store == commit_store,
            r.max_batches == max_batches,
            r.summary is None,
            r.pending_batches@.len() == 0,
            r.remaining_batches@.len() == 0,
            r.injected_len == 0,
            !r.injectors_polled,
            !r.cancelled,
            r.phase is Open,
            r.spec_can_add_batch(),
    {
        let r = CandidateBlock {
            previous_block_id,
            commit_store,
            max_batches,
            summary: None,
            remaining_batches: Vec::new(),
            pending_batches: Vec::new(),
            pending_batch_ids: Vec::new(),
            injected_batch_ids: Vec::new(),
            injected_len: 0,
            committed_txn_cache: TransactionCommitCache::new(),
            injectors_polled: false,
            cancelled: false,
            block_batches: Vec::new(),
            state_hash: None,
            phase: Phase::Open,
        };
        proof {
            assert(r.pending_batches@.skip(0) =~= Seq::<Batch>::empty());
            assert(admitted_txn_ids(Seq::<Batch>::empty()) == Seq::<Seq<u8>>::empty());
        }
        r
    }

    /// The identifier of the chain-head block this candidate extends.
    pub fn previous_block_id(&self) -> (r: Vec<u8>)
        ensures
            r@ == self.previous_block_id@,
    {
        copy_id(&self.previous_block_id)
    }

    /// Whether another batch may be added.
    pub fn can_add_batch(&self) -> (r: bool)
        ensures
            r == self.spec_can_add_batch(),
    {
        self.summary.is_none() && (self.max_batches == 0 || self.pending_batches.len()
            < self.max_batches)
    }

    /// The batch admitted last, if any batch was ever admitted.
    pub fn last_batch(&self) -> (r: Option<&Batch>)
        ensures
            match r {
                Option::Some(b) => self.pending_batches@.len() > 0 && *b
                    == self.pending_batches@.last(),
                Option::None => self.pending_batches@.len() == 0,
            },
    {
        if self.pending_batches.len() == 0 {
            None
        } else {
            Some(&self.pending_batches[self.pending_batches.len() - 1])
        }
    }

    /// Marks the candidate cancelled. Always safe; the caller abandons the
    /// scheduler's speculative work alongside.
    pub fn cancel(&mut self)
        ensures
            final(self).cancelled,
            final(self).previous_block_id == old(self).previous_block_id,
            final(self).commit_store == old(self).commit_store,
            final(self).max_batches == old(self).max_batches,
            final(self).summary == old(self).summary,
            final(self).remaining_batches == old(self).remaining_batches,
            final(self).pending_batches == old(self).pending_batches,
            final(self).pending_batch_ids == old(self).pending_batch_ids,
            final(self).injected_batch_ids == old(self).injected_batch_ids,
            final(self).injected_len == old(self).injected_len,
            final(self).committed_txn_cache == old(self).committed_txn_cache,
            final(self).injectors_polled == old(self).injectors_polled,
            final(self).block_batches == old(self).block_batches,
            final(self).state_hash == old(self).state_hash,
            final(self).phase == old(self).phase,
            old(self).wf() ==> final(self).wf(),
    {
        self.cancelled = true;
    }

    /// Offers `batch` to the candidate. The caller must have seen
    /// `can_add_batch` hold. Either the batch is dropped (already
    /// committed, or a dependency is missing — the cache keeps no trace of
    /// the attempt), or the caller is asked to poll the injectors (first
    /// admissible batch only) or to evaluate the validation rules on the
    /// prospective sequence.
    pub fn add_batch(&mut self, batch: Batch) -> (step: AddBatchStep)
        requires
            old(self).wf(),
            old(self).phase is Open,
            old(self).spec_can_add_batch(),
        ensures
            final(self).wf(),
            final(self).previous_block_id == old(self).previous_block_id,
            final(self).commit_store == old(self).commit_store,
            final(self).max_batches == old(self).max_batches,
            final(self).summary == old(self).summary,
            final(self).remaining_batches == old(self).remaining_batches,
            final(self).pending_batches == old(self).pending_batches,
            final(self).pending_batch_ids == old(self).pending_batch_ids,
            final(self).injected_batch_ids == old(self).injected_batch_ids,
            final(self).injected_len == old(self).injected_len,
            final(self).committed_txn_cache == old(self).committed_txn_cache,
            final(self).cancelled == old(self).cancelled,
            final(self).block_batches == old(self).block_batches,
            final(self).state_hash == old(self).state_hash,
            (step is DroppedCommitted) == old(self).spec_drop_committed(batch),
            (step is DroppedMissingDependency) == old(self).spec_drop_missing_dep(batch),
            (step is DroppedCommitted || step is DroppedMissingDependency) ==> *final(self) == *old(
                self,
            ),
            (step is PollInjectors) == (old(self).spec_admissible(batch)
                && old(self).pending_batches@.len() == 0 && !old(self).injectors_polled),
            step is PollInjectors ==> final(self).injectors_polled && (final(self).phase matches
                Phase::AwaitingInjection { batch: b, new_cache: _ } && b == batch),
            !(step is PollInjectors) ==> final(self).injectors_polled == old(
                self,
            ).injectors_polled,
            (step matches AddBatchStep::EvaluateRules(_)) == (old(self).spec_admissible(batch) && !(
            old(self).pending_batches@.len() == 0 && !old(self).injectors_polled)),
            (step matches AddBatchStep::EvaluateRules(to_test) ==> batches_view_eq(
                to_test@,
                old(self).pending_batches@.push(batch),
            )),
            (step matches AddBatchStep::EvaluateRules(_) ==> (final(self).phase matches
                Phase::AwaitingRule { batches_to_add, injected, new_cache: _ }
                && batches_to_add@.len() == 1 && batches_to_add@[0] == batch && injected == 0)),
    {
        if contains_id(&self.pending_batch_ids, &batch.header_signature)
            || self.commit_store.contains_batch(&batch.header_signature) {
            return AddBatchStep::DroppedCommitted;
        }
        let mut new_cache = self.committed_txn_cache.duplicate();
        let verdict = new_cache.check_batch_dependencies(&batch, &self.commit_store);
        match verdict {
            AdmissionVerdict::AlreadyCommitted => {
                return AddBatchStep::DroppedCommitted;
            },
            AdmissionVerdict::MissingDependency => {
                return AddBatchStep::DroppedMissingDependency;
            },
            AdmissionVerdict::Admissible => {},
        }
        if self.pending_batches.len() == 0 && !self.injectors_polled {
            self.injectors_polled = true;
            self.phase = Phase::AwaitingInjection { batch, new_cache };
            return AddBatchStep::PollInjectors;
        }
        let mut to_test = clone_batches(&self.pending_batches);
        to_test.push(clone_batch(&batch));
        let mut batches_to_add: Vec<Batch> = Vec::new();
        batches_to_add.push(batch);
        self.phase = Phase::AwaitingRule { batches_to_add, injected: 0, new_cache };
        AddBatchStep::EvaluateRules(to_test)
    }

    /// Hands back what the injectors returned for this candidate. The
    /// injected batches are queued ahead of the triggering batch, still
    /// provisionally: the whole prospective sequence, which this returns,
    /// must now go through the validation rules.
    pub fn provide_injected_batches(&mut self, injected: Vec<Batch>) -> (to_test: Vec<Batch>)
        requires
            old(self).wf(),
            old(self).phase matches Phase::AwaitingInjection { .. },
        ensures
            final(self).wf(),
            final(self).previous_block_id == old(self).previous_block_id,
            final(self).commit_store == old(self).commit_store,
            final(self).max_batches == old(self).max_batches,
            final(self).summary == old(self).summary,
            final(self).remaining_batches == old(self).remaining_batches,
            final(self).pending_batches == old(self).pending_batches,
            final(self).pending_batch_ids == old(self).pending_batch_ids,
            final(self).injected_batch_ids == old(self).injected_batch_ids,
            final(self).injected_len == old(self).injected_len,
            final(self).committed_txn_cache == old(self).committed_txn_cache,
            final(self).injectors_polled == old(self).injectors_polled,
            final(self).cancelled == old(self).cancelled,
            final(self).block_batches == old(self).block_batches,
            final(self).state_hash == old(self).state_hash,
            (old(self).phase matches Phase::AwaitingInjection { batch: b0, new_cache: nc0 } ==> (
            final(self).phase matches Phase::AwaitingRule {
                batches_to_add,
                injected: k,
                new_cache,
            } && k as int == injected@.len() && batches_to_add@ == injected@.push(b0) && new_cache
                == nc0 && batches_view_eq(to_test@, injected@.push(b0)))),
    {
        let mut ph = Phase::Open;
        core::mem::swap(&mut self.phase, &mut ph);
        match ph {
            Phase::AwaitingInjection { batch, new_cache } => {
                let mut batches_to_add = injected;
                batches_to_add.push(batch);
                let to_test = clone_batches(&batches_to_add);
                let injected_count = batches_to_add.len() - 1;
                self.phase = Phase::AwaitingRule {
                    batches_to_add,
                    injected: injected_count,
                    new_cache,
                };
                to_test
            },
            _ => unreached(),
        }
    }

    /// Applies the rule enforcer's verdict to the admission under way. On
    /// acceptance the provisional batches (injected prefix first, then the
    /// triggering batch) join the candidate and come back as the entries
    /// to submit for speculative execution; otherwise everything
    /// provisional is discarded and the candidate is exactly as before
    /// the `add_batch` call.
    pub fn apply_rule_decision(&mut self, decision: RuleDecision) -> (scheduled: Vec<ScheduleEntry>)
        requires
            old(self).wf(),
            old(self).phase matches Phase::AwaitingRule { .. },
        ensures
            final(self).wf(),
            final(self).phase is Open,
            final(self).previous_block_id == old(self).previous_block_id,
            final(self).commit_store == old(self).commit_store,
            final(self).max_batches == old(self).max_batches,
            final(self).summary == old(self).summary,
            final(self).remaining_batches == old(self).remaining_batches,
            final(self).injectors_polled == old(self).injectors_polled,
            final(self).cancelled == old(self).cancelled,
            final(self).block_batches == old(self).block_batches,
            final(self).state_hash == old(self).state_hash,
            !(decision is Accept) ==> (final(self).pending_batches == old(self).pending_batches
                && final(self).pending_batch_ids == old(self).pending_batch_ids
                && final(self).injected_batch_ids == old(self).injected_batch_ids
                && final(self).injected_len == old(self).injected_len
                && final(self).committed_txn_cache == old(self).committed_txn_cache
                && scheduled@.len() == 0),
            decision is Accept ==> (old(self).phase matches Phase::AwaitingRule {
                batches_to_add,
                injected: k,
                new_cache,
            } ==> (final(self).pending_batches@ == old(self).pending_batches@ + batches_to_add@
                && final(self).injected_len as int == old(self).injected_len + k
                && final(self).committed_txn_cache.ids() == new_cache.ids()
                && scheduled@.len() == batches_to_add@.len()
                && (forall|i: int|
                    0 <= i < batches_to_add@.len() ==> batch_view_eq(
                        (#[trigger] scheduled@[i]).batch,
                        batches_to_add@[i],
                    ))
                && (forall|i: int|
                    0 <= i < batches_to_add@.len() ==> ((#[trigger] scheduled@[i]).injected == (i
                        < k))))),
    {
        let mut ph = Phase::Open;
        core::mem::swap(&mut self.phase, &mut ph);
        match ph {
            Phase::AwaitingRule { mut batches_to_add, injected, new_cache } => {
                match decision {
                    RuleDecision::Accept => {},
                    _ => {
                        return Vec::new();
                    },
                }
                let ghost ba0 = batches_to_add@;
                let ghost pending0 = self.pending_batches@;
                let ghost ids0 = self.pending_batch_ids@;
                let ghost inj_ids0 = self.injected_batch_ids@;
                let ghost inj0 = old(self).injected_len as int;
                let ghost k = injected as int;
                let mut scheduled: Vec<ScheduleEntry> = Vec::new();
                let total: usize = batches_to_add.len();
                let mut idx: usize = 0;
                while batches_to_add.len() > 0
                    invariant
                        0 <= idx,
                        k == injected as int,
                        ba0.len() == total as int,
                        idx as int + batches_to_add@.len() == ba0.len(),
                        batches_to_add@ == ba0.skip(idx as int),
                        self.pending_batches@ == pending0 + ba0.take(idx as int),
                        self.pending_batch_ids@.len() == ids0.len() + idx,
                        forall|i: int|
                            0 <= i < ids0.len() ==> self.pending_batch_ids@[i] == ids0[i],
                        forall|i: int|
                            0 <= i < idx ==> self.pending_batch_ids@[ids0.len() + i]@ == bid(
                                ba0[i],
                            ),
                        self.injected_batch_ids@.len() == inj_ids0.len() + (if idx as int <= k {
                            idx as int
                        } else {
                            k
                        }),
                        forall|i: int|
                            0 <= i < inj_ids0.len() ==> self.injected_batch_ids@[i] == inj_ids0[i],
                        forall|i: int|
                            0 <= i < idx && i < k ==> self.injected_batch_ids@[inj_ids0.len()
                                + i]@ == bid(ba0[i]),
                        scheduled@.len() == idx,
                        forall|i: int|
                            0 <= i < idx ==> batch_view_eq(
                                (#[trigger] scheduled@[i]).batch,
                                ba0[i],
                            ),
                        forall|i: int| 0 <= i < idx ==> ((#[trigger] scheduled@[i]).injected == (i < k)),
                        self.previous_block_id == old(self).previous_block_id,
                        self.commit_store == old(self).commit_store,
                        self.max_batches == old(self).max_batches,
                        self.summary == old(self).summary,
                        self.remaining_batches == old(self).remaining_batches,
                        self.injected_len == old(self).injected_len,
                        self.committed_txn_cache == old(self).committed_txn_cache,
                        self.injectors_polled == old(self).injectors_polled,
                        self.cancelled == old(self).cancelled,
                        self.block_batches == old(self).block_batches,
                        self.state_hash == old(self).state_hash,
                        self.phase is Open,
                    decreases batches_to_add@.len(),
                {
                    proof {
                        assert(ba0.skip(idx as int)[0] == ba0[idx as int]);
                        assert(ba0.skip(idx as int).remove(0) =~= ba0.skip(idx as int + 1));
                    }
                    let b = batches_to_add.remove(0);
                    proof {
                        assert(b == ba0[idx as int]);
                    }
                    let is_injected = idx < injected;
                    if is_injected {
                        self.injected_batch_ids.push(copy_id(&b.header_signature));
                        proof {
                            assert(self.injected_batch_ids@.len() == inj_ids0.len() + idx + 1);
                            assert(self.injected_batch_ids@[inj_ids0.len() + idx as int]@ == bid(
                                ba0[idx as int],
                            ));
                        }
                    }
                    self.pending_batch_ids.push(copy_id(&b.header_signature));
                    scheduled.push(ScheduleEntry { batch: clone_batch(&b), injected: is_injected });
                    self.pending_batches.push(b);
                    proof {
                        assert(pending0 + ba0.take(idx as int + 1) =~= (pending0 + ba0.take(
                            idx as int,
                        )).push(ba0[idx as int]));
                    }
                    idx += 1;
                }
                if injected > 0 {
                    proof {
                        assert(inj0 == 0);
                    }
                    self.injected_len = injected;
                }
                self.committed_txn_cache = new_cache;
                proof {
                    assert(ba0.take(ba0.len() as int) =~= ba0);
                    assert(self.pending_batches@ == pending0 + ba0);
                    lemma_accept_wf(
                        pending0,
                        ids0,
                        inj_ids0,
                        inj0,
                        old(self).committed_txn_cache.ids(),
                        self.commit_store,
                        ba0,
                        k,
                        self.committed_txn_cache.ids(),
                        self.pending_batches@,
                        self.pending_batch_ids@,
                        self.injected_batch_ids@,
                        self.injected_len as int,
                    );
                }
                scheduled
            },
            _ => unreached(),
        }
    }

    /// Computes (or returns) the candidate's summary from the scheduler's
    /// report. An existing summary comes back unchanged, whatever
    /// `results` says. An empty unforced candidate is `BlockEmpty`.
    /// Otherwise the pending batches are reconciled in order against a
    /// fresh cache; "no block" (an empty result) is reported when the walk
    /// stops on a missing dependency, no externally supplied batch
    /// survives, no state root was produced, or the block came out empty;
    /// else the summary is the SHA-256 digest over the ordered surviving
    /// batch identifiers. Batches to resubmit are kept for `finalize`.
    pub fn summarize(&mut self, force: bool, results: &ExecutionResults) -> (r: Result<
        Option<Vec<u8>>,
        CandidateBlockError,
    >)
        requires
            old(self).wf(),
            old(self).phase is Open,
        ensures
            final(self).wf(),
            final(self).phase is Open,
            final(self).previous_block_id == old(self).previous_block_id,
            final(self).commit_store == old(self).commit_store,
            final(self).max_batches == old(self).max_batches,
            final(self).pending_batches == old(self).pending_batches,
            final(self).pending_batch_ids == old(self).pending_batch_ids,
            final(self).injected_batch_ids == old(self).injected_batch_ids,
            final(self).injected_len == old(self).injected_len,
            final(self).committed_txn_cache == old(self).committed_txn_cache,
            final(self).injectors_polled == old(self).injectors_polled,
            final(self).cancelled == old(self).cancelled,
            old(self).summary is Some ==> (*final(self) == *old(self) && (r matches Ok(s)
                && s matches Some(v) && v@ == old(self).summary.unwrap()@)),
            (r is Err) == (old(self).summary is None && !force
                && old(self).pending_batches@.len() == 0),
            r is Err ==> *final(self) == *old(self),
            (old(self).summary is None && (force || old(self).pending_batches@.len() > 0)) ==> ({
                let out = spec_reconcile(
                    old(self).pending_batches@,
                    old(self).injected_len as int,
                    old(self).commit_store,
                    *results,
                );
                &&& (out.bailed ==> (r matches Ok(o) && o is None
                    && final(self).summary is None
                    && batches_view_eq(final(self).remaining_batches@, out.remaining)
                    && final(self).block_batches == old(self).block_batches
                    && final(self).state_hash == old(self).state_hash))
                &&& ((!out.bailed && (!out.external_added || results.ending_state_hash is None
                    || out.block.len() == 0)) ==> (r matches Ok(o) && o is None
                    && final(self).summary is None
                    && batches_view_eq(final(self).remaining_batches@, out.remaining)
                    && final(self).block_batches == old(self).block_batches
                    && final(self).state_hash == old(self).state_hash))
                &&& ((!out.bailed && out.external_added && results.ending_state_hash is Some
                    && out.block.len() > 0) ==> ((r matches Ok(o) && o matches Some(v)
                    && v@ == sha256_of(concat_ids(batch_ids(out.block))))
                    && (final(self).summary matches Some(s)
                    && s@ == sha256_of(concat_ids(batch_ids(out.block))))
                    && batches_view_eq(final(self).block_batches@, out.block)
                    && (final(self).state_hash matches Some(h)
                    && h@ == hex_of(results.ending_state_hash.unwrap()@))
                    && batches_view_eq(final(self).remaining_batches@, out.remaining)))
            }),
    {
        if self.summary.is_some() {
            let s = copy_id(self.summary.as_ref().unwrap());
            return Ok(Some(s));
        }
        if !force && self.pending_batches.len() == 0 {
            return Err(CandidateBlockError::BlockEmpty);
        }
        let ghost gp = old(self).pending_batches@;
        let ghost gj = old(self).injected_len as int;
        let mut recon_cache = TransactionCommitCache::new();
        let mut block: Vec<Batch> = Vec::new();
        let mut remaining: Vec<Batch> = Vec::new();
        let ghost mut gblock: Seq<Batch> = Seq::empty();
        let ghost mut gremaining: Seq<Batch> = Seq::empty();
        let mut ext_added: bool = false;
        let mut i: usize = 0;
        while i < self.pending_batches.len()
            invariant
                *self == *old(self),
                old(self).wf(),
                old(self).phase is Open,
                old(self).summary is None,
                0 <= i <= old(self).pending_batches@.len(),
                spec_reconcile(gp, gj, old(self).commit_store, *results) == recon_from(
                    gp,
                    gj,
                    old(self).commit_store,
                    *results,
                    i as int,
                    recon_cache.ids(),
                    gblock,
                    gremaining,
                    ext_added,
                ),
                gp == old(self).pending_batches@,
                gj == old(self).injected_len as int,
                batches_view_eq(block@, gblock),
                batches_view_eq(remaining@, gremaining),
            decreases old(self).pending_batches@.len() - i,
        {
            let ghost cache_pre = recon_cache.ids();
            let ghost gblock_pre = gblock;
            let ghost grem_pre = gremaining;
            let ghost ext_pre = ext_added;
            let b = &self.pending_batches[i];
            proof {
                assert(*b == gp[i as int]);
            }
            let disp = classify_batch(results, &b.header_signature);
            match disp {
                BatchDisposition::NoResult => {
                    if i >= self.injected_len {
                        remaining.push(clone_batch(b));
                        proof {
                            gremaining = gremaining.push(gp[i as int]);
                        }
                    }
                    proof {
                        assert(recon_from(
                            gp,
                            gj,
                            old(self).commit_store,
                            *results,
                            i as int,
                            cache_pre,
                            gblock_pre,
                            grem_pre,
                            ext_pre,
                        ) == recon_from(
                            gp,
                            gj,
                            old(self).commit_store,
                            *results,
                            i + 1,
                            recon_cache.ids(),
                            gblock,
                            gremaining,
                            ext_added,
                        ));
                    }
                },
                BatchDisposition::Valid => {
                    let verdict = recon_cache.check_batch_dependencies(b, &self.commit_store);
                    match verdict {
                        AdmissionVerdict::Admissible => {
                            block.push(clone_batch(b));
                            if i >= self.injected_len {
                                ext_added = true;
                            }
                            proof {
                                gblock = gblock.push(gp[i as int]);
                                assert(recon_from(
                                    gp,
                                    gj,
                                    old(self).commit_store,
                                    *results,
                                    i as int,
                                    cache_pre,
                                    gblock_pre,
                                    grem_pre,
                                    ext_pre,
                                ) == recon_from(
                                    gp,
                                    gj,
                                    old(self).commit_store,
                                    *results,
                                    i + 1,
                                    recon_cache.ids(),
                                    gblock,
                                    gremaining,
                                    ext_added,
                                ));
                            }
                        },
                        _ => {
                            // The dependency walk failed: stop, defer the
                            // retryable batches, and report no block.
                            proof {
                                assert(spec_reconcile(gp, gj, old(self).commit_store, *results)
                                    == (ReconOutcome {
                                    bailed: true,
                                    block: gblock_pre,
                                    remaining: bail_remaining_from(
                                        gp,
                                        gj,
                                        *results,
                                        i as int,
                                        0,
                                    ),
                                    external_added: ext_pre,
                                }));
                            }
                            let ghost upto = i as int;
                            let mut rem2: Vec<Batch> = Vec::new();
                            let ghost mut grem2: Seq<Batch> = Seq::empty();
                            let mut j: usize = 0;
                            while j < self.pending_batches.len()
                                invariant
                                    *self == *old(self),
                                    old(self).wf(),
                                    old(self).phase is Open,
                                    old(self).summary is None,
                                    0 <= j <= gp.len(),
                                    gp == old(self).pending_batches@,
                                    gj == old(self).injected_len as int,
                                    0 <= upto <= gp.len(),
                                    bail_remaining_from(gp, gj, *results, upto, 0) == grem2
                                        + bail_remaining_from(gp, gj, *results, upto, j as int),
                                    upto == i as int,
                                    batches_view_eq(rem2@, grem2),
                                decreases gp.len() - j,
                            {
                                let ghost grem2_pre = grem2;
                                let b2 = &self.pending_batches[j];
                                proof {
                                    assert(*b2 == gp[j as int]);
                                }
                                let mut keep: bool = true;
                                if j < self.injected_len {
                                    keep = false;
                                } else if j < i {
                                    let d2 = classify_batch(results, &b2.header_signature);
                                    match d2 {
                                        BatchDisposition::Invalid => {
                                            keep = false;
                                        },
                                        _ => {},
                                    }
                                }
                                if keep {
                                    rem2.push(clone_batch(b2));
                                    proof {
                                        grem2 = grem2.push(gp[j as int]);
                                        assert(grem2_pre + (seq![gp[j as int]]
                                            + bail_remaining_from(
                                            gp,
                                            gj,
                                            *results,
                                            upto,
                                            j + 1,
                                        )) =~= grem2 + bail_remaining_from(
                                            gp,
                                            gj,
                                            *results,
                                            upto,
                                            j + 1,
                                        ));
                                    }
                                }
                                proof {
                                    assert(bail_remaining_from(gp, gj, *results, upto, j as int)
                                        == (if (j as int) < gj {
                                        bail_remaining_from(gp, gj, *results, upto, j + 1)
                                    } else if (j as int) < upto && disposition(
                                        *results,
                                        bid(gp[j as int]),
                                    ) is Invalid {
                                        bail_remaining_from(gp, gj, *results, upto, j + 1)
                                    } else {
                                        seq![gp[j as int]] + bail_remaining_from(
                                            gp,
                                            gj,
                                            *results,
                                            upto,
                                            j + 1,
                                        )
                                    }));
                                }
                                j += 1;
                            }
                            proof {
                                assert(bail_remaining_from(gp, gj, *results, upto, gp.len() as int)
                                    == Seq::<Batch>::empty());
                                assert(grem2 + Seq::<Batch>::empty() =~= grem2);
                            }
                            self.remaining_batches = rem2;
                            return Ok(None);
                        },
                    }
                },
                BatchDisposition::Invalid => {
                    proof {
                        assert(recon_from(
                            gp,
                            gj,
                            old(self).commit_store,
                            *results,
                            i as int,
                            cache_pre,
                            gblock_pre,
                            grem_pre,
                            ext_pre,
                        ) == recon_from(
                            gp,
                            gj,
                            old(self).commit_store,
                            *results,
                            i + 1,
                            recon_cache.ids(),
                            gblock,
                            gremaining,
                            ext_added,
                        ));
                    }
                },
            }
            i += 1;
        }
        self.remaining_batches = remaining;
        let no_root = results.ending_state_hash.is_none();
        if !ext_added || no_root || block.len() == 0 {
            return Ok(None);
        }
        let root = results.ending_state_hash.as_ref().unwrap();
        self.state_hash = Some(hex_encode(root));
        let mut block_ids: Vec<Vec<u8>> = Vec::new();
        let mut t: usize = 0;
        while t < block.len()
            invariant
                0 <= t <= block@.len(),
                block_ids@.len() == t,
                forall|t2: int| 0 <= t2 < t ==> block_ids@[t2]@ == bid(block@[t2]),
            decreases block@.len() - t,
        {
            block_ids.push(copy_id(&block[t].header_signature));
            t += 1;
        }
        proof {
            assert(ids_view(block_ids@) =~= batch_ids(block@));
            lemma_batches_view_eq_ids(block@, gblock);
        }
        let flat = concat_id_bytes(&block_ids);
        let digest = sha256_digest(&flat);
        let out = copy_id(&digest);
        self.summary = Some(digest);
        self.block_batches = block;
        Ok(Some(out))
    }

    /// The caller-facing result: `BlockEmpty` when no batch was ever
    /// admitted, else the block handed in (if any) together with the
    /// batches to resubmit, the last batch seen, and the injected batch
    /// identifiers.
    fn build_result(&self, block: Option<BlockTemplate>) -> (r: Result<
        FinalizeBlockResult,
        CandidateBlockError,
    >)
        ensures
            (r is Err) == (self.pending_batches@.len() == 0),
            r matches Ok(res) ==> (res.block == block && batches_view_eq(
                res.remaining_batches@,
                self.remaining_batches@,
            ) && self.pending_batches@.len() > 0 && batch_view_eq(
                res.last_batch,
                self.pending_batches@.last(),
            ) && ids_view(res.injected_batch_ids@) == ids_view(self.injected_batch_ids@)),
    {
        if self.pending_batches.len() == 0 {
            return Err(CandidateBlockError::BlockEmpty);
        }
        let last = clone_batch(&self.pending_batches[self.pending_batches.len() - 1]);
        Ok(FinalizeBlockResult {
            block,
            remaining_batches: clone_batches(&self.remaining_batches),
            last_batch: last,
            injected_batch_ids: copy_ids(&self.injected_batch_ids),
        })
    }

    /// Seals the candidate: summarizes if not yet done, and on a produced
    /// block attaches the caller's consensus payload to the template. The
    /// result always reports the batches to resubmit, the last batch seen
    /// and the injected identifiers; it fails with `BlockEmpty` exactly
    /// when no batch was ever admitted.
    pub fn finalize(&mut self, consensus_data: Vec<u8>, force: bool, results: &ExecutionResults)
        -> (r: Result<FinalizeBlockResult, CandidateBlockError>)
        requires
            old(self).wf(),
            old(self).phase is Open,
        ensures
            final(self).wf(),
            final(self).phase is Open,
            final(self).previous_block_id == old(self).previous_block_id,
            final(self).commit_store == old(self).commit_store,
            final(self).max_batches == old(self).max_batches,
            final(self).pending_batches == old(self).pending_batches,
            final(self).pending_batch_ids == old(self).pending_batch_ids,
            final(self).injected_batch_ids == old(self).injected_batch_ids,
            final(self).injected_len == old(self).injected_len,
            final(self).committed_txn_cache == old(self).committed_txn_cache,
            final(self).injectors_polled == old(self).injectors_polled,
            final(self).cancelled == old(self).cancelled,
            (r is Err) == (old(self).pending_batches@.len() == 0),
            old(self).summary is Some ==> *final(self) == *old(self),
            r matches Ok(res) ==> (batches_view_eq(
                res.remaining_batches@,
                final(self).remaining_batches@,
            ) && batch_view_eq(res.last_batch, old(self).pending_batches@.last())
                && ids_view(res.injected_batch_ids@) == ids_view(old(self).injected_batch_ids@)
                && ((res.block is Some) <==> (final(self).summary is Some))),
            r matches Ok(res) ==> (res.block matches Some(t) ==> (t.previous_block_id@
                == old(self).previous_block_id@
                && batches_view_eq(t.batches@, final(self).block_batches@)
                && (final(self).state_hash matches Some(h) && t.state_hash@ == h@)
                && t.consensus@ == consensus_data@
                && (final(self).summary matches Some(s) && t.summary@ == s@))),
            (old(self).summary is None && old(self).pending_batches@.len() > 0) ==> ({
                let out = spec_reconcile(
                    old(self).pending_batches@,
                    old(self).injected_len as int,
                    old(self).commit_store,
                    *results,
                );
                &&& ((out.bailed || !out.external_added || results.ending_state_hash is None
                    || out.block.len() == 0) ==> (r matches Ok(res) && res.block is None
                    && batches_view_eq(res.remaining_batches@, out.remaining)))
                &&& ((!out.bailed && out.external_added && results.ending_state_hash is Some
                    && out.block.len() > 0) ==> (r matches Ok(res) && res.block matches Some(t)
                    && batches_view_eq(t.batches@, out.block)
                    && t.summary@ == sha256_of(concat_ids(batch_ids(out.block)))
                    && batches_view_eq(res.remaining_batches@, out.remaining)))
            }),
    {
        let ghost out = spec_reconcile(
            old(self).pending_batches@,
            old(self).injected_len as int,
            old(self).commit_store,
            *results,
        );
        match self.summarize(force, results) {
            Err(e) => {
                return Err(e);
            },
            Ok(_) => {},
        }
        if self.summary.is_none() {
            let res = self.build_result(None);
            proof {
                if old(self).summary is None && old(self).pending_batches@.len() > 0 {
                    match &res {
                        Ok(rr) => {
                            lemma_batches_view_eq_trans(
                                rr.remaining_batches@,
                                self.remaining_batches@,
                                out.remaining,
                            );
                        },
                        _ => {},
                    }
                }
            }
            return res;
        }
        let t = BlockTemplate {
            previous_block_id: copy_id(&self.previous_block_id),
            batches: clone_batches(&self.block_batches),
            state_hash: copy_id(self.state_hash.as_ref().unwrap()),
            consensus: consensus_data,
            summary: copy_id(self.summary.as_ref().unwrap()),
        };
        let ghost tbatches = t.batches@;
        let res = self.build_result(Some(t));
        proof {
            if old(self).summary is None && old(self).pending_batches@.len() > 0 && !out.bailed
                && out.external_added && results.ending_state_hash is Some && out.block.len() > 0 {
                match &res {
                    Ok(rr) => {
                        lemma_batches_view_eq_trans(tbatches, self.block_batches@, out.block);
                        lemma_batches_view_eq_trans(
                            rr.remaining_batches@,
                            self.remaining_batches@,
                            out.remaining,
                        );
                    },
                    _ => {},
                }
            }
        }
        res
    }
}

/// What one reconciliation pass yields: whether it stopped on an
/// unsatisfied dependency, the batches folded into the block, the batches
/// to resubmit, and whether any externally supplied batch made it in.
pub struct ReconOutcome {
    pub bailed: bool,
    pub block: Seq<Batch>,
    pub remaining: Seq<Batch>,
    pub external_added: bool,
}

/// The batches deferred to the next candidate when reconciliation stops at
/// position `upto`: every pending batch except the injected ones (never
/// retried) and those already seen to carry an invalid transaction.
pub open spec fn bail_remaining_from(
    pending: Seq<Batch>,
    inj: int,
    results: ExecutionResults,
    upto: int,
    i: int,
) -> Seq<Batch>
    decreases pending.len() - i,
{
    if i < 0 || i >= pending.len() {
        Seq::empty()
    } else {
        let rest = bail_remaining_from(pending, inj, results, upto, i + 1);
        if i < inj {
            rest
        } else if i < upto && disposition(results, bid(pending[i])) is Invalid {
            rest
        } else {
            seq![pending[i]] + rest
        }
    }
}

/// One reconciliation walk from position `i`, carrying the fresh
/// reconciliation cache and the accumulated block, deferred batches and
/// external-batch flag. Batches with no result are deferred (dropped when
/// injected); valid batches are re-checked for dependencies against the
/// surviving prefix and folded in, or the walk stops; batches with an
/// invalid transaction are discarded.
pub open spec fn recon_from(
    pending: Seq<Batch>,
    inj: int,
    store: CommitStore,
    results: ExecutionResults,
    i: int,
    cache: Seq<Seq<u8>>,
    block: Seq<Batch>,
    remaining: Seq<Batch>,
    ext: bool,
) -> ReconOutcome
    decreases pending.len() - i,
{
    if i < 0 || i >= pending.len() {
        ReconOutcome { bailed: false, block, remaining, external_added: ext }
    } else {
        let b = pending[i];
        let disp = disposition(results, bid(b));
        if disp is NoResult {
            if i >= inj {
                recon_from(pending, inj, store, results, i + 1, cache, block, remaining.push(b), ext)
            } else {
                recon_from(pending, inj, store, results, i + 1, cache, block, remaining, ext)
            }
        } else if disp is Valid {
            if batch_deps_ok(cache, store, b) {
                recon_from(
                    pending,
                    inj,
                    store,
                    results,
                    i + 1,
                    cache + batch_txn_ids(b),
                    block.push(b),
                    remaining,
                    ext || i >= inj,
                )
            } else {
                ReconOutcome {
                    bailed: true,
                    block,
                    remaining: bail_remaining_from(pending, inj, results, i, 0),
                    external_added: ext,
                }
            }
        } else {
            recon_from(pending, inj, store, results, i + 1, cache, block, remaining, ext)
        }
    }
}

/// The full reconciliation of `pending` under `results`, from an empty
/// reconciliation cache seeded by the durable store alone.
pub open spec fn spec_reconcile(
    pending: Seq<Batch>,
    inj: int,
    store: CommitStore,
    results: ExecutionResults,
) -> ReconOutcome {
    recon_from(
        pending,
        inj,
        store,
        results,
        0,
        Seq::empty(),
        Seq::empty(),
        Seq::empty(),
        false,
    )
}

/// Appending an accepted admission (injected prefix, then the checked
/// external batch) to a well-formed candidate keeps every structural
/// invariant.
proof fn lemma_accept_wf(
    pending0: Seq<Batch>,
    ids0: Seq<Vec<u8>>,
    inj_ids0: Seq<Vec<u8>>,
    inj0: int,
    cache0: Seq<Seq<u8>>,
    store: CommitStore,
    ba0: Seq<Batch>,
    k: int,
    new_cache_ids: Seq<Seq<u8>>,
    pending1: Seq<Batch>,
    ids1: Seq<Vec<u8>>,
    inj_ids1: Seq<Vec<u8>>,
    inj1: int,
)
    requires
        ids_mirrored_in(pending0, ids0),
        injected_prefix_in(pending0, inj0, inj_ids0),
        cache_mirrors_in(pending0, inj0, cache0),
        no_committed_in(pending0, inj0, store),
        deps_ordered_in(pending0, inj0, store),
        ids_unique_in(pending0, inj0),
        0 <= k,
        ba0.len() == k + 1,
        k > 0 ==> pending0.len() == 0 && inj0 == 0,
        entry_ok_in(ids0, cache0, store, ba0[k], new_cache_ids),
        pending1 == pending0 + ba0,
        ids1.len() == ids0.len() + ba0.len(),
        forall|i: int| 0 <= i < ids0.len() ==> ids1[i] == ids0[i],
        forall|i: int| 0 <= i < ba0.len() ==> ids1[ids0.len() + i]@ == bid(ba0[i]),
        inj_ids1.len() == inj_ids0.len() + k,
        forall|i: int| 0 <= i < inj_ids0.len() ==> inj_ids1[i] == inj_ids0[i],
        forall|i: int| 0 <= i < k ==> inj_ids1[inj_ids0.len() + i]@ == bid(ba0[i]),
        inj1 == inj0 + k,
    ensures
        ids_mirrored_in(pending1, ids1),
        injected_prefix_in(pending1, inj1, inj_ids1),
        cache_mirrors_in(pending1, inj1, new_cache_ids),
        no_committed_in(pending1, inj1, store),
        deps_ordered_in(pending1, inj1, store),
        ids_unique_in(pending1, inj1),
{
    let n0 = pending0.len() as int;
    let ext = ba0[k];
    let ei = n0 + k;
    assert(pending1.len() == n0 + k + 1);
    assert(forall|i: int| 0 <= i < n0 ==> pending1[i] == pending0[i]);
    assert(forall|i: int| n0 <= i < pending1.len() ==> pending1[i] == ba0[i - n0]);
    assert(pending1[ei] == ext);
    lemma_admissible_facts(cache0, store, ext, 0);

    // The identifier mirror extends index by index.
    assert forall|i: int| 0 <= i < pending1.len() implies ids1[i]@ == bid(
        #[trigger] pending1[i],
    ) by {
        if i >= n0 {
            assert(ids1[ids0.len() + (i - n0)]@ == bid(ba0[i - n0]));
        }
    }

    // The injected prefix: old entries stay, new injected batches stand at
    // the front of an otherwise empty candidate.
    assert forall|i: int| 0 <= i < inj1 implies inj_ids1[i]@ == bid(#[trigger] pending1[i]) by {
        if i < inj0 {
            assert(inj_ids1[i] == inj_ids0[i]);
        } else {
            assert(inj0 == 0 && n0 == 0);
            assert(inj_ids1[inj_ids0.len() + i]@ == bid(ba0[i]));
        }
    }

    // The cache gains exactly the external batch's transaction ids.
    if k == 0 {
        assert(pending1.skip(inj1) =~= pending0.skip(inj0).push(ext));
        lemma_admitted_push(pending0.skip(inj0), ext);
    } else {
        assert(pending1.skip(inj1) =~= ba0.skip(k));
        assert(ba0.skip(k) =~= Seq::<Batch>::empty().push(ext));
        lemma_admitted_push(Seq::<Batch>::empty(), ext);
        assert(admitted_txn_ids(Seq::<Batch>::empty()) == Seq::<Seq<u8>>::empty());
        assert(pending0.skip(inj0) =~= Seq::<Batch>::empty());
        assert(cache0 =~= Seq::<Seq<u8>>::empty());
        assert(admitted_txn_ids(pending1.skip(inj1)) =~= cache0 + batch_txn_ids(ext));
    }
    assert(new_cache_ids == admitted_txn_ids(pending1.skip(inj1)));

    // Nothing committed is admitted: old entries carry over, the external
    // batch was checked against the store.
    assert forall|i: int| inj1 <= i < pending1.len() implies !store.has_batch(
        bid(#[trigger] pending1[i]),
    ) by {
        if i < n0 {
            assert(!store.has_batch(bid(pending0[i])));
        } else {
            assert(i == ei);
        }
    }
    assert forall|i: int, j: int|
        inj1 <= i < pending1.len() && 0 <= j
            < pending1[i].transactions@.len() implies !store.has_txn(
        tid(#[trigger] pending1[i].transactions@[j]),
    ) by {
        if i < n0 {
            assert(!store.has_txn(tid(pending0[i].transactions@[j])));
        } else {
            assert(i == ei);
            assert(!store.has_txn(tid(ext.transactions@[j])));
        }
    }

    // Dependency ordering: old witnesses carry over; the external batch's
    // dependencies resolve through the store, the cache (an earlier
    // non-injected batch), or an earlier transaction of the same batch.
    assert forall|i: int, j: int, kk: int|
        inj1 <= i < pending1.len() && 0 <= j < pending1[i].transactions@.len() && 0 <= kk < tdeps(
            pending1[i].transactions@[j],
        ).len() implies #[trigger] dep_satisfied_in(pending1, inj1, store, i, j, kk) by {
        let d = hex_of(tdeps(pending1[i].transactions@[j])[kk]);
        if i < n0 {
            assert(k == 0);
            assert(dep_satisfied_in(pending0, inj0, store, i, j, kk));
            if !store.has_txn(d) {
                let (i2, j2) = choose|i2: int, j2: int|
                    inj0 <= i2 <= i && 0 <= j2 < pending0[i2].transactions@.len() && (i2 < i || j2
                        < j) && tid(pending0[i2].transactions@[j2]) == d;
                assert(pending1[i2] == pending0[i2]);
                assert(inj1 <= i2 <= i && 0 <= j2 < pending1[i2].transactions@.len() && (i2 < i
                    || j2 < j) && tid(pending1[i2].transactions@[j2]) == d);
            }
        } else {
            assert(i == ei);
            assert(pending1[i].transactions@ == ext.transactions@);
            assert(id_in(cache0, d) || store.has_txn(d) || (exists|j3: int|
                0 <= j3 < j && tid(ext.transactions@[j3]) == d));
            if id_in(cache0, d) {
                lemma_admitted_membership(pending0.skip(inj0), d);
                let (a, b2) = choose|a: int, b2: int|
                    0 <= a < pending0.skip(inj0).len() && 0 <= b2 < pending0.skip(
                        inj0,
                    )[a].transactions@.len() && tid(pending0.skip(inj0)[a].transactions@[b2]) == d;
                assert(k == 0);
                let i2 = inj0 + a;
                assert(pending0.skip(inj0)[a] == pending0[i2]);
                assert(pending1[i2] == pending0[i2]);
                assert(inj1 <= i2 <= i && 0 <= b2 < pending1[i2].transactions@.len() && i2 < i
                    && tid(pending1[i2].transactions@[b2]) == d);
            } else if !store.has_txn(d) {
                let j3 = choose|j3: int| 0 <= j3 < j && tid(ext.transactions@[j3]) == d;
                assert(inj1 <= ei <= i && 0 <= j3 < pending1[ei].transactions@.len() && j3 < j
                    && tid(pending1[ei].transactions@[j3]) == d);
            }
        }
    }

    // Identifier uniqueness among the externally supplied batches.
    assert forall|i: int, i2: int|
        inj1 <= i < pending1.len() && inj1 <= i2 < i implies bid(#[trigger] pending1[i]) != bid(
        #[trigger] pending1[i2],
    ) by {
        if i < n0 {
            assert(bid(pending0[i]) != bid(pending0[i2]));
        } else {
            assert(i == ei);
            assert(i2 < n0);
            if bid(pending1[i]) == bid(pending1[i2]) {
                assert(ids_view(ids0)[i2] == ids0[i2]@);
                assert(ids_view(ids0)[i2] == bid(ext));
                assert(id_in(ids_view(ids0), bid(ext)));
            }
        }
    }
}

/// No double-commit: under the assembler's invariant, no transaction the
/// commit store reports committed stands in any externally supplied
/// pending batch.
pub proof fn lemma_no_double_commit(cb: CandidateBlock)
    requires
        cb.wf(),
    ensures
        forall|i: int, j: int|
            cb.injected_len <= i < cb.pending_batches@.len() && 0 <= j
                < cb.pending_batches@[i].transactions@.len() ==> !cb.commit_store.has_txn(
                tid(#[trigger] cb.pending_batches@[i].transactions@[j]),
            ),
        forall|i: int|
            cb.injected_len <= i < cb.pending_batches@.len() ==> !cb.commit_store.has_batch(
                bid(#[trigger] cb.pending_batches@[i]),
            ),
{
}

/// Dependency ordering: under the assembler's invariant, every dependency
/// of every transaction of an externally supplied pending batch is durably
/// committed or carried by an earlier transaction of the candidate.
pub proof fn lemma_dependency_ordering(cb: CandidateBlock, i: int, j: int, k: int)
    requires
        cb.wf(),
        cb.injected_len <= i < cb.pending_batches@.len(),
        0 <= j < cb.pending_batches@[i].transactions@.len(),
        0 <= k < tdeps(cb.pending_batches@[i].transactions@[j]).len(),
    ensures
        ({
            let d = hex_of(tdeps(cb.pending_batches@[i].transactions@[j])[k]);
            cb.commit_store.has_txn(d) || (exists|i2: int, j2: int|
                0 <= i2 <= i && 0 <= j2 < cb.pending_batches@[i2].transactions@.len() && (i2 < i
                    || j2 < j) && tid(cb.pending_batches@[i2].transactions@[j2]) == d)
        }),
{
    assert(cb.dep_satisfied_at(i, j, k));
}

/// Once a bounded candidate holds `max_batches` batches, `can_add_batch`
/// is false.
pub proof fn lemma_max_batches_enforcement(cb: CandidateBlock)
    requires
        cb.max_batches > 0,
        cb.pending_batches@.len() >= cb.max_batches,
    ensures
        !cb.spec_can_add_batch(),
{
}

} // verus!
