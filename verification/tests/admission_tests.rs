use candidate_block::batch::{Batch, Transaction};
use candidate_block::candidate_block::{AddBatchStep, CandidateBlock, RuleDecision};
use candidate_block::commit_store::CommitStore;

fn id(s: &str) -> Vec<u8> {
    s.as_bytes().to_vec()
}

fn txn(sig: &str, deps: &[&str]) -> Transaction {
    Transaction {
        header_signature: id(sig),
        dependencies: deps.iter().map(|d| hex::decode(d).unwrap()).collect(),
    }
}

fn batch(sig: &str, txns: Vec<Transaction>) -> Batch {
    Batch { header_signature: id(sig), transactions: txns, trace: false }
}

fn empty_store() -> CommitStore {
    CommitStore::new()
}

/// Drives one admission to completion, accepting the rule check.
fn add_accept(cb: &mut CandidateBlock, b: Batch) -> usize {
    match cb.add_batch(b) {
        AddBatchStep::PollInjectors => {
            cb.provide_injected_batches(Vec::new());
            cb.apply_rule_decision(RuleDecision::Accept).len()
        }
        AddBatchStep::EvaluateRules(_) => cb.apply_rule_decision(RuleDecision::Accept).len(),
        other => panic!("batch unexpectedly dropped: {:?}", other),
    }
}

#[test]
fn previous_block_id_is_kept() {
    let cb = CandidateBlock::new(id("head"), empty_store(), 0);
    assert_eq!(cb.previous_block_id(), id("head"));
}

#[test]
fn fresh_candidate_accepts_batches() {
    let cb = CandidateBlock::new(id("head"), empty_store(), 0);
    assert!(cb.can_add_batch());
    assert!(cb.last_batch().is_none());
}

#[test]
fn missing_dependency_drops_batch() {
    let mut cb = CandidateBlock::new(id("head"), empty_store(), 0);
    let b = batch("b1", vec![txn("aa", &["99"])]);
    let step = cb.add_batch(b);
    assert!(matches!(step, AddBatchStep::DroppedMissingDependency));
    assert!(cb.last_batch().is_none());
}

#[test]
fn committed_batch_is_dropped() {
    let mut store = empty_store();
    store.committed_batches.push(id("b1"));
    let mut cb = CandidateBlock::new(id("head"), store, 0);
    let step = cb.add_batch(batch("b1", vec![txn("aa", &[])]));
    assert!(matches!(step, AddBatchStep::DroppedCommitted));
    assert!(cb.last_batch().is_none());
}

#[test]
fn committed_transaction_drops_whole_batch() {
    let mut store = empty_store();
    store.committed_transactions.push(id("aa"));
    let mut cb = CandidateBlock::new(id("head"), store, 0);
    let step = cb.add_batch(batch("b1", vec![txn("bb", &[]), txn("aa", &[])]));
    assert!(matches!(step, AddBatchStep::DroppedCommitted));
    assert!(cb.last_batch().is_none());
}

#[test]
fn duplicate_batch_is_dropped() {
    let mut cb = CandidateBlock::new(id("head"), empty_store(), 0);
    add_accept(&mut cb, batch("b1", vec![txn("aa", &[])]));
    let step = cb.add_batch(batch("b1", vec![txn("bb", &[])]));
    assert!(matches!(step, AddBatchStep::DroppedCommitted));
}

#[test]
fn duplicate_transaction_across_batches_is_dropped() {
    let mut cb = CandidateBlock::new(id("head"), empty_store(), 0);
    add_accept(&mut cb, batch("b1", vec![txn("aa", &[])]));
    let step = cb.add_batch(batch("b2", vec![txn("aa", &[])]));
    assert!(matches!(step, AddBatchStep::DroppedCommitted));
}

#[test]
fn dependency_on_durably_committed_transaction_is_satisfied() {
    let mut store = empty_store();
    store.committed_transactions.push(id("ab"));
    let mut cb = CandidateBlock::new(id("head"), store, 0);
    // The dependency is carried as the raw bytes 0xab; the lookup must
    // hex-encode it to find the committed id "ab".
    let admitted = add_accept(&mut cb, batch("b1", vec![txn("cc", &["ab"])]));
    assert_eq!(admitted, 1);
    assert!(cb.last_batch().is_some());
}

#[test]
fn dependency_on_earlier_transaction_in_same_batch_is_satisfied() {
    let mut cb = CandidateBlock::new(id("head"), empty_store(), 0);
    // The second transaction depends on the first one of the same batch:
    // raw bytes 0xaa hex-encode to the cached identifier "aa".
    let b = batch("b1", vec![txn("aa", &[]), txn("bb", &["aa"])]);
    let admitted = add_accept(&mut cb, b);
    assert_eq!(admitted, 1);
}

#[test]
fn dependency_bytes_are_hex_encoded_for_the_lookup() {
    let mut cb = CandidateBlock::new(id("head"), empty_store(), 0);
    // The raw dependency bytes 0x61 0x61 hex-encode to "6161", which no
    // cached identifier matches — not even "aa", whose ASCII bytes they
    // are.
    let b = batch("b1", vec![txn("aa", &[]), txn("bb", &["6161"])]);
    let step = cb.add_batch(b);
    assert!(matches!(step, AddBatchStep::DroppedMissingDependency));
}

#[test]
fn rule_rejection_leaves_pending_untouched() {
    let mut cb = CandidateBlock::new(id("head"), empty_store(), 0);
    add_accept(&mut cb, batch("b1", vec![txn("aa", &[])]));
    match cb.add_batch(batch("b2", vec![txn("bb", &[])])) {
        AddBatchStep::EvaluateRules(to_test) => {
            assert_eq!(to_test.len(), 2);
            let scheduled = cb.apply_rule_decision(RuleDecision::Reject);
            assert!(scheduled.is_empty());
        }
        other => panic!("unexpected step: {:?}", other),
    }
    let last = cb.last_batch().expect("first batch must remain");
    assert_eq!(last.header_signature, id("b1"));
    // The rejected batch's transactions left no trace in the cache: a
    // batch depending on them is still refused.
    let step = cb.add_batch(batch("b3", vec![txn("cc", &["bb"])]));
    assert!(matches!(step, AddBatchStep::DroppedMissingDependency));
}

#[test]
fn rule_error_is_treated_as_rejection() {
    let mut cb = CandidateBlock::new(id("head"), empty_store(), 0);
    match cb.add_batch(batch("b1", vec![txn("aa", &[])])) {
        AddBatchStep::PollInjectors => {
            cb.provide_injected_batches(Vec::new());
            let scheduled = cb.apply_rule_decision(RuleDecision::EvaluationError);
            assert!(scheduled.is_empty());
        }
        other => panic!("unexpected step: {:?}", other),
    }
    assert!(cb.last_batch().is_none());
}

#[test]
fn injectors_polled_at_most_once() {
    let mut cb = CandidateBlock::new(id("head"), empty_store(), 0);
    // First admissible batch asks for injection, but the rules reject it.
    match cb.add_batch(batch("b1", vec![txn("aa", &[])])) {
        AddBatchStep::PollInjectors => {
            cb.provide_injected_batches(Vec::new());
            cb.apply_rule_decision(RuleDecision::Reject);
        }
        other => panic!("unexpected step: {:?}", other),
    }
    // The candidate is still empty, yet the injectors are not asked again.
    match cb.add_batch(batch("b2", vec![txn("bb", &[])])) {
        AddBatchStep::EvaluateRules(to_test) => {
            assert_eq!(to_test.len(), 1);
            cb.apply_rule_decision(RuleDecision::Accept);
        }
        other => panic!("unexpected step: {:?}", other),
    }
}

#[test]
fn injected_batches_form_prefix_and_are_flagged() {
    let mut cb = CandidateBlock::new(id("head"), empty_store(), 0);
    match cb.add_batch(batch("b1", vec![txn("aa", &[])])) {
        AddBatchStep::PollInjectors => {
            let to_test =
                cb.provide_injected_batches(vec![batch("inj", vec![txn("ii", &[])])]);
            assert_eq!(to_test.len(), 2);
            assert_eq!(to_test[0].header_signature, id("inj"));
            assert_eq!(to_test[1].header_signature, id("b1"));
            let scheduled = cb.apply_rule_decision(RuleDecision::Accept);
            assert_eq!(scheduled.len(), 2);
            assert!(scheduled[0].injected);
            assert_eq!(scheduled[0].batch.header_signature, id("inj"));
            assert!(!scheduled[1].injected);
            assert_eq!(scheduled[1].batch.header_signature, id("b1"));
        }
        other => panic!("unexpected step: {:?}", other),
    }
    let last = cb.last_batch().expect("batches admitted");
    assert_eq!(last.header_signature, id("b1"));
}

#[test]
fn max_batches_is_enforced() {
    let mut cb = CandidateBlock::new(id("head"), empty_store(), 2);
    assert!(cb.can_add_batch());
    add_accept(&mut cb, batch("b1", vec![txn("aa", &[])]));
    assert!(cb.can_add_batch());
    add_accept(&mut cb, batch("b2", vec![txn("bb", &[])]));
    assert!(!cb.can_add_batch());
}

#[test]
fn cancel_is_always_safe() {
    let mut cb = CandidateBlock::new(id("head"), empty_store(), 0);
    cb.cancel();
    assert!(cb.cancelled);
    assert!(cb.last_batch().is_none());
}
