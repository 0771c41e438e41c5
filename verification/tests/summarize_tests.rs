use candidate_block::batch::{Batch, Transaction};
use candidate_block::candidate_block::{
    AddBatchStep, CandidateBlock, CandidateBlockError, RuleDecision,
};
use candidate_block::commit_store::CommitStore;
use candidate_block::execution::{BatchResult, ExecutionResults, TransactionResult};
use sha2::Digest;

fn id(s: &str) -> Vec<u8> {
    s.as_bytes().to_vec()
}

fn txn(sig: &str, deps: &[&str]) -> Transaction {
    Transaction {
        header_signature: id(sig),
        dependencies: deps.iter().map(|d| hex::decode(d).unwrap()).collect(),
    }
}

fn batch(sig: &str, txns: Vec<Transaction>) -> Batch {
    Batch { header_signature: id(sig), transactions: txns, trace: false }
}

fn add_accept(cb: &mut CandidateBlock, b: Batch) {
    match cb.add_batch(b) {
        AddBatchStep::PollInjectors => {
            cb.provide_injected_batches(Vec::new());
            cb.apply_rule_decision(RuleDecision::Accept);
        }
        AddBatchStep::EvaluateRules(_) => {
            cb.apply_rule_decision(RuleDecision::Accept);
        }
        other => panic!("batch unexpectedly dropped: {:?}", other),
    }
}

fn add_with_injection(cb: &mut CandidateBlock, b: Batch, injected: Vec<Batch>) {
    match cb.add_batch(b) {
        AddBatchStep::PollInjectors => {
            cb.provide_injected_batches(injected);
            cb.apply_rule_decision(RuleDecision::Accept);
        }
        other => panic!("expected the injector poll, got: {:?}", other),
    }
}

fn valid_entry(b: &Batch) -> BatchResult {
    BatchResult {
        batch_id: b.header_signature.clone(),
        transaction_results: Some(
            b.transactions
                .iter()
                .map(|t| TransactionResult {
                    transaction_id: t.header_signature.clone(),
                    is_valid: true,
                })
                .collect(),
        ),
    }
}

fn invalid_entry(b: &Batch) -> BatchResult {
    BatchResult {
        batch_id: b.header_signature.clone(),
        transaction_results: Some(vec![TransactionResult {
            transaction_id: b.transactions[0].header_signature.clone(),
            is_valid: false,
        }]),
    }
}

fn no_result_entry(b: &Batch) -> BatchResult {
    BatchResult { batch_id: b.header_signature.clone(), transaction_results: None }
}

fn results(entries: Vec<BatchResult>, root: Option<&str>) -> ExecutionResults {
    ExecutionResults { batch_results: entries, ending_state_hash: root.map(id) }
}

fn expected_summary(ids: &[&str]) -> Vec<u8> {
    let mut flat: Vec<u8> = Vec::new();
    for s in ids {
        flat.extend_from_slice(s.as_bytes());
    }
    sha2::Sha256::digest(&flat).to_vec()
}

#[test]
fn empty_candidate_summarize_is_block_empty() {
    let mut cb = CandidateBlock::new(id("head"), CommitStore::new(), 0);
    let r = cb.summarize(false, &results(Vec::new(), None));
    assert_eq!(r, Err(CandidateBlockError::BlockEmpty));
}

#[test]
fn empty_candidate_finalize_is_block_empty() {
    let mut cb = CandidateBlock::new(id("head"), CommitStore::new(), 0);
    let r = cb.finalize(id("consensus"), true, &results(Vec::new(), Some("root")));
    assert!(matches!(r, Err(CandidateBlockError::BlockEmpty)));
}

#[test]
fn two_batches_in_submission_order() {
    let mut cb = CandidateBlock::new(id("head"), CommitStore::new(), 0);
    let b1 = batch("b1", vec![txn("aa", &[])]);
    let b2 = batch("b2", vec![txn("bb", &["aa"])]);
    add_accept(&mut cb, b1.clone());
    add_accept(&mut cb, b2.clone());
    let rs = results(vec![valid_entry(&b1), valid_entry(&b2)], Some("root"));
    let r = cb.finalize(id("cons"), false, &rs).expect("a block");
    let block = r.block.expect("a block was produced");
    let ids: Vec<Vec<u8>> =
        block.batches.iter().map(|b| b.header_signature.clone()).collect();
    assert_eq!(ids, vec![id("b1"), id("b2")]);
    assert!(r.remaining_batches.is_empty());
    assert_eq!(r.last_batch.header_signature, id("b2"));
    assert_eq!(block.previous_block_id, id("head"));
    assert_eq!(block.consensus, id("cons"));
    assert_eq!(block.state_hash, hex::encode("root").into_bytes());
    assert_eq!(block.summary, expected_summary(&["b1", "b2"]));
}

#[test]
fn summary_is_idempotent() {
    let mut cb = CandidateBlock::new(id("head"), CommitStore::new(), 0);
    let b1 = batch("b1", vec![txn("aa", &[])]);
    add_accept(&mut cb, b1.clone());
    let rs = results(vec![valid_entry(&b1)], Some("root"));
    let first = cb.summarize(false, &rs).expect("ok").expect("a summary");
    // A second call returns the stored summary, whatever report is handed in.
    let second = cb.summarize(false, &results(Vec::new(), None)).expect("ok").expect("a summary");
    assert_eq!(first, second);
    assert_eq!(first, expected_summary(&["b1"]));
    assert_eq!(first.len(), 32);
}

#[test]
fn invalid_batch_is_excluded_and_not_retried() {
    let mut cb = CandidateBlock::new(id("head"), CommitStore::new(), 0);
    let b1 = batch("b1", vec![txn("aa", &[])]);
    let b2 = batch("b2", vec![txn("bb", &[])]);
    add_accept(&mut cb, b1.clone());
    add_accept(&mut cb, b2.clone());
    let rs = results(vec![valid_entry(&b1), invalid_entry(&b2)], Some("root"));
    let r = cb.finalize(id("cons"), false, &rs).expect("a block");
    let block = r.block.expect("a block was produced");
    let ids: Vec<Vec<u8>> =
        block.batches.iter().map(|b| b.header_signature.clone()).collect();
    assert_eq!(ids, vec![id("b1")]);
    assert!(r.remaining_batches.is_empty());
    assert_eq!(block.summary, expected_summary(&["b1"]));
}

#[test]
fn batch_without_result_is_deferred() {
    let mut cb = CandidateBlock::new(id("head"), CommitStore::new(), 0);
    let b1 = batch("b1", vec![txn("aa", &[])]);
    let b2 = batch("b2", vec![txn("bb", &[])]);
    add_accept(&mut cb, b1.clone());
    add_accept(&mut cb, b2.clone());
    let rs = results(vec![valid_entry(&b1), no_result_entry(&b2)], Some("root"));
    let r = cb.finalize(id("cons"), false, &rs).expect("a block");
    let block = r.block.expect("a block was produced");
    let ids: Vec<Vec<u8>> =
        block.batches.iter().map(|b| b.header_signature.clone()).collect();
    assert_eq!(ids, vec![id("b1")]);
    assert_eq!(r.remaining_batches.len(), 1);
    assert_eq!(r.remaining_batches[0].header_signature, id("b2"));
    assert_eq!(block.summary, expected_summary(&["b1"]));
}

#[test]
fn reconciliation_stops_on_missing_dependency() {
    let mut cb = CandidateBlock::new(id("head"), CommitStore::new(), 0);
    let b1 = batch("b1", vec![txn("aa", &[])]);
    let b2 = batch("b2", vec![txn("bb", &["aa"])]);
    add_accept(&mut cb, b1.clone());
    add_accept(&mut cb, b2.clone());
    // b1 fails execution, so b2's dependency is no longer satisfied.
    let rs = results(vec![invalid_entry(&b1), valid_entry(&b2)], Some("root"));
    let r = cb.summarize(false, &rs).expect("no structural failure");
    assert!(r.is_none());
    // b2 is deferred for the next candidate; b1 is dropped for good.
    let fr = cb.finalize(id("cons"), false, &rs).expect("a result");
    assert!(fr.block.is_none());
    assert_eq!(fr.remaining_batches.len(), 1);
    assert_eq!(fr.remaining_batches[0].header_signature, id("b2"));
}

#[test]
fn no_state_root_means_no_block() {
    let mut cb = CandidateBlock::new(id("head"), CommitStore::new(), 0);
    let b1 = batch("b1", vec![txn("aa", &[])]);
    add_accept(&mut cb, b1.clone());
    let rs = results(vec![valid_entry(&b1)], None);
    let r = cb.summarize(false, &rs).expect("no structural failure");
    assert!(r.is_none());
}

#[test]
fn only_injected_batches_means_no_block() {
    let mut cb = CandidateBlock::new(id("head"), CommitStore::new(), 0);
    let inj = batch("inj", vec![txn("ii", &[])]);
    let b1 = batch("b1", vec![txn("aa", &[])]);
    add_with_injection(&mut cb, b1.clone(), vec![inj.clone()]);
    // Only the injected batch executes; the external one has no result.
    let rs = results(vec![valid_entry(&inj), no_result_entry(&b1)], Some("root"));
    let r = cb.summarize(false, &rs).expect("no structural failure");
    assert!(r.is_none());
    let fr = cb.finalize(id("cons"), false, &rs).expect("a result");
    assert!(fr.block.is_none());
    // The external batch is deferred; the injected one is not retried.
    assert_eq!(fr.remaining_batches.len(), 1);
    assert_eq!(fr.remaining_batches[0].header_signature, id("b1"));
    assert_eq!(fr.injected_batch_ids, vec![id("inj")]);
}

#[test]
fn injected_batch_lands_in_block_prefix() {
    let mut cb = CandidateBlock::new(id("head"), CommitStore::new(), 0);
    let inj = batch("inj", vec![txn("ii", &[])]);
    let b1 = batch("b1", vec![txn("aa", &[])]);
    add_with_injection(&mut cb, b1.clone(), vec![inj.clone()]);
    let rs = results(vec![valid_entry(&inj), valid_entry(&b1)], Some("root"));
    let r = cb.finalize(id("cons"), false, &rs).expect("a block");
    let block = r.block.expect("a block was produced");
    let ids: Vec<Vec<u8>> =
        block.batches.iter().map(|b| b.header_signature.clone()).collect();
    assert_eq!(ids, vec![id("inj"), id("b1")]);
    assert_eq!(block.summary, expected_summary(&["inj", "b1"]));
    assert_eq!(r.injected_batch_ids, vec![id("inj")]);
}

#[test]
fn injected_batch_without_result_is_dropped() {
    let mut cb = CandidateBlock::new(id("head"), CommitStore::new(), 0);
    let inj = batch("inj", vec![txn("ii", &[])]);
    let b1 = batch("b1", vec![txn("aa", &[])]);
    add_with_injection(&mut cb, b1.clone(), vec![inj.clone()]);
    let rs = results(vec![no_result_entry(&inj), valid_entry(&b1)], Some("root"));
    let r = cb.finalize(id("cons"), false, &rs).expect("a block");
    let block = r.block.expect("a block was produced");
    let ids: Vec<Vec<u8>> =
        block.batches.iter().map(|b| b.header_signature.clone()).collect();
    assert_eq!(ids, vec![id("b1")]);
    // The injected batch is neither in the block nor retried.
    assert!(r.remaining_batches.is_empty());
}

#[test]
fn forced_summary_of_empty_candidate_is_no_block() {
    let mut cb = CandidateBlock::new(id("head"), CommitStore::new(), 0);
    let r = cb.summarize(true, &results(Vec::new(), Some("root")));
    assert_eq!(r, Ok(None));
}

#[test]
fn batch_missing_from_report_is_treated_as_invalid() {
    let mut cb = CandidateBlock::new(id("head"), CommitStore::new(), 0);
    let b1 = batch("b1", vec![txn("aa", &[])]);
    let b2 = batch("b2", vec![txn("bb", &[])]);
    add_accept(&mut cb, b1.clone());
    add_accept(&mut cb, b2.clone());
    // b2 does not appear in the report at all: discarded, not retried.
    let rs = results(vec![valid_entry(&b1)], Some("root"));
    let r = cb.finalize(id("cons"), false, &rs).expect("a block");
    let block = r.block.expect("a block was produced");
    assert_eq!(block.batches.len(), 1);
    assert_eq!(block.batches[0].header_signature, id("b1"));
    assert!(r.remaining_batches.is_empty());
}

#[test]
fn no_further_batches_after_summary() {
    let mut cb = CandidateBlock::new(id("head"), CommitStore::new(), 0);
    let b1 = batch("b1", vec![txn("aa", &[])]);
    add_accept(&mut cb, b1.clone());
    let rs = results(vec![valid_entry(&b1)], Some("root"));
    cb.summarize(false, &rs).expect("ok");
    assert!(!cb.can_add_batch());
}
