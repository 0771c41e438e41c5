//! Speculative execution results, as the scheduler adapter reports them
//! once execution is finalized: per batch, either no result yet or a
//! validity flag per transaction, and the ending state root when execution
//! succeeded. The assembler classifies each pending batch from these.

use vstd::prelude::*;
use crate::ids::id_eq;

verus! {

/// The execution outcome of one transaction.
#[derive(Clone, Debug)]
pub struct TransactionResult {
    pub transaction_id: Vec<u8>,
    pub is_valid: bool,
}

/// The execution outcome of one batch: `None` while no result is known.
#[derive(Clone, Debug)]
pub struct BatchResult {
    pub batch_id: Vec<u8>,
    pub transaction_results: Option<Vec<TransactionResult>>,
}

/// Everything the scheduler reports for one candidate.
#[derive(Clone, Debug)]
pub struct ExecutionResults {
    pub batch_results: Vec<BatchResult>,
    pub ending_state_hash: Option<Vec<u8>>,
}

/// How one batch comes out of execution.
#[derive(PartialEq, Eq, Structural, Clone, Copy, Debug)]
pub enum BatchDisposition {
    /// No result was reported in time.
    NoResult,
    /// A result was reported and every transaction is valid.
    Valid,
    /// A result was reported with an invalid transaction, or the batch is
    /// missing from the report altogether.
    Invalid,
}

/// The first reported result for `id`, if any.
pub open spec fn find_result(rs: Seq<BatchResult>, id: Seq<u8>) -> Option<BatchResult>
    decreases rs.len(),
{
    if rs.len() == 0 {
        Option::None
    } else if rs[0].batch_id@ == id {
        Option::Some(rs[0])
    } else {
        find_result(rs.drop_first(), id)
    }
}

/// Whether every listed transaction is valid.
pub open spec fn all_valid(ts: Seq<TransactionResult>) -> bool {
    forall|i: int| 0 <= i < ts.len() ==> (#[trigger] ts[i]).is_valid
}

/// The disposition of the batch `id` under `results`.
pub open spec fn disposition(results: ExecutionResults, id: Seq<u8>) -> BatchDisposition {
    match find_result(results.batch_results@, id) {
        Option::None => BatchDisposition::Invalid,
        Option::Some(e) => match e.transaction_results {
            Option::None => BatchDisposition::NoResult,
            Option::Some(ts) => if all_valid(ts@) {
                BatchDisposition::Valid
            } else {
                BatchDisposition::Invalid
            },
        },
    }
}

/// Looks the batch `id` up in the report, first match first.
fn find_entry<'a>(rs: &'a Vec<BatchResult>, id: &Vec<u8>) -> (r: Option<&'a BatchResult>)
    ensures
        match r {
            Option::Some(e) => find_result(rs@, id@) == Option::Some(*e),
            Option::None => find_result(rs@, id@) is None,
        },
{
    let mut i: usize = 0;
    proof {
        assert(rs@.skip(0) =~= rs@);
    }
    while i < rs.len()
        invariant
            0 <= i <= rs@.len(),
            find_result(rs@, id@) == find_result(rs@.skip(i as int), id@),
        decreases rs@.len() - i,
    {
        proof {
            assert(rs@.skip(i as int)[0] == rs@[i as int]);
        }
        if id_eq(&rs[i].batch_id, id) {
            return Some(&rs[i]);
        }
        proof {
            assert(rs@.skip(i as int).drop_first() =~= rs@.skip(i + 1));
        }
        i += 1;
    }
    proof {
        assert(rs@.skip(rs@.len() as int).len() == 0);
    }
    None
}

/// Classifies the batch `id` under `results`.
pub fn classify_batch(results: &ExecutionResults, id: &Vec<u8>) -> (r: BatchDisposition)
    ensures
        r == disposition(*results, id@),
{
    match find_entry(&results.batch_results, id) {
        None => BatchDisposition::Invalid,
        Some(e) => match &e.transaction_results {
            None => BatchDisposition::NoResult,
            Some(ts) => {
                let mut i: usize = 0;
                while i < ts.len()
                    invariant
                        0 <= i <= ts@.len(),
                        forall|i2: int| 0 <= i2 < i ==> (#[trigger] ts@[i2]).is_valid,
                        find_result(results.batch_results@, id@) == Option::Some(*e),
                        e.transaction_results == Option::Some(*ts),
                    decreases ts@.len() - i,
                {
                    if !ts[i].is_valid {
                        return BatchDisposition::Invalid;
                    }
                    i += 1;
                }
                BatchDisposition::Valid
            },
        },
    }
}

} // verus!
