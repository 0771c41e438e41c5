//! Candidate-block assembly: the state machine that turns a stream of
//! transaction batches into a provisionally valid block.
//!
//! The assembler admits batches one at a time, checking them against
//! already-committed transactions and their declared dependencies, asks the
//! caller to poll batch injectors and to evaluate validation rules at the
//! right moments, reconciles speculative execution results, and produces a
//! deterministic summary digest over the surviving batches.

pub mod batch;
pub mod candidate_block;
pub mod chain_commit_state;
pub mod commit_store;
pub mod dependency;
pub mod encoding;
pub mod execution;
pub mod ids;
