//! Deciding whether the next checkpoint is due, and recording it once.
//!
//! A reconciliation starts from the oracle's checkpoint, the chain head and
//! the configured interval. It takes up to three pieces of outside work: the
//! candidate block's timestamp, the root that the oracle holds for that
//! timestamp, and the transaction that records it. [`begin`] and
//! [`Stage::resume`] say which of them comes next and how the reconciliation
//! ends; the caller carries them out.
use crate::chain::{is_zero, all_zero, CycleError, Bytes32, Reply, Request};
use vstd::prelude::*;

verus! {

/// Blocks kept between a candidate and the chain head, so that a lagging or
/// reorganising node near the tip is never acted on.
pub const SAFETY_MARGIN: u64 = 5;

/// The block whose timestamp is due next: one interval past the checkpoint.
pub open spec fn candidate_block(checkpoint: u64, interval: u64) -> int {
    checkpoint + interval
}

/// A candidate is due once it lies strictly below the head less the safety
/// margin. Both sides are taken as plain integers: a candidate beyond the
/// range of block numbers is never due, and nothing is due while the head is
/// within the margin of block zero.
pub open spec fn is_due(checkpoint: u64, interval: u64, head: u64) -> bool {
    candidate_block(checkpoint, interval) < head - SAFETY_MARGIN
}

/// Returns the candidate block if it is due at `head`, and `None` otherwise.
pub fn due_candidate(checkpoint: u64, interval: u64, head: u64) -> (candidate: Option<u64>)
    ensures
        match candidate {
            Some(block) => is_due(checkpoint, interval, head) && block == candidate_block(
                checkpoint,
                interval,
            ),
            None => !is_due(checkpoint, interval, head),
        },
{
    if head < SAFETY_MARGIN {
        return None;
    }
    match checkpoint.checked_add(interval) {
        Some(block) => if block < head - SAFETY_MARGIN {
            Some(block)
        } else {
            None
        },
        None => None,
    }
}

/// How a reconciliation ended.
#[derive(Clone, Copy, Debug, PartialEq, Eq)]
pub enum Outcome {
    /// Nothing was due, or the timestamp was already recorded.
    Skipped,
    /// The timestamp was recorded by the transaction with this identifier.
    Submitted(Bytes32),
    /// The cycle was given up.
    Failed(CycleError),
}

/// The outside work that a reconciliation is waiting for.
#[derive(Clone, Copy, Debug, PartialEq, Eq)]
pub enum Stage {
    /// The timestamp of the candidate block.
    AwaitingBlock { candidate: u64 },
    /// The root that the oracle holds for the candidate's timestamp.
    AwaitingRoot { timestamp: u64 },
    /// The inclusion of the transaction that records the timestamp.
    AwaitingReceipt { timestamp: u64 },
}

/// A reconciliation between two pieces of outside work, or at its end.
#[derive(Clone, Copy, Debug, PartialEq, Eq)]
pub enum Step {
    /// Carry out the stage's request and resume with the reply.
    Pending(Stage),
    /// The reconciliation is over.
    Done(Outcome),
}

/// The first step of a reconciliation: skipped unless the candidate is due.
pub open spec fn first_step(checkpoint: u64, interval: u64, head: u64) -> Step {
    if is_due(checkpoint, interval, head) {
        Step::Pending(Stage::AwaitingBlock { candidate: candidate_block(checkpoint, interval) as u64 })
    } else {
        Step::Done(Outcome::Skipped)
    }
}

impl Stage {
    /// The request that the stage waits for.
    pub open spec fn spec_request(self) -> Request {
        match self {
            Stage::AwaitingBlock { candidate } => Request::BlockTimestamp(candidate),
            Stage::AwaitingRoot { timestamp } => Request::RecordedRoot(timestamp),
            Stage::AwaitingReceipt { timestamp } => Request::AddTimestamp(timestamp),
        }
    }

    /// The step that follows when `reply` answers the stage's request.
    ///
    /// A missing candidate block is a `BlockFetchError`. The transaction is
    /// asked for only when the oracle holds the zero root for the timestamp;
    /// with any other root the timestamp is already recorded and the cycle is
    /// skipped. A reply of another kind than the stage waits for counts as a
    /// failure of the call: a `SubmissionError` while the transaction is
    /// awaited, a `ProviderError` before.
    pub open spec fn spec_resume(self, reply: Reply) -> Step {
        match self {
            Stage::AwaitingBlock { candidate } => match reply {
                Reply::BlockTimestamp(Some(timestamp)) => Step::Pending(
                    Stage::AwaitingRoot { timestamp },
                ),
                Reply::BlockTimestamp(None) => Step::Done(
                    Outcome::Failed(CycleError::BlockFetchError),
                ),
                _ => Step::Done(Outcome::Failed(CycleError::ProviderError)),
            },
            Stage::AwaitingRoot { timestamp } => match reply {
                Reply::RecordedRoot(root) => if all_zero(root) {
                    Step::Pending(Stage::AwaitingReceipt { timestamp })
                } else {
                    Step::Done(Outcome::Skipped)
                },
                _ => Step::Done(Outcome::Failed(CycleError::ProviderError)),
            },
            Stage::AwaitingReceipt { timestamp } => match reply {
                Reply::Receipt(Some(transaction)) => Step::Done(Outcome::Submitted(transaction)),
                _ => Step::Done(Outcome::Failed(CycleError::SubmissionError)),
            },
        }
    }

    /// The request to carry out.
    pub fn request(&self) -> (request: Request)
        ensures
            request == self.spec_request(),
    {
        match self {
            Stage::AwaitingBlock { candidate } => Request::BlockTimestamp(*candidate),
            Stage::AwaitingRoot { timestamp } => Request::RecordedRoot(*timestamp),
            Stage::AwaitingReceipt { timestamp } => Request::AddTimestamp(*timestamp),
        }
    }

    /// Goes on with the reply to the stage's request.
    pub fn resume(self, reply: &Reply) -> (step: Step)
        ensures
            step == self.spec_resume(*reply),
    {
        match self {
            Stage::AwaitingBlock { candidate } => match reply {
                Reply::BlockTimestamp(Some(timestamp)) => Step::Pending(
                    Stage::AwaitingRoot { timestamp: *timestamp },
                ),
                Reply::BlockTimestamp(None) => Step::Done(
                    Outcome::Failed(CycleError::BlockFetchError),
                ),
                _ => Step::Done(Outcome::Failed(CycleError::ProviderError)),
            },
            Stage::AwaitingRoot { timestamp } => match reply {
                Reply::RecordedRoot(root) => if is_zero(root) {
                    Step::Pending(Stage::AwaitingReceipt { timestamp })
                } else {
                    Step::Done(Outcome::Skipped)
                },
                _ => Step::Done(Outcome::Failed(CycleError::ProviderError)),
            },
            Stage::AwaitingReceipt { timestamp } => match reply {
                Reply::Receipt(Some(transaction)) => Step::Done(Outcome::Submitted(*transaction)),
                _ => Step::Done(Outcome::Failed(CycleError::SubmissionError)),
            },
        }
    }
}

/// Starts a reconciliation from the oracle's checkpoint, the configured
/// interval and the chain head.
pub fn begin(checkpoint: u64, interval: u64, head: u64) -> (step: Step)
    ensures
        step == first_step(checkpoint, interval, head),
{
    match due_candidate(checkpoint, interval, head) {
        Some(candidate) => Step::Pending(Stage::AwaitingBlock { candidate }),
        None => Step::Done(Outcome::Skipped),
    }
}

} // verus!
