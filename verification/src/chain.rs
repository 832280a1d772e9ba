//! What a reconciliation cycle asks of the outside world, and what it gets
//! back.
//!
//! The library decides; it never talks to a node or a signer itself. Each
//! piece of outside work is a [`Request`] that the caller carries out, and
//! the result comes back as a [`Reply`].
use crate::locator::Window;
use vstd::prelude::*;

verus! {

/// Thirty-two bytes: a beacon block root or a transaction identifier.
pub type Bytes32 = [u8; 32];

/// Whether every byte is zero. The oracle maps a timestamp that it
/// has not recorded to the zero root.
pub open spec fn all_zero(bytes: Bytes32) -> bool {
    forall|i: int| 0 <= i < 32 ==> bytes[i] == 0
}

/// Tests whether all the bytes are zero.
pub fn is_zero(bytes: &Bytes32) -> (zero: bool)
    ensures
        zero == all_zero(*bytes),
{
    let mut i: usize = 0;
    while i < 32
        invariant
            i <= 32,
            forall|j: int| 0 <= j < i ==> bytes[j] == 0,
        decreases 32 - i,
    {
        if bytes[i] != 0 {
            return false;
        }
        i += 1;
    }
    true
}

/// One piece of outside work.
#[derive(Clone, Copy, Debug, PartialEq, Eq)]
pub enum Request {
    /// Read the number of the chain's head block.
    ChainHead,
    /// Query the oracle's update events emitted in a window of blocks.
    UpdateLogs(Window),
    /// Look up the timestamp of the block with this number.
    BlockTimestamp(u64),
    /// Read the beacon root that the oracle maps this timestamp to.
    RecordedRoot(u64),
    /// Sign and send the transaction that records this timestamp, and wait
    /// for its inclusion.
    AddTimestamp(u64),
}

/// The result of one piece of outside work.
#[derive(Debug, PartialEq, Eq)]
pub enum Reply {
    /// The number of the head block.
    ChainHead(u64),
    /// The block numbers of the update events found, one for each event.
    UpdateLogs(Vec<u64>),
    /// The block's timestamp, or `None` if the provider has no such block.
    BlockTimestamp(Option<u64>),
    /// The root that the oracle returned.
    RecordedRoot(Bytes32),
    /// The identifier of the included transaction, or `None` if the
    /// transaction was dropped before inclusion.
    Receipt(Option<Bytes32>),
    /// The call failed.
    Failed,
}

/// Why a cycle ended without reaching a decision. None of these ends the
/// process: the next cycle starts again from the live chain state.
#[derive(Clone, Copy, Debug, PartialEq, Eq)]
pub enum CycleError {
    /// The search horizon holds no update event of the oracle.
    CheckpointNotFound,
    /// A call to the provider failed.
    ProviderError,
    /// The provider does not have the candidate block.
    BlockFetchError,
    /// Signing, broadcasting or awaiting the transaction failed.
    SubmissionError,
}

} // verus!
