//! One reconciliation cycle from start to end, and the pause between cycles.
//!
//! A cycle reads the chain head, searches for the oracle's checkpoint, reads
//! the head again and reconciles. It keeps nothing from the cycle before: the
//! checkpoint is found anew each time, since others may have advanced the
//! oracle meanwhile. Whatever goes wrong ends the cycle with a report and
//! nothing else; the caller waits [`PAUSE_SECONDS`] and starts the next one.
//!
//! The caller drives a cycle: it carries out the request of the current
//! [`Phase`], hands the reply to [`Phase::resume`], and goes on until the
//! cycle is [`Turn::Finished`].
use crate::chain::{all_zero, CycleError, Reply, Request};
use crate::locator::{Progress, Search};
use crate::reconcile::{begin, first_step, Outcome, Stage, Step};
use vstd::prelude::*;

verus! {

/// Seconds to wait between the end of one cycle and the start of the next.
pub const PAUSE_SECONDS: u64 = 60;

/// The most requests that one cycle makes: two reads of the head, the
/// windows of the search and the three requests of a reconciliation.
pub const MAX_REQUESTS: u64 = 20;

/// Where a cycle stands: the outside work that it is waiting for.
#[derive(Clone, Copy, Debug, PartialEq, Eq)]
pub enum Phase {
    /// The chain head from which the search starts.
    ReadingSearchHead,
    /// The update events of the search's current window.
    Searching(Search),
    /// The chain head against which the checkpoint is judged.
    ReadingHead { checkpoint: u64 },
    /// A request of the reconciliation.
    Reconciling { checkpoint: u64, head: u64, stage: Stage },
}

/// What a cycle came to: the checkpoint and the head as far as it got to
/// know them, and the outcome.
#[derive(Clone, Copy, Debug, PartialEq, Eq)]
pub struct Report {
    pub checkpoint: Option<u64>,
    pub head: Option<u64>,
    pub outcome: Outcome,
}

/// A cycle between two pieces of outside work, or at its end.
#[derive(Clone, Copy, Debug, PartialEq, Eq)]
pub enum Turn {
    /// Carry out the phase's request and resume with the reply.
    Ask(Phase),
    /// The cycle is over.
    Finished(Report),
}

/// The report of a cycle that failed before it knew the checkpoint.
pub open spec fn failed_search(error: CycleError) -> Turn {
    Turn::Finished(Report { checkpoint: None, head: None, outcome: Outcome::Failed(error) })
}

/// The turn that follows a step of the reconciliation.
pub open spec fn after_step(checkpoint: u64, head: u64, step: Step) -> Turn {
    match step {
        Step::Pending(stage) => Turn::Ask(Phase::Reconciling { checkpoint, head, stage }),
        Step::Done(outcome) => Turn::Finished(
            Report { checkpoint: Some(checkpoint), head: Some(head), outcome },
        ),
    }
}

impl Report {
    /// How far the chain head is ahead of the checkpoint.
    pub open spec fn spec_gap(self) -> Option<u64> {
        match (self.checkpoint, self.head) {
            (Some(checkpoint), Some(head)) if head >= checkpoint => Some((head - checkpoint) as u64),
            _ => None,
        }
    }

    /// How far the chain head is ahead of the checkpoint, where both are
    /// known and the head is not behind.
    pub fn gap(&self) -> (gap: Option<u64>)
        ensures
            gap == self.spec_gap(),
    {
        match (self.checkpoint, self.head) {
            (Some(checkpoint), Some(head)) => if head >= checkpoint {
                Some(head - checkpoint)
            } else {
                None
            },
            _ => None,
        }
    }
}

impl Phase {
    /// The request that the phase waits for.
    pub open spec fn spec_request(self) -> Request {
        match self {
            Phase::ReadingSearchHead => Request::ChainHead,
            Phase::Searching(search) => Request::UpdateLogs(search.spec_window()),
            Phase::ReadingHead { .. } => Request::ChainHead,
            Phase::Reconciling { stage, .. } => stage.spec_request(),
        }
    }

    /// An upper bound on the requests that the cycle still makes, this
    /// phase's included.
    pub open spec fn requests_left(self) -> nat {
        match self {
            Phase::ReadingSearchHead => MAX_REQUESTS as nat,
            Phase::Searching(search) => search.windows_left() + 4,
            Phase::ReadingHead { .. } => 4,
            Phase::Reconciling { stage, .. } => match stage {
                Stage::AwaitingBlock { .. } => 3,
                Stage::AwaitingRoot { .. } => 2,
                Stage::AwaitingReceipt { .. } => 1,
            },
        }
    }

    /// Whether `turn` is what follows when `reply` answers the phase's
    /// request, in a cycle with the given interval.
    ///
    /// A head starts the search, or the reconciliation once the checkpoint is
    /// known. The events of a window move the search on: to the checkpoint,
    /// to the next window, or to the end of the cycle as `CheckpointNotFound`.
    /// During the reconciliation its own steps decide. Before that, a reply
    /// of another kind than the phase waits for counts as a failure of the
    /// call and ends the cycle as a `ProviderError`.
    pub open spec fn leads_to(self, interval: u64, reply: Reply, turn: Turn) -> bool {
        match self {
            Phase::ReadingSearchHead => match reply {
                Reply::ChainHead(head) => {
                    &&& turn matches Turn::Ask(Phase::Searching(search))
                    &&& search.head() == head
                    &&& search.top() == head
                },
                _ => turn == failed_search(CycleError::ProviderError),
            },
            Phase::Searching(search) => match reply {
                Reply::UpdateLogs(found) => match turn {
                    Turn::Ask(Phase::ReadingHead { checkpoint }) => search.advances_to(
                        found@,
                        Progress::Found(checkpoint),
                    ),
                    Turn::Ask(Phase::Searching(next)) => search.advances_to(
                        found@,
                        Progress::Continue(next),
                    ),
                    Turn::Finished(_) => {
                        &&& turn == failed_search(CycleError::CheckpointNotFound)
                        &&& search.advances_to(found@, Progress::Exhausted)
                    },
                    _ => false,
                },
                _ => turn == failed_search(CycleError::ProviderError),
            },
            Phase::ReadingHead { checkpoint } => match reply {
                Reply::ChainHead(head) => turn == after_step(
                    checkpoint,
                    head,
                    first_step(checkpoint, interval, head),
                ),
                _ => turn == Turn::Finished(
                    Report {
                        checkpoint: Some(checkpoint),
                        head: None,
                        outcome: Outcome::Failed(CycleError::ProviderError),
                    },
                ),
            },
            Phase::Reconciling { checkpoint, head, stage } => turn == after_step(
                checkpoint,
                head,
                stage.spec_resume(reply),
            ),
        }
    }

    /// The request to carry out.
    pub fn request(&self) -> (request: Request)
        ensures
            request == self.spec_request(),
    {
        match self {
            Phase::ReadingSearchHead => Request::ChainHead,
            Phase::Searching(search) => Request::UpdateLogs(search.window()),
            Phase::ReadingHead { .. } => Request::ChainHead,
            Phase::Reconciling { stage, .. } => stage.request(),
        }
    }

    /// Goes on with the reply to the phase's request. Each turn leaves fewer
    /// requests to make, so a cycle ends after `MAX_REQUESTS` at most.
    pub fn resume(self, interval: u64, reply: &Reply) -> (turn: Turn)
        ensures
            self.leads_to(interval, *reply, turn),
            turn matches Turn::Ask(next) ==> next.requests_left() < self.requests_left(),
    {
        match self {
            Phase::ReadingSearchHead => match reply {
                Reply::ChainHead(head) => Turn::Ask(Phase::Searching(Search::begin(*head))),
                _ => finish(None, None, Outcome::Failed(CycleError::ProviderError)),
            },
            Phase::Searching(search) => match reply {
                Reply::UpdateLogs(found) => match search.advance(found) {
                    Progress::Found(checkpoint) => Turn::Ask(Phase::ReadingHead { checkpoint }),
                    Progress::Continue(next) => Turn::Ask(Phase::Searching(next)),
                    Progress::Exhausted => finish(
                        None,
                        None,
                        Outcome::Failed(CycleError::CheckpointNotFound),
                    ),
                },
                _ => finish(None, None, Outcome::Failed(CycleError::ProviderError)),
            },
            Phase::ReadingHead { checkpoint } => match reply {
                Reply::ChainHead(head) => follow(checkpoint, *head, begin(checkpoint, interval, *head)),
                _ => finish(Some(checkpoint), None, Outcome::Failed(CycleError::ProviderError)),
            },
            Phase::Reconciling { checkpoint, head, stage } => follow(
                checkpoint,
                head,
                stage.resume(reply),
            ),
        }
    }
}

/// At most one transaction per cycle, and none for a recorded timestamp:
/// whatever the replies are, a cycle asks to record a timestamp only in the
/// turn in which the oracle returned the zero root for that very timestamp,
/// and the reply to that request ends the cycle.
pub proof fn lemma_submission_is_guarded(phase: Phase, interval: u64, reply: Reply, turn: Turn)
    requires
        phase.leads_to(interval, reply, turn),
    ensures
        match turn {
            Turn::Ask(next) => match next.spec_request() {
                Request::AddTimestamp(timestamp) => {
                    &&& phase.spec_request() == Request::RecordedRoot(timestamp)
                    &&& reply matches Reply::RecordedRoot(root)
                    &&& all_zero(root)
                },
                _ => true,
            },
            Turn::Finished(_) => true,
        },
        phase.spec_request() is AddTimestamp ==> turn is Finished,
{
}

/// The first phase of every cycle.
pub fn start() -> (phase: Phase)
    ensures
        phase == Phase::ReadingSearchHead,
{
    Phase::ReadingSearchHead
}

fn finish(checkpoint: Option<u64>, head: Option<u64>, outcome: Outcome) -> (turn: Turn)
    ensures
        turn == Turn::Finished(Report { checkpoint, head, outcome }),
{
    Turn::Finished(Report { checkpoint, head, outcome })
}

fn follow(checkpoint: u64, head: u64, step: Step) -> (turn: Turn)
    ensures
        turn == after_step(checkpoint, head, step),
{
    match step {
        Step::Pending(stage) => Turn::Ask(Phase::Reconciling { checkpoint, head, stage }),
        Step::Done(outcome) => finish(Some(checkpoint), Some(head), outcome),
    }
}

} // verus!
