//! Whole cycles, stated over a mathematical model of the chain.
//!
//! [`ChainState`] is what a cycle can observe: the head, the blocks of the
//! oracle's update events, the timestamps of the blocks and the oracle's
//! mapping from timestamp to beacon root. Against such a state a
//! reconciliation has one outcome, [`reconcile`], and a cycle one report,
//! [`expected_report`]. The laws below are proved of them.
use crate::chain::{all_zero, Bytes32, CycleError, Reply, Request};
use crate::cycle::{Phase, Report, Turn};
use crate::locator::{
    horizon_floor, in_horizon, latest_checkpoint, lemma_empty_horizon_is_not_found,
    lemma_latest_is_unique,
};
use crate::reconcile::{candidate_block, first_step, is_due, Outcome, Stage, Step};
use vstd::prelude::*;

verus! {

/// The chain and the oracle contract as one cycle sees them.
pub struct ChainState {
    /// The number of the head block.
    pub head: u64,
    /// The blocks at which the oracle emitted an update event, one entry
    /// for each event.
    pub events: Seq<u64>,
    /// The timestamp of each block that the provider has.
    pub timestamps: Map<u64, u64>,
    /// The oracle's mapping from timestamp to beacon root. It is zero where
    /// no timestamp is recorded.
    pub roots: spec_fn(u64) -> Bytes32,
}

impl ChainState {
    /// The timestamp of `block`, if the provider has the block.
    pub open spec fn block_timestamp(self, block: u64) -> Option<u64> {
        if self.timestamps.dom().contains(block) {
            Some(self.timestamps[block])
        } else {
            None
        }
    }

    /// Whether the oracle holds a root for `timestamp`.
    pub open spec fn recorded(self, timestamp: u64) -> bool {
        !all_zero((self.roots)(timestamp))
    }

    /// The reply to a request of a reconciliation. `receipt` is what sending
    /// the transaction yields: its identifier, or `None` if it fails.
    pub open spec fn answer(self, request: Request, receipt: Option<Bytes32>) -> Reply {
        match request {
            Request::BlockTimestamp(block) => Reply::BlockTimestamp(self.block_timestamp(block)),
            Request::RecordedRoot(timestamp) => Reply::RecordedRoot((self.roots)(timestamp)),
            Request::AddTimestamp(_) => Reply::Receipt(receipt),
            _ => Reply::Failed,
        }
    }

    /// Whether `reply` is a true answer to a request of a cycle. The events
    /// of a window may come in any order and more than once.
    pub open spec fn answers(self, request: Request, receipt: Option<Bytes32>, reply: Reply) -> bool {
        match request {
            Request::ChainHead => reply == Reply::ChainHead(self.head),
            Request::UpdateLogs(window) => {
                &&& reply matches Reply::UpdateLogs(found)
                &&& forall|block: u64|
                    #![trigger found@.contains(block)]
                    #![trigger self.events.contains(block)]
                    found@.contains(block) <==> self.events.contains(block) && window.contains(block)
            },
            _ => reply == self.answer(request, receipt),
        }
    }

    /// The state after the oracle has recorded `root` for `timestamp`, as
    /// far as a reconciliation on given inputs sees it.
    pub open spec fn record(self, timestamp: u64, root: Bytes32) -> ChainState {
        ChainState {
            head: self.head,
            events: self.events,
            timestamps: self.timestamps,
            roots: |t: u64|
                if t == timestamp {
                    root
                } else {
                    (self.roots)(t)
                },
        }
    }
}

/// Number of requests that a step can still lead to.
pub open spec fn requests_left(step: Step) -> nat {
    match step {
        Step::Pending(Stage::AwaitingBlock { .. }) => 3,
        Step::Pending(Stage::AwaitingRoot { .. }) => 2,
        Step::Pending(Stage::AwaitingReceipt { .. }) => 1,
        Step::Done(_) => 0,
    }
}

/// The outcome that `step` leads to when every request is answered by
/// `chain`.
pub open spec fn run(chain: ChainState, step: Step, receipt: Option<Bytes32>) -> Outcome
    decreases requests_left(step),
{
    match step {
        Step::Done(outcome) => outcome,
        Step::Pending(stage) => run(
            chain,
            stage.spec_resume(chain.answer(stage.spec_request(), receipt)),
            receipt,
        ),
    }
}

/// The timestamps for which `step` asks to send a transaction, in order,
/// when every request is answered by `chain`.
pub open spec fn submissions(chain: ChainState, step: Step, receipt: Option<Bytes32>) -> Seq<u64>
    decreases requests_left(step),
{
    match step {
        Step::Done(_) => Seq::empty(),
        Step::Pending(stage) => {
            let rest = submissions(
                chain,
                stage.spec_resume(chain.answer(stage.spec_request(), receipt)),
                receipt,
            );
            match stage {
                Stage::AwaitingReceipt { timestamp } => seq![timestamp] + rest,
                _ => rest,
            }
        },
    }
}

/// The outcome of a whole reconciliation against `chain`.
pub open spec fn reconcile(
    chain: ChainState,
    checkpoint: u64,
    interval: u64,
    head: u64,
    receipt: Option<Bytes32>,
) -> Outcome {
    run(chain, first_step(checkpoint, interval, head), receipt)
}

/// The timestamps that a whole reconciliation against `chain` asks to record.
pub open spec fn reconcile_submissions(
    chain: ChainState,
    checkpoint: u64,
    interval: u64,
    head: u64,
    receipt: Option<Bytes32>,
) -> Seq<u64> {
    submissions(chain, first_step(checkpoint, interval, head), receipt)
}

/// What a reconciliation comes to, case by case: skipped unless the
/// candidate is due; a `BlockFetchError` if the candidate block is missing;
/// skipped if its timestamp is recorded; else the outcome of the submission.
pub open spec fn expected_outcome(
    chain: ChainState,
    checkpoint: u64,
    interval: u64,
    head: u64,
    receipt: Option<Bytes32>,
) -> Outcome {
    if !is_due(checkpoint, interval, head) {
        Outcome::Skipped
    } else {
        match chain.block_timestamp(candidate_block(checkpoint, interval) as u64) {
            None => Outcome::Failed(CycleError::BlockFetchError),
            Some(timestamp) => if chain.recorded(timestamp) {
                Outcome::Skipped
            } else {
                match receipt {
                    Some(transaction) => Outcome::Submitted(transaction),
                    None => Outcome::Failed(CycleError::SubmissionError),
                }
            },
        }
    }
}

/// The timestamp that a reconciliation asks to record, if any: that of the
/// candidate block, when the candidate is due and the timestamp is not yet
/// recorded.
pub open spec fn expected_submission(
    chain: ChainState,
    checkpoint: u64,
    interval: u64,
    head: u64,
) -> Option<u64> {
    if !is_due(checkpoint, interval, head) {
        None
    } else {
        match chain.block_timestamp(candidate_block(checkpoint, interval) as u64) {
            Some(timestamp) if !chain.recorded(timestamp) => Some(timestamp),
            _ => None,
        }
    }
}

/// A reconciliation, run step by step, comes to the outcome that the case
/// analysis gives, and asks for at most one transaction: none where the case
/// analysis has none, and else one for the candidate's timestamp, which the
/// oracle did not hold.
pub proof fn lemma_reconcile_by_cases(
    chain: ChainState,
    checkpoint: u64,
    interval: u64,
    head: u64,
    receipt: Option<Bytes32>,
)
    ensures
        reconcile(chain, checkpoint, interval, head, receipt) == expected_outcome(
            chain,
            checkpoint,
            interval,
            head,
            receipt,
        ),
        reconcile_submissions(chain, checkpoint, interval, head, receipt) == match expected_submission(
            chain,
            checkpoint,
            interval,
            head,
        ) {
            Some(timestamp) => seq![timestamp],
            None => Seq::<u64>::empty(),
        },
{
    reveal_with_fuel(run, 4);
    reveal_with_fuel(submissions, 4);
    let quiet = Seq::<u64>::empty();
    match expected_submission(chain, checkpoint, interval, head) {
        Some(timestamp) => {
            assert(seq![timestamp] + quiet =~= seq![timestamp]);
        },
        None => {},
    }
}

/// A duplicate is never sent: when the oracle already holds a root for the
/// candidate's timestamp, the reconciliation is skipped and asks for no
/// transaction, whatever a submission would have yielded.
pub proof fn lemma_recorded_timestamp_is_skipped(
    chain: ChainState,
    checkpoint: u64,
    interval: u64,
    head: u64,
    receipt: Option<Bytes32>,
    timestamp: u64,
)
    requires
        is_due(checkpoint, interval, head),
        chain.block_timestamp(candidate_block(checkpoint, interval) as u64) == Some(timestamp),
        chain.recorded(timestamp),
    ensures
        reconcile(chain, checkpoint, interval, head, receipt) == Outcome::Skipped,
        reconcile_submissions(chain, checkpoint, interval, head, receipt) == Seq::<u64>::empty(),
{
    lemma_reconcile_by_cases(chain, checkpoint, interval, head, receipt);
}

/// A timestamp that the oracle does not hold is submitted: when the
/// candidate is due and the oracle maps its timestamp to the zero root, the
/// reconciliation asks for the one transaction that records it, and ends as
/// the submission does.
pub proof fn lemma_unrecorded_timestamp_is_submitted(
    chain: ChainState,
    checkpoint: u64,
    interval: u64,
    head: u64,
    receipt: Option<Bytes32>,
    timestamp: u64,
)
    requires
        is_due(checkpoint, interval, head),
        chain.block_timestamp(candidate_block(checkpoint, interval) as u64) == Some(timestamp),
        !chain.recorded(timestamp),
    ensures
        reconcile_submissions(chain, checkpoint, interval, head, receipt) == seq![timestamp],
        reconcile(chain, checkpoint, interval, head, receipt) == match receipt {
            Some(transaction) => Outcome::Submitted(transaction),
            None => Outcome::Failed(CycleError::SubmissionError),
        },
{
    lemma_reconcile_by_cases(chain, checkpoint, interval, head, receipt);
}

/// The chain after one reconciliation. A successful submission makes the
/// oracle record `root` for the submitted timestamp; anything else leaves the
/// state as it was.
pub open spec fn state_after(
    chain: ChainState,
    checkpoint: u64,
    interval: u64,
    head: u64,
    receipt: Option<Bytes32>,
    root: Bytes32,
) -> ChainState {
    match (
        reconcile(chain, checkpoint, interval, head, receipt),
        expected_submission(chain, checkpoint, interval, head),
    ) {
        (Outcome::Submitted(_), Some(timestamp)) => chain.record(timestamp, root),
        _ => chain,
    }
}

/// The chain after the first `n` of a series of reconciliations on the same
/// inputs, where nothing but these reconciliations changes the oracle.
/// `receipts[k]` is what a submission in the reconciliation of index `k`
/// yields.
pub open spec fn state_after_cycles(
    chain: ChainState,
    checkpoint: u64,
    interval: u64,
    head: u64,
    receipts: Seq<Option<Bytes32>>,
    root: Bytes32,
    n: nat,
) -> ChainState
    decreases n,
{
    if n == 0 {
        chain
    } else {
        state_after(
            state_after_cycles(chain, checkpoint, interval, head, receipts, root, (n - 1) as nat),
            checkpoint,
            interval,
            head,
            receipts[n - 1],
            root,
        )
    }
}

/// The outcome of the reconciliation of index `n` in such a series.
pub open spec fn outcome_of_cycle(
    chain: ChainState,
    checkpoint: u64,
    interval: u64,
    head: u64,
    receipts: Seq<Option<Bytes32>>,
    root: Bytes32,
    n: nat,
) -> Outcome {
    reconcile(
        state_after_cycles(chain, checkpoint, interval, head, receipts, root, n),
        checkpoint,
        interval,
        head,
        receipts[n as int],
    )
}

/// The transactions asked for by the reconciliation of index `n` in such a
/// series.
pub open spec fn submissions_of_cycle(
    chain: ChainState,
    checkpoint: u64,
    interval: u64,
    head: u64,
    receipts: Seq<Option<Bytes32>>,
    root: Bytes32,
    n: nat,
) -> Seq<u64> {
    reconcile_submissions(
        state_after_cycles(chain, checkpoint, interval, head, receipts, root, n),
        checkpoint,
        interval,
        head,
        receipts[n as int],
    )
}

/// A series of reconciliations changes no block, and what the oracle has
/// recorded stays recorded.
proof fn lemma_cycles_keep_records(
    chain: ChainState,
    checkpoint: u64,
    interval: u64,
    head: u64,
    receipts: Seq<Option<Bytes32>>,
    root: Bytes32,
    m: nat,
    n: nat,
    timestamp: u64,
)
    requires
        !all_zero(root),
        m <= n,
    ensures
        state_after_cycles(chain, checkpoint, interval, head, receipts, root, n).timestamps
            == chain.timestamps,
        state_after_cycles(chain, checkpoint, interval, head, receipts, root, m).recorded(timestamp)
            ==> state_after_cycles(chain, checkpoint, interval, head, receipts, root, n).recorded(
            timestamp,
        ),
    decreases n,
{
    if n > 0 {
        lemma_cycles_keep_records(
            chain,
            checkpoint,
            interval,
            head,
            receipts,
            root,
            if m < n {
                m
            } else {
                (n - 1) as nat
            },
            (n - 1) as nat,
            timestamp,
        );
    }
}

/// The decision is idempotent: in a series of reconciliations on the same
/// inputs, where nothing but these reconciliations changes the oracle and a
/// successful submission leaves a root other than zero, every reconciliation
/// after one that ended as `Submitted` is skipped and asks for no
/// transaction. So no timestamp is submitted twice.
pub proof fn lemma_submitted_once(
    chain: ChainState,
    checkpoint: u64,
    interval: u64,
    head: u64,
    receipts: Seq<Option<Bytes32>>,
    root: Bytes32,
    first: nat,
    later: nat,
)
    requires
        !all_zero(root),
        first < later < receipts.len(),
        outcome_of_cycle(chain, checkpoint, interval, head, receipts, root, first) is Submitted,
    ensures
        outcome_of_cycle(chain, checkpoint, interval, head, receipts, root, later)
            == Outcome::Skipped,
        submissions_of_cycle(chain, checkpoint, interval, head, receipts, root, later)
            == Seq::<u64>::empty(),
{
    let before = state_after_cycles(chain, checkpoint, interval, head, receipts, root, first);
    let after = state_after_cycles(
        chain,
        checkpoint,
        interval,
        head,
        receipts,
        root,
        (first + 1) as nat,
    );
    let at_later = state_after_cycles(chain, checkpoint, interval, head, receipts, root, later);
    lemma_reconcile_by_cases(before, checkpoint, interval, head, receipts[first as int]);
    let timestamp = expected_submission(before, checkpoint, interval, head).unwrap();
    assert(after == before.record(timestamp, root));
    assert(after.recorded(timestamp));
    lemma_cycles_keep_records(chain, checkpoint, interval, head, receipts, root, 0, first, timestamp);
    lemma_cycles_keep_records(
        chain,
        checkpoint,
        interval,
        head,
        receipts,
        root,
        (first + 1) as nat,
        later,
        timestamp,
    );
    lemma_recorded_timestamp_is_skipped(
        at_later,
        checkpoint,
        interval,
        head,
        receipts[later as int],
        timestamp,
    );
}

/// The report that a cycle on `chain` must end with: the failure of the
/// search if the horizon holds no update event, and else the latest
/// checkpoint, the head and the outcome of the reconciliation from them.
pub open spec fn expected_report(chain: ChainState, interval: u64, receipt: Option<Bytes32>) -> Report {
    match latest_checkpoint(chain.head, chain.events) {
        Ok(checkpoint) => Report {
            checkpoint: Some(checkpoint),
            head: Some(chain.head),
            outcome: reconcile(chain, checkpoint, interval, chain.head, receipt),
        },
        Err(error) => Report { checkpoint: None, head: None, outcome: Outcome::Failed(error) },
    }
}

/// Whether a phase is on the way to the expected report: the search has
/// passed over no event, the checkpoint is the latest one, and the
/// reconciliation leads to the outcome of the whole.
pub open spec fn phase_fits(
    chain: ChainState,
    interval: u64,
    receipt: Option<Bytes32>,
    phase: Phase,
) -> bool {
    match phase {
        Phase::ReadingSearchHead => true,
        Phase::Searching(search) => {
            &&& search.head() == chain.head
            &&& horizon_floor(chain.head) <= search.top() <= chain.head
            &&& forall|i: int|
                0 <= i < chain.events.len() ==> !(search.top() < #[trigger] chain.events[i]
                    <= chain.head)
        },
        Phase::ReadingHead { checkpoint } => latest_checkpoint(chain.head, chain.events) == Ok::<
            u64,
            CycleError,
        >(checkpoint),
        Phase::Reconciling { checkpoint, head, stage } => {
            &&& latest_checkpoint(chain.head, chain.events) == Ok::<u64, CycleError>(checkpoint)
            &&& head == chain.head
            &&& run(chain, Step::Pending(stage), receipt) == reconcile(
                chain,
                checkpoint,
                interval,
                head,
                receipt,
            )
        },
    }
}

/// One turn of a cycle on a chain that answers truly stays on the way to
/// the expected report, and a turn that ends the cycle ends it with that
/// report.
pub proof fn lemma_turn_follows_the_chain(
    chain: ChainState,
    interval: u64,
    receipt: Option<Bytes32>,
    phase: Phase,
    reply: Reply,
    turn: Turn,
)
    requires
        phase_fits(chain, interval, receipt, phase),
        chain.answers(phase.spec_request(), receipt, reply),
        phase.leads_to(interval, reply, turn),
    ensures
        match turn {
            Turn::Ask(next) => phase_fits(chain, interval, receipt, next),
            Turn::Finished(report) => report == expected_report(chain, interval, receipt),
        },
{
    reveal_with_fuel(run, 2);
    if let Phase::Searching(search) = phase {
        let head = chain.head;
        let events = chain.events;
        let window = search.spec_window();
        let found = reply->UpdateLogs_0@;
        assert forall|i: int|
            0 <= i < events.len() && window.contains(events[i]) implies found.contains(
            events[i],
        ) by {
            assert(events.contains(events[i]));
        }
        match turn {
            Turn::Ask(Phase::ReadingHead { checkpoint }) => {
                assert(found.contains(checkpoint));
                assert forall|i: int|
                    0 <= i < events.len() && in_horizon(head, events[i]) implies events[i]
                    <= checkpoint by {
                    if window.contains(events[i]) {
                        let j = choose|j: int| 0 <= j < found.len() && found[j] == events[i];
                        assert(found[j] <= checkpoint);
                    }
                }
                lemma_latest_is_unique(head, events, checkpoint);
            },
            Turn::Finished(_) => {
                lemma_empty_horizon_is_not_found(head, events);
            },
            _ => {},
        }
    }
}

/// Whether `phases` and `replies` are a whole cycle on `chain` that ends
/// with `report`: it starts at the first phase, every reply is a true answer
/// to its phase's request and leads to the next phase, and the last one ends
/// the cycle.
pub open spec fn is_cycle(
    chain: ChainState,
    interval: u64,
    receipt: Option<Bytes32>,
    phases: Seq<Phase>,
    replies: Seq<Reply>,
    report: Report,
) -> bool {
    &&& phases.len() > 0
    &&& replies.len() == phases.len()
    &&& phases[0] == Phase::ReadingSearchHead
    &&& forall|k: int|
        0 <= k < phases.len() ==> chain.answers(
            (#[trigger] phases[k]).spec_request(),
            receipt,
            replies[k],
        )
    &&& forall|k: int|
        0 <= k < phases.len() - 1 ==> (#[trigger] phases[k]).leads_to(
            interval,
            replies[k],
            Turn::Ask(phases[k + 1]),
        )
    &&& phases.last().leads_to(interval, replies.last(), Turn::Finished(report))
}

/// A whole cycle on a chain that answers truly ends with the expected
/// report: with `CheckpointNotFound` exactly when the horizon holds no update
/// event, and else with the latest checkpoint and the outcome that the
/// reconciliation from it comes to.
pub proof fn lemma_cycle_reports_the_chain(
    chain: ChainState,
    interval: u64,
    receipt: Option<Bytes32>,
    phases: Seq<Phase>,
    replies: Seq<Reply>,
    report: Report,
)
    requires
        is_cycle(chain, interval, receipt, phases, replies, report),
    ensures
        report == expected_report(chain, interval, receipt),
{
    lemma_phases_fit(chain, interval, receipt, phases, replies, report, phases.len() - 1);
    lemma_turn_follows_the_chain(
        chain,
        interval,
        receipt,
        phases.last(),
        replies.last(),
        Turn::Finished(report),
    );
}

/// Every phase of a whole cycle is on the way to the expected report.
proof fn lemma_phases_fit(
    chain: ChainState,
    interval: u64,
    receipt: Option<Bytes32>,
    phases: Seq<Phase>,
    replies: Seq<Reply>,
    report: Report,
    k: int,
)
    requires
        is_cycle(chain, interval, receipt, phases, replies, report),
        0 <= k < phases.len(),
    ensures
        phase_fits(chain, interval, receipt, phases[k]),
    decreases k,
{
    if k > 0 {
        lemma_phases_fit(chain, interval, receipt, phases, replies, report, k - 1);
        lemma_turn_follows_the_chain(
            chain,
            interval,
            receipt,
            phases[k - 1],
            replies[k - 1],
            Turn::Ask(phases[k]),
        );
    }
}

} // verus!
