use oracle_sync::chain::{is_zero, CycleError, Reply, Request};
use oracle_sync::reconcile::{begin, due_candidate, Outcome, Stage, Step, SAFETY_MARGIN};

const ZERO: [u8; 32] = [0u8; 32];

fn root(last: u8) -> [u8; 32] {
    let mut bytes = [0u8; 32];
    bytes[31] = last;
    bytes
}

fn pending(step: Step) -> Stage {
    match step {
        Step::Pending(stage) => stage,
        Step::Done(outcome) => panic!("reconciliation ended early with {:?}", outcome),
    }
}

#[test]
fn safety_margin_is_five_blocks() {
    assert_eq!(SAFETY_MARGIN, 5);
}

#[test]
fn zero_root_is_all_zero_bytes() {
    assert!(is_zero(&ZERO));
    assert!(!is_zero(&root(1)));
    let mut first = [0u8; 32];
    first[0] = 0x80;
    assert!(!is_zero(&first));
    assert!(!is_zero(&[0xff; 32]));
}

#[test]
fn eligibility_boundary() {
    // Candidate 1500 is not below 1505 - 5.
    assert_eq!(begin(1000, 500, 1505), Step::Done(Outcome::Skipped));
    // It is below 1506 - 5.
    assert_eq!(begin(1000, 500, 1506), Step::Pending(Stage::AwaitingBlock { candidate: 1500 }));
}

#[test]
fn due_candidate_is_checkpoint_plus_interval() {
    assert_eq!(due_candidate(1000, 500, 1505), None);
    assert_eq!(due_candidate(1000, 500, 1506), Some(1500));
    assert_eq!(due_candidate(100_000, 500, 100_506), Some(100_500));
    assert_eq!(due_candidate(0, 1, 7), Some(1));
    assert_eq!(due_candidate(0, 1, 6), None);
}

#[test]
fn nothing_is_due_near_block_zero() {
    for head in 0..=5 {
        assert_eq!(due_candidate(0, 0, head), None);
    }
    assert_eq!(due_candidate(0, 0, 6), Some(0));
}

#[test]
fn candidate_beyond_the_block_range_is_not_due() {
    assert_eq!(due_candidate(u64::MAX, 1, u64::MAX), None);
    assert_eq!(due_candidate(u64::MAX - 10, 500, u64::MAX), None);
    assert_eq!(begin(u64::MAX, u64::MAX, u64::MAX), Step::Done(Outcome::Skipped));
    assert_eq!(due_candidate(u64::MAX - 10, 4, u64::MAX), Some(u64::MAX - 6));
    assert_eq!(due_candidate(u64::MAX - 10, 5, u64::MAX), None);
}

#[test]
fn checkpoint_ahead_of_the_head_is_skipped() {
    assert_eq!(begin(2000, 500, 1000), Step::Done(Outcome::Skipped));
}

#[test]
fn stages_ask_for_their_requests() {
    assert_eq!(Stage::AwaitingBlock { candidate: 1500 }.request(), Request::BlockTimestamp(1500));
    assert_eq!(Stage::AwaitingRoot { timestamp: 77 }.request(), Request::RecordedRoot(77));
    assert_eq!(Stage::AwaitingReceipt { timestamp: 77 }.request(), Request::AddTimestamp(77));
}

#[test]
fn unrecorded_timestamp_is_submitted() {
    // Checkpoint at 100000, interval 500, head at 100506: the candidate
    // 100500 has a timestamp that the oracle does not hold yet.
    let t1: u64 = 1_700_006_000;
    let transaction = [0xab; 32];
    let mut requests = Vec::new();

    let stage = pending(begin(100_000, 500, 100_506));
    requests.push(stage.request());
    let stage = pending(stage.resume(&Reply::BlockTimestamp(Some(t1))));
    requests.push(stage.request());
    let stage = pending(stage.resume(&Reply::RecordedRoot(ZERO)));
    requests.push(stage.request());
    let end = stage.resume(&Reply::Receipt(Some(transaction)));

    assert_eq!(end, Step::Done(Outcome::Submitted(transaction)));
    assert_eq!(
        requests,
        vec![
            Request::BlockTimestamp(100_500),
            Request::RecordedRoot(t1),
            Request::AddTimestamp(t1),
        ]
    );
}

#[test]
fn recorded_timestamp_is_skipped() {
    let stage = pending(begin(100_000, 500, 100_506));
    let stage = pending(stage.resume(&Reply::BlockTimestamp(Some(1_700_006_000))));
    assert_eq!(stage.resume(&Reply::RecordedRoot(root(1))), Step::Done(Outcome::Skipped));
    assert_eq!(stage.resume(&Reply::RecordedRoot([0xff; 32])), Step::Done(Outcome::Skipped));
}

#[test]
fn zero_root_proceeds_to_submission() {
    let stage = Stage::AwaitingRoot { timestamp: 42 };
    assert_eq!(
        stage.resume(&Reply::RecordedRoot(ZERO)),
        Step::Pending(Stage::AwaitingReceipt { timestamp: 42 })
    );
}

#[test]
fn missing_block_is_a_block_fetch_error() {
    let stage = Stage::AwaitingBlock { candidate: 1500 };
    assert_eq!(
        stage.resume(&Reply::BlockTimestamp(None)),
        Step::Done(Outcome::Failed(CycleError::BlockFetchError))
    );
}

#[test]
fn failed_reads_are_provider_errors() {
    let failed = Step::Done(Outcome::Failed(CycleError::ProviderError));
    assert_eq!(Stage::AwaitingBlock { candidate: 1500 }.resume(&Reply::Failed), failed);
    assert_eq!(Stage::AwaitingRoot { timestamp: 42 }.resume(&Reply::Failed), failed);
}

#[test]
fn failed_submission_is_a_submission_error() {
    let failed = Step::Done(Outcome::Failed(CycleError::SubmissionError));
    let stage = Stage::AwaitingReceipt { timestamp: 42 };
    assert_eq!(stage.resume(&Reply::Failed), failed);
    assert_eq!(stage.resume(&Reply::Receipt(None)), failed);
}

#[test]
fn replies_of_another_kind_count_as_failures() {
    let provider = Step::Done(Outcome::Failed(CycleError::ProviderError));
    let submission = Step::Done(Outcome::Failed(CycleError::SubmissionError));
    let block = Stage::AwaitingBlock { candidate: 1500 };
    let lookup = Stage::AwaitingRoot { timestamp: 42 };
    let receipt = Stage::AwaitingReceipt { timestamp: 42 };
    assert_eq!(block.resume(&Reply::ChainHead(9)), provider);
    assert_eq!(block.resume(&Reply::RecordedRoot(ZERO)), provider);
    assert_eq!(block.resume(&Reply::Receipt(Some([1; 32]))), provider);
    assert_eq!(lookup.resume(&Reply::BlockTimestamp(Some(42))), provider);
    assert_eq!(lookup.resume(&Reply::UpdateLogs(vec![1])), provider);
    assert_eq!(lookup.resume(&Reply::Receipt(Some([1; 32]))), provider);
    assert_eq!(receipt.resume(&Reply::RecordedRoot(ZERO)), submission);
    assert_eq!(receipt.resume(&Reply::BlockTimestamp(Some(42))), submission);
}

#[test]
fn timestamp_is_carried_unchanged() {
    for timestamp in [0, 1, 1_700_000_000, u64::MAX] {
        let stage = pending(
            Stage::AwaitingBlock { candidate: 7 }.resume(&Reply::BlockTimestamp(Some(timestamp))),
        );
        assert_eq!(stage.request(), Request::RecordedRoot(timestamp));
        let stage = pending(stage.resume(&Reply::RecordedRoot(ZERO)));
        assert_eq!(stage.request(), Request::AddTimestamp(timestamp));
    }
}
