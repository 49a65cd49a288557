use pezzottify::blocking_work::permit_refusal;
use pezzottify::blocking_work::run_outcome;
use pezzottify::blocking_work::BlockingWorkError;
use pezzottify::blocking_work::PermitWait;
use pezzottify::blocking_work::WorkRun;
use pezzottify::metrics::ExecutorOutcome;

#[test]
fn work_without_a_permit_is_refused_with_a_recorded_outcome() {
    assert_eq!(permit_refusal(PermitWait::Acquired), None);
    assert_eq!(
        permit_refusal(PermitWait::Closed),
        Some((BlockingWorkError::ShuttingDown, ExecutorOutcome::ShuttingDown))
    );
    assert_eq!(
        permit_refusal(PermitWait::TimedOut),
        Some((BlockingWorkError::QueueTimeout, ExecutorOutcome::QueueTimeout))
    );
}

#[test]
fn each_run_ending_has_its_result_and_outcome() {
    assert_eq!(run_outcome(WorkRun::Finished), (None, ExecutorOutcome::Success));
    assert_eq!(
        run_outcome(WorkRun::Panicked),
        (Some(BlockingWorkError::WorkerPanicked), ExecutorOutcome::Panicked)
    );
    assert_eq!(
        run_outcome(WorkRun::TimedOut),
        (Some(BlockingWorkError::ExecutionTimeout), ExecutorOutcome::ExecutionTimeout)
    );
    assert_eq!(ExecutorOutcome::Panicked.label(), "panicked");
}

#[test]
fn blocking_work_errors_have_their_messages() {
    assert_eq!(BlockingWorkError::QueueTimeout.message(), "blocking work queue timed out");
    assert_eq!(BlockingWorkError::ExecutionTimeout.message(), "blocking work execution timed out");
    assert_eq!(BlockingWorkError::ShuttingDown.message(), "blocking work pool is shutting down");
    assert_eq!(BlockingWorkError::WorkerPanicked.message(), "blocking worker panicked");
}
