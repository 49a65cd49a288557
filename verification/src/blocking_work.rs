//! The decisions of the bounded blocking-work pool: what a caller gets, and which outcome
//! is recorded, from how waiting for a permit and running the work ended.

use vstd::prelude::*;

use crate::metrics::ExecutorOutcome;

verus! {

/// Why blocking work did not give a result.
#[derive(Clone, Copy, Debug, PartialEq, Eq, Structural)]
pub enum BlockingWorkError {
    QueueTimeout,
    ExecutionTimeout,
    ShuttingDown,
    WorkerPanicked,
}

impl BlockingWorkError {
    pub open spec fn message_spec(self) -> Seq<char> {
        match self {
            BlockingWorkError::QueueTimeout => "blocking work queue timed out"@,
            BlockingWorkError::ExecutionTimeout => "blocking work execution timed out"@,
            BlockingWorkError::ShuttingDown => "blocking work pool is shutting down"@,
            BlockingWorkError::WorkerPanicked => "blocking worker panicked"@,
        }
    }

    /// The error's text.
    pub fn message(self) -> (r: &'static str)
        ensures
            r@ == self.message_spec(),
    {
        match self {
            BlockingWorkError::QueueTimeout => "blocking work queue timed out",
            BlockingWorkError::ExecutionTimeout => "blocking work execution timed out",
            BlockingWorkError::ShuttingDown => "blocking work pool is shutting down",
            BlockingWorkError::WorkerPanicked => "blocking worker panicked",
        }
    }
}

/// How waiting for a permit of the pool ended.
#[derive(Clone, Copy, Debug, PartialEq, Eq, Structural)]
pub enum PermitWait {
    Acquired,
    /// The pool's semaphore was closed.
    Closed,
    /// No permit came within the queue timeout.
    TimedOut,
}

/// How running the work on a blocking thread ended.
#[derive(Clone, Copy, Debug, PartialEq, Eq, Structural)]
pub enum WorkRun {
    Finished,
    Panicked,
    /// The work did not finish within the execution timeout.
    TimedOut,
}

/// Without a permit the work does not run: a closed pool is shutting down, a wait past
/// the queue timeout timed out; each error is recorded as the outcome of the same name.
/// With a permit, `None`.
pub fn permit_refusal(wait: PermitWait) -> (r: Option<(BlockingWorkError, ExecutorOutcome)>)
    ensures
        wait == PermitWait::Acquired ==> r is None,
        wait == PermitWait::Closed ==> r == Some((BlockingWorkError::ShuttingDown, ExecutorOutcome::ShuttingDown)),
        wait == PermitWait::TimedOut ==> r == Some((BlockingWorkError::QueueTimeout, ExecutorOutcome::QueueTimeout)),
{
    match wait {
        PermitWait::Acquired => None,
        PermitWait::Closed => Some((BlockingWorkError::ShuttingDown, ExecutorOutcome::ShuttingDown)),
        PermitWait::TimedOut => Some((BlockingWorkError::QueueTimeout, ExecutorOutcome::QueueTimeout)),
    }
}

/// A finished run gives its result and records success; a panic and a run past the
/// execution timeout give their errors and record the outcomes of the same name.
pub fn run_outcome(run: WorkRun) -> (r: (Option<BlockingWorkError>, ExecutorOutcome))
    ensures
        run == WorkRun::Finished ==> r == (None::<BlockingWorkError>, ExecutorOutcome::Success),
        run == WorkRun::Panicked ==> r == (Some(BlockingWorkError::WorkerPanicked), ExecutorOutcome::Panicked),
        run == WorkRun::TimedOut ==> r == (Some(BlockingWorkError::ExecutionTimeout), ExecutorOutcome::ExecutionTimeout),
{
    match run {
        WorkRun::Finished => (None, ExecutorOutcome::Success),
        WorkRun::Panicked => (Some(BlockingWorkError::WorkerPanicked), ExecutorOutcome::Panicked),
        WorkRun::TimedOut => (Some(BlockingWorkError::ExecutionTimeout), ExecutorOutcome::ExecutionTimeout),
    }
}

} // verus!
