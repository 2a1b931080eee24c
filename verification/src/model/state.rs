//! States of a step and of a whole pipeline run.

use vstd::prelude::*;

verus! {

#[verifier::external_type_specification]
#[verifier::external_body]
pub struct ExUuid(uuid::Uuid);

/// Cloning an execution id gives the same id.
pub assume_specification[ <uuid::Uuid as Clone>::clone ](id: &uuid::Uuid) -> (r: uuid::Uuid)
    ensures
        r == *id,
;

/// A point in time: whole seconds since the Unix epoch and the nanoseconds
/// within that second.
#[derive(Debug, Clone, Copy, PartialEq, Eq, Structural)]
pub struct Timestamp {
    pub secs: i64,
    pub nanos: u32,
}

/// `chrono::Utc::now`, split into seconds and nanoseconds. Nothing is promised
/// of the value: it is whatever the clock says. The call fails only where
/// the clock of the system stands before the year 1970.
#[verifier::external_body]
fn clock_now() -> (t: Timestamp) {
    let now = chrono::Utc::now();
    Timestamp { secs: now.timestamp(), nanos: now.timestamp_subsec_nanos() }
}

/// `uuid::Uuid::new_v4`: a random id, of which nothing is promised.
#[verifier::external_body]
fn random_uuid() -> (id: uuid::Uuid) {
    uuid::Uuid::new_v4()
}

impl Timestamp {
    /// The current time, as the clock of the system tells it: no two calls
    /// need agree, and nothing is known of the answer beforehand.
    pub fn now() -> (t: Timestamp) {
        clock_now()
    }
}

/// Overall status of a pipeline run.
#[derive(Debug, Clone, Copy, PartialEq, Eq, Structural)]
pub enum ExecutionStatus {
    /// The run has not started.
    Pending,
    /// The run is under way.
    Running,
    /// Every step ended and no failure was left unhandled.
    Completed,
    /// A failure was left unhandled, or the run could not go on.
    Failed,
    /// The run was cancelled.
    Cancelled,
    /// The run is paused.
    Paused,
}

/// State of a single step.
#[derive(Debug)]
pub enum StepState {
    /// Never started.
    Pending,
    /// Scheduled to run again; `attempt` is the number of the coming run.
    Retrying { attempt: usize },
    /// Running its `attempt`-th run.
    Running { started_at: Timestamp, attempt: usize },
    /// Ended with success.
    Completed { output: String, attempts: usize, started_at: Timestamp, completed_at: Timestamp },
    /// Ended with failure.
    Failed { error: String, attempts: usize, last_started_at: Timestamp, failed_at: Timestamp },
    /// Left out.
    Skipped { reason: String },
    /// Waits on something outside the pipeline.
    Blocked { reason: String, blocked_at: Timestamp },
}

/// What a `StepState` says, with its texts as sequences of characters.
pub enum StepStateView {
    Pending,
    Retrying { attempt: usize },
    Running { started_at: Timestamp, attempt: usize },
    Completed { output: Seq<char>, attempts: usize, started_at: Timestamp, completed_at: Timestamp },
    Failed { error: Seq<char>, attempts: usize, last_started_at: Timestamp, failed_at: Timestamp },
    Skipped { reason: Seq<char> },
    Blocked { reason: Seq<char>, blocked_at: Timestamp },
}

impl StepStateView {
    /// Completed, failed or skipped.
    pub open spec fn is_terminal(self) -> bool {
        self is Completed || self is Failed || self is Skipped
    }

    /// Pending or waiting for another run.
    pub open spec fn is_waiting(self) -> bool {
        self is Pending || self is Retrying
    }

    /// The number of runs that a terminal state records; zero for a skipped step.
    pub open spec fn recorded_attempts(self) -> int {
        match self {
            StepStateView::Completed { attempts, .. } => attempts as int,
            StepStateView::Failed { attempts, .. } => attempts as int,
            _ => 0,
        }
    }
}

impl View for StepState {
    type V = StepStateView;

    open spec fn view(&self) -> StepStateView {
        match *self {
            StepState::Pending => StepStateView::Pending,
            StepState::Retrying { attempt } => StepStateView::Retrying { attempt },
            StepState::Running { started_at, attempt } => StepStateView::Running {
                started_at,
                attempt,
            },
            StepState::Completed { output, attempts, started_at, completed_at } => {
                StepStateView::Completed { output: output@, attempts, started_at, completed_at }
            },
            StepState::Failed { error, attempts, last_started_at, failed_at } => {
                StepStateView::Failed { error: error@, attempts, last_started_at, failed_at }
            },
            StepState::Skipped { reason } => StepStateView::Skipped { reason: reason@ },
            StepState::Blocked { reason, blocked_at } => StepStateView::Blocked {
                reason: reason@,
                blocked_at,
            },
        }
    }
}

impl Clone for StepState {
    fn clone(&self) -> (r: Self)
        ensures
            r == *self,
    {
        match self {
            StepState::Pending => StepState::Pending,
            StepState::Retrying { attempt } => StepState::Retrying { attempt: *attempt },
            StepState::Running { started_at, attempt } => StepState::Running {
                started_at: *started_at,
                attempt: *attempt,
            },
            StepState::Completed { output, attempts, started_at, completed_at } => {
                StepState::Completed {
                    output: output.clone(),
                    attempts: *attempts,
                    started_at: *started_at,
                    completed_at: *completed_at,
                }
            },
            StepState::Failed { error, attempts, last_started_at, failed_at } => StepState::Failed {
                error: error.clone(),
                attempts: *attempts,
                last_started_at: *last_started_at,
                failed_at: *failed_at,
            },
            StepState::Skipped { reason } => StepState::Skipped { reason: reason.clone() },
            StepState::Blocked { reason, blocked_at } => StepState::Blocked {
                reason: reason.clone(),
                blocked_at: *blocked_at,
            },
        }
    }
}

impl StepState {
    /// Whether the step has ended: completed, failed or skipped.
    pub fn is_terminal(&self) -> (b: bool)
        ensures
            b == self@.is_terminal(),
    {
        match self {
            StepState::Completed { .. } => true,
            StepState::Failed { .. } => true,
            StepState::Skipped { .. } => true,
            _ => false,
        }
    }
}

/// Where a pipeline run stands: its id, its status, its times and its counts.
#[derive(Debug, Clone)]
pub struct PipelineState {
    /// Id of this run.
    pub execution_id: uuid::Uuid,
    /// Status of the run.
    pub status: ExecutionStatus,
    /// When the run started.
    pub started_at: Option<Timestamp>,
    /// When the run completed or failed.
    pub completed_at: Option<Timestamp>,
    /// Number of steps.
    pub total_steps: usize,
    /// Number of completed steps.
    pub completed_steps: usize,
    /// Number of failed steps.
    pub failed_steps: usize,
    /// Number of running steps.
    pub running_steps: usize,
}

impl PipelineState {
    /// The state of a run that has not started, under a fresh id. The id is
    /// drawn at random, so nothing is known of it.
    pub fn new() -> (s: Self)
        ensures
            s.status == ExecutionStatus::Pending,
            s.started_at is None,
            s.completed_at is None,
            s.total_steps == 0,
            s.completed_steps == 0,
            s.failed_steps == 0,
            s.running_steps == 0,
    {
        PipelineState {
            execution_id: random_uuid(),
            status: ExecutionStatus::Pending,
            started_at: None,
            completed_at: None,
            total_steps: 0,
            completed_steps: 0,
            failed_steps: 0,
            running_steps: 0,
        }
    }

    /// Marks the run as started now, with `total_steps` steps.
    pub fn start(&mut self, total_steps: usize)
        ensures
            final(self).status == ExecutionStatus::Running,
            final(self).started_at is Some,
            final(self).total_steps == total_steps,
            final(self).execution_id == old(self).execution_id,
            final(self).completed_at == old(self).completed_at,
            final(self).completed_steps == old(self).completed_steps,
            final(self).failed_steps == old(self).failed_steps,
            final(self).running_steps == old(self).running_steps,
    {
        self.status = ExecutionStatus::Running;
        self.started_at = Some(Timestamp::now());
        self.total_steps = total_steps;
    }

    /// Marks the run as completed now.
    pub fn complete(&mut self)
        ensures
            final(self).status == ExecutionStatus::Completed,
            final(self).completed_at is Some,
            final(self).execution_id == old(self).execution_id,
            final(self).started_at == old(self).started_at,
            final(self).total_steps == old(self).total_steps,
            final(self).completed_steps == old(self).completed_steps,
            final(self).failed_steps == old(self).failed_steps,
            final(self).running_steps == old(self).running_steps,
    {
        self.status = ExecutionStatus::Completed;
        self.completed_at = Some(Timestamp::now());
    }

    /// Marks the run as failed now.
    pub fn fail(&mut self)
        ensures
            final(self).status == ExecutionStatus::Failed,
            final(self).completed_at is Some,
            final(self).execution_id == old(self).execution_id,
            final(self).started_at == old(self).started_at,
            final(self).total_steps == old(self).total_steps,
            final(self).completed_steps == old(self).completed_steps,
            final(self).failed_steps == old(self).failed_steps,
            final(self).running_steps == old(self).running_steps,
    {
        self.status = ExecutionStatus::Failed;
        self.completed_at = Some(Timestamp::now());
    }

    /// Sets the four counts.
    pub fn update_counts(&mut self, steps: &usize, completed: &usize, failed: &usize, running: &usize)
        ensures
            final(self).total_steps == *steps,
            final(self).completed_steps == *completed,
            final(self).failed_steps == *failed,
            final(self).running_steps == *running,
            final(self).execution_id == old(self).execution_id,
            final(self).status == old(self).status,
            final(self).started_at == old(self).started_at,
            final(self).completed_at == old(self).completed_at,
    {
        self.total_steps = *steps;
        self.completed_steps = *completed;
        self.failed_steps = *failed;
        self.running_steps = *running;
    }

    /// The number of steps that have ended, counted for the progress of the
    /// run, and the number of steps: progress is the first over the second.
    pub fn progress_parts(&self) -> (r: (usize, usize))
        ensures
            r.0 as int == if self.completed_steps + self.failed_steps <= usize::MAX {
                self.completed_steps + self.failed_steps
            } else {
                usize::MAX as int
            },
            r.1 == self.total_steps,
    {
        (self.completed_steps.saturating_add(self.failed_steps), self.total_steps)
    }
}

impl Default for PipelineState {
    fn default() -> (s: Self)
        ensures
            s.status == ExecutionStatus::Pending,
            s.started_at is None,
            s.completed_at is None,
            s.total_steps == 0,
            s.completed_steps == 0,
            s.failed_steps == 0,
            s.running_steps == 0,
    {
        PipelineState::new()
    }
}

} // verus!
