//! How the state of one step changes when it starts, when its run ends, and
//! when another step routes to it.

use crate::execution::executor::{ContinueActionView, ExecutionResultView};
use crate::model::state::{StepState, StepStateView, Timestamp};
use crate::text::{concat, decimal, decimal_string};
use vstd::prelude::*;

verus! {

/// The number of retries that is enforced: the number asked for, as far as
/// the attempt counter can count.
pub open spec fn retry_limit(max_retries: usize) -> int {
    if max_retries <= usize::MAX - 2 {
        max_retries as int
    } else {
        usize::MAX - 2
    }
}

/// `attempts` and one more, as far as the counter can count.
pub open spec fn bump(attempts: usize) -> usize {
    if attempts < usize::MAX {
        (attempts + 1) as usize
    } else {
        attempts
    }
}

/// Whether a step in this state can be started: it waits, or it runs
/// already and is entered again.
pub open spec fn may_begin(state: StepStateView) -> bool {
    state is Pending || state is Retrying || state is Running
}

/// The number of the run that starts from this state: the first for a
/// pending step, the announced one for a step that waits for a retry, the
/// next one for a step that runs already.
pub open spec fn next_attempt(state: StepStateView) -> int {
    match state {
        StepStateView::Pending => 1,
        StepStateView::Retrying { attempt } => if attempt == 0 {
            1
        } else {
            attempt as int
        },
        StepStateView::Running { attempt, .. } => attempt + 1,
        _ => 0,
    }
}

/// Whether the run that would start from this state is one retry too many.
pub open spec fn exhausted(state: StepStateView, max_retries: usize) -> bool {
    next_attempt(state) - 1 > retry_limit(max_retries)
}

/// The error of a step that has used up its retries.
pub open spec fn exceeded_message(max_retries: usize) -> Seq<char> {
    "Exceeded retry limit of "@ + decimal(max_retries as nat)
}

/// The state of a step after it was started at the time `now`: running its
/// next run, or failed where that run would be one retry too many.
pub open spec fn begun(state: StepStateView, max_retries: usize, now: Timestamp) -> StepStateView {
    if exhausted(state, max_retries) {
        StepStateView::Failed {
            error: exceeded_message(max_retries),
            attempts: (next_attempt(state) - 1) as usize,
            last_started_at: match state {
                StepStateView::Running { started_at, .. } => started_at,
                _ => now,
            },
            failed_at: now,
        }
    } else {
        StepStateView::Running { started_at: now, attempt: next_attempt(state) as usize }
    }
}

/// The state of a running step after its run ended with `result` at the
/// time `now`. A step that routes on has done its part and counts as
/// completed, with no output. An interrupted run leaves the step running.
pub open spec fn settled(
    state: StepStateView,
    result: ExecutionResultView,
    now: Timestamp,
) -> StepStateView
    recommends
        state is Running,
{
    let attempts = state->Running_attempt;
    let started_at = state->Running_started_at;
    match result {
        ExecutionResultView::Success { output, .. } => StepStateView::Completed {
            output,
            attempts,
            started_at,
            completed_at: now,
        },
        ExecutionResultView::Continue { action: ContinueActionView::Retry, .. } => {
            StepStateView::Retrying { attempt: bump(attempts) }
        },
        ExecutionResultView::Continue { action: ContinueActionView::Route(_), .. } => {
            StepStateView::Completed {
                output: Seq::empty(),
                attempts,
                started_at,
                completed_at: now,
            }
        },
        ExecutionResultView::FailedWithRoute { error, .. } => StepStateView::Failed {
            error,
            attempts,
            last_started_at: started_at,
            failed_at: now,
        },
        ExecutionResultView::Failed { error } => StepStateView::Failed {
            error,
            attempts,
            last_started_at: started_at,
            failed_at: now,
        },
        ExecutionResultView::Interrupted { .. } => state,
    }
}

/// The state of a step after the route of a success or of a failure
/// landed on it: a step that had ended waits for its next run, a step that
/// never ran waits for its first, and a step that waits or runs already
/// stays as it is.
pub open spec fn routed(state: StepStateView) -> StepStateView {
    match state {
        StepStateView::Completed { attempts, .. } => StepStateView::Retrying {
            attempt: bump(attempts),
        },
        StepStateView::Failed { attempts, .. } => StepStateView::Retrying { attempt: bump(attempts) },
        StepStateView::Skipped { .. } => StepStateView::Retrying { attempt: 1 },
        StepStateView::Pending => StepStateView::Retrying { attempt: 1 },
        StepStateView::Blocked { .. } => StepStateView::Retrying { attempt: 1 },
        StepStateView::Retrying { .. } => state,
        StepStateView::Running { .. } => state,
    }
}

/// The state of a step after a continuation routed to it: a step that had
/// ended waits for the run after those that it has had; any other step
/// waits for its first run, whatever it had counted before.
pub open spec fn reset(state: StepStateView) -> StepStateView {
    if state.is_terminal() {
        routed(state)
    } else {
        StepStateView::Retrying { attempt: 1 }
    }
}

/// Whether the route of `result` is that of a continuation, which resets
/// its target; the routes of a success and of a failure leave a target
/// that waits or runs as it is.
pub open spec fn resets(result: ExecutionResultView) -> bool {
    result matches ExecutionResultView::Continue { action: ContinueActionView::Route(_), .. }
}

/// The state of a step after a route landed on it: reset by a route that
/// resets, routed to by any other.
pub open spec fn landed(state: StepStateView, fresh: bool) -> StepStateView {
    if fresh {
        reset(state)
    } else {
        routed(state)
    }
}

/// Whether a reset of a step in this state makes it forget runs: the step
/// has not ended, and has started at least once.
pub open spec fn forgets(state: StepStateView) -> bool {
    !state.is_terminal() && runs(state) > 0
}

/// The step that the run goes to after `result`, if any.
pub open spec fn route_target(result: ExecutionResultView) -> Option<Seq<char>> {
    match result {
        ExecutionResultView::Success { next_step, .. } => next_step,
        ExecutionResultView::Continue { action: ContinueActionView::Route(target), .. } => Some(
            target,
        ),
        ExecutionResultView::FailedWithRoute { next_step, .. } => Some(next_step),
        _ => None,
    }
}

/// The step that is asked for after the step `id` ended with `result`: the
/// step that the run goes to, or the step itself where it is retried.
pub open spec fn requested(id: Seq<char>, result: ExecutionResultView) -> Option<Seq<char>> {
    match result {
        ExecutionResultView::Continue { action: ContinueActionView::Retry, .. } => Some(id),
        _ => route_target(result),
    }
}

/// How far a step has come: twice the number of its last run, less one while
/// it waits for that run.
pub open spec fn stage(state: StepStateView) -> int {
    match state {
        StepStateView::Retrying { attempt } => if attempt == 0 {
            0
        } else {
            2 * attempt - 1
        },
        StepStateView::Running { attempt, .. } => 2 * attempt,
        StepStateView::Completed { attempts, .. } => 2 * attempts,
        StepStateView::Failed { attempts, .. } => 2 * attempts,
        _ => 0,
    }
}

/// How much further a step can come before its retries are used up.
pub open spec fn budget(state: StepStateView, max_retries: usize) -> int {
    let room = 2 * (retry_limit(max_retries) + 1) - stage(state);
    if room > 0 {
        room
    } else {
        0
    }
}

/// The number of runs that a state stands for: those that have started.
pub open spec fn runs(state: StepStateView) -> int {
    match state {
        StepStateView::Retrying { attempt } => if attempt == 0 {
            0
        } else {
            attempt - 1
        },
        StepStateView::Running { attempt, .. } => attempt as int,
        StepStateView::Completed { attempts, .. } => attempts as int,
        StepStateView::Failed { attempts, .. } => attempts as int,
        _ => 0,
    }
}

/// The attempt counter of the state, where it has one.
pub open spec fn counter(state: StepStateView) -> int {
    match state {
        StepStateView::Retrying { attempt } => attempt as int,
        StepStateView::Running { attempt, .. } => attempt as int,
        StepStateView::Completed { attempts, .. } => attempts as int,
        StepStateView::Failed { attempts, .. } => attempts as int,
        _ => 0,
    }
}

/// The attempt counter respects the number of retries: a step that runs or
/// has ended has run at most once more than it may be retried, and a step
/// that waits for a retry has asked for at most one run more.
pub open spec fn within_retries(state: StepStateView, max_retries: usize) -> bool {
    match state {
        StepStateView::Retrying { attempt } => attempt <= max_retries + 2,
        StepStateView::Running { attempt, .. } => attempt <= max_retries + 1,
        StepStateView::Completed { attempts, .. } => attempts <= max_retries + 1,
        StepStateView::Failed { attempts, .. } => attempts <= max_retries + 1,
        _ => true,
    }
}

/// A step that runs, has completed or has failed has had a first run: its
/// attempt counter is at least one.
pub open spec fn counts_from_one(state: StepStateView) -> bool {
    match state {
        StepStateView::Running { attempt, .. } => attempt >= 1,
        StepStateView::Completed { attempts, .. } => attempts >= 1,
        StepStateView::Failed { attempts, .. } => attempts >= 1,
        _ => true,
    }
}

/// No state that runs or has ended comes about without a first run: the
/// counter is at least one after a start, and the end of a run and a route
/// keep it so.
pub proof fn lemma_counts_from_one(
    state: StepStateView,
    result: ExecutionResultView,
    max_retries: usize,
    now: Timestamp,
)
    requires
        counts_from_one(state),
    ensures
        may_begin(state) ==> counts_from_one(begun(state, max_retries, now)),
        state is Running ==> counts_from_one(settled(state, result, now)),
        counts_from_one(routed(state)),
        counts_from_one(reset(state)),
{
}

/// The state of a step after `n` runs, each of which asked for the step
/// once more: it waits for the run after them.
pub open spec fn retried(n: nat) -> StepStateView {
    if n == 0 {
        StepStateView::Pending
    } else {
        StepStateView::Retrying { attempt: (n + 1) as usize }
    }
}

/// A step that keeps asking for a retry is run until its retries are used
/// up, and then fails: with `max_retries` retries, each of its first
/// `max_retries + 1` runs starts and leaves the step waiting for the next
/// one, and the start after them fails the step, which then records
/// `max_retries + 1` attempts and the error that names the limit.
pub proof fn lemma_retries_run_out(n: nat, max_retries: usize, begin: Timestamp, end: Timestamp)
    requires
        max_retries <= usize::MAX - 2,
        n <= max_retries + 1,
    ensures
        may_begin(retried(n)),
        n <= max_retries ==> !exhausted(retried(n), max_retries) && begun(
            retried(n),
            max_retries,
            begin,
        ) == (StepStateView::Running { started_at: begin, attempt: (n + 1) as usize }) && settled(
            begun(retried(n), max_retries, begin),
            ExecutionResultView::Continue { action: ContinueActionView::Retry, target: None },
            end,
        ) == retried(n + 1),
        n == max_retries + 1 ==> exhausted(retried(n), max_retries) && begun(
            retried(n),
            max_retries,
            begin,
        ) == (StepStateView::Failed {
            error: exceeded_message(max_retries),
            attempts: (max_retries + 1) as usize,
            last_started_at: begin,
            failed_at: begin,
        }),
{
}

/// Starting a step uses up budget, or fails the step; it never gains budget.
pub proof fn lemma_begun_budget(state: StepStateView, max_retries: usize, now: Timestamp)
    requires
        may_begin(state),
    ensures
        !exhausted(state, max_retries) ==> budget(begun(state, max_retries, now), max_retries)
            < budget(state, max_retries),
        exhausted(state, max_retries) ==> budget(begun(state, max_retries, now), max_retries)
            <= budget(state, max_retries),
{
}

/// The end of a run never gains budget.
pub proof fn lemma_settled_budget(
    state: StepStateView,
    result: ExecutionResultView,
    max_retries: usize,
    now: Timestamp,
)
    requires
        state is Running,
    ensures
        budget(settled(state, result, now), max_retries) <= budget(state, max_retries),
{
}

/// Routing to a step never gains budget, unless it resets a step that had
/// not ended.
pub proof fn lemma_routed_budget(state: StepStateView, max_retries: usize)
    ensures
        budget(routed(state), max_retries) <= budget(state, max_retries),
        forall|fresh: bool|
            state.is_terminal() ==> budget(#[trigger] landed(state, fresh), max_retries) <= budget(
                state,
                max_retries,
            ),
{
}

/// A step that is routed to waits or runs; it is never left completed or
/// failed. After a route that resets, it waits.
pub proof fn lemma_routed_waits_or_runs(state: StepStateView)
    ensures
        routed(state) is Retrying || routed(state) is Running,
        !routed(state).is_terminal(),
        reset(state) is Retrying,
        forall|fresh: bool|
            (#[trigger] landed(state, fresh)) is Retrying || landed(state, fresh) is Running,
{
}

/// A route that resets a step that had not ended makes it wait for its
/// first run; one that lands on a step that had ended makes it wait for
/// the run after those recorded, as any route does.
pub proof fn lemma_reset(state: StepStateView)
    ensures
        !state.is_terminal() ==> reset(state) == (StepStateView::Retrying { attempt: 1 }),
        state.is_terminal() ==> reset(state) == routed(state) && reset(state)
            == (StepStateView::Retrying { attempt: bump(state.recorded_attempts() as usize) }),
{
}

/// The runs that a state stands for after a route landed on it: those it
/// stood for before, but none where the route reset a step that had not
/// ended.
pub proof fn lemma_landed_runs(state: StepStateView, fresh: bool)
    requires
        counter(state) < usize::MAX,
    ensures
        runs(landed(state, fresh)) == if fresh && forgets(state) {
            0
        } else {
            runs(state)
        },
{
}

/// A step that has ended cannot be started, and a route to it makes it wait
/// for its next run, which is numbered one above the runs it has had.
pub proof fn lemma_terminal_leaves_by_routing(state: StepStateView)
    requires
        state.is_terminal(),
    ensures
        !may_begin(state),
        routed(state) is Retrying,
        state.recorded_attempts() < usize::MAX ==> routed(state)->Retrying_attempt
            == state.recorded_attempts() + 1,
{
}

/// A step with `max_retries` retries never runs more than `max_retries + 1`
/// times: the counter stays within the retries when a step starts, when its
/// run ends and when it is routed to, and a run that starts has a number of
/// at most `max_retries + 1`.
pub proof fn lemma_attempts_bounded(
    state: StepStateView,
    result: ExecutionResultView,
    max_retries: usize,
    now: Timestamp,
)
    requires
        within_retries(state, max_retries),
    ensures
        may_begin(state) ==> within_retries(begun(state, max_retries, now), max_retries),
        may_begin(state) && begun(state, max_retries, now) is Running ==> begun(
            state,
            max_retries,
            now,
        )->Running_attempt <= max_retries + 1,
        state is Running ==> within_retries(settled(state, result, now), max_retries),
        within_retries(routed(state), max_retries),
        within_retries(reset(state), max_retries),
{
}

/// The runs of a step are counted exactly: a start that is not refused adds
/// one run, and neither the end of a run nor a route adds or drops one, as
/// long as the counter has room.
pub proof fn lemma_runs_counted(
    state: StepStateView,
    result: ExecutionResultView,
    max_retries: usize,
    now: Timestamp,
)
    requires
        counter(state) < usize::MAX,
    ensures
        may_begin(state) && !exhausted(state, max_retries) ==> runs(
            begun(state, max_retries, now),
        ) == runs(state) + 1,
        may_begin(state) && exhausted(state, max_retries) ==> runs(begun(state, max_retries, now))
            == runs(state),
        state is Running ==> runs(settled(state, result, now)) == runs(state),
        runs(routed(state)) == runs(state),
        state is Running && settled(state, result, now).is_terminal() ==> settled(
            state,
            result,
            now,
        ).recorded_attempts() == runs(state),
{
}

/// The state of a step that fails because its retries are used up.
pub fn exceeded_failure(max_retries: usize, attempts: usize, started_at: Timestamp, now: Timestamp) -> (s:
    StepState)
    ensures
        s@ == (StepStateView::Failed {
            error: exceeded_message(max_retries),
            attempts,
            last_started_at: started_at,
            failed_at: now,
        }),
{
    let n = decimal_string(max_retries as u64);
    StepState::Failed {
        error: concat("Exceeded retry limit of ", n.as_str()),
        attempts,
        last_started_at: started_at,
        failed_at: now,
    }
}

/// The state of a step after a route landed on it; `fresh` says whether
/// the route resets its target.
pub fn land_on(state: &StepState, fresh: bool) -> (s: StepState)
    ensures
        s@ == landed(state@, fresh),
{
    if fresh && !state.is_terminal() {
        StepState::Retrying { attempt: 1 }
    } else {
        route_to(state)
    }
}

/// The state of a step after another step routed to it.
pub fn route_to(state: &StepState) -> (s: StepState)
    ensures
        s@ == routed(state@),
{
    match state {
        StepState::Completed { attempts, .. } => StepState::Retrying {
            attempt: if *attempts < usize::MAX {
                *attempts + 1
            } else {
                *attempts
            },
        },
        StepState::Failed { attempts, .. } => StepState::Retrying {
            attempt: if *attempts < usize::MAX {
                *attempts + 1
            } else {
                *attempts
            },
        },
        StepState::Skipped { .. } => StepState::Retrying { attempt: 1 },
        StepState::Pending => StepState::Retrying { attempt: 1 },
        StepState::Blocked { .. } => StepState::Retrying { attempt: 1 },
        StepState::Retrying { attempt } => StepState::Retrying { attempt: *attempt },
        StepState::Running { started_at, attempt } => StepState::Running {
            started_at: *started_at,
            attempt: *attempt,
        },
    }
}

} // verus!
