//! The course of a run, moment by moment: what taking up one step does,
//! what a round does, and how a run goes from its start to its end.

use crate::agent::{AgentError, AgentResponse};
use crate::execution::engine::{
    after_route, outcome_events, same_but_states, start_events, states, states_after,
    stuck_message, waiting_message, ExecutionEvent, ExecutionEventView, event_views,
};
use crate::execution::executor::{outcome, ExecutionResultView};
use crate::execution::laws::loses_count;
use crate::execution::scheduler::{planned, room, without, ExecutionScheduler, SchedulingStrategy};
use crate::execution::transitions::{
    begun, exceeded_message, exhausted, may_begin, next_attempt, requested, resets, route_target,
    settled,
};
use crate::model::pipeline::{
    all_terminal, any_running, dependencies_ended, find_step, lemma_find_step_same_ids, Pipeline,
};
use crate::model::state::{ExecutionStatus, StepStateView, Timestamp};
use crate::model::step::Step;
use vstd::prelude::*;

verus! {

/// A run at one moment: the steps with their states, the steps that were
/// asked for, the log, whether the run has failed, and whether a route has
/// made a step forget runs that it had started.
pub struct Moment {
    pub steps: Seq<Step>,
    pub queue: Seq<Seq<char>>,
    pub log: Seq<ExecutionEventView>,
    pub failed: bool,
    pub forgotten: bool,
}

/// The moment at which a run stands with this scheduler, this log and this
/// pipeline; `forgotten` says whether a route has made a step forget runs.
pub open spec fn moment_of(
    scheduler: ExecutionScheduler,
    events: Seq<ExecutionEvent>,
    pipeline: Pipeline,
    forgotten: bool,
) -> Moment {
    Moment {
        steps: pipeline.steps@,
        queue: scheduler.queue(),
        log: event_views(events),
        failed: pipeline.state.status == ExecutionStatus::Failed,
        forgotten,
    }
}

/// The moment at which a run of `pipeline` sets out: nothing has changed
/// but the log, which tells of the start; the run has not failed, and no
/// step has forgotten a run.
pub open spec fn opening(
    scheduler: ExecutionScheduler,
    events: Seq<ExecutionEvent>,
    pipeline: Pipeline,
) -> Moment {
    Moment {
        steps: pipeline.steps@,
        queue: scheduler.queue(),
        log: event_views(events).push(
            ExecutionEventView::PipelineStarted {
                execution_id: pipeline.state.execution_id,
                pipeline_name: pipeline.name@,
            },
        ),
        failed: false,
        forgotten: false,
    }
}

/// The states of `steps` after step `at` was started at the time `begin`
/// and its run ended with `result` at the time `end`: the step is settled,
/// then the route of the result is followed. The route of a continuation
/// resets the step that it lands on.
pub open spec fn states_after_run(
    steps: Seq<Step>,
    at: int,
    result: ExecutionResultView,
    begin: Timestamp,
    end: Timestamp,
) -> Seq<StepStateView> {
    after_route(
        states(steps).update(
            at,
            settled(begun(steps[at].state@, steps[at].max_retries, begin), result, end),
        ),
        steps,
        route_target(result),
        resets(result),
    )
}

/// The requests after the run of the step `id` ended with `result`: those
/// for the step itself are dropped, and the step that the result asks for
/// comes last.
pub open spec fn queue_after(
    queue: Seq<Seq<char>>,
    id: Seq<char>,
    result: ExecutionResultView,
) -> Seq<Seq<char>> {
    match requested(id, result) {
        Some(next) => without(queue, id).push(next),
        None => without(queue, id),
    }
}

/// `after` is what `before` becomes when the engine takes up the step `id`.
///
/// A step that does not exist, that has ended, was skipped or is blocked,
/// or that has a dependency which has not ended, changes nothing. A step
/// that has used up its retries fails, and the run with it. Any other step
/// is started, the agent is asked once, and what its answer means for the
/// step is recorded: the step is settled, the route is followed, the next
/// step is asked for, and the log tells all of it. The run fails where the
/// answer means a failure without a route, and a step forgets its runs
/// where the answer is a continuation that routes to a step which has not
/// ended.
pub open spec fn took_up(before: Moment, after: Moment, id: Seq<char>) -> bool {
    let at = find_step(before.steps, id);
    if at >= before.steps.len() || !may_begin(before.steps[at].state@) || !dependencies_ended(
        before.steps,
        at,
    ) {
        after == before
    } else if exhausted(before.steps[at].state@, before.steps[at].max_retries) {
        &&& same_but_states(before.steps, after.steps)
        &&& exists|now: Timestamp|
            states(after.steps) == #[trigger] states(before.steps).update(
                at,
                begun(before.steps[at].state@, before.steps[at].max_retries, now),
            )
        &&& after.queue == without(before.queue, id)
        &&& after.log == before.log.push(
            ExecutionEventView::StepFailed {
                step_id: id,
                error: exceeded_message(before.steps[at].max_retries),
            },
        )
        &&& after.failed
        &&& after.forgotten == before.forgotten
    } else {
        &&& same_but_states(before.steps, after.steps)
        &&& exists|answer: Result<AgentResponse, AgentError>, begin: Timestamp, end: Timestamp|
            answered(before, after, id, outcome(before.steps[at], answer), begin, end)
    }
}

/// `after` is what `before` becomes when the step `id`, which can start, is
/// started at the time `begin` and its run ends with `result` at the time
/// `end`.
pub open spec fn answered(
    before: Moment,
    after: Moment,
    id: Seq<char>,
    result: ExecutionResultView,
    begin: Timestamp,
    end: Timestamp,
) -> bool {
    let at = find_step(before.steps, id);
    &&& states(after.steps) == states_after_run(before.steps, at, result, begin, end)
    &&& after.queue == queue_after(before.queue, id, result)
    &&& after.log == before.log + start_events(
        id,
        next_attempt(before.steps[at].state@) as usize,
        before.steps[at].max_retries,
    ) + outcome_events(id, result)
    &&& after.failed == (before.failed || result is Failed)
    &&& after.forgotten == (before.forgotten || loses_count(before.steps, at, result))
}

/// `after` is what `before` becomes when the engine takes up the steps of
/// `batch` one after the other.
pub open spec fn took_up_all(before: Moment, after: Moment, batch: Seq<Seq<char>>) -> bool
    decreases batch.len(),
{
    if batch.len() == 0 {
        after == before
    } else {
        exists|mid: Moment|
            took_up_all(before, mid, batch.drop_last()) && #[trigger] took_up(
                mid,
                after,
                batch.last(),
            )
    }
}

/// The moments of a run in their order: at `moments[j]` the step `ids[j]`
/// was taken up, which led to `moments[j + 1]`.
pub open spec fn led(moments: Seq<Moment>, ids: Seq<Seq<char>>) -> bool {
    &&& moments.len() == ids.len() + 1
    &&& forall|j: int|
        0 <= j < ids.len() ==> took_up(moments[j], moments[j + 1], #[trigger] ids[j])
}

/// The steps that the scheduler plans at the moment `at`.
pub open spec fn plan(at: Moment, order: Seq<Seq<char>>, strategy: SchedulingStrategy) -> Seq<
    Seq<char>,
> {
    planned(at.queue, order, at.steps, room(strategy, at.steps))
}

/// `now` is where a run that set out at `start` stands after `rounds`
/// rounds: at the beginning of each round the run had not failed and the
/// scheduler planned some steps, and the round took up all of them.
pub open spec fn went(
    start: Moment,
    now: Moment,
    order: Seq<Seq<char>>,
    strategy: SchedulingStrategy,
    rounds: nat,
) -> bool
    decreases rounds,
{
    if rounds == 0 {
        now == start
    } else {
        exists|mid: Moment|
            {
                &&& went(start, mid, order, strategy, (rounds - 1) as nat)
                &&& !mid.failed
                &&& plan(mid, order, strategy).len() > 0
                &&& #[trigger] took_up_all(mid, now, plan(mid, order, strategy))
            }
    }
}

/// The run that stands at `last` is over, and ends at `end` with `status`
/// and the result `r`: a run that has failed ends as failed; one in which
/// every step has ended is completed; one in which steps are left of which
/// none runs is stuck, and fails; one in which steps still run waits, with
/// nothing changed. But for a run that waits, the log tells of the end.
pub open spec fn finished(
    last: Moment,
    end: Moment,
    status: ExecutionStatus,
    r: Result<(), String>,
    execution_id: uuid::Uuid,
) -> bool {
    &&& end.steps == last.steps
    &&& end.queue == last.queue
    &&& end.forgotten == last.forgotten
    &&& if last.failed {
        &&& r is Ok
        &&& status == ExecutionStatus::Failed
        &&& end.log == last.log.push(
            ExecutionEventView::PipelineCompleted { execution_id, status: ExecutionStatus::Failed },
        )
    } else if all_terminal(last.steps) {
        &&& r is Ok
        &&& status == ExecutionStatus::Completed
        &&& end.log == last.log.push(
            ExecutionEventView::PipelineCompleted {
                execution_id,
                status: ExecutionStatus::Completed,
            },
        )
    } else if !any_running(last.steps) {
        &&& r matches Err(e) && e@ == stuck_message()
        &&& status == ExecutionStatus::Failed
        &&& end.log == last.log.push(
            ExecutionEventView::PipelineCompleted { execution_id, status: ExecutionStatus::Failed },
        )
    } else {
        &&& r matches Err(e) && e@ == waiting_message()
        &&& status == ExecutionStatus::Running
        &&& end.log == last.log
    }
}

/// What an answer means for a step does not depend on the state of the step.
pub proof fn lemma_outcome_ignores_state(
    a: Step,
    b: Step,
    answer: Result<AgentResponse, AgentError>,
)
    requires
        a.termination == b.termination,
        a.continuation == b.continuation,
    ensures
        outcome(a, answer) == outcome(b, answer),
{
}

/// A start followed by the end of the run is one step of the course: the
/// states after the end of the run of a step that was started are the
/// states after its run.
pub proof fn lemma_states_after_run(
    before: Seq<Step>,
    mid: Seq<Step>,
    at: int,
    result: ExecutionResultView,
    begin: Timestamp,
    end: Timestamp,
)
    requires
        0 <= at < before.len(),
        same_but_states(before, mid),
        states(mid) == states(before).update(
            at,
            begun(before[at].state@, before[at].max_retries, begin),
        ),
    ensures
        states_after(mid, at, result, end) == states_after_run(before, at, result, begin, end),
{
    let reached = settled(begun(before[at].state@, before[at].max_retries, begin), result, end);
    assert(states(mid)[at] == mid[at].state@);
    assert(states(mid).update(at, reached) =~= states(before).update(at, reached));
    match route_target(result) {
        Some(id) => {
            lemma_find_step_same_ids(before, mid, id);
        },
        None => {},
    }
}

} // verus!
