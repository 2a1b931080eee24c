//! The engine: it starts steps, records how their runs end, follows routes,
//! and drives a pipeline to its end.

use crate::agent::{AgentError, AgentExecutor, AgentResponse, NoopCallback};
use crate::execution::course::{
    answered, finished, led, lemma_outcome_ignores_state, lemma_states_after_run, moment_of,
    opening, plan, took_up, took_up_all, went, Moment,
};
use crate::execution::executor::{
    outcome, ContinueAction, ContinueActionView, ExecutionResult, ExecutionResultView,
    StepExecutor,
};
use crate::execution::laws::{
    accounted, begin_events, covered, failed_as_told, failure_stands, failures_stand, first_told,
    healthy, left_failed, lemma_accounted_is_covered, lemma_begin_keeps_count,
    lemma_every_start_is_ready,
    lemma_failures_stand, loses_count, routes_to, started_ready,
    lemma_completion_keeps_count, lemma_failure_comes_last, lemma_failure_stands_throughout,
    lemma_outcome_events_handled, lemma_run_goes_on, lemma_start_events_handled,
    lemma_started_count_plain, lemma_unhandled_append, lemma_unhandled_failure,
    lemma_unhandled_plain, one_at_a_time, unhandled,
};
use crate::execution::scheduler::{
    lemma_planned, planned, without, ExecutionScheduler, SchedulingStrategy,
};
use crate::execution::transitions::{
    begun, budget, bump, exceeded_failure, exceeded_message, exhausted, forgets, land_on, landed,
    lemma_begun_budget, lemma_routed_budget, lemma_routed_waits_or_runs, lemma_settled_budget,
    may_begin, next_attempt, requested, resets, route_target, settled,
};
use crate::model::pipeline::{
    all_terminal, any_running, dependencies_ended, find_position, find_step, lemma_find_step,
    runnable, steps_dependencies_ended, Pipeline,
};
use crate::model::state::{ExecutionStatus, PipelineState, StepState, StepStateView, Timestamp};
use crate::model::step::Step;
use crate::text::{concat, opt_text, texts};
use vstd::prelude::*;

verus! {

/// What happens during a run, for those who watch it.
#[derive(Debug, Clone)]
pub enum ExecutionEvent {
    PipelineStarted { execution_id: uuid::Uuid, pipeline_name: String },
    StepStarted { step_id: String, attempt: usize },
    StepOutput { step_id: String, output: String },
    StepCompleted { step_id: String, next_step: Option<String> },
    StepFailed { step_id: String, error: String },
    StepContinued { step_id: String, action: ContinueAction },
    StepRetrying { step_id: String, attempt: usize, max_retries: usize },
    StepRerouted { from_step: String, to_step: String },
    PipelineCompleted { execution_id: uuid::Uuid, status: ExecutionStatus },
}

/// What an `ExecutionEvent` says.
pub enum ExecutionEventView {
    PipelineStarted { execution_id: uuid::Uuid, pipeline_name: Seq<char> },
    StepStarted { step_id: Seq<char>, attempt: usize },
    StepOutput { step_id: Seq<char>, output: Seq<char> },
    StepCompleted { step_id: Seq<char>, next_step: Option<Seq<char>> },
    StepFailed { step_id: Seq<char>, error: Seq<char> },
    StepContinued { step_id: Seq<char>, action: ContinueActionView },
    StepRetrying { step_id: Seq<char>, attempt: usize, max_retries: usize },
    StepRerouted { from_step: Seq<char>, to_step: Seq<char> },
    PipelineCompleted { execution_id: uuid::Uuid, status: ExecutionStatus },
}

impl View for ExecutionEvent {
    type V = ExecutionEventView;

    open spec fn view(&self) -> ExecutionEventView {
        match *self {
            ExecutionEvent::PipelineStarted { execution_id, pipeline_name } => {
                ExecutionEventView::PipelineStarted { execution_id, pipeline_name: pipeline_name@ }
            },
            ExecutionEvent::StepStarted { step_id, attempt } => ExecutionEventView::StepStarted {
                step_id: step_id@,
                attempt,
            },
            ExecutionEvent::StepOutput { step_id, output } => ExecutionEventView::StepOutput {
                step_id: step_id@,
                output: output@,
            },
            ExecutionEvent::StepCompleted { step_id, next_step } => {
                ExecutionEventView::StepCompleted {
                    step_id: step_id@,
                    next_step: opt_text(next_step),
                }
            },
            ExecutionEvent::StepFailed { step_id, error } => ExecutionEventView::StepFailed {
                step_id: step_id@,
                error: error@,
            },
            ExecutionEvent::StepContinued { step_id, action } => ExecutionEventView::StepContinued {
                step_id: step_id@,
                action: action@,
            },
            ExecutionEvent::StepRetrying { step_id, attempt, max_retries } => {
                ExecutionEventView::StepRetrying { step_id: step_id@, attempt, max_retries }
            },
            ExecutionEvent::StepRerouted { from_step, to_step } => ExecutionEventView::StepRerouted {
                from_step: from_step@,
                to_step: to_step@,
            },
            ExecutionEvent::PipelineCompleted { execution_id, status } => {
                ExecutionEventView::PipelineCompleted { execution_id, status }
            },
        }
    }
}

/// What a list of events says.
pub open spec fn event_views(events: Seq<ExecutionEvent>) -> Seq<ExecutionEventView> {
    events.map_values(|e: ExecutionEvent| e@)
}

/// The states of `steps`, position by position.
pub open spec fn states(steps: Seq<Step>) -> Seq<StepStateView> {
    steps.map_values(|s: Step| s.state@)
}

/// `after` holds the steps of `before`, with nothing changed but their states.
pub open spec fn same_but_states(before: Seq<Step>, after: Seq<Step>) -> bool {
    &&& before.len() == after.len()
    &&& forall|i: int|
        0 <= i < before.len() ==> {
            &&& (#[trigger] after[i]).id == before[i].id
            &&& after[i].prompt_template == before[i].prompt_template
            &&& after[i].dependencies == before[i].dependencies
            &&& after[i].termination == before[i].termination
            &&& after[i].continuation == before[i].continuation
            &&& after[i].max_retries == before[i].max_retries
            &&& after[i].timeout_secs == before[i].timeout_secs
        }
}

/// The states of a pipeline after a route to `target`: the step of that id,
/// if there is one, is landed on; `fresh` says whether the route resets it.
pub open spec fn after_route(
    current: Seq<StepStateView>,
    steps: Seq<Step>,
    target: Option<Seq<char>>,
    fresh: bool,
) -> Seq<StepStateView> {
    match target {
        Some(id) => {
            let at = find_step(steps, id);
            if at < steps.len() {
                current.update(at, landed(current[at], fresh))
            } else {
                current
            }
        },
        None => current,
    }
}

/// The states of a pipeline after the run of step `at` ended with `result`:
/// the step is settled, then the route of the result is followed. The route
/// of a continuation resets the step that it lands on.
pub open spec fn states_after(
    steps: Seq<Step>,
    at: int,
    result: ExecutionResultView,
    now: Timestamp,
) -> Seq<StepStateView> {
    after_route(
        states(steps).update(at, settled(steps[at].state@, result, now)),
        steps,
        route_target(result),
        resets(result),
    )
}

/// The events that tell of the start of the run `attempt` of the step `id`.
pub open spec fn start_events(id: Seq<char>, attempt: usize, max_retries: usize) -> Seq<
    ExecutionEventView,
> {
    if attempt > 1 {
        seq![
            ExecutionEventView::StepStarted { step_id: id, attempt },
            ExecutionEventView::StepRetrying { step_id: id, attempt, max_retries },
        ]
    } else {
        seq![ExecutionEventView::StepStarted { step_id: id, attempt }]
    }
}

/// The events that tell how the run of the step `id` ended.
pub open spec fn outcome_events(id: Seq<char>, result: ExecutionResultView) -> Seq<
    ExecutionEventView,
> {
    match result {
        ExecutionResultView::Success { output, next_step } => seq![
            ExecutionEventView::StepOutput { step_id: id, output },
            ExecutionEventView::StepCompleted { step_id: id, next_step },
        ],
        ExecutionResultView::Continue { action: ContinueActionView::Retry, .. } => seq![
            ExecutionEventView::StepContinued { step_id: id, action: ContinueActionView::Retry },
        ],
        ExecutionResultView::Continue { action: ContinueActionView::Route(target), .. } => seq![
            ExecutionEventView::StepContinued {
                step_id: id,
                action: ContinueActionView::Route(target),
            },
            ExecutionEventView::StepRerouted { from_step: id, to_step: target },
        ],
        ExecutionResultView::FailedWithRoute { error, next_step } => seq![
            ExecutionEventView::StepFailed { step_id: id, error },
            ExecutionEventView::StepRerouted { from_step: id, to_step: next_step },
        ],
        ExecutionResultView::Failed { error } => seq![
            ExecutionEventView::StepFailed { step_id: id, error },
        ],
        ExecutionResultView::Interrupted { .. } => Seq::empty(),
    }
}

/// The state of a run that has failed: as before, but with the status
/// `Failed` and a time of completion.
pub open spec fn failed_run(before: PipelineState, after: PipelineState) -> bool {
    &&& after.status == ExecutionStatus::Failed
    &&& after.completed_at is Some
    &&& after.execution_id == before.execution_id
    &&& after.started_at == before.started_at
    &&& after.total_steps == before.total_steps
    &&& after.completed_steps == before.completed_steps
    &&& after.failed_steps == before.failed_steps
    &&& after.running_steps == before.running_steps
}

/// How much further the steps of a pipeline can come, all together. Every
/// run that starts uses some of it up, and nothing ever adds to it: this is
/// why every run of a pipeline comes to an end.
pub open spec fn total_budget(steps: Seq<Step>) -> int
    decreases steps.len(),
{
    if steps.len() == 0 {
        0
    } else {
        total_budget(steps.drop_last()) + budget(steps.last().state@, steps.last().max_retries)
    }
}

proof fn lemma_total_budget_nonnegative(steps: Seq<Step>)
    ensures
        total_budget(steps) >= 0,
    decreases steps.len(),
{
    if steps.len() > 0 {
        lemma_total_budget_nonnegative(steps.drop_last());
    }
}

/// Where the states of two pipelines differ at one step only, their budgets
/// differ by the budgets of that step.
proof fn lemma_total_budget_update(before: Seq<Step>, after: Seq<Step>, at: int)
    requires
        same_but_states(before, after),
        0 <= at < before.len(),
        forall|j: int| 0 <= j < before.len() && j != at ==> states(after)[j] == states(before)[j],
    ensures
        total_budget(after) == total_budget(before) - budget(
            before[at].state@,
            before[at].max_retries,
        ) + budget(after[at].state@, after[at].max_retries),
    decreases before.len(),
{
    let b = before.drop_last();
    let a = after.drop_last();
    let last = before.len() - 1;
    assert(states(after)[last] == after[last].state@);
    if at == last {
        assert forall|j: int| 0 <= j < b.len() implies (#[trigger] a[j]).state@ == b[j].state@
            && a[j].max_retries == b[j].max_retries by {
            assert(states(after)[j] == states(before)[j]);
        }
        lemma_total_budget_same(b, a);
    } else {
        assert forall|j: int| 0 <= j < b.len() && j != at implies states(a)[j] == states(b)[j] by {
            assert(states(after)[j] == states(before)[j]);
        }
        lemma_total_budget_update(b, a, at);
    }
}

/// Pipelines with the same states and retries have the same budget.
proof fn lemma_total_budget_same(before: Seq<Step>, after: Seq<Step>)
    requires
        before.len() == after.len(),
        forall|j: int|
            0 <= j < before.len() ==> (#[trigger] after[j]).state@ == before[j].state@
                && after[j].max_retries == before[j].max_retries,
    ensures
        total_budget(after) == total_budget(before),
    decreases before.len(),
{
    if before.len() > 0 {
        lemma_total_budget_same(before.drop_last(), after.drop_last());
    }
}

/// The number of steps that have not ended.
pub open spec fn unended(steps: Seq<Step>) -> int
    decreases steps.len(),
{
    if steps.len() == 0 {
        0
    } else {
        unended(steps.drop_last()) + if steps.last().state@.is_terminal() {
            0int
        } else {
            1int
        }
    }
}

/// The steps `after` are nearer to the end of the run than the steps
/// `before`: fewer of them have not ended, or as many and less budget is
/// left. Every start brings a run nearer to its end and nothing takes it
/// farther away: a step comes back from its end only when the step that
/// routes to it ends, and budget is gained only where a route resets a
/// step that had not ended, which ends the step that routes.
pub open spec fn nearer(after: Seq<Step>, before: Seq<Step>) -> bool {
    unended(after) < unended(before) || (unended(after) == unended(before) && total_budget(after)
        < total_budget(before))
}

/// The steps `after` are no farther from the end of the run than the steps
/// `before`.
pub open spec fn no_farther(after: Seq<Step>, before: Seq<Step>) -> bool {
    nearer(after, before) || (unended(after) == unended(before) && total_budget(after)
        == total_budget(before))
}

proof fn lemma_unended_nonnegative(steps: Seq<Step>)
    ensures
        unended(steps) >= 0,
    decreases steps.len(),
{
    if steps.len() > 0 {
        lemma_unended_nonnegative(steps.drop_last());
    }
}

/// Where the states of two pipelines differ at one step only, the numbers
/// of their steps that have not ended differ by that step.
proof fn lemma_unended_update(before: Seq<Step>, after: Seq<Step>, at: int)
    requires
        before.len() == after.len(),
        0 <= at < before.len(),
        forall|j: int| 0 <= j < before.len() && j != at ==> states(after)[j] == states(before)[j],
    ensures
        unended(after) == unended(before) - (if before[at].state@.is_terminal() {
            0int
        } else {
            1int
        }) + (if after[at].state@.is_terminal() {
            0int
        } else {
            1int
        }),
    decreases before.len(),
{
    let b = before.drop_last();
    let a = after.drop_last();
    let last = before.len() - 1;
    assert(states(after)[last] == after[last].state@);
    assert(states(before)[last] == before[last].state@);
    if at == last {
        assert forall|j: int| 0 <= j < b.len() implies (#[trigger] a[j]).state@ == b[j].state@ by {
            assert(states(after)[j] == states(before)[j]);
        }
        lemma_unended_same(b, a);
    } else {
        assert forall|j: int| 0 <= j < b.len() && j != at implies states(a)[j] == states(b)[j] by {
            assert(states(after)[j] == states(before)[j]);
        }
        lemma_unended_update(b, a, at);
    }
}

/// Pipelines with the same states have as many steps that have not ended.
proof fn lemma_unended_same(before: Seq<Step>, after: Seq<Step>)
    requires
        before.len() == after.len(),
        forall|j: int| 0 <= j < before.len() ==> (#[trigger] after[j]).state@ == before[j].state@,
    ensures
        unended(after) == unended(before),
    decreases before.len(),
{
    if before.len() > 0 {
        lemma_unended_same(before.drop_last(), after.drop_last());
    }
}

/// How an attempt to start a step ended.
#[derive(Debug, Clone, Copy, PartialEq, Eq, Structural)]
pub enum StepStart {
    /// The step runs its `attempt`-th run.
    Started { attempt: usize },
    /// The step has used up its retries and has failed.
    Exhausted,
    /// A dependency of the step has not ended; nothing was done.
    NotReady,
}

/// The error of a step that does not exist.
pub open spec fn not_found_message(id: Seq<char>) -> Seq<char> {
    "Step "@ + id + " not found"@
}

/// The error of a step that cannot be started as it stands.
pub open spec fn invalid_state_message(id: Seq<char>) -> Seq<char> {
    "Step "@ + id + " in invalid state for execution"@
}

/// The error of a step whose run cannot end because it does not run.
pub open spec fn not_running_message(id: Seq<char>) -> Seq<char> {
    "Step "@ + id + " is not running"@
}

fn step_error(id: &str, tail: &str) -> (s: String)
    ensures
        s@ == "Step "@ + id@ + tail@,
{
    let head = concat("Step ", id);
    concat(head.as_str(), tail)
}

/// Starts the step `step_id`.
///
/// A step that does not exist, or that has ended, was skipped or is blocked,
/// is refused with an error. A step with a dependency that has not ended is
/// left alone. Otherwise every request for the step is dropped, and the step
/// either runs its next run, which the log tells, or has used up its retries:
/// then it fails, the log tells so, and the run of the pipeline fails.
pub fn begin_step(
    scheduler: &mut ExecutionScheduler,
    events: &mut Vec<ExecutionEvent>,
    pipeline: &mut Pipeline,
    step_id: &str,
) -> (r: Result<StepStart, String>)
    ensures
        same_but_states(old(pipeline).steps@, final(pipeline).steps@),
        final(pipeline).name == old(pipeline).name,
        final(pipeline).variables == old(pipeline).variables,
        final(pipeline).execution_order == old(pipeline).execution_order,
        final(scheduler).strategy == old(scheduler).strategy,
        healthy(old(pipeline).steps@) ==> healthy(final(pipeline).steps@),
        healthy(old(pipeline).steps@) ==> (accounted(
            old(pipeline).steps@,
            event_views(old(events)@),
        ) <==> accounted(final(pipeline).steps@, event_views(final(events)@))),
        healthy(old(pipeline).steps@) && covered(old(pipeline).steps@, event_views(old(events)@))
            ==> covered(final(pipeline).steps@, event_views(final(events)@)),
        r matches Ok(StepStart::Started { .. }) ==> dependencies_ended(
            old(pipeline).steps@,
            find_step(old(pipeline).steps@, step_id@),
        ),
        forall|j: int|
            0 <= j < old(pipeline).steps@.len() && (#[trigger] old(pipeline).steps@[j]).state@.is_terminal()
                ==> final(pipeline).steps@[j].state@ == old(pipeline).steps@[j].state@,
        ({
            let at = find_step(old(pipeline).steps@, step_id@);
            let before = old(pipeline).steps@;
            let after = final(pipeline).steps@;
            if at >= before.len() || !may_begin(before[at].state@) || !dependencies_ended(
                before,
                at,
            ) {
                &&& *final(pipeline) == *old(pipeline)
                &&& final(scheduler).queue() == old(scheduler).queue()
                &&& final(events)@ == old(events)@
                &&& if at >= before.len() {
                    r matches Err(e) && e@ == not_found_message(step_id@)
                } else if !may_begin(before[at].state@) {
                    r matches Err(e) && e@ == invalid_state_message(step_id@)
                } else {
                    r == Ok::<StepStart, String>(StepStart::NotReady)
                }
            } else {
                &&& exists|now: Timestamp|
                    states(after) == states(before).update(
                        at,
                        begun(before[at].state@, before[at].max_retries, now),
                    )
                &&& final(scheduler).queue() == without(old(scheduler).queue(), step_id@)
                &&& if exhausted(before[at].state@, before[at].max_retries) {
                    &&& r == Ok::<StepStart, String>(StepStart::Exhausted)
                    &&& failed_run(old(pipeline).state, final(pipeline).state)
                    &&& event_views(final(events)@) == event_views(old(events)@).push(
                        ExecutionEventView::StepFailed {
                            step_id: step_id@,
                            error: exceeded_message(before[at].max_retries),
                        },
                    )
                    &&& nearer(after, before)
                } else {
                    &&& r == Ok::<StepStart, String>(
                        StepStart::Started { attempt: next_attempt(before[at].state@) as usize },
                    )
                    &&& final(pipeline).state == old(pipeline).state
                    &&& event_views(final(events)@) == event_views(old(events)@) + start_events(
                        step_id@,
                        next_attempt(before[at].state@) as usize,
                        before[at].max_retries,
                    )
                    &&& nearer(after, before)
                }
            }
        }),
{
    let ghost before = pipeline.steps@;
    let at = match find_position(&pipeline.steps, step_id) {
        Some(at) => at,
        None => {
            return Err(step_error(step_id, " not found"));
        },
    };
    let (retries_used, last_started): (usize, Option<Timestamp>) = match &pipeline.steps[at].state {
        StepState::Pending => (0, None),
        StepState::Retrying { attempt } => (
            if *attempt == 0 {
                0
            } else {
                *attempt - 1
            },
            None,
        ),
        StepState::Running { started_at, attempt } => (*attempt, Some(*started_at)),
        _ => {
            return Err(step_error(step_id, " in invalid state for execution"));
        },
    };
    if !steps_dependencies_ended(&pipeline.steps, at) {
        return Ok(StepStart::NotReady);
    }
    let max_retries = pipeline.steps[at].max_retries;
    let limit: usize = if max_retries <= usize::MAX - 2 {
        max_retries
    } else {
        usize::MAX - 2
    };
    let now = Timestamp::now();
    scheduler.forget(step_id);
    if retries_used > limit {
        let started = match last_started {
            Some(t) => t,
            None => now,
        };
        let failure = exceeded_failure(max_retries, retries_used, started, now);
        let error = match &failure {
            StepState::Failed { error, .. } => error.clone(),
            _ => String::new(),
        };
        pipeline.steps[at].state = failure;
        events.push(ExecutionEvent::StepFailed { step_id: step_id.to_owned(), error });
        pipeline.state.fail();
        proof {
            let after = pipeline.steps@;
            assert(states(after) =~= states(before).update(
                at as int,
                begun(before[at as int].state@, max_retries, now),
            ));
            assert(event_views(events@) =~= event_views(old(events)@).push(
                ExecutionEventView::StepFailed {
                    step_id: step_id@,
                    error: exceeded_message(max_retries),
                },
            ));
            lemma_begun_budget(before[at as int].state@, max_retries, now);
            lemma_total_budget_update(before, after, at as int);
            lemma_unended_update(before, after, at as int);
            assert(states(after)[at as int] == after[at as int].state@);
            assert forall|j: int|
                0 <= j < before.len() && (#[trigger] before[j]).state@.is_terminal() implies after[j].state@
                == before[j].state@ by {
            }
            if healthy(before) {
                lemma_find_step(before, step_id@);
                lemma_restated(before, after);
                lemma_begin_keeps_count(before, after, event_views(old(events)@), at as int, now);
                assert(event_views(events@) =~= event_views(old(events)@) + begin_events(
                    before,
                    at as int,
                ));
            }
        }
        Ok(StepStart::Exhausted)
    } else {
        let attempt: usize = retries_used + 1;
        pipeline.steps[at].state = StepState::Running { started_at: now, attempt };
        events.push(ExecutionEvent::StepStarted { step_id: step_id.to_owned(), attempt });
        if attempt > 1 {
            events.push(
                ExecutionEvent::StepRetrying { step_id: step_id.to_owned(), attempt, max_retries },
            );
        }
        proof {
            let after = pipeline.steps@;
            assert(states(after) =~= states(before).update(
                at as int,
                begun(before[at as int].state@, max_retries, now),
            ));
            assert(event_views(events@) =~= event_views(old(events)@) + start_events(
                step_id@,
                attempt,
                max_retries,
            ));
            lemma_begun_budget(before[at as int].state@, max_retries, now);
            lemma_total_budget_update(before, after, at as int);
            lemma_unended_update(before, after, at as int);
            assert(states(after)[at as int] == after[at as int].state@);
            assert forall|j: int|
                0 <= j < before.len() && (#[trigger] before[j]).state@.is_terminal() implies after[j].state@
                == before[j].state@ by {
            }
            if healthy(before) {
                lemma_find_step(before, step_id@);
                lemma_restated(before, after);
                lemma_begin_keeps_count(before, after, event_views(old(events)@), at as int, now);
                assert(event_views(events@) =~= event_views(old(events)@) + begin_events(
                    before,
                    at as int,
                ));
            }
        }
        Ok(StepStart::Started { attempt })
    }
}

/// Follows a route to the step `target`, if there is one; `fresh` says
/// whether the route resets the step.
fn route(steps: &mut Vec<Step>, target: &str, fresh: bool)
    ensures
        same_but_states(old(steps)@, final(steps)@),
        states(final(steps)@) == after_route(
            states(old(steps)@),
            old(steps)@,
            Some(target@),
            fresh,
        ),
        ({
            let at = find_step(old(steps)@, target@);
            if at >= old(steps)@.len() {
                unended(final(steps)@) == unended(old(steps)@) && total_budget(final(steps)@)
                    == total_budget(old(steps)@)
            } else if old(steps)@[at].state@.is_terminal() {
                unended(final(steps)@) == unended(old(steps)@) + 1 && total_budget(final(steps)@)
                    <= total_budget(old(steps)@)
            } else {
                unended(final(steps)@) == unended(old(steps)@) && (!fresh ==> total_budget(
                    final(steps)@,
                ) <= total_budget(old(steps)@))
            }
        }),
{
    match find_position(steps, target) {
        Some(at) => {
            let next = land_on(&steps[at].state, fresh);
            steps[at].state = next;
            proof {
                let was = old(steps)@[at as int].state@;
                assert(states(steps@) =~= states(old(steps)@).update(at as int, landed(was, fresh)));
                assert(states(steps@)[at as int] == steps@[at as int].state@);
                lemma_routed_budget(was, old(steps)@[at as int].max_retries);
                lemma_routed_waits_or_runs(was);
                lemma_total_budget_update(old(steps)@, steps@, at as int);
                lemma_unended_update(old(steps)@, steps@, at as int);
            }
        },
        None => {},
    }
}

/// Records how the run of the step `step_id` ended.
///
/// A step that does not exist or does not run is refused with an error.
/// Otherwise the step is settled as `result` says, the route of the result
/// is followed, the step to run next is asked for, and the log tells what
/// happened. A failure that no route takes care of fails the run of the
/// pipeline.
///
/// A route makes a step that had ended wait for the run after those that
/// it has had. The route of a continuation resets every other step to wait
/// for its first run, so a step that waited for a later run, or ran,
/// forgets the runs that it had started; the routes of a success and of a
/// failure leave a step that waits or runs as it is.
pub fn complete_step(
    scheduler: &mut ExecutionScheduler,
    events: &mut Vec<ExecutionEvent>,
    pipeline: &mut Pipeline,
    step_id: &str,
    result: ExecutionResult,
) -> (r: Result<(), String>)
    ensures
        same_but_states(old(pipeline).steps@, final(pipeline).steps@),
        final(pipeline).name == old(pipeline).name,
        final(pipeline).variables == old(pipeline).variables,
        final(pipeline).execution_order == old(pipeline).execution_order,
        final(scheduler).strategy == old(scheduler).strategy,
        healthy(old(pipeline).steps@) ==> healthy(final(pipeline).steps@),
        healthy(old(pipeline).steps@) && covered(old(pipeline).steps@, event_views(old(events)@))
            ==> covered(final(pipeline).steps@, event_views(final(events)@)),
        healthy(old(pipeline).steps@) && covered(old(pipeline).steps@, event_views(old(events)@))
            && !accounted(old(pipeline).steps@, event_views(old(events)@)) ==> !accounted(
            final(pipeline).steps@,
            event_views(final(events)@),
        ),
        healthy(old(pipeline).steps@) && accounted(old(pipeline).steps@, event_views(old(events)@))
            ==> (accounted(final(pipeline).steps@, event_views(final(events)@)) <==> !loses_count(
            old(pipeline).steps@,
            find_step(old(pipeline).steps@, step_id@),
            result@,
        ) || !(find_step(old(pipeline).steps@, step_id@) < old(pipeline).steps@.len()
            && old(pipeline).steps@[find_step(old(pipeline).steps@, step_id@)].state@ is Running)),
        ({
            let at = find_step(old(pipeline).steps@, step_id@);
            let before = old(pipeline).steps@;
            let after = final(pipeline).steps@;
            if at >= before.len() || !(before[at].state@ is Running) {
                &&& *final(pipeline) == *old(pipeline)
                &&& final(scheduler).queue() == old(scheduler).queue()
                &&& final(events)@ == old(events)@
                &&& if at >= before.len() {
                    r matches Err(e) && e@ == not_found_message(step_id@)
                } else {
                    r matches Err(e) && e@ == not_running_message(step_id@)
                }
            } else {
                &&& r is Ok
                &&& exists|now: Timestamp| states(after) == states_after(before, at, result@, now)
                &&& final(scheduler).queue() == match requested(step_id@, result@) {
                    Some(id) => old(scheduler).queue().push(id),
                    None => old(scheduler).queue(),
                }
                &&& event_views(final(events)@) == event_views(old(events)@) + outcome_events(
                    step_id@,
                    result@,
                )
                &&& if result@ is Failed {
                    failed_run(old(pipeline).state, final(pipeline).state)
                } else {
                    final(pipeline).state == old(pipeline).state
                }
                &&& no_farther(after, before)
                &&& !(route_target(result@) is Some && find_step(before, route_target(result@)->0)
                    == at) ==> exists|now: Timestamp|
                    after[at].state@ == #[trigger] settled(before[at].state@, result@, now)
                &&& resets(result@) ==> {
                    let landed = find_step(before, route_target(result@)->0);
                    landed < before.len() ==> after[landed].state@ == (StepStateView::Retrying {
                        attempt: if landed == at {
                            bump(before[at].state@->Running_attempt)
                        } else if before[landed].state@.is_terminal() {
                            bump(before[landed].state@.recorded_attempts() as usize)
                        } else {
                            1
                        },
                    })
                }
                &&& route_target(result@) matches Some(target) ==> {
                    let landed = find_step(before, target);
                    landed < before.len() ==> after[landed].state@ is Retrying
                        || after[landed].state@ is Running
                }
                &&& forall|j: int|
                    0 <= j < before.len() && (#[trigger] before[j]).state@.is_terminal()
                        && after[j].state@ != before[j].state@ ==> after[j].state@ is Retrying
                        && route_target(result@) == Some(before[j].id@)
            }
        }),
{
    let ghost before = pipeline.steps@;
    let ghost log = event_views(events@);
    let ghost outcome = result@;
    let at = match find_position(&pipeline.steps, step_id) {
        Some(at) => at,
        None => {
            return Err(step_error(step_id, " not found"));
        },
    };
    let (started_at, attempt): (Timestamp, usize) = match &pipeline.steps[at].state {
        StepState::Running { started_at, attempt } => (*started_at, *attempt),
        _ => {
            return Err(step_error(step_id, " is not running"));
        },
    };
    let now = Timestamp::now();
    let ghost here = before[at as int];
    proof {
        lemma_settled_budget(here.state@, outcome, here.max_retries, now);
    }
    match result {
        ExecutionResult::Success { output, next_step } => {
            pipeline.steps[at].state = StepState::Completed {
                output: output.clone(),
                attempts: attempt,
                started_at,
                completed_at: now,
            };
            let ghost mid = pipeline.steps@;
            proof {
                assert(states(mid) =~= states(before).update(
                    at as int,
                    settled(here.state@, outcome, now),
                ));
                lemma_total_budget_update(before, mid, at as int);
                lemma_unended_update(before, mid, at as int);
            }
            events.push(ExecutionEvent::StepOutput { step_id: step_id.to_owned(), output });
            if let Some(next) = &next_step {
                proof {
                    lemma_find_step_ids(before, mid, next@);
                }
                route(&mut pipeline.steps, next.as_str(), false);
                scheduler.enqueue(next.clone());
            }
            events.push(ExecutionEvent::StepCompleted { step_id: step_id.to_owned(), next_step });
            proof {
                assert(event_views(events@) =~= log + outcome_events(step_id@, outcome));
            }
        },
        ExecutionResult::Continue { action, target: _ } => {
            match action {
                ContinueAction::Retry => {
                    events.push(
                        ExecutionEvent::StepContinued {
                            step_id: step_id.to_owned(),
                            action: ContinueAction::Retry,
                        },
                    );
                    pipeline.steps[at].state = StepState::Retrying {
                        attempt: if attempt < usize::MAX {
                            attempt + 1
                        } else {
                            attempt
                        },
                    };
                    proof {
                        assert(states(pipeline.steps@) =~= states(before).update(
                            at as int,
                            settled(here.state@, outcome, now),
                        ));
                        lemma_total_budget_update(before, pipeline.steps@, at as int);
                        lemma_unended_update(before, pipeline.steps@, at as int);
                        assert(event_views(events@) =~= log + outcome_events(step_id@, outcome));
                    }
                    scheduler.enqueue(step_id.to_owned());
                },
                ContinueAction::Route(target) => {
                    events.push(
                        ExecutionEvent::StepContinued {
                            step_id: step_id.to_owned(),
                            action: ContinueAction::Route(target.clone()),
                        },
                    );
                    events.push(
                        ExecutionEvent::StepRerouted {
                            from_step: step_id.to_owned(),
                            to_step: target.clone(),
                        },
                    );
                    pipeline.steps[at].state = StepState::Completed {
                        output: String::new(),
                        attempts: attempt,
                        started_at,
                        completed_at: now,
                    };
                    let ghost mid = pipeline.steps@;
                    proof {
                        assert(states(mid) =~= states(before).update(
                            at as int,
                            settled(here.state@, outcome, now),
                        ));
                        lemma_total_budget_update(before, mid, at as int);
                        lemma_unended_update(before, mid, at as int);
                        lemma_find_step_ids(before, mid, target@);
                        assert(event_views(events@) =~= log + outcome_events(step_id@, outcome));
                    }
                    route(&mut pipeline.steps, target.as_str(), true);
                    scheduler.enqueue(target);
                },
            }
        },
        ExecutionResult::FailedWithRoute { error, next_step } => {
            pipeline.steps[at].state = StepState::Failed {
                error: error.clone(),
                attempts: attempt,
                last_started_at: started_at,
                failed_at: now,
            };
            let ghost mid = pipeline.steps@;
            proof {
                assert(states(mid) =~= states(before).update(
                    at as int,
                    settled(here.state@, outcome, now),
                ));
                lemma_total_budget_update(before, mid, at as int);
                lemma_unended_update(before, mid, at as int);
                lemma_find_step_ids(before, mid, next_step@);
            }
            events.push(ExecutionEvent::StepFailed { step_id: step_id.to_owned(), error });
            events.push(
                ExecutionEvent::StepRerouted {
                    from_step: step_id.to_owned(),
                    to_step: next_step.clone(),
                },
            );
            proof {
                assert(event_views(events@) =~= log + outcome_events(step_id@, outcome));
            }
            route(&mut pipeline.steps, next_step.as_str(), false);
            scheduler.enqueue(next_step);
        },
        ExecutionResult::Failed { error } => {
            pipeline.steps[at].state = StepState::Failed {
                error: error.clone(),
                attempts: attempt,
                last_started_at: started_at,
                failed_at: now,
            };
            proof {
                assert(states(pipeline.steps@) =~= states(before).update(
                    at as int,
                    settled(here.state@, outcome, now),
                ));
                lemma_total_budget_update(before, pipeline.steps@, at as int);
                lemma_unended_update(before, pipeline.steps@, at as int);
            }
            events.push(ExecutionEvent::StepFailed { step_id: step_id.to_owned(), error });
            proof {
                assert(event_views(events@) =~= log + outcome_events(step_id@, outcome));
            }
            pipeline.state.fail();
        },
        ExecutionResult::Interrupted { .. } => {
            proof {
                assert(states(pipeline.steps@) =~= states(before).update(
                    at as int,
                    settled(here.state@, outcome, now),
                ));
            }
        },
    }
    proof {
        let after = pipeline.steps@;
        lemma_find_step(before, step_id@);
        match route_target(outcome) {
            Some(target) => {
                lemma_find_step(before, target);
                if find_step(before, target) < before.len() {
                    crate::execution::laws::lemma_route_lands(before, at as int, outcome, now);
                    assert(states(after)[find_step(before, target)] == after[find_step(
                        before,
                        target,
                    )].state@);
                }
            },
            None => {},
        }
        assert forall|j: int|
            0 <= j < before.len() && (#[trigger] before[j]).state@.is_terminal() && after[j].state@
                != before[j].state@ implies after[j].state@ is Retrying && route_target(outcome)
            == Some(before[j].id@) by {
            crate::execution::laws::lemma_ended_steps_change_by_routing_only(
                before,
                at as int,
                outcome,
                now,
                j,
            );
            lemma_find_step(before, route_target(outcome)->0);
        }
        if healthy(before) {
            lemma_find_step(before, step_id@);
            lemma_restated(before, pipeline.steps@);
            lemma_completion_keeps_count(before, pipeline.steps@, log, at as int, outcome, now);
        }
        assert(states(after)[at as int] == after[at as int].state@);
    }
    Ok(())
}

/// Steps that differ in their states only are restated by their states.
proof fn lemma_restated(before: Seq<Step>, after: Seq<Step>)
    requires
        same_but_states(before, after),
    ensures
        crate::execution::laws::restated(before, after, states(after)),
{
}

/// A route changes a state only by landing on it.
proof fn lemma_after_route_at(
    current: Seq<StepStateView>,
    steps: Seq<Step>,
    target: Option<Seq<char>>,
    fresh: bool,
    j: int,
)
    requires
        current.len() == steps.len(),
        0 <= j < current.len(),
    ensures
        after_route(current, steps, target, fresh)[j] == current[j] || after_route(
            current,
            steps,
            target,
            fresh,
        )[j] == landed(current[j], fresh),
{
    match target {
        Some(id) => {
            lemma_find_step(steps, id);
        },
        None => {},
    }
}

/// Steps with the same ids are found at the same places.
proof fn lemma_find_step_ids(before: Seq<Step>, after: Seq<Step>, id: Seq<char>)
    requires
        same_but_states(before, after),
    ensures
        find_step(after, id) == find_step(before, id),
{
    crate::model::pipeline::lemma_find_step_same_ids(before, after, id);
}

/// The number of steps of `steps` whose state `selected` holds.
pub open spec fn count_states(steps: Seq<Step>, selected: spec_fn(StepStateView) -> bool) -> int
    decreases steps.len(),
{
    if steps.len() == 0 {
        0
    } else {
        count_states(steps.drop_last(), selected) + if selected(steps.last().state@) {
            1int
        } else {
            0int
        }
    }
}

/// Every failed step has a failure route: its failure was taken care of.
pub open spec fn failures_routed(steps: Seq<Step>) -> bool {
    forall|i: int|
        0 <= i < steps.len() && (#[trigger] steps[i]).state@ is Failed ==> steps[i].failure_target()
            is Some
}

/// No failure of the run is left unhandled: the run has not failed.
pub open spec fn sound(pipeline: Pipeline) -> bool {
    pipeline.state.status == ExecutionStatus::Failed || failures_routed(pipeline.steps@)
}

/// The error of a run in which no step can start and none runs.
pub open spec fn stuck_message() -> Seq<char> {
    "Pipeline stuck - no runnable steps"@
}

/// The error of a run in which no step can start while steps run that this
/// engine did not start.
pub open spec fn waiting_message() -> Seq<char> {
    "Pipeline waiting on running steps"@
}

/// The counts of the state of the run are those of the steps as they stand.
pub open spec fn counted(pipeline: Pipeline) -> bool {
    &&& pipeline.state.total_steps == pipeline.steps@.len()
    &&& pipeline.state.completed_steps == count_states(
        pipeline.steps@,
        |s: StepStateView| s is Completed,
    )
    &&& pipeline.state.failed_steps == count_states(pipeline.steps@, |s: StepStateView| s is Failed)
    &&& pipeline.state.running_steps == count_states(
        pipeline.steps@,
        |s: StepStateView| s is Running,
    )
}

/// The counts of completed, failed and running steps are the same in both
/// states.
pub open spec fn same_counts(before: PipelineState, after: PipelineState) -> bool {
    &&& after.completed_steps == before.completed_steps
    &&& after.failed_steps == before.failed_steps
    &&& after.running_steps == before.running_steps
}

/// Counts the completed, failed and running steps into the state of the run.
pub fn update_state_counts(pipeline: &mut Pipeline)
    ensures
        final(pipeline).steps == old(pipeline).steps,
        final(pipeline).name == old(pipeline).name,
        final(pipeline).variables == old(pipeline).variables,
        final(pipeline).execution_order == old(pipeline).execution_order,
        final(pipeline).state.status == old(pipeline).state.status,
        final(pipeline).state.execution_id == old(pipeline).state.execution_id,
        final(pipeline).state.started_at == old(pipeline).state.started_at,
        final(pipeline).state.completed_at == old(pipeline).state.completed_at,
        final(pipeline).state.total_steps == old(pipeline).steps@.len(),
        final(pipeline).state.completed_steps == count_states(
            old(pipeline).steps@,
            |s: StepStateView| s is Completed,
        ),
        final(pipeline).state.failed_steps == count_states(
            old(pipeline).steps@,
            |s: StepStateView| s is Failed,
        ),
        final(pipeline).state.running_steps == count_states(
            old(pipeline).steps@,
            |s: StepStateView| s is Running,
        ),
        counted(*final(pipeline)),
{
    let mut completed: usize = 0;
    let mut failed: usize = 0;
    let mut running: usize = 0;
    let mut i: usize = 0;
    while i < pipeline.steps.len()
        invariant
            i <= pipeline.steps.len(),
            *pipeline == *old(pipeline),
            completed == count_states(pipeline.steps@.take(i as int), |s: StepStateView| s is Completed),
            failed == count_states(pipeline.steps@.take(i as int), |s: StepStateView| s is Failed),
            running == count_states(pipeline.steps@.take(i as int), |s: StepStateView| s is Running),
            completed <= i,
            failed <= i,
            running <= i,
        decreases pipeline.steps.len() - i,
    {
        proof {
            assert(pipeline.steps@.take(i + 1).drop_last() =~= pipeline.steps@.take(i as int));
        }
        match &pipeline.steps[i].state {
            StepState::Completed { .. } => {
                completed = completed + 1;
            },
            StepState::Failed { .. } => {
                failed = failed + 1;
            },
            StepState::Running { .. } => {
                running = running + 1;
            },
            _ => {},
        }
        i = i + 1;
    }
    proof {
        assert(pipeline.steps@.take(pipeline.steps.len() as int) =~= pipeline.steps@);
    }
    let total = pipeline.steps.len();
    pipeline.state.update_counts(&total, &completed, &failed, &running);
}

/// Takes up the step `step_id`: starts it, asks the agent, and records how
/// the run ended, as `took_up` says. A step that cannot be started is left
/// as it is.
fn execute_step<A: AgentExecutor>(
    scheduler: &mut ExecutionScheduler,
    events: &mut Vec<ExecutionEvent>,
    executor: &StepExecutor<A>,
    pipeline: &mut Pipeline,
    step_id: &str,
    Ghost(forgotten): Ghost<bool>,
) -> (lost: Ghost<bool>)
    ensures
        same_but_states(old(pipeline).steps@, final(pipeline).steps@),
        final(pipeline).name == old(pipeline).name,
        final(pipeline).variables == old(pipeline).variables,
        final(pipeline).execution_order == old(pipeline).execution_order,
        final(pipeline).state.execution_id == old(pipeline).state.execution_id,
        final(pipeline).state.started_at == old(pipeline).state.started_at,
        final(scheduler).strategy == old(scheduler).strategy,
        final(pipeline).state.status == old(pipeline).state.status || final(pipeline).state.status == ExecutionStatus::Failed,
        no_farther(final(pipeline).steps@, old(pipeline).steps@),
        runnable(old(pipeline).steps@, step_id@) ==> nearer(
            final(pipeline).steps@,
            old(pipeline).steps@,
        ),
        sound(*old(pipeline)) ==> sound(*final(pipeline)),
        healthy(old(pipeline).steps@) ==> healthy(final(pipeline).steps@),
        healthy(old(pipeline).steps@) && covered(old(pipeline).steps@, event_views(old(events)@))
            ==> covered(final(pipeline).steps@, event_views(final(events)@)),
        healthy(old(pipeline).steps@) && accounted(old(pipeline).steps@, event_views(old(events)@))
            && !lost@ ==> accounted(final(pipeline).steps@, event_views(final(events)@)),
        healthy(old(pipeline).steps@) && accounted(old(pipeline).steps@, event_views(old(events)@))
            && !forgotten && lost@ ==> !accounted(
            final(pipeline).steps@,
            event_views(final(events)@),
        ),
        healthy(old(pipeline).steps@) && covered(old(pipeline).steps@, event_views(old(events)@))
            && !accounted(old(pipeline).steps@, event_views(old(events)@)) ==> !accounted(
            final(pipeline).steps@,
            event_views(final(events)@),
        ),
        forall|i: int|
            0 <= i < old(pipeline).steps@.len() && (#[trigger] final(pipeline).steps@[i]).state@
                is Running ==> old(pipeline).steps@[i].state@ is Running,
        final(events)@.len() >= old(events)@.len(),
        event_views(final(events)@).take(old(events)@.len() as int) == event_views(old(events)@),
        took_up(
            moment_of(*old(scheduler), old(events)@, *old(pipeline), forgotten),
            moment_of(*final(scheduler), final(events)@, *final(pipeline), lost@),
            step_id@,
        ),
        forall|first: int|
            0 <= first <= old(events)@.len() && (old(pipeline).state.status
                == ExecutionStatus::Failed <==> unhandled(
                #[trigger] event_views(old(events)@).skip(first),
            )) ==> (final(pipeline).state.status == ExecutionStatus::Failed <==> unhandled(
                event_views(final(events)@).skip(first),
            )),
{
    let ghost before = pipeline.steps@;
    let ghost log = event_views(events@);
    let ghost set_out = moment_of(*scheduler, events@, *pipeline, forgotten);
    let ghost mut lost = forgotten;
    proof {
        lemma_find_step(before, step_id@);
    }
    match begin_step(scheduler, events, pipeline, step_id) {
        Ok(StepStart::Started { .. }) => {
            let ghost begun_steps = pipeline.steps@;
            let ghost begun_log = event_views(events@);
            let ghost at = find_step(before, step_id@);
            let ghost begin = choose|now: Timestamp|
                states(begun_steps) == states(before).update(
                    at,
                    begun(before[at].state@, before[at].max_retries, now),
                );
            proof {
                lemma_find_step(before, step_id@);
                let begun_events = start_events(
                    step_id@,
                    next_attempt(before[find_step(before, step_id@)].state@) as usize,
                    before[find_step(before, step_id@)].max_retries,
                );
                lemma_start_events_handled(
                    step_id@,
                    next_attempt(before[find_step(before, step_id@)].state@) as usize,
                    before[find_step(before, step_id@)].max_retries,
                );
                assert forall|first: int| 0 <= first <= log.len() implies (unhandled(
                    #[trigger] begun_log.skip(first),
                ) <==> unhandled(log.skip(first))) by {
                    assert(begun_log.skip(first) =~= log.skip(first) + begun_events);
                    lemma_unhandled_append(log.skip(first), begun_events);
                }
                assert(log.len() == old(events)@.len());
                lemma_find_step_ids(before, begun_steps, step_id@);
                assert(states(begun_steps)[at] == begun_steps[at].state@);
                assert forall|j: int| 0 <= j < before.len() && j != at implies (
                #[trigger] begun_steps[j]).state@ == before[j].state@ by {
                    assert(states(begun_steps)[j] == states(before)[j]);
                }
            }
            match find_position(&pipeline.steps, step_id) {
                Some(position) => {
                    let context = pipeline.create_context_for_step(step_id);
                    let result = executor.execute(
                        &pipeline.steps[position],
                        &context,
                        None::<&NoopCallback>,
                    );
                    let ghost verdict = result@;
                    let _ = complete_step(scheduler, events, pipeline, step_id, result);
                    proof {
                        let ended = outcome_events(step_id@, verdict);
                        assert(event_views(events@) == begun_log + ended);
                        lemma_outcome_events_handled(step_id@, verdict);
                        assert forall|first: int| 0 <= first <= log.len() implies (unhandled(
                            #[trigger] event_views(events@).skip(first),
                        ) <==> unhandled(log.skip(first)) || verdict is Failed) by {
                            assert(event_views(events@).skip(first) =~= begun_log.skip(first)
                                + ended);
                            lemma_unhandled_append(begun_log.skip(first), ended);
                            assert(unhandled(begun_log.skip(first)) <==> unhandled(
                                log.skip(first),
                            ));
                        }
                        assert(event_views(events@).take(log.len() as int) =~= log);
                        let after = pipeline.steps@;
                        let now = choose|now: Timestamp|
                            states(after) == states_after(begun_steps, at, verdict, now);
                        assert(0 <= at < before.len());
                        let reached = settled(begun_steps[at].state@, verdict, now);
                        let settled_states = states(begun_steps).update(at, reached);
                        let answer = choose|answer: Result<AgentResponse, AgentError>|
                            verdict == outcome(begun_steps[at], answer);
                        assert(states(after) == after_route(
                            settled_states,
                            begun_steps,
                            route_target(verdict),
                            resets(verdict),
                        ));
                        match route_target(verdict) {
                            Some(target) => {
                                lemma_find_step_ids(before, begun_steps, target);
                                lemma_find_step(before, target);
                            },
                            None => {},
                        }
                        assert(loses_count(begun_steps, at, verdict) == loses_count(
                            before,
                            at,
                            verdict,
                        ));
                        lost = forgotten || loses_count(before, at, verdict);
                        assert forall|j: int|
                            0 <= j < after.len() && (#[trigger] after[j]).state@
                                is Running implies before[j].state@ is Running by {
                            assert(states(after)[j] == after[j].state@);
                            assert(states(begun_steps)[j] == begun_steps[j].state@);
                            lemma_after_route_at(
                                settled_states,
                                begun_steps,
                                route_target(verdict),
                                resets(verdict),
                                j,
                            );
                            lemma_routed_waits_or_runs(settled_states[j]);
                        }
                        lemma_outcome_ignores_state(begun_steps[at], before[at], answer);
                        lemma_states_after_run(before, begun_steps, at, verdict, begin, now);
                        assert(event_views(events@) =~= log + start_events(
                            step_id@,
                            next_attempt(before[at].state@) as usize,
                            before[at].max_retries,
                        ) + ended);
                        assert(answered(
                            set_out,
                            moment_of(*scheduler, events@, *pipeline, lost),
                            step_id@,
                            outcome(before[at], answer),
                            begin,
                            now,
                        ));
                        if sound(*old(pipeline)) && pipeline.state.status
                            != ExecutionStatus::Failed {
                            assert forall|j: int|
                                0 <= j < after.len() && (#[trigger] after[j]).state@
                                    is Failed implies after[j].failure_target() is Some by {
                                lemma_after_route_at(
                                    settled_states,
                                    begun_steps,
                                    route_target(verdict),
                                    resets(verdict),
                                    j,
                                );
                                lemma_routed_waits_or_runs(settled_states[j]);
                                if j == at {
                                    assert(verdict is FailedWithRoute);
                                }
                            }
                        }
                    }
                },
                None => {},
            }
        },
        Ok(StepStart::Exhausted) => {
            proof {
                let failed = ExecutionEventView::StepFailed {
                    step_id: step_id@,
                    error: exceeded_message(before[find_step(before, step_id@)].max_retries),
                };
                assert forall|first: int| 0 <= first <= log.len() implies unhandled(
                    #[trigger] event_views(events@).skip(first),
                ) by {
                    assert(event_views(events@).skip(first) =~= log.skip(first).push(failed));
                    lemma_unhandled_failure(log.skip(first), failed);
                }
                let after = pipeline.steps@;
                assert forall|j: int|
                    0 <= j < after.len() && (#[trigger] after[j]).state@
                        is Running implies before[j].state@ is Running by {
                    assert(states(after)[j] == after[j].state@);
                }
            }
        },
        _ => {
            proof {
                lemma_find_step(before, step_id@);
            }
        },
    }
    Ghost(lost)
}

/// What a run does next.
#[derive(Debug)]
pub enum Tick {
    /// These steps run next.
    Run(Vec<String>),
    /// The run is over, well or not.
    Done(Result<(), String>),
}

/// The event that tells of the end of the run of `pipeline` with `status`.
pub open spec fn completion_event(pipeline: Pipeline, status: ExecutionStatus) -> ExecutionEventView {
    ExecutionEventView::PipelineCompleted { execution_id: pipeline.state.execution_id, status }
}

/// Starts the run of `pipeline`: the log tells of the start, and the state
/// of the run says that it runs, with the number of its steps.
pub fn start_run(events: &mut Vec<ExecutionEvent>, pipeline: &mut Pipeline)
    ensures
        final(pipeline).steps == old(pipeline).steps,
        final(pipeline).name == old(pipeline).name,
        final(pipeline).variables == old(pipeline).variables,
        final(pipeline).execution_order == old(pipeline).execution_order,
        final(pipeline).state.execution_id == old(pipeline).state.execution_id,
        final(pipeline).state.status == ExecutionStatus::Running,
        final(pipeline).state.started_at is Some,
        final(pipeline).state.completed_at == old(pipeline).state.completed_at,
        final(pipeline).state.total_steps == old(pipeline).steps@.len(),
        same_counts(old(pipeline).state, final(pipeline).state),
        event_views(final(events)@) == event_views(old(events)@).push(
            ExecutionEventView::PipelineStarted {
                execution_id: old(pipeline).state.execution_id,
                pipeline_name: old(pipeline).name@,
            },
        ),
        accounted(old(pipeline).steps@, event_views(old(events)@)) <==> accounted(
            final(pipeline).steps@,
            event_views(final(events)@),
        ),
        covered(old(pipeline).steps@, event_views(old(events)@)) <==> covered(
            final(pipeline).steps@,
            event_views(final(events)@),
        ),
{
    let ghost started = ExecutionEventView::PipelineStarted {
        execution_id: pipeline.state.execution_id,
        pipeline_name: pipeline.name@,
    };
    events.push(
        ExecutionEvent::PipelineStarted {
            execution_id: pipeline.state.execution_id.clone(),
            pipeline_name: pipeline.name.clone(),
        },
    );
    proof {
        lemma_started_count_plain(pipeline.steps@, event_views(old(events)@), started);
    }
    pipeline.state.start(pipeline.steps.len());
}

/// Decides what the run of `pipeline` does next.
///
/// A run that has failed is over. Otherwise the steps that the scheduler
/// plans run next. Where it plans none, the run is completed if every step
/// has ended, and failed as stuck if steps are left of which none runs; it
/// waits, with an error and nothing changed, if steps still run. The end of
/// a run is told in the log.
pub fn tick(
    scheduler: &ExecutionScheduler,
    events: &mut Vec<ExecutionEvent>,
    pipeline: &mut Pipeline,
) -> (t: Tick)
    ensures
        final(pipeline).steps == old(pipeline).steps,
        final(pipeline).name == old(pipeline).name,
        final(pipeline).variables == old(pipeline).variables,
        final(pipeline).execution_order == old(pipeline).execution_order,
        final(pipeline).state.execution_id == old(pipeline).state.execution_id,
        final(pipeline).state.started_at == old(pipeline).state.started_at,
        final(pipeline).state.total_steps == old(pipeline).state.total_steps,
        same_counts(old(pipeline).state, final(pipeline).state),
        accounted(old(pipeline).steps@, event_views(old(events)@)) <==> accounted(
            final(pipeline).steps@,
            event_views(final(events)@),
        ),
        covered(old(pipeline).steps@, event_views(old(events)@)) <==> covered(
            final(pipeline).steps@,
            event_views(final(events)@),
        ),
        t is Done ==> old(pipeline).state.status == ExecutionStatus::Failed || planned(
            scheduler.queue(),
            old(pipeline).order(),
            old(pipeline).steps@,
            scheduler.limit_for(*old(pipeline)),
        ).len() == 0,
        match t {
            Tick::Run(batch) => {
                &&& *final(pipeline) == *old(pipeline)
                &&& final(events)@ == old(events)@
                &&& old(pipeline).state.status != ExecutionStatus::Failed
                &&& batch@.len() > 0
                &&& texts(batch@) == planned(
                    scheduler.queue(),
                    old(pipeline).order(),
                    old(pipeline).steps@,
                    scheduler.limit_for(*old(pipeline)),
                )
            },
            Tick::Done(r) => {
                if old(pipeline).state.status == ExecutionStatus::Failed {
                    &&& r is Ok
                    &&& final(pipeline).state.status == ExecutionStatus::Failed
                    &&& final(pipeline).state.completed_at is Some
                    &&& event_views(final(events)@) == event_views(old(events)@).push(
                        completion_event(*old(pipeline), ExecutionStatus::Failed),
                    )
                } else if all_terminal(old(pipeline).steps@) {
                    &&& r is Ok
                    &&& final(pipeline).state.status == ExecutionStatus::Completed
                    &&& final(pipeline).state.completed_at is Some
                    &&& event_views(final(events)@) == event_views(old(events)@).push(
                        completion_event(*old(pipeline), ExecutionStatus::Completed),
                    )
                } else if !any_running(old(pipeline).steps@) {
                    &&& r matches Err(e) && e@ == stuck_message()
                    &&& final(pipeline).state.status == ExecutionStatus::Failed
                    &&& final(pipeline).state.completed_at is Some
                    &&& event_views(final(events)@) == event_views(old(events)@).push(
                        completion_event(*old(pipeline), ExecutionStatus::Failed),
                    )
                } else {
                    &&& r matches Err(e) && e@ == waiting_message()
                    &&& *final(pipeline) == *old(pipeline)
                    &&& final(events)@ == old(events)@
                }
            },
        },
{
    let execution_id = pipeline.state.execution_id.clone();
    let ghost log = event_views(events@);
    if pipeline.has_failed() {
        pipeline.state.fail();
        events.push(
            ExecutionEvent::PipelineCompleted { execution_id, status: ExecutionStatus::Failed },
        );
        proof {
            let done = completion_event(*old(pipeline), ExecutionStatus::Failed);
            assert(event_views(events@) =~= log.push(done));
            lemma_started_count_plain(pipeline.steps@, log, done);
        }
        return Tick::Done(Ok(()));
    }
    let batch = scheduler.next_steps(pipeline);
    if batch.len() > 0 {
        return Tick::Run(batch);
    }
    if pipeline.is_complete() {
        pipeline.state.complete();
        events.push(
            ExecutionEvent::PipelineCompleted { execution_id, status: ExecutionStatus::Completed },
        );
        proof {
            let done = completion_event(*old(pipeline), ExecutionStatus::Completed);
            assert(event_views(events@) =~= log.push(done));
            lemma_started_count_plain(pipeline.steps@, log, done);
        }
        return Tick::Done(Ok(()));
    }
    if pipeline.running_count() == 0 {
        pipeline.state.fail();
        events.push(
            ExecutionEvent::PipelineCompleted { execution_id, status: ExecutionStatus::Failed },
        );
        proof {
            let done = completion_event(*old(pipeline), ExecutionStatus::Failed);
            assert(event_views(events@) =~= log.push(done));
            lemma_started_count_plain(pipeline.steps@, log, done);
        }
        return Tick::Done(Err("Pipeline stuck - no runnable steps".to_owned()));
    }
    Tick::Done(Err("Pipeline waiting on running steps".to_owned()))
}

/// Drives pipelines with an agent.
pub struct ExecutionEngine<A> {
    /// Chooses the steps that run next.
    pub scheduler: ExecutionScheduler,
    /// Runs single steps.
    pub executor: StepExecutor<A>,
    /// What has happened, oldest first.
    pub events: Vec<ExecutionEvent>,
}

impl<A: AgentExecutor> ExecutionEngine<A> {
    /// An engine that asks `agent` and chooses steps by `strategy`.
    pub fn new(agent: A, strategy: SchedulingStrategy) -> (engine: Self)
        ensures
            engine.scheduler.strategy == strategy,
            engine.scheduler.queue().len() == 0,
            engine.events@.len() == 0,
            engine.executor.asks() == agent,
    {
        ExecutionEngine {
            scheduler: ExecutionScheduler::new(strategy),
            executor: StepExecutor::new(agent),
            events: Vec::new(),
        }
    }

    /// What has happened so far, oldest first.
    pub fn events(&self) -> (log: &Vec<ExecutionEvent>)
        ensures
            log == self.events,
    {
        &self.events
    }

    /// Hands out what has happened so far and starts the log anew.
    pub fn take_events(&mut self) -> (log: Vec<ExecutionEvent>)
        ensures
            log == old(self).events,
            final(self).events@.len() == 0,
            final(self).scheduler == old(self).scheduler,
            final(self).executor == old(self).executor,
    {
        let mut log: Vec<ExecutionEvent> = Vec::new();
        std::mem::swap(&mut self.events, &mut log);
        log
    }

    /// Runs `pipeline` to its end.
    ///
    /// Round by round the steps that the scheduler plans are run, each as far
    /// as the agent's answer takes it, until the run has failed or no step
    /// can start. Then the run is completed where every step has ended, and
    /// failed as stuck where steps are left that neither run nor can start.
    /// The result is an error only for a run that did not get to its end:
    /// one that is stuck, or one that waits for steps that run without this
    /// engine having started them.
    ///
    /// The run goes as `went` says: it sets out at the `opening`, goes
    /// through some number of rounds, each of which takes up every step
    /// that the scheduler planned at its beginning, and is `finished` at a
    /// moment at which it has failed or the scheduler plans no step. Only
    /// the answers of the agent and the times of the clock are open; what
    /// each answer means is what `took_up` says. A run in which the
    /// scheduler plans no step at the outset changes no step and asks
    /// nothing of the agent; in any other run the first thing told after
    /// the start is the start of the first step that was planned, or its
    /// failure where its retries are used up.
    ///
    /// The moments of the run, one for each step taken up, are `led`
    /// through: every start that the log tells was made at one of them, at
    /// which the step waited and every step that it depends on had ended.
    ///
    /// The status is `Failed` exactly when the log of this run tells of a
    /// failure that no route took care of, or the run is stuck. Every such
    /// failure stands at the end, the step being failed with the error
    /// told, unless a later route landed on the step. Where one step starts
    /// at a time, the failure that fails a run is the last thing told
    /// before its end.
    ///
    /// The status is `Completed` exactly when every step has ended and the
    /// log of this run tells of no failure that a route did not take care
    /// of. Every failed step is then one whose failure a route took care of,
    /// provided this held at the start. Where the log covered the steps at
    /// the start, it does so at the end: no step has recorded more attempts
    /// than the log tells of starts, nor more than its retries allow. Where
    /// the log accounted for the steps at the start, it does so at the end,
    /// each step having recorded exactly as many attempts as the log tells
    /// of starts, if and only if no continuation routed to a step that had
    /// started and not ended, which then forgot its runs. A run always comes to an
    /// end: every start uses up some of the budget that the retries of the
    /// steps leave, and a route gives budget back only by resetting a step
    /// that has not ended, which leaves one step fewer that has not ended.
    pub fn execute(&mut self, pipeline: &mut Pipeline) -> (r: Result<(), String>)
        ensures
            same_but_states(old(pipeline).steps@, final(pipeline).steps@),
            final(pipeline).name == old(pipeline).name,
            final(pipeline).variables == old(pipeline).variables,
            final(pipeline).execution_order == old(pipeline).execution_order,
            final(pipeline).state.execution_id == old(pipeline).state.execution_id,
            final(self).scheduler.strategy == old(self).scheduler.strategy,
            r is Ok ==> final(pipeline).state.status == ExecutionStatus::Completed || final(pipeline).state.status == ExecutionStatus::Failed,
            final(pipeline).state.status == ExecutionStatus::Completed <==> r is Ok && final(pipeline).state.status != ExecutionStatus::Failed,
            final(pipeline).state.status == ExecutionStatus::Completed <==> all_terminal(
                final(pipeline).steps@,
            ) && !unhandled(event_views(final(self).events@).skip(old(self).events@.len() as int)),
            final(pipeline).state.status == ExecutionStatus::Completed && failures_routed(
                old(pipeline).steps@,
            ) ==> failures_routed(final(pipeline).steps@),
            r matches Err(e) ==> !all_terminal(final(pipeline).steps@) && if any_running(
                final(pipeline).steps@,
            ) {
                e@ == waiting_message() && final(pipeline).state.status
                    == ExecutionStatus::Running
            } else {
                e@ == stuck_message() && final(pipeline).state.status == ExecutionStatus::Failed
            },
            forall|i: int|
                0 <= i < old(pipeline).steps@.len() && (#[trigger] final(pipeline).steps@[i]).state@
                    is Running ==> old(pipeline).steps@[i].state@ is Running,
            healthy(old(pipeline).steps@) ==> healthy(final(pipeline).steps@),
            healthy(old(pipeline).steps@) && covered(
                old(pipeline).steps@,
                event_views(old(self).events@),
            ) ==> covered(final(pipeline).steps@, event_views(final(self).events@)),
            final(self).events@.len() > old(self).events@.len(),
            event_views(final(self).events@)[old(self).events@.len() as int] == (
            ExecutionEventView::PipelineStarted {
                execution_id: old(pipeline).state.execution_id,
                pipeline_name: old(pipeline).name@,
            }),
            r is Ok || !any_running(final(pipeline).steps@) ==> event_views(
                final(self).events@,
            ).last() == (ExecutionEventView::PipelineCompleted {
                execution_id: old(pipeline).state.execution_id,
                status: final(pipeline).state.status,
            }),
            exists|rounds: nat, last: Moment, moments: Seq<Moment>, ids: Seq<Seq<char>>|
                {
                    &&& #[trigger] went(
                        opening(old(self).scheduler, old(self).events@, *old(pipeline)),
                        last,
                        old(pipeline).order(),
                        old(self).scheduler.strategy,
                        rounds,
                    )
                    &&& #[trigger] led(moments, ids)
                    &&& moments[0] == opening(old(self).scheduler, old(self).events@, *old(pipeline))
                    &&& moments.last() == last
                    &&& forall|k: int|
                        old(self).events@.len() < k < last.log.len() && (#[trigger] last.log[k])
                            is StepStarted ==> started_ready(moments, ids, last.log, k)
                    &&& last.failed || plan(
                        last,
                        old(pipeline).order(),
                        old(self).scheduler.strategy,
                    ).len() == 0
                    &&& finished(
                        last,
                        moment_of(
                            final(self).scheduler,
                            final(self).events@,
                            *final(pipeline),
                            last.forgotten,
                        ),
                        final(pipeline).state.status,
                        r,
                        old(pipeline).state.execution_id,
                    )
                    &&& healthy(old(pipeline).steps@) && accounted(
                        old(pipeline).steps@,
                        event_views(old(self).events@),
                    ) ==> (accounted(final(pipeline).steps@, event_views(final(self).events@))
                        <==> !last.forgotten)
                    &&& if rounds > 0 {
                        counted(*final(pipeline))
                    } else {
                        same_counts(old(pipeline).state, final(pipeline).state)
                    }
                },
            final(pipeline).state.total_steps == final(pipeline).steps@.len(),
            final(pipeline).state.started_at is Some,
            r is Ok || !any_running(final(pipeline).steps@) ==> final(pipeline).state.completed_at
                is Some,
            !unhandled(event_views(final(self).events@).skip(old(self).events@.len() as int))
                ==> planned(
                final(self).scheduler.queue(),
                final(pipeline).order(),
                final(pipeline).steps@,
                final(self).scheduler.limit_for(*final(pipeline)),
            ).len() == 0,
            final(pipeline).state.status == ExecutionStatus::Failed <==> unhandled(
                event_views(final(self).events@).skip(old(self).events@.len() as int),
            ) || (r matches Err(e) && e@ == stuck_message()),
            planned(
                old(self).scheduler.queue(),
                old(pipeline).order(),
                old(pipeline).steps@,
                old(self).scheduler.limit_for(*old(pipeline)),
            ).len() > 0 ==> final(self).events@.len() > old(self).events@.len() + 1 && event_views(
                final(self).events@,
            )[old(self).events@.len() as int + 1] == first_told(
                opening(old(self).scheduler, old(self).events@, *old(pipeline)),
                planned(
                    old(self).scheduler.queue(),
                    old(pipeline).order(),
                    old(pipeline).steps@,
                    old(self).scheduler.limit_for(*old(pipeline)),
                )[0],
            ),
            failures_stand(
                final(pipeline).steps@,
                event_views(final(self).events@),
                old(self).events@.len() as int,
            ),
            r is Ok || !any_running(final(pipeline).steps@) ==> failure_stands(
                final(pipeline).steps@,
                event_views(final(self).events@).drop_last(),
            ),
            one_at_a_time(old(self).scheduler.strategy) && unhandled(
                event_views(final(self).events@).skip(old(self).events@.len() as int),
            ) ==> event_views(final(self).events@).len() >= 2 && event_views(
                final(self).events@,
            ).drop_last().last() is StepFailed,
            planned(
                old(self).scheduler.queue(),
                old(pipeline).order(),
                old(pipeline).steps@,
                old(self).scheduler.limit_for(*old(pipeline)),
            ).len() == 0 ==> {
                &&& states(final(pipeline).steps@) == states(old(pipeline).steps@)
                &&& final(pipeline).steps@ == old(pipeline).steps@
                &&& final(self).scheduler.queue() == old(self).scheduler.queue()
                &&& finished(
                    opening(old(self).scheduler, old(self).events@, *old(pipeline)),
                    moment_of(final(self).scheduler, final(self).events@, *final(pipeline), false),
                    final(pipeline).state.status,
                    r,
                    old(pipeline).state.execution_id,
                )
            },
    {
        let ghost first = self.events@.len();
        let ghost start = opening(old(self).scheduler, old(self).events@, *old(pipeline));
        let ghost order = old(pipeline).order();
        let ghost strategy = old(self).scheduler.strategy;
        let ghost mut rounds: nat = 0;
        let ghost mut forgotten = false;
        let ghost mut moments: Seq<Moment> = seq![start];
        let ghost mut ids: Seq<Seq<char>> = Seq::empty();
        let ghost started = ExecutionEventView::PipelineStarted {
            execution_id: pipeline.state.execution_id,
            pipeline_name: pipeline.name@,
        };
        start_run(&mut self.events, pipeline);
        proof {
            lemma_total_budget_nonnegative(pipeline.steps@);
            lemma_unended_nonnegative(pipeline.steps@);
            if accounted(old(pipeline).steps@, event_views(old(self).events@)) {
                lemma_accounted_is_covered(old(pipeline).steps@, event_views(old(self).events@));
            }
            assert(event_views(self.events@).skip(first as int) =~= Seq::<
                ExecutionEventView,
            >::empty().push(started));
            lemma_unhandled_plain(Seq::empty(), started);
        }
        loop
            invariant
                same_but_states(old(pipeline).steps@, pipeline.steps@),
                pipeline.name == old(pipeline).name,
                pipeline.variables == old(pipeline).variables,
                pipeline.execution_order == old(pipeline).execution_order,
                pipeline.state.execution_id == old(pipeline).state.execution_id,
                self.scheduler.strategy == old(self).scheduler.strategy,
                pipeline.state.status == ExecutionStatus::Running || pipeline.state.status
                    == ExecutionStatus::Failed,
                failures_routed(old(pipeline).steps@) ==> sound(*pipeline),
                healthy(old(pipeline).steps@) ==> healthy(pipeline.steps@),
                healthy(old(pipeline).steps@) && covered(
                    old(pipeline).steps@,
                    event_views(old(self).events@),
                ) ==> covered(pipeline.steps@, event_views(self.events@)),
                healthy(old(pipeline).steps@) && accounted(
                    old(pipeline).steps@,
                    event_views(old(self).events@),
                ) ==> (accounted(pipeline.steps@, event_views(self.events@)) <==> !forgotten),
                forall|i: int|
                    0 <= i < old(pipeline).steps@.len() && (#[trigger] pipeline.steps@[i]).state@
                        is Running ==> old(pipeline).steps@[i].state@ is Running,
                self.events@.len() > first,
                first == old(self).events@.len(),
                pipeline.state.status == ExecutionStatus::Failed <==> unhandled(
                    event_views(self.events@).skip(first as int),
                ),
                event_views(self.events@)[first as int] == started,
                started == (ExecutionEventView::PipelineStarted {
                    execution_id: old(pipeline).state.execution_id,
                    pipeline_name: old(pipeline).name@,
                }),
                total_budget(pipeline.steps@) >= 0,
                unended(pipeline.steps@) >= 0,
                start == opening(old(self).scheduler, old(self).events@, *old(pipeline)),
                order == old(pipeline).order(),
                strategy == old(self).scheduler.strategy,
                went(
                    start,
                    moment_of(self.scheduler, self.events@, *pipeline, forgotten),
                    order,
                    strategy,
                    rounds,
                ),
                rounds > 0 ==> plan(start, order, strategy).len() > 0,
                led(moments, ids),
                moments[0] == start,
                moments.last() == moment_of(self.scheduler, self.events@, *pipeline, forgotten),
                pipeline.state.total_steps == pipeline.steps@.len(),
                pipeline.state.started_at is Some,
                if rounds > 0 {
                    counted(*pipeline)
                } else {
                    same_counts(old(pipeline).state, pipeline.state)
                },
            decreases unended(pipeline.steps@), total_budget(pipeline.steps@),
        {
            let ghost before_tick = *pipeline;
            let ghost log = event_views(self.events@);
            let ghost last = moment_of(self.scheduler, self.events@, *pipeline, forgotten);
            let batch = match tick(&self.scheduler, &mut self.events, pipeline) {
                Tick::Done(r) => {
                    proof {
                        reveal_strlit("Pipeline stuck - no runnable steps");
                        reveal_strlit("Pipeline waiting on running steps");
                        assert(stuck_message().len() != waiting_message().len());
                        lemma_failure_stands_throughout(start, last, order, strategy, rounds);
                        lemma_failures_stand(moments, ids);
                        assert forall|k: int|
                            first < k < last.log.len() && (#[trigger] last.log[k])
                                is StepStarted implies started_ready(moments, ids, last.log, k) by {
                            lemma_every_start_is_ready(moments, ids, k);
                        }
                        let told = event_views(self.events@);
                        assert forall|k: int|
                            first <= k < told.len() && #[trigger] left_failed(
                                told,
                                k,
                            ) implies failed_as_told(pipeline.steps@, told, k) by {
                            if told.len() > log.len() {
                                assert(told =~= log.push(told.last()));
                                assert(k < log.len());
                                assert(left_failed(log, k)) by {
                                    assert forall|l: int| k < l < log.len() implies !routes_to(
                                        #[trigger] log[l],
                                        log[k]->StepFailed_step_id,
                                    ) by {
                                        assert(log[l] == told[l]);
                                    }
                                    if k + 1 < log.len() {
                                        assert(log[k + 1] == told[k + 1]);
                                    }
                                }
                            }
                            assert(failed_as_told(last.steps, log, k));
                        }
                        lemma_run_goes_on(start, last, order, strategy, rounds);
                        if one_at_a_time(strategy) && last.failed {
                            lemma_failure_comes_last(start, last, order, strategy, rounds);
                        }
                        if self.events@.len() > log.len() {
                            assert(event_views(self.events@).drop_last() =~= log);
                            assert(event_views(self.events@) =~= log.push(
                                event_views(self.events@).last(),
                            ));
                            lemma_started_count_plain(
                                pipeline.steps@,
                                log,
                                event_views(self.events@).last(),
                            );
                        }
                        assert(finished(
                            last,
                            moment_of(self.scheduler, self.events@, *pipeline, forgotten),
                            pipeline.state.status,
                            r,
                            old(pipeline).state.execution_id,
                        ));
                        if self.events@.len() > log.len() {
                            let done = event_views(self.events@).last();
                            assert(event_views(self.events@).skip(first as int) =~= log.skip(
                                first as int,
                            ).push(done));
                            lemma_unhandled_plain(log.skip(first as int), done);
                        }
                        assert forall|i: int| 0 <= i < pipeline.steps@.len() implies (
                        #[trigger] pipeline.steps@[i]).state@ == before_tick.steps@[i].state@ by {}
                    }
                    return r;
                },
                Tick::Run(batch) => batch,
            };
            let ghost round_start = *pipeline;
            let ghost round_moment = moment_of(self.scheduler, self.events@, *pipeline, forgotten);
            proof {
                assert(texts(batch@).take(0) =~= Seq::<Seq<char>>::empty());
                lemma_planned(
                    self.scheduler.queue(),
                    pipeline.order(),
                    pipeline.steps@,
                    self.scheduler.limit_for(*pipeline),
                );
                assert(texts(batch@)[0] == batch@[0]@);
            }
            let mut k: usize = 0;
            while k < batch.len()
                invariant
                    k <= batch.len(),
                    batch.len() > 0,
                    same_but_states(old(pipeline).steps@, pipeline.steps@),
                    pipeline.name == old(pipeline).name,
                    pipeline.variables == old(pipeline).variables,
                    pipeline.execution_order == old(pipeline).execution_order,
                    pipeline.state.execution_id == old(pipeline).state.execution_id,
                    self.scheduler.strategy == old(self).scheduler.strategy,
                    pipeline.state.status == ExecutionStatus::Running || pipeline.state.status
                        == ExecutionStatus::Failed,
                    failures_routed(old(pipeline).steps@) ==> sound(*pipeline),
                    healthy(old(pipeline).steps@) ==> healthy(pipeline.steps@),
                    healthy(old(pipeline).steps@) && covered(
                        old(pipeline).steps@,
                        event_views(old(self).events@),
                    ) ==> covered(pipeline.steps@, event_views(self.events@)),
                    healthy(old(pipeline).steps@) && accounted(
                        old(pipeline).steps@,
                        event_views(old(self).events@),
                    ) ==> (accounted(pipeline.steps@, event_views(self.events@)) <==> !forgotten),
                    forall|i: int|
                        0 <= i < old(pipeline).steps@.len() && (
                        #[trigger] pipeline.steps@[i]).state@ is Running ==> old(pipeline).steps@[i].state@ is Running,
                    self.events@.len() > first,
                    pipeline.state.status == ExecutionStatus::Failed <==> unhandled(
                        event_views(self.events@).skip(first as int),
                    ),
                    event_views(self.events@)[first as int] == started,
                    round_start.state.status == ExecutionStatus::Running,
                    k == 0 ==> *pipeline == round_start && runnable(pipeline.steps@, batch@[0]@),
                    k > 0 ==> nearer(pipeline.steps@, round_start.steps@),
                    no_farther(pipeline.steps@, round_start.steps@),
                    total_budget(pipeline.steps@) >= 0,
                    unended(pipeline.steps@) >= 0,
                    took_up_all(
                        round_moment,
                        moment_of(self.scheduler, self.events@, *pipeline, forgotten),
                        texts(batch@).take(k as int),
                    ),
                    pipeline.state.started_at is Some,
                    led(moments, ids),
                    moments[0] == start,
                    moments.last() == moment_of(self.scheduler, self.events@, *pipeline, forgotten),
                decreases batch.len() - k,
            {
                let ghost log = event_views(self.events@);
                let ghost here = moment_of(self.scheduler, self.events@, *pipeline, forgotten);
                let now = execute_step(
                    &mut self.scheduler,
                    &mut self.events,
                    &self.executor,
                    pipeline,
                    batch[k].as_str(),
                    Ghost(forgotten),
                );
                proof {
                    forgotten = now@;
                    let reached = moment_of(self.scheduler, self.events@, *pipeline, forgotten);
                    let so_far = moments;
                    let taken_up = ids;
                    moments = so_far.push(reached);
                    ids = taken_up.push(batch@[k as int]@);
                    assert forall|j: int| 0 <= j < ids.len() implies took_up(
                        moments[j],
                        moments[j + 1],
                        #[trigger] ids[j],
                    ) by {
                        if j < taken_up.len() {
                            assert(took_up(so_far[j], so_far[j + 1], taken_up[j]));
                        }
                    }
                    let taken = texts(batch@).take(k + 1);
                    assert(taken.drop_last() =~= texts(batch@).take(k as int));
                    assert(taken.last() == batch@[k as int]@);
                    assert(took_up_all(round_moment, here, taken.drop_last()) && took_up(
                        here,
                        moment_of(self.scheduler, self.events@, *pipeline, forgotten),
                        taken.last(),
                    ));
                    lemma_total_budget_nonnegative(pipeline.steps@);
                    lemma_unended_nonnegative(pipeline.steps@);
                    assert(event_views(self.events@)[first as int] == event_views(
                        self.events@,
                    ).take(log.len() as int)[first as int]);
                    assert(same_but_states(old(pipeline).steps@, pipeline.steps@)) by {
                        assert forall|i: int| 0 <= i < pipeline.steps@.len() implies {
                            &&& (#[trigger] pipeline.steps@[i]).id == old(pipeline).steps@[i].id
                            &&& pipeline.steps@[i].prompt_template == old(pipeline).steps@[i].prompt_template
                            &&& pipeline.steps@[i].dependencies == old(pipeline).steps@[i].dependencies
                            &&& pipeline.steps@[i].termination == old(pipeline).steps@[i].termination
                            &&& pipeline.steps@[i].continuation == old(pipeline).steps@[i].continuation
                            &&& pipeline.steps@[i].max_retries == old(pipeline).steps@[i].max_retries
                            &&& pipeline.steps@[i].timeout_secs == old(pipeline).steps@[i].timeout_secs
                        } by {
                        }
                    }
                    assert forall|i: int|
                        0 <= i < old(pipeline).steps@.len() && (
                        #[trigger] pipeline.steps@[i]).state@ is Running implies old(pipeline).steps@[i].state@ is Running by {
                    }
                }
                k = k + 1;
            }
            update_state_counts(pipeline);
            proof {
                assert(texts(batch@).take(batch.len() as int) =~= texts(batch@));
                let now = moment_of(self.scheduler, self.events@, *pipeline, forgotten);
                assert(went(start, round_moment, order, strategy, rounds) && !round_moment.failed
                    && plan(round_moment, order, strategy).len() > 0 && took_up_all(
                    round_moment,
                    now,
                    plan(round_moment, order, strategy),
                ));
                rounds = rounds + 1;
            }
        }
    }
}

} // verus!
