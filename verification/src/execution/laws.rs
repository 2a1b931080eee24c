//! What holds of every run: no step records a run that was not started, and
//! runs are counted exactly as long as no continuation resets a step that
//! had started and not ended; retries are bounded; routes land on steps that
//! wait or run; steps that have ended change only when a route resets them;
//! a step starts only when its dependencies have ended; a step that asks for
//! a retry is run again; and a failure that is left as it is stands.

use crate::agent::{AgentError, AgentResponse};
use crate::execution::course::{answered, led, plan, took_up, took_up_all, went, Moment};
use crate::execution::engine::{
    outcome_events, same_but_states, start_events, states, states_after, ExecutionEventView,
};
use crate::execution::executor::{outcome, retry_verdict};
use crate::execution::scheduler::{
    lemma_planned, lemma_runnable_is_planned, room, SchedulingStrategy,
};
use crate::model::pipeline::{lemma_find_step_same_ids, runnable};
use crate::execution::executor::ExecutionResultView;
use crate::execution::transitions::{
    begun, bump, counter, counts_from_one, exhausted, forgets, lemma_attempts_bounded,
    lemma_counts_from_one, lemma_landed_runs, lemma_routed_waits_or_runs, lemma_runs_counted,
    may_begin, next_attempt, resets, route_target, routed, runs, settled, within_retries,
};
use crate::model::pipeline::{distinct_ids, find_step, lemma_find_step};
use crate::model::state::{StepStateView, Timestamp};
use crate::model::step::Step;
use vstd::prelude::*;

verus! {

/// The number of times that `log` tells of a start of the step `id`.
pub open spec fn started_count(log: Seq<ExecutionEventView>, id: Seq<char>) -> int
    decreases log.len(),
{
    if log.len() == 0 {
        0
    } else {
        started_count(log.drop_last(), id) + match log.last() {
            ExecutionEventView::StepStarted { step_id, .. } => if step_id == id {
                1int
            } else {
                0int
            },
            _ => 0int,
        }
    }
}

/// The log tells of as many starts of each step as the state of the step
/// stands for.
pub open spec fn accounted(steps: Seq<Step>, log: Seq<ExecutionEventView>) -> bool {
    forall|i: int|
        0 <= i < steps.len() ==> started_count(log, (#[trigger] steps[i]).id@) == runs(
            steps[i].state@,
        )
}

/// The steps have distinct ids, and the attempt counter of each respects its
/// number of retries, which the counter can count, and is at least one where
/// the step runs or has completed or failed.
pub open spec fn healthy(steps: Seq<Step>) -> bool {
    &&& distinct_ids(steps)
    &&& forall|i: int|
        0 <= i < steps.len() ==> within_retries(
            (#[trigger] steps[i]).state@,
            steps[i].max_retries,
        ) && steps[i].max_retries <= usize::MAX - 3 && counts_from_one(steps[i].state@)
}

/// The log tells of at least as many starts of each step as the state of
/// the step stands for: no step records a run that was not started.
pub open spec fn covered(steps: Seq<Step>, log: Seq<ExecutionEventView>) -> bool {
    forall|i: int|
        0 <= i < steps.len() ==> runs((#[trigger] steps[i]).state@) <= started_count(
            log,
            steps[i].id@,
        )
}

/// What the log tells when step `at` of `steps`, which can start, is
/// started: its start, or its failure where its retries are used up.
pub open spec fn begin_events(steps: Seq<Step>, at: int) -> Seq<ExecutionEventView> {
    if exhausted(steps[at].state@, steps[at].max_retries) {
        seq![
            ExecutionEventView::StepFailed {
                step_id: steps[at].id@,
                error: crate::execution::transitions::exceeded_message(steps[at].max_retries),
            },
        ]
    } else {
        start_events(
            steps[at].id@,
            next_attempt(steps[at].state@) as usize,
            steps[at].max_retries,
        )
    }
}

/// The end of the run of step `at` with `result` makes a step forget runs:
/// the result is a continuation that routes to another step of the
/// pipeline, which has not ended and has started at least once.
pub open spec fn loses_count(steps: Seq<Step>, at: int, result: ExecutionResultView) -> bool {
    resets(result) && route_target(result) is Some && {
        let target = find_step(steps, route_target(result)->0);
        target < steps.len() && target != at && forgets(steps[target].state@)
    }
}

/// `after` holds the steps of `before` with the states `now`.
pub open spec fn restated(before: Seq<Step>, after: Seq<Step>, now: Seq<StepStateView>) -> bool {
    &&& after.len() == before.len()
    &&& now.len() == before.len()
    &&& forall|i: int|
        0 <= i < before.len() ==> (#[trigger] after[i]).id@ == before[i].id@ && after[i].max_retries
            == before[i].max_retries && after[i].state@ == now[i]
}

proof fn lemma_started_count_append(
    log: Seq<ExecutionEventView>,
    more: Seq<ExecutionEventView>,
    id: Seq<char>,
)
    ensures
        started_count(log + more, id) == started_count(log, id) + started_count(more, id),
    decreases more.len(),
{
    if more.len() > 0 {
        assert((log + more).drop_last() =~= log + more.drop_last());
        lemma_started_count_append(log, more.drop_last(), id);
    }
}

proof fn lemma_started_count_one(event: ExecutionEventView, id: Seq<char>)
    ensures
        started_count(seq![event], id) == match event {
            ExecutionEventView::StepStarted { step_id, .. } => if step_id == id {
                1int
            } else {
                0int
            },
            _ => 0int,
        },
{
    let one = seq![event];
    assert(started_count(one.drop_last(), id) == 0);
}

proof fn lemma_started_count_two(
    first: ExecutionEventView,
    second: ExecutionEventView,
    id: Seq<char>,
)
    ensures
        started_count(seq![first, second], id) == started_count(seq![first], id) + started_count(
            seq![second],
            id,
        ),
{
    assert(seq![first, second] =~= seq![first] + seq![second]);
    lemma_started_count_append(seq![first], seq![second], id);
}

/// An event that tells of no start leaves every count as it is.
pub proof fn lemma_started_count_plain(
    steps: Seq<Step>,
    log: Seq<ExecutionEventView>,
    event: ExecutionEventView,
)
    requires
        !(event is StepStarted),
    ensures
        accounted(steps, log) <==> accounted(steps, log.push(event)),
        covered(steps, log) <==> covered(steps, log.push(event)),
{
    assert(log.push(event).drop_last() =~= log);
    assert forall|i: int| 0 <= i < steps.len() implies started_count(
        log.push(event),
        (#[trigger] steps[i]).id@,
    ) == started_count(log, steps[i].id@) by {
    }
}

/// The events of a start tell of one start of the step, and of none of any
/// other step.
pub proof fn lemma_start_events_count(
    step: Seq<char>,
    attempt: usize,
    max_retries: usize,
    id: Seq<char>,
)
    ensures
        started_count(start_events(step, attempt, max_retries), id) == if step == id {
            1int
        } else {
            0int
        },
{
    let started = ExecutionEventView::StepStarted { step_id: step, attempt };
    let retrying = ExecutionEventView::StepRetrying { step_id: step, attempt, max_retries };
    lemma_started_count_one(started, id);
    lemma_started_count_one(retrying, id);
    if attempt > 1 {
        lemma_started_count_two(started, retrying, id);
    }
}

/// The events of the end of a run tell of no start.
pub proof fn lemma_outcome_events_count(step: Seq<char>, result: ExecutionResultView, id: Seq<char>)
    ensures
        started_count(outcome_events(step, result), id) == 0,
{
    let events = outcome_events(step, result);
    if events.len() == 1 {
        lemma_started_count_one(events[0], id);
    } else if events.len() == 2 {
        lemma_started_count_one(events[0], id);
        lemma_started_count_one(events[1], id);
        lemma_started_count_two(events[0], events[1], id);
    }
}

/// Starting a step keeps the count: after a start that was not refused,
/// the log tells of one more start of that step and the state of the step
/// stands for one more run; where the retries are used up, nothing starts
/// and the attempts recorded are the runs that were started. The counters
/// stay within the retries throughout.
pub proof fn lemma_begin_keeps_count(
    before: Seq<Step>,
    after: Seq<Step>,
    log: Seq<ExecutionEventView>,
    at: int,
    now: Timestamp,
)
    requires
        healthy(before),
        0 <= at < before.len(),
        may_begin(before[at].state@),
        restated(
            before,
            after,
            states(before).update(at, begun(before[at].state@, before[at].max_retries, now)),
        ),
    ensures
        healthy(after),
        accounted(before, log) <==> accounted(after, log + begin_events(before, at)),
        covered(before, log) <==> covered(after, log + begin_events(before, at)),
        accounted(before, log) && exhausted(before[at].state@, before[at].max_retries)
            ==> after[at].state@.recorded_attempts() == started_count(log, before[at].id@),
{
    let state = before[at].state@;
    let limit = before[at].max_retries;
    let dummy = ExecutionResultView::Failed { error: Seq::empty() };
    let added = begin_events(before, at);
    lemma_attempts_bounded(state, dummy, limit, now);
    lemma_runs_counted(state, dummy, limit, now);
    lemma_counts_from_one(state, dummy, limit, now);
    assert forall|i: int| 0 <= i < after.len() implies within_retries(
        (#[trigger] after[i]).state@,
        after[i].max_retries,
    ) && after[i].max_retries <= usize::MAX - 3 && counts_from_one(after[i].state@) by {
    }
    assert(distinct_ids(after)) by {
        assert forall|i: int, j: int| 0 <= i < j < after.len() implies (#[trigger] after[i]).id@
            != (#[trigger] after[j]).id@ by {
        }
    }
    assert forall|i: int| 0 <= i < after.len() implies started_count(
        log + added,
        (#[trigger] after[i]).id@,
    ) - runs(after[i].state@) == started_count(log, before[i].id@) - runs(before[i].state@) by {
        lemma_started_count_append(log, added, after[i].id@);
        if !exhausted(state, limit) {
            lemma_start_events_count(before[at].id@, next_attempt(state) as usize, limit, after[i].id@);
        } else {
            lemma_started_count_one(added[0], after[i].id@);
            assert(added =~= seq![added[0]]);
        }
    }
    if accounted(before, log) {
        assert forall|i: int| 0 <= i < after.len() implies started_count(
            log + added,
            (#[trigger] after[i]).id@,
        ) == runs(after[i].state@) by {
            assert(started_count(log, before[i].id@) == runs(before[i].state@));
        }
    }
    if covered(before, log) {
        assert forall|i: int| 0 <= i < after.len() implies runs((#[trigger] after[i]).state@)
            <= started_count(log + added, after[i].id@) by {
            assert(runs(before[i].state@) <= started_count(log, before[i].id@));
        }
    }
    if accounted(after, log + added) {
        assert forall|i: int| 0 <= i < before.len() implies started_count(
            log,
            (#[trigger] before[i]).id@,
        ) == runs(before[i].state@) by {
            assert(started_count(log + added, after[i].id@) == runs(after[i].state@));
        }
    }
    if covered(after, log + added) {
        assert forall|i: int| 0 <= i < before.len() implies runs((#[trigger] before[i]).state@)
            <= started_count(log, before[i].id@) by {
            assert(runs(after[i].state@) <= started_count(log + added, after[i].id@));
        }
    }
}

/// The end of a run keeps the count, but for a route that resets a step
/// which had not ended: the log tells of no further start, and no state
/// stands for more runs than before, nor for fewer unless such a route
/// made a step forget the runs that it had started. So a step that has
/// ended records as its attempts the number of its runs that were started,
/// as long as no such route came. The counters stay within the retries.
pub proof fn lemma_completion_keeps_count(
    before: Seq<Step>,
    after: Seq<Step>,
    log: Seq<ExecutionEventView>,
    at: int,
    result: ExecutionResultView,
    now: Timestamp,
)
    requires
        healthy(before),
        0 <= at < before.len(),
        before[at].state@ is Running,
        restated(before, after, states_after(before, at, result, now)),
    ensures
        healthy(after),
        covered(before, log) ==> covered(after, log + outcome_events(before[at].id@, result)),
        accounted(before, log) && !loses_count(before, at, result) ==> accounted(
            after,
            log + outcome_events(before[at].id@, result),
        ),
        accounted(before, log) && loses_count(before, at, result) ==> !accounted(
            after,
            log + outcome_events(before[at].id@, result),
        ),
        covered(before, log) && !accounted(before, log) ==> !accounted(
            after,
            log + outcome_events(before[at].id@, result),
        ),
{
    let added = outcome_events(before[at].id@, result);
    let reached = settled(before[at].state@, result, now);
    let mid = states(before).update(at, reached);
    let fresh = resets(result);
    lemma_attempts_bounded(before[at].state@, result, before[at].max_retries, now);
    lemma_runs_counted(before[at].state@, result, before[at].max_retries, now);
    match route_target(result) {
        Some(id) => {
            lemma_find_step(before, id);
        },
        None => {},
    }
    lemma_counts_from_one(before[at].state@, result, before[at].max_retries, now);
    assert forall|i: int| 0 <= i < after.len() implies {
        &&& within_retries((#[trigger] after[i]).state@, after[i].max_retries)
        &&& after[i].max_retries <= usize::MAX - 3
        &&& counts_from_one(after[i].state@)
        &&& started_count(log + added, after[i].id@) == started_count(log, before[i].id@)
        &&& runs(after[i].state@) == if loses_count(before, at, result) && i == find_step(
            before,
            route_target(result)->0,
        ) {
            0
        } else {
            runs(before[i].state@)
        }
    } by {
        lemma_started_count_append(log, added, after[i].id@);
        lemma_outcome_events_count(before[at].id@, result, after[i].id@);
        let current = mid[i];
        assert(within_retries(current, before[i].max_retries) && runs(current) == runs(
            before[i].state@,
        ) && counter(current) < usize::MAX);
        let dummy = ExecutionResultView::Failed { error: Seq::empty() };
        lemma_attempts_bounded(current, dummy, before[i].max_retries, now);
        lemma_runs_counted(current, dummy, before[i].max_retries, now);
        lemma_counts_from_one(current, dummy, before[i].max_retries, now);
        lemma_landed_runs(current, fresh);
    }
    assert(distinct_ids(after)) by {
        assert forall|i: int, j: int| 0 <= i < j < after.len() implies (#[trigger] after[i]).id@
            != (#[trigger] after[j]).id@ by {
        }
    }
    if covered(before, log) {
        assert forall|i: int| 0 <= i < after.len() implies runs((#[trigger] after[i]).state@)
            <= started_count(log + added, after[i].id@) by {
            assert(runs(before[i].state@) <= started_count(log, before[i].id@));
        }
    }
    if covered(before, log) && !accounted(before, log) {
        let i = choose|i: int|
            0 <= i < before.len() && started_count(log, (#[trigger] before[i]).id@) != runs(
                before[i].state@,
            );
        assert(runs(before[i].state@) <= started_count(log, before[i].id@));
        assert(started_count(log + added, after[i].id@) != runs(after[i].state@));
    }
    if accounted(before, log) {
        if loses_count(before, at, result) {
            let t = find_step(before, route_target(result)->0);
            assert(started_count(log, before[t].id@) == runs(before[t].state@));
            assert(started_count(log + added, after[t].id@) != runs(after[t].state@));
        } else {
            assert forall|i: int| 0 <= i < after.len() implies started_count(
                log + added,
                (#[trigger] after[i]).id@,
            ) == runs(after[i].state@) by {
                assert(started_count(log, before[i].id@) == runs(before[i].state@));
            }
        }
    }
}

/// A route lands on a step that waits or runs: after the end of a run that
/// goes on to a step of the pipeline, that step is neither completed nor
/// failed nor skipped.
pub proof fn lemma_route_lands(
    steps: Seq<Step>,
    at: int,
    result: ExecutionResultView,
    now: Timestamp,
)
    requires
        0 <= at < steps.len(),
        route_target(result) is Some,
        find_step(steps, route_target(result)->0) < steps.len(),
    ensures
        ({
            let target = find_step(steps, route_target(result)->0);
            let landed = states_after(steps, at, result, now)[target];
            landed is Retrying || landed is Running
        }),
{
    let id = route_target(result)->0;
    lemma_find_step(steps, id);
    let mid = states(steps).update(at, settled(steps[at].state@, result, now));
    lemma_routed_waits_or_runs(mid[find_step(steps, id)]);
}

/// A continuation that routes resets the step that it lands on: a step
/// that had ended waits for the run after those that it has had, and any
/// other step waits for its first run, whatever it had counted. The step
/// that routes has completed, with no output, and counts as ended when the
/// route lands on the step itself.
pub proof fn lemma_continuation_resets(
    steps: Seq<Step>,
    at: int,
    result: ExecutionResultView,
    now: Timestamp,
)
    requires
        0 <= at < steps.len(),
        steps[at].state@ is Running,
        resets(result),
        find_step(steps, route_target(result)->0) < steps.len(),
    ensures
        ({
            let target = find_step(steps, route_target(result)->0);
            let after = states_after(steps, at, result, now);
            &&& after[target] == (StepStateView::Retrying {
                attempt: if target == at {
                    bump(steps[at].state@->Running_attempt)
                } else if steps[target].state@.is_terminal() {
                    bump(steps[target].state@.recorded_attempts() as usize)
                } else {
                    1
                },
            })
            &&& target != at ==> after[at] == (StepStateView::Completed {
                output: Seq::empty(),
                attempts: steps[at].state@->Running_attempt,
                started_at: steps[at].state@->Running_started_at,
                completed_at: now,
            })
        }),
{
    lemma_find_step(steps, route_target(result)->0);
}

/// A step that has ended changes only when a route resets it, and then it
/// waits for its next run: no start and no end of a run touches the state
/// of another step that has ended.
pub proof fn lemma_ended_steps_change_by_routing_only(
    steps: Seq<Step>,
    at: int,
    result: ExecutionResultView,
    now: Timestamp,
    other: int,
)
    requires
        0 <= at < steps.len(),
        0 <= other < steps.len(),
        steps[at].state@ is Running,
        steps[other].state@.is_terminal(),
    ensures
        states_after(steps, at, result, now)[other] != steps[other].state@ ==> route_target(result)
            is Some && find_step(steps, route_target(result)->0) == other && states_after(
            steps,
            at,
            result,
            now,
        )[other] == routed(steps[other].state@) && states_after(steps, at, result, now)[other]
            is Retrying && states_after(steps, at, result, now)[other]->Retrying_attempt == bump(
            steps[other].state@.recorded_attempts() as usize,
        ),
        !may_begin(steps[other].state@),
{
    match route_target(result) {
        Some(id) => {
            lemma_find_step(steps, id);
        },
        None => {},
    }
}

/// Where the log accounts for the steps, a step that has completed or
/// failed records as its attempts exactly the number of its starts that the
/// log tells of; and where the steps are healthy, that number is at least
/// one and at most one more than the retries of the step.
pub proof fn lemma_attempts_are_starts(steps: Seq<Step>, log: Seq<ExecutionEventView>, i: int)
    requires
        accounted(steps, log),
        0 <= i < steps.len(),
        steps[i].state@ is Completed || steps[i].state@ is Failed,
    ensures
        steps[i].state@.recorded_attempts() == started_count(log, steps[i].id@),
        healthy(steps) ==> 1 <= steps[i].state@.recorded_attempts() <= steps[i].max_retries + 1,
{
}

/// Where the log covers healthy steps, a step of which the log tells no
/// start neither runs nor has completed or failed, and no step records more
/// attempts than the log tells starts of it: no step ends without having
/// been started.
pub proof fn lemma_no_start_no_end(steps: Seq<Step>, log: Seq<ExecutionEventView>, i: int)
    requires
        healthy(steps),
        covered(steps, log),
        0 <= i < steps.len(),
        started_count(log, steps[i].id@) == 0,
    ensures
        !(steps[i].state@ is Completed),
        !(steps[i].state@ is Failed),
        !(steps[i].state@ is Running),
{
}

/// Where the log covers healthy steps, a step that has completed or failed
/// records at least one attempt, no more attempts than the log tells
/// starts of it, and no more than one more than its retries.
pub proof fn lemma_attempts_were_started(steps: Seq<Step>, log: Seq<ExecutionEventView>, i: int)
    requires
        healthy(steps),
        covered(steps, log),
        0 <= i < steps.len(),
        steps[i].state@ is Completed || steps[i].state@ is Failed,
    ensures
        1 <= steps[i].state@.recorded_attempts() <= started_count(log, steps[i].id@),
        steps[i].state@.recorded_attempts() <= steps[i].max_retries + 1,
{
}

/// A log that accounts for the steps covers them.
pub proof fn lemma_accounted_is_covered(steps: Seq<Step>, log: Seq<ExecutionEventView>)
    requires
        accounted(steps, log),
    ensures
        covered(steps, log),
{
}

/// A pipeline in which no step has started yet is healthy, and the empty
/// log accounts for it.
pub proof fn lemma_fresh_pipeline_is_accounted(steps: Seq<Step>)
    requires
        distinct_ids(steps),
        forall|i: int|
            0 <= i < steps.len() ==> (#[trigger] steps[i]).state@ is Pending
                && steps[i].max_retries <= usize::MAX - 3,
    ensures
        healthy(steps),
        accounted(steps, Seq::empty()),
{
}

/// The event at `k` of `log` tells of a failure that no route took care of:
/// a step failed, and the log does not go on with a route from that step.
pub open spec fn unhandled_at(log: Seq<ExecutionEventView>, k: int) -> bool {
    0 <= k < log.len() && match log[k] {
        ExecutionEventView::StepFailed { step_id, .. } => !(k + 1 < log.len() && (match log[k
            + 1] {
            ExecutionEventView::StepRerouted { from_step, .. } => from_step == step_id,
            _ => false,
        })),
        _ => false,
    }
}

/// The log tells of a failure that no route took care of.
pub open spec fn unhandled(log: Seq<ExecutionEventView>) -> bool {
    exists|k: int| unhandled_at(log, k)
}

/// What is added to a log that does not begin with a route adds its own
/// unhandled failures to those of the log, and nothing else.
pub proof fn lemma_unhandled_append(log: Seq<ExecutionEventView>, added: Seq<ExecutionEventView>)
    requires
        added.len() == 0 || !(added[0] is StepRerouted),
    ensures
        unhandled(log + added) <==> unhandled(log) || unhandled(added),
{
    let all = log + added;
    if unhandled(log) {
        let k = choose|k: int| unhandled_at(log, k);
        assert(unhandled_at(all, k));
    }
    if unhandled(added) {
        let k = choose|k: int| unhandled_at(added, k);
        assert(unhandled_at(all, log.len() + k));
    }
    if unhandled(all) {
        let k = choose|k: int| unhandled_at(all, k);
        if k < log.len() {
            assert(unhandled_at(log, k));
        } else {
            assert(unhandled_at(added, k - log.len()));
        }
    }
}

/// The events of a start tell of no failure.
pub proof fn lemma_start_events_handled(step: Seq<char>, attempt: usize, max_retries: usize)
    ensures
        !unhandled(start_events(step, attempt, max_retries)),
        !(start_events(step, attempt, max_retries)[0] is StepRerouted),
{
    let events = start_events(step, attempt, max_retries);
    assert forall|k: int| !unhandled_at(events, k) by {}
}

/// The events of the end of a run tell of an unhandled failure exactly where
/// the run failed and no route follows.
pub proof fn lemma_outcome_events_handled(step: Seq<char>, result: ExecutionResultView)
    ensures
        unhandled(outcome_events(step, result)) <==> result is Failed,
        outcome_events(step, result).len() == 0 || !(outcome_events(step, result)[0]
            is StepRerouted),
{
    let events = outcome_events(step, result);
    if result is Failed {
        assert(unhandled_at(events, 0));
    } else {
        assert forall|k: int| !unhandled_at(events, k) by {}
    }
}

/// A single event that tells of no failure and of no route changes nothing
/// about the failures that the log tells of.
pub proof fn lemma_unhandled_plain(log: Seq<ExecutionEventView>, event: ExecutionEventView)
    requires
        !(event is StepFailed),
        !(event is StepRerouted),
    ensures
        unhandled(log.push(event)) <==> unhandled(log),
        !unhandled(seq![event]),
{
    let one = seq![event];
    assert forall|k: int| !unhandled_at(one, k) by {}
    assert(log.push(event) =~= log + one);
    lemma_unhandled_append(log, one);
}

/// A failure that ends a log is unhandled.
pub proof fn lemma_unhandled_failure(log: Seq<ExecutionEventView>, event: ExecutionEventView)
    requires
        event is StepFailed,
    ensures
        unhandled(log.push(event)),
{
    assert(unhandled_at(log.push(event), log.len() as int));
}

/// Where the last event of `log` tells of the failure of a step, that step
/// is failed in `steps`, with the error that the event tells.
pub open spec fn failure_stands(steps: Seq<Step>, log: Seq<ExecutionEventView>) -> bool {
    log.len() > 0 ==> match log.last() {
        ExecutionEventView::StepFailed { step_id, error } => {
            let at = find_step(steps, step_id);
            at < steps.len() && match steps[at].state@ {
                StepStateView::Failed { error: recorded, .. } => recorded == error,
                _ => false,
            }
        },
        _ => true,
    }
}

/// The strategy lets one step start at a time.
pub open spec fn one_at_a_time(strategy: SchedulingStrategy) -> bool {
    match strategy {
        SchedulingStrategy::Sequential => true,
        SchedulingStrategy::Parallel => false,
        SchedulingStrategy::LimitedParallel(max) => max <= 1,
    }
}

/// A failure that the log has just told stands: after a step was taken up,
/// the step of which the last event tells a failure is failed with the
/// error of that event.
pub proof fn lemma_failure_stands(before: Moment, after: Moment, id: Seq<char>)
    requires
        took_up(before, after, id),
        failure_stands(before.steps, before.log),
    ensures
        failure_stands(after.steps, after.log),
{
    let at = find_step(before.steps, id);
    lemma_find_step(before.steps, id);
    if at >= before.steps.len() || !may_begin(before.steps[at].state@)
        || !crate::model::pipeline::dependencies_ended(before.steps, at) {
    } else {
        lemma_find_step_same_ids(before.steps, after.steps, id);
        assert(states(after.steps)[at] == after.steps[at].state@);
        if exhausted(before.steps[at].state@, before.steps[at].max_retries) {
        } else {
            let (answer, begin, end) = choose|
                answer: Result<AgentResponse, AgentError>,
                begin: Timestamp,
                end: Timestamp,
            |
                answered(before, after, id, outcome(before.steps[at], answer), begin, end);
            let result = outcome(before.steps[at], answer);
            let started = start_events(
                id,
                next_attempt(before.steps[at].state@) as usize,
                before.steps[at].max_retries,
            );
            let ended = outcome_events(id, result);
            assert(after.log.last() == if ended.len() > 0 {
                ended.last()
            } else {
                started.last()
            });
        }
    }
}

/// A failure that the log has just told stands after every step of a round.
pub proof fn lemma_failure_stands_in_round(before: Moment, after: Moment, batch: Seq<Seq<char>>)
    requires
        took_up_all(before, after, batch),
        failure_stands(before.steps, before.log),
    ensures
        failure_stands(after.steps, after.log),
    decreases batch.len(),
{
    if batch.len() > 0 {
        let mid = choose|mid: Moment|
            took_up_all(before, mid, batch.drop_last()) && #[trigger] took_up(
                mid,
                after,
                batch.last(),
            );
        lemma_failure_stands_in_round(before, mid, batch.drop_last());
        lemma_failure_stands(mid, after, batch.last());
    }
}

/// A failure that the log has just told stands throughout a run: wherever
/// the run stands, the step of which the last event tells a failure is
/// failed with the error of that event. So the step whose failure ends a
/// run keeps that failure.
pub proof fn lemma_failure_stands_throughout(
    start: Moment,
    now: Moment,
    order: Seq<Seq<char>>,
    strategy: SchedulingStrategy,
    rounds: nat,
)
    requires
        went(start, now, order, strategy, rounds),
        failure_stands(start.steps, start.log),
    ensures
        failure_stands(now.steps, now.log),
    decreases rounds,
{
    if rounds > 0 {
        let mid = choose|mid: Moment|
            {
                &&& went(start, mid, order, strategy, (rounds - 1) as nat)
                &&& !mid.failed
                &&& plan(mid, order, strategy).len() > 0
                &&& #[trigger] took_up_all(mid, now, plan(mid, order, strategy))
            };
        lemma_failure_stands_throughout(start, mid, order, strategy, (rounds - 1) as nat);
        lemma_failure_stands_in_round(mid, now, plan(mid, order, strategy));
    }
}

/// Taking up a step fails a run only by a failure that the log then ends
/// with.
pub proof fn lemma_failure_is_told(before: Moment, after: Moment, id: Seq<char>)
    requires
        took_up(before, after, id),
        !before.failed,
        after.failed,
    ensures
        after.log.len() > 0,
        after.log.last() is StepFailed,
{
    let at = find_step(before.steps, id);
    if at >= before.steps.len() || !may_begin(before.steps[at].state@)
        || !crate::model::pipeline::dependencies_ended(before.steps, at) {
    } else if exhausted(before.steps[at].state@, before.steps[at].max_retries) {
    } else {
        let (answer, begin, end) = choose|
            answer: Result<AgentResponse, AgentError>,
            begin: Timestamp,
            end: Timestamp,
        |
            answered(before, after, id, outcome(before.steps[at], answer), begin, end);
        let result = outcome(before.steps[at], answer);
        let ended = outcome_events(id, result);
        assert(after.log.last() == ended.last());
    }
}

/// Where one step starts at a time, a run that has failed has told the
/// failure last: no other step was taken up after it.
pub proof fn lemma_failure_comes_last(
    start: Moment,
    now: Moment,
    order: Seq<Seq<char>>,
    strategy: SchedulingStrategy,
    rounds: nat,
)
    requires
        went(start, now, order, strategy, rounds),
        one_at_a_time(strategy),
        !start.failed,
        now.failed,
    ensures
        now.log.len() > 0,
        now.log.last() is StepFailed,
{
    if rounds > 0 {
        let mid = choose|mid: Moment|
            {
                &&& went(start, mid, order, strategy, (rounds - 1) as nat)
                &&& !mid.failed
                &&& plan(mid, order, strategy).len() > 0
                &&& #[trigger] took_up_all(mid, now, plan(mid, order, strategy))
            };
        let batch = plan(mid, order, strategy);
        lemma_planned(mid.queue, order, mid.steps, room(strategy, mid.steps));
        assert(batch.len() == 1);
        let taken = choose|taken: Moment|
            took_up_all(mid, taken, batch.drop_last()) && #[trigger] took_up(
                taken,
                now,
                batch.last(),
            );
        assert(taken == mid);
        lemma_failure_is_told(mid, now, batch.last());
    }
}

/// `log` goes on from `before`: it holds `before`, and then what came after.
pub open spec fn goes_on(before: Seq<ExecutionEventView>, log: Seq<ExecutionEventView>) -> bool {
    before.len() <= log.len() && log.take(before.len() as int) == before
}

/// What the log tells first when the step `id`, which may start, is taken
/// up at the moment `at`: its start, or, where its retries are used up, its
/// failure.
pub open spec fn first_told(at: Moment, id: Seq<char>) -> ExecutionEventView {
    let i = find_step(at.steps, id);
    if exhausted(at.steps[i].state@, at.steps[i].max_retries) {
        ExecutionEventView::StepFailed {
            step_id: id,
            error: crate::execution::transitions::exceeded_message(at.steps[i].max_retries),
        }
    } else {
        ExecutionEventView::StepStarted {
            step_id: id,
            attempt: next_attempt(at.steps[i].state@) as usize,
        }
    }
}

/// Taking up a step only adds to the log, and a step that may start is
/// told at once.
pub proof fn lemma_log_goes_on(before: Moment, after: Moment, id: Seq<char>)
    requires
        took_up(before, after, id),
    ensures
        goes_on(before.log, after.log),
        runnable(before.steps, id) ==> after.log.len() > before.log.len() && after.log[before.log.len() as int]
            == first_told(before, id),
{
    let at = find_step(before.steps, id);
    if at >= before.steps.len() || !may_begin(before.steps[at].state@)
        || !crate::model::pipeline::dependencies_ended(before.steps, at) {
        assert(after.log.take(before.log.len() as int) =~= before.log);
    } else if exhausted(before.steps[at].state@, before.steps[at].max_retries) {
        assert(after.log.take(before.log.len() as int) =~= before.log);
    } else {
        let (answer, begin, end) = choose|
            answer: Result<AgentResponse, AgentError>,
            begin: Timestamp,
            end: Timestamp,
        |
            answered(before, after, id, outcome(before.steps[at], answer), begin, end);
        assert(after.log.take(before.log.len() as int) =~= before.log);
    }
}

/// A round only adds to the log, and tells first of the first of its steps,
/// where that step may start.
pub proof fn lemma_round_goes_on(before: Moment, after: Moment, batch: Seq<Seq<char>>)
    requires
        took_up_all(before, after, batch),
    ensures
        goes_on(before.log, after.log),
        batch.len() > 0 && runnable(before.steps, batch[0]) ==> after.log.len() > before.log.len()
            && after.log[before.log.len() as int] == first_told(before, batch[0]),
    decreases batch.len(),
{
    if batch.len() == 0 {
        assert(after.log.take(before.log.len() as int) =~= before.log);
    } else {
        let mid = choose|mid: Moment|
            took_up_all(before, mid, batch.drop_last()) && #[trigger] took_up(
                mid,
                after,
                batch.last(),
            );
        lemma_round_goes_on(before, mid, batch.drop_last());
        lemma_log_goes_on(mid, after, batch.last());
        assert(after.log.take(before.log.len() as int) =~= mid.log.take(before.log.len() as int));
        if batch.len() > 1 {
            assert(batch.drop_last()[0] == batch[0]);
            if runnable(before.steps, batch[0]) {
                assert(after.log[before.log.len() as int] == after.log.take(mid.log.len() as int)[before.log.len() as int]);
            }
        } else {
            assert(mid == before);
        }
    }
}

/// A run only adds to the log, and a run that has gone through a round has
/// told, first of all, of the first step that the scheduler planned at the
/// outset: no run passes over the step that is planned.
pub proof fn lemma_run_goes_on(
    start: Moment,
    now: Moment,
    order: Seq<Seq<char>>,
    strategy: SchedulingStrategy,
    rounds: nat,
)
    requires
        went(start, now, order, strategy, rounds),
    ensures
        goes_on(start.log, now.log),
        rounds > 0 ==> plan(start, order, strategy).len() > 0 && now.log.len() > start.log.len()
            && now.log[start.log.len() as int] == first_told(
            start,
            plan(start, order, strategy)[0],
        ),
    decreases rounds,
{
    if rounds == 0 {
        assert(now.log.take(start.log.len() as int) =~= start.log);
    } else {
        let mid = choose|mid: Moment|
            {
                &&& went(start, mid, order, strategy, (rounds - 1) as nat)
                &&& !mid.failed
                &&& plan(mid, order, strategy).len() > 0
                &&& #[trigger] took_up_all(mid, now, plan(mid, order, strategy))
            };
        lemma_run_goes_on(start, mid, order, strategy, (rounds - 1) as nat);
        lemma_round_goes_on(mid, now, plan(mid, order, strategy));
        assert(now.log.take(start.log.len() as int) =~= mid.log.take(start.log.len() as int));
        if rounds == 1 {
            assert(mid == start);
            lemma_planned(start.queue, order, start.steps, room(strategy, start.steps));
        } else {
            assert(now.log[start.log.len() as int] == now.log.take(mid.log.len() as int)[start.log.len() as int]);
        }
    }
}

/// The event tells of a route that lands on the step `id`.
pub open spec fn routes_to(event: ExecutionEventView, id: Seq<char>) -> bool {
    match event {
        ExecutionEventView::StepCompleted { next_step: Some(target), .. } => target == id,
        ExecutionEventView::StepRerouted { to_step, .. } => to_step == id,
        _ => false,
    }
}

/// The failure that `log` tells at `k` was left as it is: no route took
/// care of it, and no later route landed on the step that failed.
pub open spec fn left_failed(log: Seq<ExecutionEventView>, k: int) -> bool {
    unhandled_at(log, k) && forall|l: int|
        k < l < log.len() ==> !routes_to(#[trigger] log[l], log[k]->StepFailed_step_id)
}

/// The step of the failure that `log` tells at `k` is failed in `steps`,
/// with the error that the log tells.
pub open spec fn failed_as_told(steps: Seq<Step>, log: Seq<ExecutionEventView>, k: int) -> bool {
    let at = find_step(steps, log[k]->StepFailed_step_id);
    at < steps.len() && match steps[at].state@ {
        StepStateView::Failed { error, .. } => error == log[k]->StepFailed_error,
        _ => false,
    }
}

/// Every failure that `log` tells from `from` on and that was left as it is
/// stands in `steps`: the step is failed with the error that the log tells.
pub open spec fn failures_stand(steps: Seq<Step>, log: Seq<ExecutionEventView>, from: int) -> bool {
    forall|k: int|
        from <= k < log.len() && #[trigger] left_failed(log, k) ==> failed_as_told(steps, log, k)
}

/// A failure that no route took care of is the last thing that taking up a
/// step tells, and the step is then failed with the error told.
pub proof fn lemma_failure_is_left(before: Moment, after: Moment, id: Seq<char>, k: int)
    requires
        took_up(before, after, id),
        before.log.len() <= k < after.log.len(),
        unhandled_at(after.log, k),
    ensures
        k == after.log.len() - 1,
        failed_as_told(after.steps, after.log, k),
{
    let at = find_step(before.steps, id);
    lemma_find_step(before.steps, id);
    if at >= before.steps.len() || !may_begin(before.steps[at].state@)
        || !crate::model::pipeline::dependencies_ended(before.steps, at) {
    } else {
        lemma_find_step_same_ids(before.steps, after.steps, id);
        assert(states(after.steps)[at] == after.steps[at].state@);
        if exhausted(before.steps[at].state@, before.steps[at].max_retries) {
        } else {
            let (answer, begin, end) = choose|
                answer: Result<AgentResponse, AgentError>,
                begin: Timestamp,
                end: Timestamp,
            |
                answered(before, after, id, outcome(before.steps[at], answer), begin, end);
            let result = outcome(before.steps[at], answer);
            let started = start_events(
                id,
                next_attempt(before.steps[at].state@) as usize,
                before.steps[at].max_retries,
            );
            let ended = outcome_events(id, result);
            assert(after.log == before.log + started + ended);
            let offset = k - before.log.len();
            if offset < started.len() {
                assert(after.log[k] == started[offset]);
            } else {
                let o = offset - started.len();
                assert(after.log[k] == ended[o]);
                if o + 1 < ended.len() {
                    assert(after.log[k + 1] == ended[o + 1]);
                }
            }
        }
    }
}

/// A step that is failed stays failed, with its error, when another step
/// is taken up, unless a route lands on it, which the log then tells.
pub proof fn lemma_failure_is_kept(
    before: Moment,
    after: Moment,
    id: Seq<char>,
    failed: Seq<char>,
)
    requires
        took_up(before, after, id),
        find_step(before.steps, failed) < before.steps.len(),
        before.steps[find_step(before.steps, failed)].state@ is Failed,
        forall|l: int| before.log.len() <= l < after.log.len() ==> !routes_to(#[trigger] after.log[l], failed),
    ensures
        find_step(after.steps, failed) == find_step(before.steps, failed),
        after.steps[find_step(after.steps, failed)].state@ == before.steps[find_step(
            before.steps,
            failed,
        )].state@,
{
    let at = find_step(before.steps, id);
    let it = find_step(before.steps, failed);
    lemma_find_step(before.steps, id);
    lemma_find_step(before.steps, failed);
    if at >= before.steps.len() || !may_begin(before.steps[at].state@)
        || !crate::model::pipeline::dependencies_ended(before.steps, at) {
    } else {
        lemma_find_step_same_ids(before.steps, after.steps, failed);
        assert(states(after.steps)[it] == after.steps[it].state@);
        assert(states(before.steps)[it] == before.steps[it].state@);
        if exhausted(before.steps[at].state@, before.steps[at].max_retries) {
        } else {
            let (answer, begin, end) = choose|
                answer: Result<AgentResponse, AgentError>,
                begin: Timestamp,
                end: Timestamp,
            |
                answered(before, after, id, outcome(before.steps[at], answer), begin, end);
            let result = outcome(before.steps[at], answer);
            let started = start_events(
                id,
                next_attempt(before.steps[at].state@) as usize,
                before.steps[at].max_retries,
            );
            let ended = outcome_events(id, result);
            assert(after.log == before.log + started + ended);
            match route_target(result) {
                Some(target) => {
                    lemma_find_step(before.steps, target);
                    if find_step(before.steps, target) == it {
                        assert(target == failed);
                        let l = after.log.len() - 1;
                        assert(after.log[l] == ended[ended.len() - 1]);
                        assert(routes_to(after.log[l], failed));
                    }
                },
                None => {},
            }
        }
    }
}

/// A failure that was left as it is stands to the end of the run: the step
/// is failed with the error that the log tells, whatever the strategy, as
/// long as no route took care of the failure and no later route landed on
/// the step.
pub proof fn lemma_failures_stand(moments: Seq<Moment>, ids: Seq<Seq<char>>)
    requires
        led(moments, ids),
    ensures
        failures_stand(moments.last().steps, moments.last().log, moments[0].log.len() as int),
    decreases ids.len(),
{
    let n = ids.len() as int;
    let last = moments.last();
    if n > 0 {
        let before = moments[n - 1];
        let id = ids[n - 1];
        let shorter = moments.drop_last();
        let fewer = ids.drop_last();
        assert(took_up(before, last, id));
        assert(led(shorter, fewer)) by {
            assert forall|j: int| 0 <= j < fewer.len() implies took_up(
                shorter[j],
                shorter[j + 1],
                #[trigger] fewer[j],
            ) by {
                assert(took_up(moments[j], moments[j + 1], ids[j]));
            }
        }
        assert(shorter.last() == before);
        lemma_failures_stand(shorter, fewer);
        lemma_log_goes_on(before, last, id);
        assert forall|k: int|
            moments[0].log.len() <= k < last.log.len() && #[trigger] left_failed(
                last.log,
                k,
            ) implies failed_as_told(last.steps, last.log, k) by {
            if k >= before.log.len() {
                lemma_failure_is_left(before, last, id, k);
            } else {
                assert(before.log[k] == last.log.take(before.log.len() as int)[k]);
                assert(left_failed(before.log, k)) by {
                    if k + 1 < before.log.len() {
                        assert(before.log[k + 1] == last.log.take(before.log.len() as int)[k + 1]);
                    }
                    assert forall|l: int| k < l < before.log.len() implies !routes_to(
                        #[trigger] before.log[l],
                        before.log[k]->StepFailed_step_id,
                    ) by {
                        assert(before.log[l] == last.log.take(before.log.len() as int)[l]);
                        assert(!routes_to(last.log[l], last.log[k]->StepFailed_step_id));
                    }
                }
                assert(failed_as_told(before.steps, before.log, k));
                lemma_failure_is_kept(before, last, id, last.log[k]->StepFailed_step_id);
            }
        }
    }
}

/// The start that `log` tells at `k` was made when the step could start:
/// among the moments of the run there is the one at which the log was what
/// stands before that start, the step of the start was taken up at it, and
/// at that moment the step waited with every step that it depends on ended.
pub open spec fn started_ready(
    moments: Seq<Moment>,
    ids: Seq<Seq<char>>,
    log: Seq<ExecutionEventView>,
    k: int,
) -> bool {
    exists|j: int|
        {
            &&& 0 <= j < ids.len()
            &&& log[k] is StepStarted
            &&& (#[trigger] ids[j]) == log[k]->StepStarted_step_id
            &&& moments[j].log == log.take(k)
            &&& find_step(moments[j].steps, ids[j]) < moments[j].steps.len()
            &&& may_begin(moments[j].steps[find_step(moments[j].steps, ids[j])].state@)
            &&& crate::model::pipeline::dependencies_ended(
                moments[j].steps,
                find_step(moments[j].steps, ids[j]),
            )
            &&& log[k]->StepStarted_attempt == next_attempt(
                moments[j].steps[find_step(moments[j].steps, ids[j])].state@,
            )
        }
}

/// The moments of a run only add to the log.
pub proof fn lemma_moments_go_on(moments: Seq<Moment>, ids: Seq<Seq<char>>, j: int)
    requires
        led(moments, ids),
        0 <= j <= ids.len(),
    ensures
        goes_on(moments[j].log, moments.last().log),
    decreases ids.len() - j,
{
    let last = moments.last().log;
    if j == ids.len() {
        assert(last.take(last.len() as int) =~= last);
    } else {
        lemma_moments_go_on(moments, ids, j + 1);
        assert(took_up(moments[j], moments[j + 1], ids[j]));
        lemma_log_goes_on(moments[j], moments[j + 1], ids[j]);
        let here = moments[j].log;
        let next = moments[j + 1].log;
        assert(last.take(here.len() as int) =~= next.take(here.len() as int));
    }
}

/// A step starts only when every step that it depends on has ended: each
/// start that the log of a run tells, after the moment at which the run set
/// out, was made at a moment of the run at which the step waited and its
/// dependencies had ended.
pub proof fn lemma_every_start_is_ready(moments: Seq<Moment>, ids: Seq<Seq<char>>, k: int)
    requires
        led(moments, ids),
        moments[0].log.len() <= k < moments.last().log.len(),
        moments.last().log[k] is StepStarted,
    ensures
        started_ready(moments, ids, moments.last().log, k),
    decreases ids.len(),
{
    let n = ids.len() as int;
    let log = moments.last().log;
    if n > 0 {
        let before = moments[n - 1];
        let after = moments[n];
        let id = ids[n - 1];
        assert(took_up(before, after, id));
        lemma_log_goes_on(before, after, id);
        if k >= before.log.len() {
            let at = find_step(before.steps, id);
            assert(log.take(before.log.len() as int) == before.log);
            if at >= before.steps.len() || !may_begin(before.steps[at].state@)
                || !crate::model::pipeline::dependencies_ended(before.steps, at) {
            } else if exhausted(before.steps[at].state@, before.steps[at].max_retries) {
            } else {
                let (answer, begin, end) = choose|
                    answer: Result<AgentResponse, AgentError>,
                    begin: Timestamp,
                    end: Timestamp,
                |
                    answered(before, after, id, outcome(before.steps[at], answer), begin, end);
                let result = outcome(before.steps[at], answer);
                let started = start_events(
                    id,
                    next_attempt(before.steps[at].state@) as usize,
                    before.steps[at].max_retries,
                );
                let ended = outcome_events(id, result);
                assert(log == before.log + started + ended);
                let offset = k - before.log.len();
                if offset < started.len() {
                    assert(log[k] == started[offset]);
                } else {
                    assert(log[k] == ended[offset - started.len()]);
                }
                assert(k == before.log.len());
                assert(ids[n - 1] == log[k]->StepStarted_step_id);
            }
        } else {
            let shorter = moments.drop_last();
            let fewer = ids.drop_last();
            assert(led(shorter, fewer)) by {
                assert forall|j: int| 0 <= j < fewer.len() implies took_up(
                    shorter[j],
                    shorter[j + 1],
                    #[trigger] fewer[j],
                ) by {
                    assert(took_up(moments[j], moments[j + 1], ids[j]));
                }
            }
            assert(shorter.last() == before);
            assert(before.log[k] == log.take(before.log.len() as int)[k]);
            lemma_every_start_is_ready(shorter, fewer, k);
            let j = choose|j: int|
                {
                    &&& 0 <= j < fewer.len()
                    &&& before.log[k] is StepStarted
                    &&& (#[trigger] fewer[j]) == before.log[k]->StepStarted_step_id
                    &&& shorter[j].log == before.log.take(k)
                    &&& find_step(shorter[j].steps, fewer[j]) < shorter[j].steps.len()
                    &&& may_begin(shorter[j].steps[find_step(shorter[j].steps, fewer[j])].state@)
                    &&& crate::model::pipeline::dependencies_ended(
                        shorter[j].steps,
                        find_step(shorter[j].steps, fewer[j]),
                    )
                    &&& before.log[k]->StepStarted_attempt == next_attempt(
                        shorter[j].steps[find_step(shorter[j].steps, fewer[j])].state@,
                    )
                };
            assert(before.log.take(k) =~= log.take(k));
            assert(ids[j] == fewer[j] && moments[j] == shorter[j]);
        }
    }
}

/// A step that asks for a retry is run again: after a step that waited was
/// taken up and its answer asked for the step once more, the step is asked
/// for, it may start, and the scheduler plans a step as long as its
/// strategy leaves room. So a run does not end while a step waits for a
/// retry that it may still have.
pub proof fn lemma_retry_comes_again(
    before: Moment,
    after: Moment,
    id: Seq<char>,
    begin: Timestamp,
    end: Timestamp,
    order: Seq<Seq<char>>,
    strategy: SchedulingStrategy,
)
    requires
        same_but_states(before.steps, after.steps),
        runnable(before.steps, id),
        !exhausted(
            before.steps[find_step(before.steps, id)].state@,
            before.steps[find_step(before.steps, id)].max_retries,
        ),
        answered(before, after, id, retry_verdict(), begin, end),
        room(strategy, after.steps) > 0,
    ensures
        after.queue.len() > 0 && after.queue.last() == id,
        runnable(after.steps, id),
        plan(after, order, strategy).len() > 0,
{
    let at = find_step(before.steps, id);
    lemma_find_step(before.steps, id);
    lemma_find_step_same_ids(before.steps, after.steps, id);
    assert forall|j: int| 0 <= j < after.steps.len() implies (#[trigger] after.steps[j]).state@ == (
    if j == at {
        states(after.steps)[at]
    } else {
        before.steps[j].state@
    }) by {
        assert(states(after.steps)[j] == after.steps[j].state@);
    }
    assert forall|d: int| 0 <= d < after.steps[at].dependencies@.len() implies {
        let on = find_step(after.steps, (#[trigger] after.steps[at].dependencies@[d])@);
        on < after.steps.len() && after.steps[on].state@.is_terminal()
    } by {
        assert(after.steps[at].dependencies == before.steps[at].dependencies);
        assert(crate::model::pipeline::dependencies_ended(before.steps, at));
        let name = before.steps[at].dependencies@[d]@;
        lemma_find_step_same_ids(before.steps, after.steps, name);
        lemma_find_step(before.steps, name);
        let on = find_step(before.steps, name);
        assert(on < before.steps.len() && before.steps[on].state@.is_terminal());
        assert(on != at);
        assert(after.steps[on].state@ == before.steps[on].state@);
    }
    assert(after.queue.last() == id);
    lemma_runnable_is_planned(after.queue, order, after.steps, room(strategy, after.steps), id);
}

/// The pipeline of a definition without problems starts out healthy, and
/// the empty log accounts for it, as long as its retries are numbers that
/// the attempt counter can count: so at the end of its run every step has
/// recorded exactly the attempts that the log tells of.
pub proof fn lemma_valid_pipeline_is_accounted(
    config: crate::model::config::PipelineConfig,
    existing: Seq<Seq<char>>,
    steps: Seq<Step>,
)
    requires
        crate::model::validation::problem_of(config, existing) is None,
        steps.len() == config.steps@.len(),
        forall|i: int|
            0 <= i < steps.len() ==> (#[trigger] steps[i]).defined_by(
                config.steps@[i],
                crate::model::pipeline::defaults_of(config),
            ) && steps[i].max_retries <= usize::MAX - 3,
    ensures
        healthy(steps),
        accounted(steps, Seq::empty()),
{
    crate::model::validation::lemma_valid_definition(config, existing);
    assert forall|i: int, j: int| 0 <= i < j < steps.len() implies (#[trigger] steps[i]).id@ != (
    #[trigger] steps[j]).id@ by {
        assert(config.steps@[i].id@ != config.steps@[j].id@);
    }
    lemma_fresh_pipeline_is_accounted(steps);
}

} // verus!
