//! Choosing the steps that run next.

use crate::model::pipeline::{find_position, runnable, steps_runnable_at, Pipeline};
use crate::model::step::Step;
use crate::text::{list_contains, same_text, texts};
use std::collections::VecDeque;
use vstd::prelude::*;

verus! {

/// How many steps are chosen at a time.
#[derive(Debug, Clone, Copy, PartialEq, Eq, Structural)]
pub enum SchedulingStrategy {
    /// One step at a time.
    Sequential,
    /// Every step that may start.
    Parallel,
    /// As many steps as may start without more than this number running.
    LimitedParallel(usize),
}

impl Default for SchedulingStrategy {
    fn default() -> (s: Self)
        ensures
            s == SchedulingStrategy::Sequential,
    {
        SchedulingStrategy::Sequential
    }
}

/// The ids of `candidates` that may start, in the order of `candidates`,
/// each once.
pub open spec fn eligible(candidates: Seq<Seq<char>>, steps: Seq<Step>) -> Seq<Seq<char>>
    decreases candidates.len(),
{
    if candidates.len() == 0 {
        Seq::empty()
    } else {
        let before = eligible(candidates.drop_last(), steps);
        let id = candidates.last();
        if runnable(steps, id) && !before.contains(id) {
            before.push(id)
        } else {
            before
        }
    }
}

/// The first `limit` entries of `ids`, or all of them where there are fewer.
pub open spec fn first(ids: Seq<Seq<char>>, limit: int) -> Seq<Seq<char>> {
    if limit <= 0 {
        Seq::empty()
    } else if limit >= ids.len() {
        ids
    } else {
        ids.take(limit)
    }
}

/// The number of steps that may be chosen at once while `running` steps run.
pub open spec fn capacity(strategy: SchedulingStrategy, running: int) -> int {
    match strategy {
        SchedulingStrategy::Sequential => 1,
        SchedulingStrategy::Parallel => usize::MAX as int,
        SchedulingStrategy::LimitedParallel(max) => if max >= running {
            max - running
        } else {
            0
        },
    }
}

/// The number of steps of `steps` that may be chosen at once under
/// `strategy`: what the strategy allows beside the steps that run already.
pub open spec fn room(strategy: SchedulingStrategy, steps: Seq<Step>) -> int {
    capacity(
        strategy,
        crate::model::pipeline::positions_where(steps, |i: int| steps[i].state@ is Running).len() as int,
    )
}

/// The steps that run next: the requested steps that may start, in the order
/// of the requests; where none of them may start, the steps that may start in
/// the order of the pipeline. Never more than `limit`.
pub open spec fn planned(
    queue: Seq<Seq<char>>,
    order: Seq<Seq<char>>,
    steps: Seq<Step>,
    limit: int,
) -> Seq<Seq<char>> {
    let requested = first(eligible(queue, steps), limit);
    if requested.len() > 0 {
        requested
    } else {
        first(eligible(order, steps), limit)
    }
}

/// `queue` without the entries equal to `id`.
pub open spec fn without(queue: Seq<Seq<char>>, id: Seq<char>) -> Seq<Seq<char>>
    decreases queue.len(),
{
    if queue.len() == 0 {
        Seq::empty()
    } else if queue.last() == id {
        without(queue.drop_last(), id)
    } else {
        without(queue.drop_last(), id).push(queue.last())
    }
}

/// Every chosen id may start, and no id is chosen twice.
pub proof fn lemma_eligible(candidates: Seq<Seq<char>>, steps: Seq<Step>)
    ensures
        forall|k: int|
            0 <= k < eligible(candidates, steps).len() ==> runnable(
                steps,
                #[trigger] eligible(candidates, steps)[k],
            ),
        forall|k: int, l: int|
            0 <= k < l < eligible(candidates, steps).len() ==> eligible(candidates, steps)[k]
                != eligible(candidates, steps)[l],
        eligible(candidates, steps).len() <= candidates.len(),
    decreases candidates.len(),
{
    if candidates.len() > 0 {
        lemma_eligible(candidates.drop_last(), steps);
    }
}

/// Every planned id may start, and no id is planned twice.
pub proof fn lemma_planned(
    queue: Seq<Seq<char>>,
    order: Seq<Seq<char>>,
    steps: Seq<Step>,
    limit: int,
)
    ensures
        forall|k: int|
            0 <= k < planned(queue, order, steps, limit).len() ==> runnable(
                steps,
                #[trigger] planned(queue, order, steps, limit)[k],
            ),
        forall|k: int, l: int|
            0 <= k < l < planned(queue, order, steps, limit).len() ==> planned(
                queue,
                order,
                steps,
                limit,
            )[k] != planned(queue, order, steps, limit)[l],
        planned(queue, order, steps, limit).len() <= limit || limit < 0,
{
    lemma_eligible(queue, steps);
    lemma_eligible(order, steps);
}

/// A candidate that may start is chosen.
pub proof fn lemma_eligible_holds(candidates: Seq<Seq<char>>, steps: Seq<Step>, id: Seq<char>)
    requires
        candidates.contains(id),
        runnable(steps, id),
    ensures
        eligible(candidates, steps).contains(id),
    decreases candidates.len(),
{
    let before = eligible(candidates.drop_last(), steps);
    if candidates.last() == id {
        if before.contains(id) {
            let k = choose|k: int| 0 <= k < before.len() && before[k] == id;
            assert(eligible(candidates, steps)[k] == id);
        } else {
            assert(before.push(id)[before.len() as int] == id);
        }
    } else {
        let at = choose|at: int| 0 <= at < candidates.len() && candidates[at] == id;
        assert(candidates.drop_last()[at] == id);
        lemma_eligible_holds(candidates.drop_last(), steps, id);
        let k = choose|k: int| 0 <= k < before.len() && before[k] == id;
        assert(eligible(candidates, steps)[k] == id);
    }
}

/// No step that may start is passed over: as long as a step that was asked
/// for, or that the order of the pipeline lists, may start, and the limit
/// leaves room, some step is planned.
pub proof fn lemma_runnable_is_planned(
    queue: Seq<Seq<char>>,
    order: Seq<Seq<char>>,
    steps: Seq<Step>,
    limit: int,
    id: Seq<char>,
)
    requires
        queue.contains(id) || order.contains(id),
        runnable(steps, id),
        limit > 0,
    ensures
        planned(queue, order, steps, limit).len() > 0,
{
    if queue.contains(id) {
        lemma_eligible_holds(queue, steps, id);
    } else {
        lemma_eligible_holds(order, steps, id);
    }
}

/// The ids of `candidates` that may start, each once, up to `limit`.
pub fn select(candidates: &Vec<String>, steps: &Vec<Step>, limit: usize) -> (batch: Vec<String>)
    ensures
        texts(batch@) == first(eligible(texts(candidates@), steps@), limit as int),
{
    let mut batch: Vec<String> = Vec::new();
    let mut i: usize = 0;
    while i < candidates.len()
        invariant
            i <= candidates.len(),
            texts(batch@) == first(
                eligible(texts(candidates@).take(i as int), steps@),
                limit as int,
            ),
        decreases candidates.len() - i,
    {
        let ghost prefix = texts(candidates@).take(i as int);
        let ghost next = texts(candidates@).take(i + 1);
        let ghost chosen = eligible(prefix, steps@);
        proof {
            assert(next.drop_last() =~= prefix);
        }
        if batch.len() < limit {
            proof {
                assert(texts(batch@) == chosen);
            }
            let may_start = match find_position(steps, candidates[i].as_str()) {
                Some(at) => steps_runnable_at(steps, at),
                None => false,
            };
            if may_start && !list_contains(&batch, candidates[i].as_str()) {
                batch.push(candidates[i].clone());
            }
        } else {
            proof {
                lemma_eligible(next, steps@);
                if eligible(next, steps@) != chosen {
                    assert(eligible(next, steps@).take(limit as int) =~= chosen.take(
                        limit as int,
                    ));
                }
            }
        }
        i = i + 1;
    }
    proof {
        assert(texts(candidates@).take(candidates.len() as int) =~= texts(candidates@));
    }
    batch
}

/// Chooses the steps that run next, and keeps the requests for steps.
#[derive(Debug)]
pub struct ExecutionScheduler {
    /// How many steps are chosen at a time.
    pub strategy: SchedulingStrategy,
    /// The steps that were asked for, oldest first.
    pub explicit_queue: VecDeque<String>,
}

impl ExecutionScheduler {
    /// The ids that were asked for, oldest first.
    pub open spec fn queue(self) -> Seq<Seq<char>> {
        texts(self.explicit_queue@)
    }

    /// A scheduler without requests.
    pub fn new(strategy: SchedulingStrategy) -> (s: Self)
        ensures
            s.strategy == strategy,
            s.queue().len() == 0,
    {
        let s = ExecutionScheduler { strategy, explicit_queue: VecDeque::new() };
        s
    }

    /// Asks for the step `step_id`, after all earlier requests.
    pub fn enqueue(&mut self, step_id: String)
        ensures
            final(self).queue() == old(self).queue().push(step_id@),
            final(self).strategy == old(self).strategy,
    {
        self.explicit_queue.push_back(step_id);
    }

    /// Drops every request for the step `step_id`.
    pub fn forget(&mut self, step_id: &str)
        ensures
            final(self).queue() == without(old(self).queue(), step_id@),
            final(self).strategy == old(self).strategy,
    {
        let mut kept: VecDeque<String> = VecDeque::new();
        let mut i: usize = 0;
        while i < self.explicit_queue.len()
            invariant
                i <= self.explicit_queue.len(),
                texts(kept@) == without(self.queue().take(i as int), step_id@),
            decreases self.explicit_queue.len() - i,
        {
            proof {
                assert(self.queue().take(i + 1).drop_last() =~= self.queue().take(i as int));
            }
            if !same_text(self.explicit_queue[i].as_str(), step_id) {
                kept.push_back(self.explicit_queue[i].clone());
            }
            i = i + 1;
        }
        proof {
            assert(self.queue().take(self.explicit_queue.len() as int) =~= self.queue());
        }
        self.explicit_queue = kept;
    }

    /// The number of steps that may be chosen at once for `pipeline`.
    pub fn limit(&self, pipeline: &Pipeline) -> (n: usize)
        ensures
            n == room(self.strategy, pipeline.steps@),
    {
        match self.strategy {
            SchedulingStrategy::Sequential => 1,
            SchedulingStrategy::Parallel => usize::MAX,
            SchedulingStrategy::LimitedParallel(max) => {
                let running = pipeline.running_count();
                if max >= running {
                    max - running
                } else {
                    0
                }
            },
        }
    }

    /// The limit that `limit` computes.
    pub open spec fn limit_for(self, pipeline: Pipeline) -> int {
        room(self.strategy, pipeline.steps@)
    }

    /// The steps that run next in `pipeline`.
    pub fn next_steps(&self, pipeline: &Pipeline) -> (batch: Vec<String>)
        ensures
            texts(batch@) == planned(
                self.queue(),
                pipeline.order(),
                pipeline.steps@,
                self.limit_for(*pipeline),
            ),
    {
        let limit = self.limit(pipeline);
        let mut requests: Vec<String> = Vec::new();
        let mut i: usize = 0;
        while i < self.explicit_queue.len()
            invariant
                i <= self.explicit_queue.len(),
                requests@ == self.explicit_queue@.take(i as int),
            decreases self.explicit_queue.len() - i,
        {
            requests.push(self.explicit_queue[i].clone());
            i = i + 1;
        }
        proof {
            assert(self.explicit_queue@.take(self.explicit_queue.len() as int)
                =~= self.explicit_queue@);
        }
        let requested = select(&requests, &pipeline.steps, limit);
        if requested.len() > 0 {
            requested
        } else {
            select(&pipeline.execution_order, &pipeline.steps, limit)
        }
    }

    /// Whether some step may run next in `pipeline`.
    pub fn has_more(&self, pipeline: &Pipeline) -> (b: bool)
        ensures
            b == (planned(
                self.queue(),
                pipeline.order(),
                pipeline.steps@,
                self.limit_for(*pipeline),
            ).len() > 0),
    {
        self.next_steps(pipeline).len() > 0
    }
}

} // verus!
