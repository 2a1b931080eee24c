//! A pipeline: its steps, its variables and the state of its run.

use crate::model::config::{rendered_variables, PipelineConfig};
use crate::model::context::PipelineContext;
use crate::model::config::StepConfig;
use crate::model::validation::{is_step_schedule, step_orderable, topological_order};
use crate::model::state::{ExecutionStatus, PipelineState, StepState, StepStateView};
use crate::model::step::{Step, StepDefaults};
use crate::model::variables::{bind, Variables};
use crate::text::{same_text, texts};
use vstd::prelude::*;

verus! {

/// The position of the first step of `steps` with the id `id`, or the number
/// of steps where no step has that id.
pub open spec fn find_step(steps: Seq<Step>, id: Seq<char>) -> int
    decreases steps.len(),
{
    if steps.len() == 0 {
        0
    } else if steps[0].id@ == id {
        0
    } else {
        1 + find_step(steps.drop_first(), id)
    }
}

/// What `find_step` finds.
pub proof fn lemma_find_step(steps: Seq<Step>, id: Seq<char>)
    ensures
        0 <= find_step(steps, id) <= steps.len(),
        find_step(steps, id) < steps.len() ==> steps[find_step(steps, id)].id@ == id,
        forall|j: int| 0 <= j < find_step(steps, id) ==> (#[trigger] steps[j]).id@ != id,
    decreases steps.len(),
{
    if steps.len() > 0 && steps[0].id@ != id {
        let rest = steps.drop_first();
        lemma_find_step(rest, id);
        assert forall|j: int| 0 <= j < find_step(steps, id) implies (#[trigger] steps[j]).id@
            != id by {
            if j > 0 {
                assert(rest[j - 1] == steps[j]);
            }
        }
    }
}

/// Where a step is found depends on the ids only.
pub proof fn lemma_find_step_same_ids(a: Seq<Step>, b: Seq<Step>, id: Seq<char>)
    requires
        same_ids(a, b),
    ensures
        find_step(a, id) == find_step(b, id),
    decreases a.len(),
{
    if a.len() > 0 {
        if a[0].id@ != id {
            assert forall|i: int| 0 <= i < a.drop_first().len() implies (
            #[trigger] a.drop_first()[i]).id@ == b.drop_first()[i].id@ by {
            }
            lemma_find_step_same_ids(a.drop_first(), b.drop_first(), id);
        }
    }
}

/// `a` and `b` hold steps with the same ids at the same places.
pub open spec fn same_ids(a: Seq<Step>, b: Seq<Step>) -> bool {
    a.len() == b.len() && forall|i: int| 0 <= i < a.len() ==> (#[trigger] a[i]).id@ == b[i].id@
}

/// No two steps of `steps` have the same id.
pub open spec fn distinct_ids(steps: Seq<Step>) -> bool {
    forall|i: int, j: int|
        0 <= i < j < steps.len() ==> (#[trigger] steps[i]).id@ != (#[trigger] steps[j]).id@
}

/// Every dependency of step `i` names a step that has ended.
pub open spec fn dependencies_ended(steps: Seq<Step>, i: int) -> bool {
    forall|d: int|
        0 <= d < steps[i].dependencies@.len() ==> {
            let at = find_step(steps, (#[trigger] steps[i].dependencies@[d])@);
            at < steps.len() && steps[at].state@.is_terminal()
        }
}

/// Step `i` may start: it waits for a run, and its dependencies have ended.
pub open spec fn runnable_at(steps: Seq<Step>, i: int) -> bool {
    0 <= i < steps.len() && steps[i].state@.is_waiting() && dependencies_ended(steps, i)
}

/// The step with the id `id` may start.
pub open spec fn runnable(steps: Seq<Step>, id: Seq<char>) -> bool {
    runnable_at(steps, find_step(steps, id))
}

/// Every step has ended.
pub open spec fn all_terminal(steps: Seq<Step>) -> bool {
    forall|i: int| 0 <= i < steps.len() ==> (#[trigger] steps[i]).state@.is_terminal()
}

/// Some step is running.
pub open spec fn any_running(steps: Seq<Step>) -> bool {
    exists|i: int| 0 <= i < steps.len() && (#[trigger] steps[i]).state@ is Running
}

/// The positions, in order, of the steps of `steps` that `keep` holds.
pub open spec fn positions_where(steps: Seq<Step>, keep: spec_fn(int) -> bool) -> Seq<int>
    decreases steps.len(),
{
    if steps.len() == 0 {
        Seq::empty()
    } else {
        let before = positions_where(steps.drop_last(), keep);
        if keep(steps.len() - 1) {
            before.push(steps.len() - 1)
        } else {
            before
        }
    }
}

/// The outputs of the completed steps of `steps`, by id, in the order of the
/// steps.
pub open spec fn completed_outputs(steps: Seq<Step>) -> Seq<(Seq<char>, Seq<char>)>
    decreases steps.len(),
{
    if steps.len() == 0 {
        Seq::empty()
    } else {
        let before = completed_outputs(steps.drop_last());
        match steps.last().state@ {
            StepStateView::Completed { output, .. } => bind(before, steps.last().id@, output),
            _ => before,
        }
    }
}

/// The defaults that the steps of `config` fall back on: three retries and
/// five minutes where the definition names none.
pub open spec fn defaults_of(config: PipelineConfig) -> StepDefaults {
    StepDefaults {
        max_retries: match config.max_retries {
            Some(n) => n,
            None => 3,
        },
        timeout_secs: match config.default_timeout_secs {
            Some(n) => n,
            None => 300,
        },
    }
}

/// `order` lists the ids of the steps of `steps` in an order in which they
/// can run: each step once; first, each after the steps it depends on, the
/// steps that can be put in order; then the others.
pub open spec fn is_run_order(order: Seq<Seq<char>>, steps: Seq<StepConfig>) -> bool {
    exists|positions: Seq<usize>, scheduled: int|
        {
            &&& 0 <= scheduled <= positions.len()
            &&& is_step_schedule(positions.take(scheduled), steps)
            &&& forall|i: int|
                0 <= i < steps.len() ==> (positions.take(scheduled).contains(i as usize)
                    <==> step_orderable(steps, i))
            &&& forall|k: int| 0 <= k < positions.len() ==> (#[trigger] positions[k]) < steps.len()
            &&& forall|k: int, l: int| 0 <= k < l < positions.len() ==> positions[k] != positions[l]
            &&& forall|i: usize| i < steps.len() ==> positions.contains(i)
            &&& order.len() == positions.len()
            &&& forall|k: int|
                0 <= k < order.len() ==> #[trigger] order[k] == steps[positions[k] as int].id@
        }
}

/// A pipeline with its steps in the order of their definition.
#[derive(Debug)]
pub struct Pipeline {
    /// The name of the pipeline.
    pub name: String,
    /// The variables that every step sees.
    pub variables: Variables,
    /// The steps.
    pub steps: Vec<Step>,
    /// The state of the run.
    pub state: PipelineState,
    /// The ids of the steps in the order in which a sequential run takes them.
    pub execution_order: Vec<String>,
}

impl Pipeline {
    /// The ids of the steps in the order in which a sequential run takes them.
    pub open spec fn order(self) -> Seq<Seq<char>> {
        texts(self.execution_order@)
    }

    /// The pipeline that `config` defines, not yet started: its steps in the
    /// order of the definition, its variables rendered, and its steps put in
    /// an order in which they can run.
    pub fn from_config(config: &PipelineConfig) -> (p: Self)
        ensures
            p.name@ == config.name@,
            p.variables@ == rendered_variables(config.variables@),
            p.steps@.len() == config.steps@.len(),
            forall|i: int|
                0 <= i < p.steps@.len() ==> (#[trigger] p.steps@[i]).defined_by(
                    config.steps@[i],
                    defaults_of(*config),
                ),
            is_run_order(p.order(), config.steps@),
            p.state.status == ExecutionStatus::Pending,
            p.state.started_at is None,
            p.state.completed_at is None,
            p.state.total_steps == 0,
            p.state.completed_steps == 0,
            p.state.failed_steps == 0,
            p.state.running_steps == 0,
    {
        let defaults = StepDefaults {
            max_retries: match config.max_retries {
                Some(n) => n,
                None => 3,
            },
            timeout_secs: match config.default_timeout_secs {
                Some(n) => n,
                None => 300,
            },
        };
        let mut steps: Vec<Step> = Vec::new();
        let mut i: usize = 0;
        while i < config.steps.len()
            invariant
                i <= config.steps.len(),
                steps@.len() == i,
                defaults == defaults_of(*config),
                forall|k: int|
                    0 <= k < i ==> (#[trigger] steps@[k]).defined_by(config.steps@[k], defaults),
            decreases config.steps.len() - i,
        {
            steps.push(Step::from_config(&config.steps[i], &defaults));
            i = i + 1;
        }
        let (positions, scheduled) = topological_order(&config.steps);
        let mut execution_order: Vec<String> = Vec::new();
        let mut k: usize = 0;
        while k < positions.len()
            invariant
                k <= positions.len(),
                execution_order@.len() == k,
                forall|x: int| 0 <= x < positions@.len() ==> (#[trigger] positions@[x]) < config.steps@.len(),
                forall|x: int|
                    0 <= x < k ==> (#[trigger] execution_order@[x])@
                        == config.steps@[positions@[x] as int].id@,
            decreases positions.len() - k,
        {
            execution_order.push(config.steps[positions[k]].id.clone());
            k = k + 1;
        }
        let p = Pipeline {
            name: config.name.clone(),
            variables: config.variables_as_string_map(),
            steps,
            state: PipelineState::new(),
            execution_order,
        };
        proof {
            assert forall|x: int| 0 <= x < p.order().len() implies #[trigger] p.order()[x]
                == config.steps@[positions@[x] as int].id@ by {
            }
            assert(is_run_order(p.order(), config.steps@));
        }
        p
    }

    /// The position of the step with the id `id`.
    pub fn position(&self, id: &str) -> (r: Option<usize>)
        ensures
            match r {
                Some(i) => i == find_step(self.steps@, id@) && i < self.steps@.len(),
                None => find_step(self.steps@, id@) == self.steps@.len(),
            },
    {
        find_position(&self.steps, id)
    }

    /// The step with the id `id`.
    pub fn step(&self, id: &str) -> (r: Option<&Step>)
        ensures
            match r {
                Some(s) => find_step(self.steps@, id@) < self.steps@.len() && *s
                    == self.steps@[find_step(self.steps@, id@)],
                None => find_step(self.steps@, id@) == self.steps@.len(),
            },
    {
        match find_position(&self.steps, id) {
            Some(i) => Some(&self.steps[i]),
            None => None,
        }
    }

    /// The step with the id `id`, to be changed.
    pub fn step_mut(&mut self, id: &str) -> (r: Option<&mut Step>)
        ensures
            match r {
                Some(s) => {
                    let at = find_step(old(self).steps@, id@);
                    &&& at < old(self).steps@.len()
                    &&& *s == old(self).steps@[at]
                    &&& final(self).steps@ == old(self).steps@.update(at, *final(s))
                    &&& final(self).name == old(self).name
                    &&& final(self).variables == old(self).variables
                    &&& final(self).state == old(self).state
                    &&& final(self).order() == old(self).order()
                },
                None => find_step(old(self).steps@, id@) == old(self).steps@.len() && *final(self)
                    == *old(self),
            },
    {
        match find_position(&self.steps, id) {
            Some(i) => Some(&mut self.steps[i]),
            None => None,
        }
    }

    /// Whether step `i` may start.
    pub fn is_runnable_at(&self, i: usize) -> (b: bool)
        requires
            i < self.steps@.len(),
        ensures
            b == runnable_at(self.steps@, i as int),
    {
        steps_runnable_at(&self.steps, i)
    }

    /// The steps that may start, in the order of their definition.
    pub fn ready_steps(&self) -> (r: Vec<&Step>)
        ensures
            r@.len() == positions_where(
                self.steps@,
                |i: int| runnable_at(self.steps@, i),
            ).len(),
            forall|k: int|
                0 <= k < r@.len() ==> *(#[trigger] r@[k]) == self.steps@[positions_where(
                    self.steps@,
                    |i: int| runnable_at(self.steps@, i),
                )[k]],
    {
        let ghost keep = |i: int| runnable_at(self.steps@, i);
        let mut r: Vec<&Step> = Vec::new();
        let mut i: usize = 0;
        while i < self.steps.len()
            invariant
                i <= self.steps.len(),
                keep == (|i: int| runnable_at(self.steps@, i)),
                r@.len() == positions_where(self.steps@.take(i as int), keep).len(),
                forall|k: int|
                    0 <= k < r@.len() ==> *(#[trigger] r@[k]) == self.steps@[positions_where(
                        self.steps@.take(i as int),
                        keep,
                    )[k]],
                forall|k: int|
                    0 <= k < r@.len() ==> 0 <= (#[trigger] positions_where(
                        self.steps@.take(i as int),
                        keep,
                    )[k]) < i,
            decreases self.steps.len() - i,
        {
            proof {
                assert(self.steps@.take(i + 1).drop_last() =~= self.steps@.take(i as int));
            }
            if steps_runnable_at(&self.steps, i) {
                r.push(&self.steps[i]);
            }
            i = i + 1;
        }
        proof {
            assert(self.steps@.take(self.steps.len() as int) =~= self.steps@);
        }
        r
    }

    /// The steps that are running, in the order of their definition.
    pub fn running_steps(&self) -> (r: Vec<&Step>)
        ensures
            r@.len() == positions_where(self.steps@, |i: int| self.steps@[i].state@ is Running).len(),
            forall|k: int|
                0 <= k < r@.len() ==> *(#[trigger] r@[k]) == self.steps@[positions_where(
                    self.steps@,
                    |i: int| self.steps@[i].state@ is Running,
                )[k]],
            r@.len() > 0 <==> any_running(self.steps@),
    {
        let ghost keep = |i: int| self.steps@[i].state@ is Running;
        let mut r: Vec<&Step> = Vec::new();
        let mut i: usize = 0;
        while i < self.steps.len()
            invariant
                i <= self.steps.len(),
                keep == (|i: int| self.steps@[i].state@ is Running),
                r@.len() == positions_where(self.steps@.take(i as int), keep).len(),
                forall|k: int|
                    0 <= k < r@.len() ==> *(#[trigger] r@[k]) == self.steps@[positions_where(
                        self.steps@.take(i as int),
                        keep,
                    )[k]],
                forall|k: int|
                    0 <= k < r@.len() ==> 0 <= (#[trigger] positions_where(
                        self.steps@.take(i as int),
                        keep,
                    )[k]) < i,
                r@.len() > 0 <==> exists|j: int|
                    0 <= j < i && (#[trigger] self.steps@[j]).state@ is Running,
            decreases self.steps.len() - i,
        {
            proof {
                assert(self.steps@.take(i + 1).drop_last() =~= self.steps@.take(i as int));
            }
            let running = match &self.steps[i].state {
                StepState::Running { .. } => true,
                _ => false,
            };
            if running {
                r.push(&self.steps[i]);
            }
            i = i + 1;
        }
        proof {
            assert(self.steps@.take(self.steps.len() as int) =~= self.steps@);
        }
        r
    }

    /// The number of running steps.
    pub fn running_count(&self) -> (n: usize)
        ensures
            n == positions_where(self.steps@, |i: int| self.steps@[i].state@ is Running).len(),
            n > 0 <==> any_running(self.steps@),
    {
        self.running_steps().len()
    }

    /// Whether every step has ended.
    pub fn is_complete(&self) -> (b: bool)
        ensures
            b == all_terminal(self.steps@),
    {
        let mut i: usize = 0;
        while i < self.steps.len()
            invariant
                i <= self.steps.len(),
                forall|j: int| 0 <= j < i ==> (#[trigger] self.steps@[j]).state@.is_terminal(),
            decreases self.steps.len() - i,
        {
            if !self.steps[i].state.is_terminal() {
                return false;
            }
            i = i + 1;
        }
        true
    }

    /// Whether the run has failed.
    pub fn has_failed(&self) -> (b: bool)
        ensures
            b == (self.state.status == ExecutionStatus::Failed),
    {
        self.state.status == ExecutionStatus::Failed
    }

    /// The ids of the steps in the order in which a sequential run takes them.
    pub fn execution_order(&self) -> (r: &Vec<String>)
        ensures
            texts(r@) == self.order(),
    {
        &self.execution_order
    }

    /// What the step `step_id` sees of the run: the variables of the
    /// pipeline and the outputs of the completed steps.
    pub fn create_context_for_step(&self, step_id: &str) -> (c: PipelineContext)
        ensures
            c.variables@ == self.variables@,
            c.step_outputs@ == completed_outputs(self.steps@),
            c.current_step_id matches Some(id) && id@ == step_id@,
            c.notes@.len() == 0,
            c.metadata@.len() == 0,
    {
        let mut context = PipelineContext::new();
        context.variables = self.variables.duplicate();
        let mut i: usize = 0;
        while i < self.steps.len()
            invariant
                i <= self.steps.len(),
                context.variables@ == self.variables@,
                context.step_outputs@ == completed_outputs(self.steps@.take(i as int)),
                context.current_step_id is None,
                context.notes@.len() == 0,
                context.metadata@.len() == 0,
            decreases self.steps.len() - i,
        {
            proof {
                assert(self.steps@.take(i + 1).drop_last() =~= self.steps@.take(i as int));
            }
            if let StepState::Completed { output, .. } = &self.steps[i].state {
                context.set_step_output(self.steps[i].id.as_str(), output.clone());
            }
            i = i + 1;
        }
        proof {
            assert(self.steps@.take(self.steps.len() as int) =~= self.steps@);
        }
        context.current_step_id = Some(step_id.to_owned());
        context
    }
}

/// The position of the step of `steps` with the id `id`.
pub fn find_position(steps: &Vec<Step>, id: &str) -> (r: Option<usize>)
    ensures
        match r {
            Some(i) => i == find_step(steps@, id@) && i < steps@.len(),
            None => find_step(steps@, id@) == steps@.len(),
        },
{
    let mut i: usize = 0;
    while i < steps.len()
        invariant
            i <= steps.len(),
            forall|j: int| 0 <= j < i ==> (#[trigger] steps@[j]).id@ != id@,
        decreases steps.len() - i,
    {
        if same_text(steps[i].id.as_str(), id) {
            proof {
                lemma_find_step(steps@, id@);
            }
            return Some(i);
        }
        i = i + 1;
    }
    proof {
        lemma_find_step(steps@, id@);
    }
    None
}

/// Whether step `i` of `steps` may start.
pub fn steps_runnable_at(steps: &Vec<Step>, i: usize) -> (b: bool)
    requires
        i < steps@.len(),
    ensures
        b == runnable_at(steps@, i as int),
{
    let waiting = match &steps[i].state {
        StepState::Pending => true,
        StepState::Retrying { .. } => true,
        _ => false,
    };
    if !waiting {
        return false;
    }
    steps_dependencies_ended(steps, i)
}

/// Whether every dependency of step `i` of `steps` names a step that has
/// ended.
pub fn steps_dependencies_ended(steps: &Vec<Step>, i: usize) -> (b: bool)
    requires
        i < steps@.len(),
    ensures
        b == dependencies_ended(steps@, i as int),
{
    let mut d: usize = 0;
    while d < steps[i].dependencies.len()
        invariant
            i < steps@.len(),
            d <= steps@[i as int].dependencies@.len(),
            forall|x: int|
                0 <= x < d ==> {
                    let at = find_step(steps@, (#[trigger] steps@[i as int].dependencies@[x])@);
                    at < steps@.len() && steps@[at].state@.is_terminal()
                },
        decreases steps@[i as int].dependencies@.len() - d,
    {
        match find_position(steps, steps[i].dependencies[d].as_str()) {
            Some(at) => {
                if !steps[at].state.is_terminal() {
                    return false;
                }
            },
            None => {
                return false;
            },
        }
        d = d + 1;
    }
    true
}

} // verus!
