//! The history of runs: what is kept of a run, and a store that keeps it in
//! memory.

use crate::model::pipeline::Pipeline;
use crate::model::state::{ExecutionStatus, Timestamp};
use crate::text::{list_contains, same_text, texts};
use vstd::prelude::*;

verus! {

/// Two ids are equal where they are the same id.
pub assume_specification[ <uuid::Uuid as PartialEq>::eq ](a: &uuid::Uuid, b: &uuid::Uuid) -> (r:
    bool)
    ensures
        r == (*a == *b),
;

/// What is kept of a run.
#[derive(Debug)]
pub struct ExecutionSummary {
    /// The id of the run.
    pub execution_id: uuid::Uuid,
    /// The name of the pipeline.
    pub pipeline_name: String,
    /// The status of the run.
    pub status: ExecutionStatus,
    /// When the run started.
    pub started_at: Timestamp,
    /// When the run completed or failed.
    pub completed_at: Option<Timestamp>,
    /// The number of steps that have ended, completed or failed: the
    /// progress of the run is this number over the number of steps.
    pub ended_steps: usize,
    /// The number of completed steps.
    pub completed_steps: usize,
    /// The number of steps.
    pub total_steps: usize,
}

impl Clone for ExecutionSummary {
    fn clone(&self) -> (r: Self)
        ensures
            r == *self,
    {
        ExecutionSummary {
            execution_id: self.execution_id.clone(),
            pipeline_name: self.pipeline_name.clone(),
            status: self.status,
            started_at: self.started_at,
            completed_at: self.completed_at,
            ended_steps: self.ended_steps,
            completed_steps: self.completed_steps,
            total_steps: self.total_steps,
        }
    }
}

/// What is kept of the run of `pipeline`. A run that has not started counts
/// as started now.
pub fn create_summary(pipeline: &Pipeline) -> (summary: ExecutionSummary)
    ensures
        summary.execution_id == pipeline.state.execution_id,
        summary.pipeline_name@ == pipeline.name@,
        summary.status == pipeline.state.status,
        pipeline.state.started_at matches Some(t) ==> summary.started_at == t,
        summary.completed_at == pipeline.state.completed_at,
        summary.ended_steps as int == if pipeline.state.completed_steps
            + pipeline.state.failed_steps <= usize::MAX {
            pipeline.state.completed_steps + pipeline.state.failed_steps
        } else {
            usize::MAX as int
        },
        summary.completed_steps == pipeline.state.completed_steps,
        summary.total_steps == pipeline.state.total_steps,
{
    let (ended_steps, total_steps) = pipeline.state.progress_parts();
    ExecutionSummary {
        execution_id: pipeline.state.execution_id.clone(),
        pipeline_name: pipeline.name.clone(),
        status: pipeline.state.status,
        started_at: match pipeline.state.started_at {
            Some(t) => t,
            None => Timestamp::now(),
        },
        completed_at: pipeline.state.completed_at,
        ended_steps,
        completed_steps: pipeline.state.completed_steps,
        total_steps,
    }
}

/// The summary that was saved last under the id `id`.
pub open spec fn latest(saved: Seq<ExecutionSummary>, id: uuid::Uuid) -> Option<ExecutionSummary>
    decreases saved.len(),
{
    if saved.len() == 0 {
        None
    } else if saved.last().execution_id == id {
        Some(saved.last())
    } else {
        latest(saved.drop_last(), id)
    }
}

/// For each time that a run was saved under the name `name`, in order, the
/// summary that was saved last under the id of that run.
pub open spec fn listed(
    saved: Seq<ExecutionSummary>,
    all: Seq<ExecutionSummary>,
    name: Seq<char>,
) -> Seq<ExecutionSummary>
    decreases saved.len(),
{
    if saved.len() == 0 {
        Seq::empty()
    } else {
        let before = listed(saved.drop_last(), all, name);
        if saved.last().pipeline_name@ == name {
            match latest(all, saved.last().execution_id) {
                Some(summary) => before.push(summary),
                None => before,
            }
        } else {
            before
        }
    }
}

/// The names under which runs were saved, each once, in the order in which
/// they first occurred.
pub open spec fn names(saved: Seq<ExecutionSummary>) -> Seq<Seq<char>>
    decreases saved.len(),
{
    if saved.len() == 0 {
        Seq::empty()
    } else {
        let before = names(saved.drop_last());
        if before.contains(saved.last().pipeline_name@) {
            before
        } else {
            before.push(saved.last().pipeline_name@)
        }
    }
}

/// A history that is kept in memory.
#[derive(Debug)]
pub struct InMemoryPersistence {
    /// Every summary that was saved, in order.
    pub saved: Vec<ExecutionSummary>,
}

impl InMemoryPersistence {
    /// An empty history.
    pub fn new() -> (store: Self)
        ensures
            store.saved@.len() == 0,
    {
        InMemoryPersistence { saved: Vec::new() }
    }

    /// Saves `execution`. A run that was saved before is replaced.
    pub fn save_execution(&mut self, execution: &ExecutionSummary)
        ensures
            final(self).saved@ == old(self).saved@.push(*execution),
    {
        self.saved.push(execution.clone());
    }

    /// The summary of the run `execution_id`, as it was saved last.
    pub fn load_execution(&self, execution_id: uuid::Uuid) -> (r: Option<ExecutionSummary>)
        ensures
            r == latest(self.saved@, execution_id),
    {
        find_latest(&self.saved, &execution_id)
    }

    /// The runs of the pipeline `pipeline_name`.
    pub fn list_executions(&self, pipeline_name: &str) -> (r: Vec<ExecutionSummary>)
        ensures
            r@ == listed(self.saved@, self.saved@, pipeline_name@),
    {
        let mut r: Vec<ExecutionSummary> = Vec::new();
        let mut i: usize = 0;
        while i < self.saved.len()
            invariant
                i <= self.saved.len(),
                r@ == listed(self.saved@.take(i as int), self.saved@, pipeline_name@),
            decreases self.saved.len() - i,
        {
            proof {
                assert(self.saved@.take(i + 1).drop_last() =~= self.saved@.take(i as int));
            }
            if same_text(self.saved[i].pipeline_name.as_str(), pipeline_name) {
                match find_latest(&self.saved, &self.saved[i].execution_id) {
                    Some(summary) => {
                        r.push(summary);
                    },
                    None => {},
                }
            }
            i = i + 1;
        }
        proof {
            assert(self.saved@.take(self.saved.len() as int) =~= self.saved@);
        }
        r
    }

    /// The names of the pipelines of which runs were saved.
    pub fn list_pipelines(&self) -> (r: Vec<String>)
        ensures
            texts(r@) == names(self.saved@),
    {
        let mut r: Vec<String> = Vec::new();
        let mut i: usize = 0;
        while i < self.saved.len()
            invariant
                i <= self.saved.len(),
                texts(r@) == names(self.saved@.take(i as int)),
            decreases self.saved.len() - i,
        {
            proof {
                assert(self.saved@.take(i + 1).drop_last() =~= self.saved@.take(i as int));
            }
            if !list_contains(&r, self.saved[i].pipeline_name.as_str()) {
                r.push(self.saved[i].pipeline_name.clone());
            }
            i = i + 1;
        }
        proof {
            assert(self.saved@.take(self.saved.len() as int) =~= self.saved@);
        }
        r
    }
}

impl Default for InMemoryPersistence {
    fn default() -> (store: Self)
        ensures
            store.saved@.len() == 0,
    {
        InMemoryPersistence::new()
    }
}

/// The summary of `saved` that was saved last under the id `id`.
fn find_latest(saved: &Vec<ExecutionSummary>, id: &uuid::Uuid) -> (r: Option<ExecutionSummary>)
    ensures
        r == latest(saved@, *id),
{
    let mut i: usize = saved.len();
    proof {
        assert(saved@.take(i as int) =~= saved@);
    }
    while i > 0
        invariant
            i <= saved.len(),
            latest(saved@, *id) == latest(saved@.take(i as int), *id),
        decreases i,
    {
        i = i - 1;
        proof {
            assert(saved@.take(i + 1).drop_last() =~= saved@.take(i as int));
        }
        if saved[i].execution_id == *id {
            return Some(saved[i].clone());
        }
    }
    None
}

} // verus!
