//! The commands of the command line, and what their arguments mean.

use crate::execution::scheduler::SchedulingStrategy;
use crate::text::{concat, first_index_of, lemma_first_index_of, to_chars};
use vstd::prelude::*;

verus! {

/// Runs a pipeline.
#[derive(Debug, Clone)]
pub struct RunCommand {
    /// The file that defines the pipeline.
    pub file: String,
    /// Variables that replace those of the definition.
    pub variable: Vec<(String, String)>,
    /// How steps are chosen.
    pub strategy: SchedulingStrategyArg,
    /// Whether the run is kept out of the history.
    pub no_history: bool,
    /// The step to start from.
    pub from_step: Option<String>,
}

/// Checks the definition of a pipeline.
#[derive(Debug, Clone)]
pub struct ValidateCommand {
    /// The file that defines the pipeline.
    pub file: String,
    /// Whether the answer is given as JSON.
    pub json: bool,
}

/// Lists the pipelines of the history.
#[derive(Debug, Clone)]
pub struct ListCommand {
    /// Whether the number of runs is shown.
    pub with_counts: bool,
    /// Whether the answer is given as JSON.
    pub json: bool,
}

/// Shows past runs.
#[derive(Debug, Clone)]
pub struct HistoryCommand {
    /// The pipeline whose runs are shown.
    pub pipeline: Option<String>,
    /// How many runs are shown.
    pub limit: usize,
    /// Whether all details are shown.
    pub verbose: bool,
    /// Whether the answer is given as JSON.
    pub json: bool,
    /// The run that is shown.
    pub execution_id: Option<String>,
}

/// How steps are chosen, as named on the command line.
#[derive(Debug, Clone, Copy, PartialEq, Eq, Structural)]
pub enum SchedulingStrategyArg {
    Sequential,
    Parallel,
    ParallelLimited,
}

impl SchedulingStrategyArg {
    /// The strategy that the name stands for; a limited run has four steps
    /// at a time.
    pub open spec fn strategy(self) -> SchedulingStrategy {
        match self {
            SchedulingStrategyArg::Sequential => SchedulingStrategy::Sequential,
            SchedulingStrategyArg::Parallel => SchedulingStrategy::Parallel,
            SchedulingStrategyArg::ParallelLimited => SchedulingStrategy::LimitedParallel(4),
        }
    }
}

impl From<SchedulingStrategyArg> for SchedulingStrategy {
    fn from(arg: SchedulingStrategyArg) -> (s: Self) {
        match arg {
            SchedulingStrategyArg::Sequential => SchedulingStrategy::Sequential,
            SchedulingStrategyArg::Parallel => SchedulingStrategy::Parallel,
            SchedulingStrategyArg::ParallelLimited => SchedulingStrategy::LimitedParallel(4),
        }
    }
}

impl vstd::std_specs::convert::FromSpecImpl<SchedulingStrategyArg> for SchedulingStrategy {
    open spec fn obeys_from_spec() -> bool {
        true
    }

    open spec fn from_spec(arg: SchedulingStrategyArg) -> Self {
        arg.strategy()
    }
}

/// The error of an argument that holds no `=`.
pub open spec fn invalid_pair_message(s: Seq<char>) -> Seq<char> {
    "Invalid key=value pair: "@ + s
}

/// What `key=value` means: the text before the first `=` and the text
/// after it.
pub open spec fn key_value(s: Seq<char>) -> Option<(Seq<char>, Seq<char>)> {
    let at = first_index_of(s, '=');
    if at < s.len() {
        Some((s.subrange(0, at), s.subrange(at + 1, s.len() as int)))
    } else {
        None
    }
}

/// Reads an argument of the form `key=value`. The value may hold further
/// `=`; an argument without any is refused.
pub fn parse_key_value(s: &str) -> (r: Result<(String, String), String>)
    ensures
        match key_value(s@) {
            Some(pair) => r matches Ok(kv) && kv.0@ == pair.0 && kv.1@ == pair.1,
            None => r matches Err(e) && e@ == invalid_pair_message(s@),
        },
{
    let chars = to_chars(s);
    let mut at: usize = 0;
    while at < chars.len() && chars[at] != '='
        invariant
            at <= chars.len(),
            forall|j: int| 0 <= j < at ==> chars@[j] != '=',
        decreases chars.len() - at,
    {
        at = at + 1;
    }
    proof {
        lemma_first_index_of(chars@, '=');
    }
    if at == chars.len() {
        return Err(concat("Invalid key=value pair: ", s));
    }
    let mut key = String::new();
    let mut i: usize = 0;
    while i < at
        invariant
            i <= at < chars.len(),
            key@ == chars@.subrange(0, i as int),
        decreases at - i,
    {
        key.push(chars[i]);
        i = i + 1;
    }
    let mut value = String::new();
    let mut j: usize = at + 1;
    while j < chars.len()
        invariant
            at < chars.len(),
            at + 1 <= j <= chars.len(),
            value@ == chars@.subrange(at + 1, j as int),
        decreases chars.len() - j,
    {
        value.push(chars[j]);
        j = j + 1;
    }
    Ok((key, value))
}

} // verus!
