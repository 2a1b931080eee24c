//! Checking that the definition of a pipeline makes sense before it runs.

use crate::model::config::{
    ContinuationAction, PipelineConfig, StepConfig, VariableDefinition,
};
use crate::model::graph::{
    dependency_order, edges_in_range, is_schedule, orderable, placed_before,
};
use crate::text::{concat, list_contains, opt_text, same_text, texts};
use vstd::prelude::*;

verus! {

/// What is wrong with the definition of a pipeline.
#[derive(Debug, PartialEq, Eq)]
pub enum ConfigError {
    /// Two steps have this id.
    DuplicateStepId { id: String },
    /// A step depends on a step that does not exist.
    UnknownDependency { step: String, dependency: String },
    /// A step goes on, after success, to a step that does not exist.
    UnknownSuccessTarget { step: String, target: String },
    /// A step goes on, after failure, to a step that does not exist.
    UnknownFailureTarget { step: String, target: String },
    /// A step routes on without saying where to.
    RouteWithoutTarget { step: String },
    /// A step routes on to a step that does not exist.
    UnknownContinuationTarget { step: String, target: String },
    /// A variable names a file that must exist and does not.
    MissingFile { variable: String, path: String },
    /// A step depends, directly or not, on itself.
    DependencyCycle { step: String },
}

/// What a `ConfigError` says.
pub enum ConfigErrorView {
    DuplicateStepId { id: Seq<char> },
    UnknownDependency { step: Seq<char>, dependency: Seq<char> },
    UnknownSuccessTarget { step: Seq<char>, target: Seq<char> },
    UnknownFailureTarget { step: Seq<char>, target: Seq<char> },
    RouteWithoutTarget { step: Seq<char> },
    UnknownContinuationTarget { step: Seq<char>, target: Seq<char> },
    MissingFile { variable: Seq<char>, path: Seq<char> },
    DependencyCycle { step: Seq<char> },
}

impl View for ConfigError {
    type V = ConfigErrorView;

    open spec fn view(&self) -> ConfigErrorView {
        match *self {
            ConfigError::DuplicateStepId { id } => ConfigErrorView::DuplicateStepId { id: id@ },
            ConfigError::UnknownDependency { step, dependency } => {
                ConfigErrorView::UnknownDependency { step: step@, dependency: dependency@ }
            },
            ConfigError::UnknownSuccessTarget { step, target } => {
                ConfigErrorView::UnknownSuccessTarget { step: step@, target: target@ }
            },
            ConfigError::UnknownFailureTarget { step, target } => {
                ConfigErrorView::UnknownFailureTarget { step: step@, target: target@ }
            },
            ConfigError::RouteWithoutTarget { step } => ConfigErrorView::RouteWithoutTarget {
                step: step@,
            },
            ConfigError::UnknownContinuationTarget { step, target } => {
                ConfigErrorView::UnknownContinuationTarget { step: step@, target: target@ }
            },
            ConfigError::MissingFile { variable, path } => ConfigErrorView::MissingFile {
                variable: variable@,
                path: path@,
            },
            ConfigError::DependencyCycle { step } => ConfigErrorView::DependencyCycle {
                step: step@,
            },
        }
    }
}

impl ConfigErrorView {
    /// The error in words.
    pub open spec fn text(self) -> Seq<char> {
        match self {
            ConfigErrorView::DuplicateStepId { id } => "Duplicate step ID: "@ + id,
            ConfigErrorView::UnknownDependency { step, dependency } => "Step '"@ + step
                + "' depends on non-existent step '"@ + dependency + "'"@,
            ConfigErrorView::UnknownSuccessTarget { step, target } => "Step '"@ + step
                + "' termination on_success references non-existent step '"@ + target + "'"@,
            ConfigErrorView::UnknownFailureTarget { step, target } => "Step '"@ + step
                + "' termination on_failure references non-existent step '"@ + target + "'"@,
            ConfigErrorView::RouteWithoutTarget { step } => "Step '"@ + step
                + "' has continuation action 'route' but no target specified"@,
            ConfigErrorView::UnknownContinuationTarget { step, target } => "Step '"@ + step
                + "' continuation target references non-existent step '"@ + target + "'"@,
            ConfigErrorView::MissingFile { variable, path } => "Variable '"@ + variable
                + "' references file that doesn't exist: "@ + path,
            ConfigErrorView::DependencyCycle { step } =>
                "Cycle detected in dependency graph involving step '"@ + step + "'"@,
        }
    }
}

fn quoted(head: &str, first: &str, middle: &str, second: &str, tail: &str) -> (s: String)
    ensures
        s@ == head@ + first@ + middle@ + second@ + tail@,
{
    let mut s = head.to_owned();
    s.append(first);
    s.append(middle);
    s.append(second);
    s.append(tail);
    s
}

impl ConfigError {
    /// The error in words.
    pub fn message(&self) -> (s: String)
        ensures
            s@ == self@.text(),
    {
        match self {
            ConfigError::DuplicateStepId { id } => concat("Duplicate step ID: ", id.as_str()),
            ConfigError::UnknownDependency { step, dependency } => quoted(
                "Step '",
                step.as_str(),
                "' depends on non-existent step '",
                dependency.as_str(),
                "'",
            ),
            ConfigError::UnknownSuccessTarget { step, target } => quoted(
                "Step '",
                step.as_str(),
                "' termination on_success references non-existent step '",
                target.as_str(),
                "'",
            ),
            ConfigError::UnknownFailureTarget { step, target } => quoted(
                "Step '",
                step.as_str(),
                "' termination on_failure references non-existent step '",
                target.as_str(),
                "'",
            ),
            ConfigError::RouteWithoutTarget { step } => {
                let head = concat("Step '", step.as_str());
                concat(head.as_str(), "' has continuation action 'route' but no target specified")
            },
            ConfigError::UnknownContinuationTarget { step, target } => quoted(
                "Step '",
                step.as_str(),
                "' continuation target references non-existent step '",
                target.as_str(),
                "'",
            ),
            ConfigError::MissingFile { variable, path } => {
                let mut s = "Variable '".to_owned();
                s.append(variable.as_str());
                s.append("' references file that doesn't exist: ");
                s.append(path.as_str());
                s
            },
            ConfigError::DependencyCycle { step } => {
                let head = concat(
                    "Cycle detected in dependency graph involving step '",
                    step.as_str(),
                );
                concat(head.as_str(), "'")
            },
        }
    }
}

/// The position of the first step of `steps` with the id `id`, or the number
/// of steps.
pub open spec fn find_config(steps: Seq<StepConfig>, id: Seq<char>) -> int
    decreases steps.len(),
{
    if steps.len() == 0 {
        0
    } else if steps[0].id@ == id {
        0
    } else {
        1 + find_config(steps.drop_first(), id)
    }
}

pub proof fn lemma_find_config(steps: Seq<StepConfig>, id: Seq<char>)
    ensures
        0 <= find_config(steps, id) <= steps.len(),
        find_config(steps, id) < steps.len() ==> steps[find_config(steps, id)].id@ == id,
        forall|j: int| 0 <= j < find_config(steps, id) ==> (#[trigger] steps[j]).id@ != id,
    decreases steps.len(),
{
    if steps.len() > 0 && steps[0].id@ != id {
        let rest = steps.drop_first();
        lemma_find_config(rest, id);
        assert forall|j: int| 0 <= j < find_config(steps, id) implies (#[trigger] steps[j]).id@
            != id by {
            if j > 0 {
                assert(rest[j - 1] == steps[j]);
            }
        }
    }
}

/// Whether a step with the id `id` is defined.
pub open spec fn defined(steps: Seq<StepConfig>, id: Seq<char>) -> bool {
    find_config(steps, id) < steps.len()
}

/// The first of the answers `answer(from)`, `answer(from + 1)`, ... below
/// `to` that is a problem.
pub open spec fn first_problem(
    answer: spec_fn(int) -> Option<ConfigErrorView>,
    from: int,
    to: int,
) -> Option<ConfigErrorView>
    decreases to - from,
{
    if from >= to {
        None
    } else {
        match answer(from) {
            Some(e) => Some(e),
            None => first_problem(answer, from + 1, to),
        }
    }
}

/// The problem of step `i` as the second of its id, if an earlier step has
/// the same id.
pub open spec fn duplicate_at(steps: Seq<StepConfig>, i: int) -> Option<ConfigErrorView> {
    if find_config(steps, steps[i].id@) < i {
        Some(ConfigErrorView::DuplicateStepId { id: steps[i].id@ })
    } else {
        None
    }
}

/// The problem of dependency `d` of step `i`, if it names no step.
pub open spec fn dependency_problem(steps: Seq<StepConfig>, i: int, d: int) -> Option<
    ConfigErrorView,
> {
    if defined(steps, steps[i].depends_on@[d]@) {
        None
    } else {
        Some(
            ConfigErrorView::UnknownDependency {
                step: steps[i].id@,
                dependency: steps[i].depends_on@[d]@,
            },
        )
    }
}

/// The problem of the routes of step `i`, if one of them leads nowhere: the
/// route after success, then the route after failure, then the route of the
/// continuation.
pub open spec fn route_problem(steps: Seq<StepConfig>, i: int) -> Option<ConfigErrorView> {
    let step = steps[i];
    let on_success = match step.termination {
        Some(t) => opt_text(t.on_success),
        None => None,
    };
    let on_failure = match step.termination {
        Some(t) => opt_text(t.on_failure),
        None => None,
    };
    if on_success is Some && !defined(steps, on_success->0) {
        Some(ConfigErrorView::UnknownSuccessTarget { step: step.id@, target: on_success->0 })
    } else if on_failure is Some && !defined(steps, on_failure->0) {
        Some(ConfigErrorView::UnknownFailureTarget { step: step.id@, target: on_failure->0 })
    } else {
        match step.continuation {
            Some(c) => if c.action == ContinuationAction::Route {
                match c.target {
                    None => Some(ConfigErrorView::RouteWithoutTarget { step: step.id@ }),
                    Some(target) => if defined(steps, target@) {
                        None
                    } else {
                        Some(
                            ConfigErrorView::UnknownContinuationTarget {
                                step: step.id@,
                                target: target@,
                            },
                        )
                    },
                }
            } else {
                None
            },
            None => None,
        }
    }
}

/// The problem of step `i`: its first dependency that names no step, or
/// else the first of its routes that leads nowhere.
pub open spec fn reference_problem(steps: Seq<StepConfig>, i: int) -> Option<ConfigErrorView> {
    match first_problem(
        |d: int| dependency_problem(steps, i, d),
        0,
        steps[i].depends_on@.len() as int,
    ) {
        Some(e) => Some(e),
        None => route_problem(steps, i),
    }
}

/// The problem of variable `v`: it names a file that must exist and is not
/// among the files that exist.
pub open spec fn file_problem(
    variables: Seq<(String, VariableDefinition)>,
    existing: Seq<Seq<char>>,
    v: int,
) -> Option<ConfigErrorView> {
    match variables[v].1 {
        VariableDefinition::File { path, validate_exists } => if validate_exists
            && !existing.contains(path@) {
            Some(ConfigErrorView::MissingFile { variable: variables[v].0@, path: path@ })
        } else {
            None
        },
        _ => None,
    }
}

/// The paths of the files that `variables` name and that must exist, in the
/// order of the variables.
pub open spec fn required_files(variables: Seq<(String, VariableDefinition)>) -> Seq<Seq<char>>
    decreases variables.len(),
{
    if variables.len() == 0 {
        Seq::empty()
    } else {
        let before = required_files(variables.drop_last());
        match variables.last().1 {
            VariableDefinition::File { path, validate_exists } => if validate_exists {
                before.push(path@)
            } else {
                before
            },
            _ => before,
        }
    }
}

/// Step `i` depends on the step at position `j`.
pub open spec fn depends_on_position(steps: Seq<StepConfig>, i: int, j: int) -> bool {
    exists|d: int|
        0 <= d < steps[i].depends_on@.len() && j < steps.len() && find_config(
            steps,
            (#[trigger] steps[i].depends_on@[d])@,
        ) == j
}

/// `order` lists steps by position, none twice, each after all the steps it
/// depends on.
pub open spec fn is_step_schedule(order: Seq<usize>, steps: Seq<StepConfig>) -> bool {
    &&& forall|k: int| 0 <= k < order.len() ==> (#[trigger] order[k]) < steps.len()
    &&& forall|k: int, l: int| 0 <= k < l < order.len() ==> order[k] != order[l]
    &&& forall|k: int, j: int|
        0 <= k < order.len() && 0 <= j < steps.len() && #[trigger] depends_on_position(
            steps,
            order[k] as int,
            j,
        ) ==> placed_before(order, k, j as usize)
}

/// Step `i` can be put in order: it lies on no cycle of dependencies, and
/// depends on no step that does.
pub open spec fn step_orderable(steps: Seq<StepConfig>, i: int) -> bool {
    exists|order: Seq<usize>| is_step_schedule(order, steps) && order.contains(i as usize)
}

/// The problem of step `i`, if it cannot be put in order.
pub open spec fn cycle_problem(steps: Seq<StepConfig>, i: int) -> Option<ConfigErrorView> {
    if step_orderable(steps, i) {
        None
    } else {
        Some(ConfigErrorView::DependencyCycle { step: steps[i].id@ })
    }
}

/// What is wrong with `config`, given the files that exist: the first step
/// that has the id of an earlier one; else the first reference of a step to
/// a step that does not exist; else the first variable whose file is
/// missing; else the first step on or behind a cycle of dependencies.
pub open spec fn problem_of(config: PipelineConfig, existing: Seq<Seq<char>>) -> Option<
    ConfigErrorView,
> {
    let steps = config.steps@;
    let n = steps.len() as int;
    match first_problem(|i: int| duplicate_at(steps, i), 0, n) {
        Some(e) => Some(e),
        None => match first_problem(|i: int| reference_problem(steps, i), 0, n) {
            Some(e) => Some(e),
            None => match first_problem(
                |v: int| file_problem(config.variables@, existing, v),
                0,
                config.variables@.len() as int,
            ) {
                Some(e) => Some(e),
                None => first_problem(|i: int| cycle_problem(steps, i), 0, n),
            },
        },
    }
}

/// A range without problems up to `i` has the problems of the rest.
pub proof fn lemma_first_problem_skip(
    answer: spec_fn(int) -> Option<ConfigErrorView>,
    from: int,
    i: int,
    to: int,
)
    requires
        from <= i <= to,
        forall|k: int| from <= k < i ==> (#[trigger] answer(k)) is None,
    ensures
        first_problem(answer, from, to) == first_problem(answer, i, to),
    decreases i - from,
{
    if from < i {
        lemma_first_problem_skip(answer, from + 1, i, to);
    }
}

/// A range in which no problem is found holds no problem.
pub proof fn lemma_no_problem(
    answer: spec_fn(int) -> Option<ConfigErrorView>,
    from: int,
    to: int,
    i: int,
)
    requires
        first_problem(answer, from, to) is None,
        from <= i < to,
    ensures
        answer(i) is None,
    decreases to - from,
{
    if from < i {
        lemma_no_problem(answer, from + 1, to, i);
    }
}

/// A definition without problems has no two steps of the same id, no
/// reference to a step that is not defined, no route without a target, no
/// file that is missing, and no cycle of dependencies.
pub proof fn lemma_valid_definition(config: PipelineConfig, existing: Seq<Seq<char>>)
    requires
        problem_of(config, existing) is None,
    ensures
        forall|i: int, j: int|
            0 <= i < j < config.steps@.len() ==> (#[trigger] config.steps@[i]).id@ != (
            #[trigger] config.steps@[j]).id@,
        forall|i: int|
            0 <= i < config.steps@.len() ==> (#[trigger] reference_problem(config.steps@, i))
                is None,
        forall|v: int|
            0 <= v < config.variables@.len() ==> (#[trigger] file_problem(
                config.variables@,
                existing,
                v,
            )) is None,
        forall|i: int| 0 <= i < config.steps@.len() ==> #[trigger] step_orderable(config.steps@, i),
{
    let steps = config.steps@;
    let n = steps.len() as int;
    let duplicates = |i: int| duplicate_at(steps, i);
    let references = |i: int| reference_problem(steps, i);
    let files = |v: int| file_problem(config.variables@, existing, v);
    let cycles = |i: int| cycle_problem(steps, i);
    assert forall|i: int, j: int| 0 <= i < j < n implies (#[trigger] steps[i]).id@ != (
    #[trigger] steps[j]).id@ by {
        lemma_no_problem(duplicates, 0, n, j);
        lemma_find_config(steps, steps[j].id@);
    }
    assert forall|i: int| 0 <= i < n implies (#[trigger] reference_problem(steps, i)) is None by {
        lemma_no_problem(references, 0, n, i);
    }
    assert forall|v: int| 0 <= v < config.variables@.len() implies (#[trigger] file_problem(
        config.variables@,
        existing,
        v,
    )) is None by {
        lemma_no_problem(files, 0, config.variables@.len() as int, v);
    }
    assert forall|i: int| 0 <= i < n implies #[trigger] step_orderable(steps, i) by {
        lemma_no_problem(cycles, 0, n, i);
    }
}

/// The position of the step of `steps` with the id `id`.
pub fn config_position(steps: &Vec<StepConfig>, id: &str) -> (r: Option<usize>)
    ensures
        match r {
            Some(i) => i == find_config(steps@, id@) && i < steps@.len(),
            None => find_config(steps@, id@) == steps@.len(),
        },
{
    let mut i: usize = 0;
    while i < steps.len()
        invariant
            i <= steps.len(),
            forall|j: int| 0 <= j < i ==> (#[trigger] steps@[j]).id@ != id@,
        decreases steps.len() - i,
    {
        if same_text(steps[i].id.as_str(), id) {
            proof {
                lemma_find_config(steps@, id@);
            }
            return Some(i);
        }
        i = i + 1;
    }
    proof {
        lemma_find_config(steps@, id@);
    }
    None
}

/// What is wrong with the references of step `i`, if anything.
fn check_references(steps: &Vec<StepConfig>, i: usize) -> (r: Option<ConfigError>)
    requires
        i < steps@.len(),
    ensures
        crate::model::validation::error_view(r) == reference_problem(steps@, i as int),
{
    let step = &steps[i];
    let ghost answer = |d: int| dependency_problem(steps@, i as int, d);
    let mut d: usize = 0;
    while d < step.depends_on.len()
        invariant
            i < steps@.len(),
            *step == steps@[i as int],
            d <= step.depends_on@.len(),
            answer == (|d: int| dependency_problem(steps@, i as int, d)),
            forall|k: int| 0 <= k < d ==> (#[trigger] answer(k)) is None,
        decreases step.depends_on@.len() - d,
    {
        if config_position(steps, step.depends_on[d].as_str()).is_none() {
            proof {
                lemma_first_problem_skip(answer, 0, d as int, step.depends_on@.len() as int);
            }
            return Some(
                ConfigError::UnknownDependency {
                    step: step.id.clone(),
                    dependency: step.depends_on[d].clone(),
                },
            );
        }
        d = d + 1;
    }
    proof {
        lemma_first_problem_skip(
            answer,
            0,
            step.depends_on@.len() as int,
            step.depends_on@.len() as int,
        );
    }
    if let Some(termination) = &step.termination {
        if let Some(on_success) = &termination.on_success {
            if config_position(steps, on_success.as_str()).is_none() {
                return Some(
                    ConfigError::UnknownSuccessTarget {
                        step: step.id.clone(),
                        target: on_success.clone(),
                    },
                );
            }
        }
        if let Some(on_failure) = &termination.on_failure {
            if config_position(steps, on_failure.as_str()).is_none() {
                return Some(
                    ConfigError::UnknownFailureTarget {
                        step: step.id.clone(),
                        target: on_failure.clone(),
                    },
                );
            }
        }
    }
    if let Some(continuation) = &step.continuation {
        if continuation.action == ContinuationAction::Route {
            match &continuation.target {
                None => {
                    return Some(ConfigError::RouteWithoutTarget { step: step.id.clone() });
                },
                Some(target) => {
                    if config_position(steps, target.as_str()).is_none() {
                        return Some(
                            ConfigError::UnknownContinuationTarget {
                                step: step.id.clone(),
                                target: target.clone(),
                            },
                        );
                    }
                },
            }
        }
    }
    None
}

/// What an optional error says.
pub open spec fn error_view(e: Option<ConfigError>) -> Option<ConfigErrorView> {
    match e {
        Some(e) => Some(e@),
        None => None,
    }
}

/// `edges[i]` holds the positions of the steps that step `i` depends on.
pub open spec fn is_edges_of(edges: Seq<Vec<usize>>, steps: Seq<StepConfig>) -> bool {
    &&& edges.len() == steps.len()
    &&& edges_in_range(edges)
    &&& forall|i: int, e: int|
        0 <= i < edges.len() && 0 <= e < edges[i]@.len() ==> depends_on_position(
            steps,
            i,
            (#[trigger] edges[i]@[e]) as int,
        )
    &&& forall|i: int, j: int|
        0 <= i < steps.len() && 0 <= j < steps.len() && #[trigger] depends_on_position(
            steps,
            i,
            j,
        ) ==> edges[i]@.contains(j as usize)
}

/// The dependencies of each step, as positions of steps.
pub fn dependency_edges(steps: &Vec<StepConfig>) -> (edges: Vec<Vec<usize>>)
    ensures
        is_edges_of(edges@, steps@),
{
    let mut edges: Vec<Vec<usize>> = Vec::new();
    let mut i: usize = 0;
    while i < steps.len()
        invariant
            i <= steps.len(),
            edges@.len() == i,
            forall|a: int, e: int|
                0 <= a < i && 0 <= e < edges@[a]@.len() ==> (#[trigger] edges@[a]@[e])
                    < steps@.len() && depends_on_position(steps@, a, edges@[a]@[e] as int),
            forall|a: int, j: int|
                0 <= a < i && 0 <= j < steps@.len() && #[trigger] depends_on_position(
                    steps@,
                    a,
                    j,
                ) ==> edges@[a]@.contains(j as usize),
        decreases steps.len() - i,
    {
        let mut row: Vec<usize> = Vec::new();
        let mut d: usize = 0;
        while d < steps[i].depends_on.len()
            invariant
                i < steps.len(),
                d <= steps@[i as int].depends_on@.len(),
                forall|e: int|
                    0 <= e < row@.len() ==> (#[trigger] row@[e]) < steps@.len()
                        && depends_on_position(steps@, i as int, row@[e] as int),
                forall|x: int|
                    0 <= x < d && find_config(
                        steps@,
                        (#[trigger] steps@[i as int].depends_on@[x])@,
                    ) < steps@.len() ==> row@.contains(
                        find_config(steps@, steps@[i as int].depends_on@[x]@) as usize,
                    ),
            decreases steps@[i as int].depends_on@.len() - d,
        {
            let ghost before = row@;
            match config_position(steps, steps[i].depends_on[d].as_str()) {
                Some(at) => {
                    row.push(at);
                    proof {
                        assert(row@[before.len() as int] == at);
                        assert forall|x: int|
                            0 <= x < d + 1 && find_config(
                                steps@,
                                (#[trigger] steps@[i as int].depends_on@[x])@,
                            ) < steps@.len() implies row@.contains(
                            find_config(steps@, steps@[i as int].depends_on@[x]@) as usize,
                        ) by {
                            if x < d {
                                let v = find_config(steps@, steps@[i as int].depends_on@[x]@) as usize;
                                let k = choose|k: int| 0 <= k < before.len() && before[k] == v;
                                assert(row@[k] == v);
                            }
                        }
                    }
                },
                None => {},
            }
            d = d + 1;
        }
        proof {
            assert forall|j: int|
                0 <= j < steps@.len() && #[trigger] depends_on_position(
                    steps@,
                    i as int,
                    j,
                ) implies row@.contains(j as usize) by {
                let x = choose|x: int|
                    0 <= x < steps@[i as int].depends_on@.len() && j < steps@.len() && find_config(
                        steps@,
                        (#[trigger] steps@[i as int].depends_on@[x])@,
                    ) == j;
            }
        }
        edges.push(row);
        i = i + 1;
    }
    edges
}

/// With the dependencies as edges, the schedules of the graph are the
/// schedules of the steps.
pub proof fn lemma_schedules_agree(
    order: Seq<usize>,
    edges: Seq<Vec<usize>>,
    steps: Seq<StepConfig>,
)
    requires
        is_edges_of(edges, steps),
    ensures
        is_schedule(order, edges) <==> is_step_schedule(order, steps),
{
    if is_schedule(order, edges) {
        assert forall|k: int, j: int|
            0 <= k < order.len() && 0 <= j < steps.len() && #[trigger] depends_on_position(
                steps,
                order[k] as int,
                j,
            ) implies placed_before(order, k, j as usize) by {
            let row = edges[order[k] as int]@;
            let e = choose|e: int| 0 <= e < row.len() && row[e] == j as usize;
        }
    }
    if is_step_schedule(order, steps) {
        assert forall|k: int, e: int|
            0 <= k < order.len() && 0 <= e < edges[order[k] as int]@.len() implies placed_before(
            order,
            k,
            #[trigger] edges[order[k] as int]@[e],
        ) by {
            let j = edges[order[k] as int]@[e];
        }
    }
}

/// With the dependencies as edges, a step can be put in order where its
/// node can.
pub proof fn lemma_orderable_agrees(edges: Seq<Vec<usize>>, steps: Seq<StepConfig>, i: int)
    requires
        is_edges_of(edges, steps),
    ensures
        orderable(edges, i as usize) <==> step_orderable(steps, i),
{
    if orderable(edges, i as usize) {
        let order = choose|order: Seq<usize>|
            is_schedule(order, edges) && order.contains(i as usize);
        lemma_schedules_agree(order, edges, steps);
    }
    if step_orderable(steps, i) {
        let order = choose|order: Seq<usize>|
            is_step_schedule(order, steps) && order.contains(i as usize);
        lemma_schedules_agree(order, edges, steps);
    }
}

/// Whether `x` is among `list`.
fn holds(list: &Vec<usize>, x: usize) -> (b: bool)
    ensures
        b == list@.contains(x),
{
    let mut i: usize = 0;
    while i < list.len()
        invariant
            i <= list.len(),
            forall|j: int| 0 <= j < i ==> list@[j] != x,
        decreases list.len() - i,
    {
        if list[i] == x {
            return true;
        }
        i = i + 1;
    }
    false
}

/// The steps in an order in which they can run: first, as a schedule, the
/// steps that can be put in order, each as early as its dependencies and its
/// place in the definition allow; then the other steps as they are defined.
/// `scheduled` is the number of the first.
pub fn topological_order(steps: &Vec<StepConfig>) -> (r: (Vec<usize>, usize))
    ensures
        r.1 <= r.0@.len(),
        is_step_schedule(r.0@.take(r.1 as int), steps@),
        forall|i: int|
            0 <= i < steps@.len() ==> (r.0@.take(r.1 as int).contains(i as usize)
                <==> step_orderable(steps@, i)),
        forall|k: int| 0 <= k < r.0@.len() ==> (#[trigger] r.0@[k]) < steps@.len(),
        forall|k: int, l: int| 0 <= k < l < r.0@.len() ==> r.0@[k] != r.0@[l],
        forall|i: usize| i < steps@.len() ==> r.0@.contains(i),
{
    let edges = dependency_edges(steps);
    let order = dependency_order(&edges);
    let scheduled = order.len();
    let ghost first = order@;
    proof {
        lemma_schedules_agree(first, edges@, steps@);
        assert forall|i: int| 0 <= i < steps@.len() implies (first.contains(i as usize)
            <==> step_orderable(steps@, i)) by {
            lemma_orderable_agrees(edges@, steps@, i);
        }
    }
    let mut all = order;
    let mut i: usize = 0;
    while i < steps.len()
        invariant
            i <= steps.len(),
            scheduled == first.len(),
            scheduled <= all@.len(),
            all@.take(scheduled as int) == first,
            forall|k: int| 0 <= k < first.len() ==> (#[trigger] first[k]) < steps@.len(),
            forall|k: int| 0 <= k < all@.len() ==> (#[trigger] all@[k]) < steps@.len(),
            forall|k: int, l: int| 0 <= k < l < all@.len() ==> all@[k] != all@[l],
            forall|x: usize| x < i ==> all@.contains(x),
            forall|k: int| scheduled <= k < all@.len() ==> (#[trigger] all@[k]) < i,
        decreases steps.len() - i,
    {
        let ghost before = all@;
        if !holds(&all, i) {
            all.push(i);
            proof {
                assert(all@[before.len() as int] == i);
                assert forall|x: usize| x < i + 1 implies all@.contains(x) by {
                    if x < i {
                        assert(before.contains(x));
                        let k = choose|k: int| 0 <= k < before.len() && before[k] == x;
                        assert(all@[k] == x);
                    }
                }
                assert forall|k: int, l: int| 0 <= k < l < all@.len() implies all@[k]
                    != all@[l] by {
                }
            }
        }
        i = i + 1;
    }
    (all, scheduled)
}

impl PipelineConfig {
    /// The pipeline that the definition defines, not yet started.
    pub fn to_pipeline(&self) -> (p: crate::model::pipeline::Pipeline)
        ensures
            p.name@ == self.name@,
            p.variables@ == crate::model::config::rendered_variables(self.variables@),
            p.steps@.len() == self.steps@.len(),
            forall|i: int|
                0 <= i < p.steps@.len() ==> (#[trigger] p.steps@[i]).defined_by(
                    self.steps@[i],
                    crate::model::pipeline::defaults_of(*self),
                ),
            crate::model::pipeline::is_run_order(p.order(), self.steps@),
            p.state.status == crate::model::state::ExecutionStatus::Pending,
    {
        crate::model::pipeline::Pipeline::from_config(self)
    }

    /// The files that the variables of the definition name and that must
    /// exist, in the order of the variables.
    pub fn files_to_check(&self) -> (paths: Vec<String>)
        ensures
            texts(paths@) == required_files(self.variables@),
    {
        let mut paths: Vec<String> = Vec::new();
        let mut v: usize = 0;
        while v < self.variables.len()
            invariant
                v <= self.variables.len(),
                texts(paths@) == required_files(self.variables@.take(v as int)),
            decreases self.variables.len() - v,
        {
            proof {
                assert(self.variables@.take(v + 1).drop_last() =~= self.variables@.take(v as int));
            }
            if let VariableDefinition::File { path, validate_exists } = &self.variables[v].1 {
                if *validate_exists {
                    paths.push(path.clone());
                }
            }
            v = v + 1;
        }
        proof {
            assert(self.variables@.take(self.variables.len() as int) =~= self.variables@);
        }
        paths
    }

    /// Checks the definition. `existing_files` names the files that exist,
    /// among those that `files_to_check` asks about.
    pub fn validate(&self, existing_files: &Vec<String>) -> (r: Result<(), ConfigError>)
        ensures
            match problem_of(*self, texts(existing_files@)) {
                Some(e) => r matches Err(x) && x@ == e,
                None => r is Ok,
            },
    {
        let n = self.steps.len();
        let ghost steps = self.steps@;
        let ghost duplicates = |i: int| duplicate_at(steps, i);
        let mut i: usize = 0;
        while i < n
            invariant
                i <= n,
                n == self.steps@.len(),
                steps == self.steps@,
                duplicates == (|i: int| duplicate_at(steps, i)),
                forall|k: int| 0 <= k < i ==> (#[trigger] duplicates(k)) is None,
            decreases n - i,
        {
            let found = config_position(&self.steps, self.steps[i].id.as_str());
            let earlier = match found {
                Some(at) => at < i,
                None => false,
            };
            if earlier {
                proof {
                    lemma_first_problem_skip(duplicates, 0, i as int, n as int);
                }
                return Err(ConfigError::DuplicateStepId { id: self.steps[i].id.clone() });
            }
            i = i + 1;
        }
        proof {
            lemma_first_problem_skip(duplicates, 0, n as int, n as int);
        }
        let ghost references = |i: int| reference_problem(steps, i);
        let mut i: usize = 0;
        while i < n
            invariant
                i <= n,
                n == self.steps@.len(),
                steps == self.steps@,
                references == (|i: int| reference_problem(steps, i)),
                duplicates == (|i: int| duplicate_at(steps, i)),
                first_problem(duplicates, 0, n as int) is None,
                forall|k: int| 0 <= k < i ==> (#[trigger] references(k)) is None,
            decreases n - i,
        {
            match check_references(&self.steps, i) {
                Some(e) => {
                    proof {
                        lemma_first_problem_skip(references, 0, i as int, n as int);
                    }
                    return Err(e);
                },
                None => {},
            }
            i = i + 1;
        }
        proof {
            lemma_first_problem_skip(references, 0, n as int, n as int);
        }
        let ghost existing = texts(existing_files@);
        let ghost variables = self.variables@;
        let ghost files = |v: int| file_problem(variables, existing, v);
        let mut v: usize = 0;
        while v < self.variables.len()
            invariant
                v <= self.variables.len(),
                variables == self.variables@,
                existing == texts(existing_files@),
                files == (|v: int| file_problem(variables, existing, v)),
                n == self.steps@.len(),
                steps == self.steps@,
                references == (|i: int| reference_problem(steps, i)),
                duplicates == (|i: int| duplicate_at(steps, i)),
                first_problem(duplicates, 0, n as int) is None,
                first_problem(references, 0, n as int) is None,
                forall|k: int| 0 <= k < v ==> (#[trigger] files(k)) is None,
            decreases self.variables.len() - v,
        {
            if let VariableDefinition::File { path, validate_exists } = &self.variables[v].1 {
                if *validate_exists && !list_contains(existing_files, path.as_str()) {
                    proof {
                        lemma_first_problem_skip(files, 0, v as int, variables.len() as int);
                    }
                    return Err(
                        ConfigError::MissingFile {
                            variable: self.variables[v].0.clone(),
                            path: path.clone(),
                        },
                    );
                }
            }
            v = v + 1;
        }
        proof {
            lemma_first_problem_skip(files, 0, variables.len() as int, variables.len() as int);
        }
        let (positions, scheduled) = topological_order(&self.steps);
        let ghost cycles = |i: int| cycle_problem(steps, i);
        let mut placed: Vec<usize> = Vec::new();
        let mut k: usize = 0;
        while k < scheduled
            invariant
                k <= scheduled <= positions@.len(),
                placed@ == positions@.take(k as int),
            decreases scheduled - k,
        {
            placed.push(positions[k]);
            k = k + 1;
        }
        let mut i: usize = 0;
        while i < n
            invariant
                i <= n,
                n == self.steps@.len(),
                steps == self.steps@,
                cycles == (|i: int| cycle_problem(steps, i)),
                variables == self.variables@,
                existing == texts(existing_files@),
                files == (|v: int| file_problem(variables, existing, v)),
                references == (|i: int| reference_problem(steps, i)),
                duplicates == (|i: int| duplicate_at(steps, i)),
                first_problem(duplicates, 0, n as int) is None,
                first_problem(references, 0, n as int) is None,
                first_problem(files, 0, variables.len() as int) is None,
                forall|x: int|
                    0 <= x < n ==> (placed@.contains(x as usize) <==> step_orderable(steps, x)),
                forall|x: int| 0 <= x < i ==> (#[trigger] cycles(x)) is None,
            decreases n - i,
        {
            if !holds(&placed, i) {
                proof {
                    lemma_first_problem_skip(cycles, 0, i as int, n as int);
                }
                return Err(ConfigError::DependencyCycle { step: self.steps[i].id.clone() });
            }
            i = i + 1;
        }
        proof {
            lemma_first_problem_skip(cycles, 0, n as int, n as int);
        }
        Ok(())
    }
}

} // verus!
