//! Pipeline definitions as they are loaded, before they are turned into a
//! runnable pipeline.

use crate::model::variables::{bind, Variables};
use crate::text::{concat, same_text};
use vstd::prelude::*;

verus! {

/// A variable of a pipeline: a plain text, or a reference to a file.
#[derive(Debug, PartialEq, Eq)]
pub enum VariableDefinition {
    /// A plain text.
    String(String),
    /// A file, with the wish that its existence be checked when the
    /// definition is validated.
    File { path: String, validate_exists: bool },
}

/// A variable as its definition is written: a text, a mapping that may name
/// a path and may ask for its existence to be checked, or something else,
/// of which only the text is kept.
#[derive(Debug, Clone, PartialEq, Eq)]
pub enum VariableSource {
    Text(String),
    Mapping { path: Option<String>, validate_exists: Option<bool> },
    Other(String),
}

impl VariableDefinition {
    /// The variable that `source` defines: a text stands for itself; a
    /// mapping is a file, with the empty path where it names none, and
    /// checked only where it asks for it; anything else is the text that
    /// was kept of it.
    pub fn from_source(source: VariableSource) -> (d: Self)
        ensures
            match source {
                VariableSource::Text(s) => d == VariableDefinition::String(s),
                VariableSource::Other(s) => d == VariableDefinition::String(s),
                VariableSource::Mapping { path, validate_exists } => d matches VariableDefinition::File {
                    path: p,
                    validate_exists: v,
                } && p@ == (match path {
                    Some(x) => x@,
                    None => Seq::empty(),
                }) && v == (match validate_exists {
                    Some(b) => b,
                    None => false,
                }),
            },
    {
        match source {
            VariableSource::Text(s) => VariableDefinition::String(s),
            VariableSource::Other(s) => VariableDefinition::String(s),
            VariableSource::Mapping { path, validate_exists } => VariableDefinition::File {
                path: match path {
                    Some(p) => p,
                    None => String::new(),
                },
                validate_exists: match validate_exists {
                    Some(b) => b,
                    None => false,
                },
            },
        }
    }

    /// The text that stands for the variable in a prompt: the text itself, or
    /// `@` followed by the path of the file.
    pub open spec fn rendered(self) -> Seq<char> {
        match self {
            VariableDefinition::String(s) => s@,
            VariableDefinition::File { path, .. } => seq!['@'] + path@,
        }
    }

    /// The text that stands for the variable in a prompt.
    pub fn render_value(&self) -> (s: String)
        ensures
            s@ == self.rendered(),
    {
        match self {
            VariableDefinition::String(s) => s.clone(),
            VariableDefinition::File { path, .. } => {
                proof {
                    reveal_strlit("@");
                }
                concat("@", path.as_str())
            },
        }
    }
}

impl Clone for VariableDefinition {
    fn clone(&self) -> (r: Self)
        ensures
            r == *self,
    {
        match self {
            VariableDefinition::String(s) => VariableDefinition::String(s.clone()),
            VariableDefinition::File { path, validate_exists } => VariableDefinition::File {
                path: path.clone(),
                validate_exists: *validate_exists,
            },
        }
    }
}

/// What to do when the continuation pattern of a step is found.
#[derive(Debug, Clone, Copy, PartialEq, Eq, Structural)]
pub enum ContinuationAction {
    /// Run the same step again.
    Retry,
    /// Go to another step.
    Route,
}

/// The action taken when a definition names none: retry.
pub fn default_continuation_action() -> (a: ContinuationAction)
    ensures
        a == ContinuationAction::Retry,
{
    ContinuationAction::Retry
}

/// How a step ends, as defined.
#[derive(Debug, Clone)]
pub struct TerminationConfig {
    /// The pattern that signals success.
    pub success_pattern: String,
    /// The step to go to on success.
    pub on_success: Option<String>,
    /// The step to go to when the pattern is missing.
    pub on_failure: Option<String>,
    /// Whether the pattern is a regular expression.
    pub use_regex: bool,
}

/// How a step asks for more work, as defined.
#[derive(Debug, Clone)]
pub struct ContinuationConfig {
    /// The pattern that signals that the step is not done.
    pub pattern: String,
    /// What to do then.
    pub action: ContinuationAction,
    /// The step to go to when the action is to route.
    pub target: Option<String>,
    /// Whether notes are carried along when routing.
    pub carry_notes: bool,
    /// Whether the pattern is a regular expression.
    pub use_regex: bool,
}

/// A step, as defined.
#[derive(Debug, Clone)]
pub struct StepConfig {
    /// The id of the step, unique in its pipeline.
    pub id: String,
    /// A name for readers.
    pub name: String,
    /// A description for readers.
    pub description: Option<String>,
    /// The prompt template.
    pub prompt: String,
    /// The ids of the steps that must have ended before this one starts.
    pub depends_on: Vec<String>,
    /// How the step ends.
    pub termination: Option<TerminationConfig>,
    /// How the step asks for more work.
    pub continuation: Option<ContinuationConfig>,
    /// The number of retries, where it differs from the pipeline's.
    pub max_retries: Option<usize>,
    /// The timeout in seconds, where it differs from the pipeline's.
    pub timeout_secs: Option<u64>,
    /// Whether the step may run beside others.
    pub allow_parallel: bool,
}

/// A pipeline, as defined.
#[derive(Debug, Clone)]
pub struct PipelineConfig {
    /// The name of the pipeline.
    pub name: String,
    /// The version of the definition.
    pub version: Option<String>,
    /// The variables, in the order of their definition.
    pub variables: Vec<(String, VariableDefinition)>,
    /// The steps, in the order of their definition.
    pub steps: Vec<StepConfig>,
    /// The number of retries of a step that names none.
    pub max_retries: Option<usize>,
    /// The timeout, in seconds, of a step that names none.
    pub default_timeout_secs: Option<u64>,
}

/// The map that binds each name of `definitions` to its rendered text, later
/// definitions of a name replacing earlier ones.
pub open spec fn rendered_variables(definitions: Seq<(String, VariableDefinition)>) -> Seq<
    (Seq<char>, Seq<char>),
>
    decreases definitions.len(),
{
    if definitions.len() == 0 {
        Seq::empty()
    } else {
        bind(
            rendered_variables(definitions.drop_last()),
            definitions.last().0@,
            definitions.last().1.rendered(),
        )
    }
}

/// The definition that `definitions` gives to `name`: the last one, if any.
pub open spec fn definition_of(
    definitions: Seq<(String, VariableDefinition)>,
    name: Seq<char>,
) -> Option<VariableDefinition>
    decreases definitions.len(),
{
    if definitions.len() == 0 {
        None
    } else if definitions.last().0@ == name {
        Some(definitions.last().1)
    } else {
        definition_of(definitions.drop_last(), name)
    }
}

impl PipelineConfig {
    /// A definition with the name `name` and the steps `steps`, without
    /// variables, and with the usual retries and timeout.
    pub fn new(name: String, steps: Vec<StepConfig>) -> (c: Self)
        ensures
            c.name == name,
            c.steps == steps,
            c.version is None,
            c.variables@.len() == 0,
            c.max_retries is None,
            c.default_timeout_secs is None,
    {
        PipelineConfig {
            name,
            version: None,
            variables: Vec::new(),
            steps,
            max_retries: None,
            default_timeout_secs: None,
        }
    }

    /// The variables as they are defined.
    pub fn get_variables(&self) -> (r: Vec<(String, VariableDefinition)>)
        ensures
            r@ == self.variables@,
    {
        let mut r: Vec<(String, VariableDefinition)> = Vec::new();
        let mut i: usize = 0;
        while i < self.variables.len()
            invariant
                i <= self.variables.len(),
                r@ == self.variables@.take(i as int),
            decreases self.variables.len() - i,
        {
            r.push((self.variables[i].0.clone(), self.variables[i].1.clone()));
            i = i + 1;
        }
        r
    }

    /// The definition of the variable `name`.
    pub fn get_variable(&self, name: &str) -> (r: Option<&VariableDefinition>)
        ensures
            match r {
                Some(d) => definition_of(self.variables@, name@) == Some(*d),
                None => definition_of(self.variables@, name@) is None,
            },
    {
        let mut i: usize = self.variables.len();
        proof {
            assert(self.variables@.take(i as int) =~= self.variables@);
        }
        while i > 0
            invariant
                i <= self.variables.len(),
                definition_of(self.variables@, name@) == definition_of(
                    self.variables@.take(i as int),
                    name@,
                ),
            decreases i,
        {
            i = i - 1;
            proof {
                assert(self.variables@.take(i + 1).drop_last() =~= self.variables@.take(i as int));
            }
            if same_text(self.variables[i].0.as_str(), name) {
                return Some(&self.variables[i].1);
            }
        }
        None
    }

    /// The variables by name, each as the text that stands for it in a prompt.
    pub fn variables_as_string_map(&self) -> (vars: Variables)
        ensures
            vars@ == rendered_variables(self.variables@),
    {
        let mut vars = Variables::new();
        let mut i: usize = 0;
        while i < self.variables.len()
            invariant
                i <= self.variables.len(),
                vars@ == rendered_variables(self.variables@.take(i as int)),
            decreases self.variables.len() - i,
        {
            proof {
                assert(self.variables@.take(i + 1).drop_last() =~= self.variables@.take(i as int));
            }
            vars.insert(self.variables[i].0.clone(), self.variables[i].1.render_value());
            i = i + 1;
        }
        proof {
            assert(self.variables@.take(self.variables.len() as int) =~= self.variables@);
        }
        vars
    }
}

} // verus!
