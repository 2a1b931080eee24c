//! Steps, and the patterns by which their replies are judged.

use crate::model::condition::TerminationCondition;
use crate::model::config::{ContinuationAction, StepConfig};
use crate::model::state::StepState;
use crate::model::variables::Variables;
use crate::text::{clone_list, clone_opt, concat, contains, is_substring, replace, replace_all};
use vstd::prelude::*;

verus! {

#[verifier::external_type_specification]
#[verifier::external_body]
pub struct ExRegex(regex::Regex);

#[verifier::external_type_specification]
#[verifier::external_body]
pub struct ExRegexError(regex::Error);

/// The pattern text that a compiled expression was made from.
pub uninterp spec fn regex_source(re: regex::Regex) -> Seq<char>;

/// The expression that `pattern` compiles to, if it is a regular expression
/// that the regex crate accepts.
pub uninterp spec fn regex_compiled(pattern: Seq<char>) -> Option<regex::Regex>;

/// Whether the expression `re` finds a match somewhere in `text`.
pub uninterp spec fn regex_finds(re: regex::Regex, text: Seq<char>) -> bool;

/// A clone of a compiled expression is the same expression.
pub assume_specification[ <regex::Regex as Clone>::clone ](re: &regex::Regex) -> (r: regex::Regex)
    ensures
        r == *re,
;

/// `regex::Regex::new`: compiles `pattern`, or refuses it; the same pattern
/// always fares the same. A compiled expression remembers the text it was
/// made from.
#[verifier::external_body]
fn regex_compile(pattern: &str) -> (r: Result<regex::Regex, regex::Error>)
    ensures
        r is Ok == regex_compiled(pattern@) is Some,
        r matches Ok(re) ==> regex_compiled(pattern@) == Some(re) && regex_source(re)
            == pattern@,
{
    regex::Regex::new(pattern)
}

/// `regex::Regex::is_match`: whether the expression matches anywhere in `text`.
#[verifier::external_body]
fn regex_is_match(re: &regex::Regex, text: &str) -> (b: bool)
    ensures
        b == regex_finds(*re, text@),
{
    re.is_match(text)
}

/// `regex::Regex::as_str`: the text the expression was compiled from.
#[verifier::external_body]
fn regex_as_str(re: &regex::Regex) -> (s: String)
    ensures
        s@ == regex_source(*re),
{
    re.as_str().to_string()
}

/// A pattern looked for in the reply of the agent.
#[derive(Debug)]
pub enum ConditionPattern {
    /// Matches a reply that contains the text.
    Simple(String),
    /// Matches a reply in which the expression finds a match.
    Regex(regex::Regex),
}

/// What a pattern says: a text to be contained, or a regular expression to
/// be matched.
pub enum PatternView {
    Simple(Seq<char>),
    Regex(regex::Regex),
}

impl PatternView {
    /// Whether the pattern matches `text`.
    pub open spec fn matches(self, text: Seq<char>) -> bool {
        match self {
            PatternView::Simple(p) => is_substring(p, text),
            PatternView::Regex(re) => regex_finds(re, text),
        }
    }

    /// The pattern as it is shown to the agent: the text itself, or the source
    /// of the expression marked as one.
    pub open spec fn shown(self) -> Seq<char> {
        match self {
            PatternView::Simple(p) => p,
            PatternView::Regex(re) => "[regex: "@ + regex_source(re) + "]"@,
        }
    }

    /// The pattern that a definition asks for: a regular expression where one
    /// is wanted and the text compiles, the plain text otherwise.
    pub open spec fn compiled(source: Seq<char>, use_regex: bool) -> PatternView {
        if use_regex && regex_compiled(source) is Some {
            PatternView::Regex(regex_compiled(source)->0)
        } else {
            PatternView::Simple(source)
        }
    }
}

impl View for ConditionPattern {
    type V = PatternView;

    open spec fn view(&self) -> PatternView {
        match *self {
            ConditionPattern::Simple(p) => PatternView::Simple(p@),
            ConditionPattern::Regex(re) => PatternView::Regex(re),
        }
    }
}

impl Clone for ConditionPattern {
    fn clone(&self) -> (r: Self)
        ensures
            r == *self,
    {
        match self {
            ConditionPattern::Simple(p) => ConditionPattern::Simple(p.clone()),
            ConditionPattern::Regex(re) => ConditionPattern::Regex(re.clone()),
        }
    }
}

impl ConditionPattern {
    /// The pattern that a definition asks for. A text that does not compile as
    /// a regular expression is taken as a plain text.
    pub fn compile(source: &str, use_regex: bool) -> (p: Self)
        ensures
            p@ == PatternView::compiled(source@, use_regex),
    {
        if use_regex {
            match regex_compile(source) {
                Ok(re) => ConditionPattern::Regex(re),
                Err(_) => ConditionPattern::Simple(source.to_owned()),
            }
        } else {
            ConditionPattern::Simple(source.to_owned())
        }
    }

    /// Whether the pattern matches `text`.
    pub fn matches(&self, text: &str) -> (b: bool)
        ensures
            b == self@.matches(text@),
    {
        match self {
            ConditionPattern::Simple(pattern) => contains(text, pattern.as_str()),
            ConditionPattern::Regex(re) => regex_is_match(re, text),
        }
    }

    /// The pattern as it is shown to the agent.
    pub fn display(&self) -> (s: String)
        ensures
            s@ == self@.shown(),
    {
        match self {
            ConditionPattern::Simple(p) => p.clone(),
            ConditionPattern::Regex(re) => {
                let source = regex_as_str(re);
                let head = concat("[regex: ", source.as_str());
                concat(head.as_str(), "]")
            },
        }
    }
}

/// When a step asks for more work, and what is done then.
#[derive(Debug)]
pub struct ContinuationCondition {
    /// The pattern that signals that the step is not done.
    pub pattern: ConditionPattern,
    /// What to do then.
    pub action: ContinuationAction,
    /// The step to go to when the action is to route.
    pub target: Option<String>,
}

impl Clone for ContinuationCondition {
    fn clone(&self) -> (r: Self)
        ensures
            r == *self,
    {
        ContinuationCondition {
            pattern: self.pattern.clone(),
            action: self.action,
            target: clone_opt(&self.target),
        }
    }
}

/// What a step falls back on where its definition is silent.
#[derive(Debug, Clone)]
pub struct StepDefaults {
    pub max_retries: usize,
    pub timeout_secs: u64,
}

impl Default for StepDefaults {
    fn default() -> (d: Self)
        ensures
            d.max_retries == 3,
            d.timeout_secs == 300,
    {
        StepDefaults { max_retries: 3, timeout_secs: 300 }
    }
}

/// One prompt of a pipeline, with its sentinels, its retries and its state.
#[derive(Debug)]
pub struct Step {
    /// The id of the step, unique in its pipeline.
    pub id: String,
    /// The prompt template.
    pub prompt_template: String,
    /// The ids of the steps that must have ended before this one starts.
    pub dependencies: Vec<String>,
    /// When the step is done.
    pub termination: Option<TerminationCondition>,
    /// When the step asks for more work.
    pub continuation: Option<ContinuationCondition>,
    /// The number of retries: a step runs at most once more than this.
    pub max_retries: usize,
    /// The timeout of one run, in seconds.
    pub timeout_secs: u64,
    /// Where the step stands.
    pub state: StepState,
}

impl Clone for Step {
    fn clone(&self) -> (r: Self)
        ensures
            r.id == self.id,
            r.prompt_template == self.prompt_template,
            r.dependencies@ == self.dependencies@,
            r.termination == self.termination,
            r.continuation == self.continuation,
            r.max_retries == self.max_retries,
            r.timeout_secs == self.timeout_secs,
            r.state == self.state,
    {
        Step {
            id: self.id.clone(),
            prompt_template: self.prompt_template.clone(),
            dependencies: clone_list(&self.dependencies),
            termination: match &self.termination {
                Some(t) => Some(t.clone()),
                None => None,
            },
            continuation: match &self.continuation {
                Some(c) => Some(c.clone()),
                None => None,
            },
            max_retries: self.max_retries,
            timeout_secs: self.timeout_secs,
            state: self.state.clone(),
        }
    }
}

/// The placeholder that stands for the variable `name` in a template.
pub open spec fn placeholder(name: Seq<char>) -> Seq<char> {
    "{{ "@ + name + " }}"@
}

/// `template` with the placeholders of `vars` filled in: one variable after
/// the other, in the order of `vars`, each replacing every occurrence of its
/// placeholder. A placeholder of no variable stays as it is.
pub open spec fn rendered(template: Seq<char>, vars: Seq<(Seq<char>, Seq<char>)>) -> Seq<char>
    decreases vars.len(),
{
    if vars.len() == 0 {
        template
    } else {
        rendered(replace_all(template, placeholder(vars[0].0), vars[0].1), vars.drop_first())
    }
}

/// The line that tells the agent how to signal success.
pub open spec fn success_instruction(shown: Seq<char>) -> Seq<char> {
    "\n\n--- IMPORTANT: When you complete this "@ + "task successfully, print exactly: "@
        + shown + "\n"@
}

/// The line that tells the agent how to ask for more work.
pub open spec fn continuation_instruction(shown: Seq<char>) -> Seq<char> {
    "If you need more work on this "@ + "task, print exactly: "@ + shown + "\n"@
}

/// The line that a step with no sentinel of its own ends its prompt with.
pub open spec fn default_instruction() -> Seq<char> {
    "\n\n--- IMPORTANT: When you complete this "@ + "task, print: ✓ DONE\n"@
}

impl Step {
    /// The step that follows on success, if any.
    pub open spec fn success_target(self) -> Option<Seq<char>> {
        match self.termination {
            Some(t) => crate::text::opt_text(t.on_success),
            None => None,
        }
    }

    /// The step that follows when the success pattern is missing, if any.
    pub open spec fn failure_target(self) -> Option<Seq<char>> {
        match self.termination {
            Some(t) => crate::text::opt_text(t.on_failure),
            None => None,
        }
    }

    /// Whether `output` signals success: it matches the success pattern, or,
    /// where none is set, it contains `DONE`.
    pub open spec fn signals_success(self, output: Seq<char>) -> bool {
        match self.termination {
            Some(t) => t.success_pattern@.matches(output),
            None => is_substring("✓ DONE"@, output) || is_substring("DONE"@, output),
        }
    }

    /// Whether `output` asks for more work: a continuation is set and its
    /// pattern matches.
    pub open spec fn signals_continuation(self, output: Seq<char>) -> bool {
        match self.continuation {
            Some(c) => c.pattern@.matches(output),
            None => false,
        }
    }

    /// The instructions that follow the rendered template in a prompt.
    pub open spec fn instructions(self) -> Seq<char> {
        let first = match self.termination {
            Some(t) => success_instruction(t.success_pattern@.shown()),
            None => Seq::<char>::empty(),
        };
        let second = match self.continuation {
            Some(c) => continuation_instruction(c.pattern@.shown()),
            None => Seq::<char>::empty(),
        };
        if self.termination is None && self.continuation is None {
            default_instruction()
        } else {
            first + second
        }
    }

    /// The prompt that is sent to the agent.
    pub open spec fn effective_prompt(self, vars: Seq<(Seq<char>, Seq<char>)>) -> Seq<char> {
        rendered(self.prompt_template@, vars) + self.instructions()
    }

    /// Whether the step is what `config` defines, not yet started: patterns
    /// compiled, and retries and timeout taken from `defaults` where the
    /// definition is silent.
    pub open spec fn defined_by(self, config: StepConfig, defaults: StepDefaults) -> bool {
        &&& self.id@ == config.id@
        &&& self.prompt_template@ == config.prompt@
        &&& self.dependencies@ == config.depends_on@
        &&& self.state@ == crate::model::state::StepStateView::Pending
        &&& self.max_retries == match config.max_retries {
            Some(n) => n,
            None => defaults.max_retries,
        }
        &&& self.timeout_secs == match config.timeout_secs {
            Some(n) => n,
            None => defaults.timeout_secs,
        }
        &&& match config.termination {
            Some(t) => self.termination matches Some(st) && st.success_pattern@
                == PatternView::compiled(t.success_pattern@, t.use_regex) && st.on_success
                == t.on_success && st.on_failure == t.on_failure,
            None => self.termination is None,
        }
        &&& match config.continuation {
            Some(c) => self.continuation matches Some(sc) && sc.pattern@ == PatternView::compiled(
                c.pattern@,
                c.use_regex,
            ) && sc.action == c.action && sc.target == c.target,
            None => self.continuation is None,
        }
    }

    /// The step that `config` defines, not yet started.
    pub fn from_config(config: &StepConfig, defaults: &StepDefaults) -> (step: Self)
        ensures
            step.defined_by(*config, *defaults),
    {
        let termination = match &config.termination {
            Some(t) => Some(
                TerminationCondition {
                    success_pattern: ConditionPattern::compile(
                        t.success_pattern.as_str(),
                        t.use_regex,
                    ),
                    on_success: clone_opt(&t.on_success),
                    on_failure: clone_opt(&t.on_failure),
                },
            ),
            None => None,
        };
        let continuation = match &config.continuation {
            Some(c) => Some(
                ContinuationCondition {
                    pattern: ConditionPattern::compile(c.pattern.as_str(), c.use_regex),
                    action: c.action,
                    target: clone_opt(&c.target),
                },
            ),
            None => None,
        };
        Step {
            id: config.id.clone(),
            prompt_template: config.prompt.clone(),
            dependencies: clone_list(&config.depends_on),
            termination,
            continuation,
            max_retries: match config.max_retries {
                Some(n) => n,
                None => defaults.max_retries,
            },
            timeout_secs: match config.timeout_secs {
                Some(n) => n,
                None => defaults.timeout_secs,
            },
            state: StepState::Pending,
        }
    }

    /// Whether every dependency of the step is among `ended`.
    pub fn dependencies_met(&self, ended: &Vec<String>) -> (b: bool)
        ensures
            b == forall|i: int|
                0 <= i < self.dependencies@.len() ==> crate::text::texts(ended@).contains(
                    #[trigger] self.dependencies@[i]@,
                ),
    {
        let mut i: usize = 0;
        while i < self.dependencies.len()
            invariant
                i <= self.dependencies@.len(),
                forall|k: int|
                    0 <= k < i ==> crate::text::texts(ended@).contains(
                        #[trigger] self.dependencies@[k]@,
                    ),
            decreases self.dependencies.len() - i,
        {
            if !crate::text::list_contains(ended, self.dependencies[i].as_str()) {
                return false;
            }
            i = i + 1;
        }
        true
    }

    /// The template with the placeholders of `variables` filled in.
    pub fn render_prompt(&self, variables: &Variables) -> (s: String)
        ensures
            s@ == rendered(self.prompt_template@, variables@),
    {
        let mut prompt = self.prompt_template.clone();
        let n = variables.len();
        let mut i: usize = 0;
        proof {
            assert(variables@.subrange(0, variables@.len() as int) =~= variables@);
        }
        while i < n
            invariant
                i <= n,
                n == variables@.len(),
                rendered(self.prompt_template@, variables@) == rendered(
                    prompt@,
                    variables@.subrange(i as int, n as int),
                ),
            decreases n - i,
        {
            let head = concat("{{ ", variables.key_at(i).as_str());
            let mark = concat(head.as_str(), " }}");
            let ghost rest = variables@.subrange(i as int, n as int);
            proof {
                assert(rest.drop_first() =~= variables@.subrange(i + 1, n as int));
            }
            prompt = replace(prompt.as_str(), mark.as_str(), variables.value_at(i).as_str());
            i = i + 1;
        }
        prompt
    }

    /// The prompt that is sent to the agent: the rendered template, then the
    /// instructions that name the sentinels.
    pub fn build_effective_prompt(&self, variables: &Variables) -> (s: String)
        ensures
            s@ == self.effective_prompt(variables@),
    {
        let mut instructions = String::new();
        let mut has_instructions = false;
        if let Some(termination) = &self.termination {
            let shown = termination.success_pattern.display();
            instructions.append("\n\n--- IMPORTANT: When you complete this ");
            instructions.append("task successfully, print exactly: ");
            instructions.append(shown.as_str());
            instructions.append("\n");
            has_instructions = true;
        }
        if let Some(continuation) = &self.continuation {
            let shown = continuation.pattern.display();
            instructions.append("If you need more work on this ");
            instructions.append("task, print exactly: ");
            instructions.append(shown.as_str());
            instructions.append("\n");
            has_instructions = true;
        }
        if !has_instructions {
            instructions.append("\n\n--- IMPORTANT: When you complete this ");
            instructions.append("task, print: ✓ DONE\n");
        }
        let rendered_prompt = self.render_prompt(variables);
        concat(rendered_prompt.as_str(), instructions.as_str())
    }

    /// Whether `output` signals success.
    pub fn is_success(&self, output: &str) -> (b: bool)
        ensures
            b == self.signals_success(output@),
    {
        if let Some(termination) = &self.termination {
            termination.success_pattern.matches(output)
        } else {
            contains(output, "✓ DONE") || contains(output, "DONE")
        }
    }

    /// Whether `output` asks for more work.
    pub fn needs_continuation(&self, output: &str) -> (b: bool)
        ensures
            b == self.signals_continuation(output@),
    {
        if let Some(continuation) = &self.continuation {
            continuation.pattern.matches(output)
        } else {
            false
        }
    }

    /// The step that follows on success, if any.
    pub fn next_step_on_success(&self) -> (r: Option<&String>)
        ensures
            crate::text::opt_ref_text(r) == self.success_target(),
    {
        match &self.termination {
            Some(t) => match &t.on_success {
                Some(s) => Some(s),
                None => None,
            },
            None => None,
        }
    }

    /// The step that follows when the success pattern is missing, if any.
    pub fn next_step_on_failure(&self) -> (r: Option<&String>)
        ensures
            crate::text::opt_ref_text(r) == self.failure_target(),
    {
        match &self.termination {
            Some(t) => match &t.on_failure {
                Some(s) => Some(s),
                None => None,
            },
            None => None,
        }
    }

    /// The action of the continuation and its target, if a continuation is set.
    pub fn get_continuation_action(&self) -> (r: Option<(ContinuationAction, Option<&String>)>)
        ensures
            match self.continuation {
                Some(c) => r matches Some(pair) && pair.0 == c.action && crate::text::opt_ref_text(
                    pair.1,
                ) == crate::text::opt_text(c.target),
                None => r is None,
            },
    {
        match &self.continuation {
            Some(c) => Some(
                (
                    c.action,
                    match &c.target {
                        Some(t) => Some(t),
                        None => None,
                    },
                ),
            ),
            None => None,
        }
    }
}

} // verus!
