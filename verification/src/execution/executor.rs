//! Running one step: the prompt that is sent, and what the reply means.

use crate::agent::{AgentError, AgentExecutor, AgentResponse, ProgressCallback};
use crate::model::config::ContinuationAction;
use crate::model::context::PipelineContext;
use crate::model::step::Step;
use crate::text::{clone_opt, concat, decimal, decimal_string, opt_text, texts};
use std::sync::atomic::AtomicBool;
use std::sync::Arc;
use vstd::prelude::*;

verus! {

/// What is done when a step asks for more work.
#[derive(Debug, PartialEq, Eq)]
pub enum ContinueAction {
    /// Run the same step again.
    Retry,
    /// Go to the step with this id.
    Route(String),
}

/// What a `ContinueAction` says.
pub enum ContinueActionView {
    Retry,
    Route(Seq<char>),
}

impl View for ContinueAction {
    type V = ContinueActionView;

    open spec fn view(&self) -> ContinueActionView {
        match *self {
            ContinueAction::Retry => ContinueActionView::Retry,
            ContinueAction::Route(target) => ContinueActionView::Route(target@),
        }
    }
}

impl Clone for ContinueAction {
    fn clone(&self) -> (r: Self)
        ensures
            r == *self,
    {
        match self {
            ContinueAction::Retry => ContinueAction::Retry,
            ContinueAction::Route(target) => ContinueAction::Route(target.clone()),
        }
    }
}

/// How one run of a step ended.
#[derive(Debug)]
pub enum ExecutionResult {
    /// The reply signals success.
    Success { output: String, next_step: Option<String> },
    /// The reply asks for more work, or signals nothing and no failure route
    /// is set.
    Continue { action: ContinueAction, target: Option<String> },
    /// The reply signals nothing, and a failure route is set.
    FailedWithRoute { error: String, next_step: String },
    /// The agent could not be asked, or did not answer in time.
    Failed { error: String },
    /// The run was interrupted.
    Interrupted {
        step_id: String,
        accumulated_output: String,
        recent_lines: Vec<String>,
        original_prompt: String,
    },
}

/// What an `ExecutionResult` says.
pub enum ExecutionResultView {
    Success { output: Seq<char>, next_step: Option<Seq<char>> },
    Continue { action: ContinueActionView, target: Option<Seq<char>> },
    FailedWithRoute { error: Seq<char>, next_step: Seq<char> },
    Failed { error: Seq<char> },
    Interrupted {
        step_id: Seq<char>,
        accumulated_output: Seq<char>,
        recent_lines: Seq<Seq<char>>,
        original_prompt: Seq<char>,
    },
}

impl View for ExecutionResult {
    type V = ExecutionResultView;

    open spec fn view(&self) -> ExecutionResultView {
        match *self {
            ExecutionResult::Success { output, next_step } => ExecutionResultView::Success {
                output: output@,
                next_step: opt_text(next_step),
            },
            ExecutionResult::Continue { action, target } => ExecutionResultView::Continue {
                action: action@,
                target: opt_text(target),
            },
            ExecutionResult::FailedWithRoute { error, next_step } => {
                ExecutionResultView::FailedWithRoute { error: error@, next_step: next_step@ }
            },
            ExecutionResult::Failed { error } => ExecutionResultView::Failed { error: error@ },
            ExecutionResult::Interrupted {
                step_id,
                accumulated_output,
                recent_lines,
                original_prompt,
            } => ExecutionResultView::Interrupted {
                step_id: step_id@,
                accumulated_output: accumulated_output@,
                recent_lines: texts(recent_lines@),
                original_prompt: original_prompt@,
            },
        }
    }
}

impl Clone for ExecutionResult {
    fn clone(&self) -> (r: Self)
        ensures
            r@ == self@,
    {
        match self {
            ExecutionResult::Success { output, next_step } => ExecutionResult::Success {
                output: output.clone(),
                next_step: clone_opt(next_step),
            },
            ExecutionResult::Continue { action, target } => ExecutionResult::Continue {
                action: action.clone(),
                target: clone_opt(target),
            },
            ExecutionResult::FailedWithRoute { error, next_step } => {
                ExecutionResult::FailedWithRoute {
                    error: error.clone(),
                    next_step: next_step.clone(),
                }
            },
            ExecutionResult::Failed { error } => ExecutionResult::Failed { error: error.clone() },
            ExecutionResult::Interrupted {
                step_id,
                accumulated_output,
                recent_lines,
                original_prompt,
            } => ExecutionResult::Interrupted {
                step_id: step_id.clone(),
                accumulated_output: accumulated_output.clone(),
                recent_lines: crate::text::clone_list(recent_lines),
                original_prompt: original_prompt.clone(),
            },
        }
    }
}

/// The result of a run that asks for the same step again.
pub open spec fn retry_verdict() -> ExecutionResultView {
    ExecutionResultView::Continue { action: ContinueActionView::Retry, target: None }
}

/// What the reply `reply` to the step `step` means. A continuation that
/// matches comes first: the step is retried, or the run goes to the target of
/// the continuation (a route without a target can only be a retry). Then the
/// success pattern: the step has succeeded. A reply that signals neither
/// fails towards the failure route where one is set, and is retried otherwise.
pub open spec fn verdict(step: Step, reply: Seq<char>) -> ExecutionResultView {
    if step.signals_continuation(reply) {
        match (step.continuation->0.action, step.continuation->0.target) {
            (ContinuationAction::Route, Some(target)) => ExecutionResultView::Continue {
                action: ContinueActionView::Route(target@),
                target: Some(target@),
            },
            _ => retry_verdict(),
        }
    } else if step.signals_success(reply) {
        ExecutionResultView::Success { output: reply, next_step: step.success_target() }
    } else {
        match step.failure_target() {
            Some(target) => ExecutionResultView::FailedWithRoute {
                error: "No termination pattern found"@,
                next_step: target,
            },
            None => retry_verdict(),
        }
    }
}

/// The result of a run in which the agent gave no answer for
/// `timeout_secs` seconds.
pub open spec fn timeout_verdict(timeout_secs: u64) -> ExecutionResultView {
    ExecutionResultView::Failed {
        error: "Timeout after "@ + decimal(timeout_secs as nat) + " seconds"@,
    }
}

/// What the answer `answer` of the agent means for the step `step`: the
/// verdict on its text, or the failure of the call.
pub open spec fn outcome(step: Step, answer: Result<AgentResponse, AgentError>) -> ExecutionResultView {
    match answer {
        Ok(response) => verdict(step, response.content@),
        Err(e) => ExecutionResultView::Failed { error: e.message_text() },
    }
}

/// The lines that an interrupted run reports: those that the observer kept.
pub open spec fn kept_lines(lines: Option<Vec<String>>) -> Seq<Seq<char>> {
    match lines {
        Some(l) => texts(l@),
        None => Seq::empty(),
    }
}

/// What a run means that may have been interrupted after the agent
/// answered: an interruption keeps the text of a good answer and drops a
/// failure.
pub open spec fn interruptible_outcome(
    step: Step,
    prompt: Seq<char>,
    answer: Result<AgentResponse, AgentError>,
    interrupted: bool,
    lines: Option<Vec<String>>,
) -> ExecutionResultView {
    if interrupted {
        ExecutionResultView::Interrupted {
            step_id: step.id@,
            accumulated_output: match answer {
                Ok(response) => response.content@,
                Err(_) => Seq::empty(),
            },
            recent_lines: kept_lines(lines),
            original_prompt: prompt,
        }
    } else {
        outcome(step, answer)
    }
}

/// A continuation that matches wins over a success pattern that matches too.
pub proof fn lemma_continuation_precedence(step: Step, reply: Seq<char>)
    requires
        step.signals_continuation(reply),
        step.signals_success(reply),
    ensures
        verdict(step, reply) is Continue,
        !(verdict(step, reply) is Success),
{
}

/// The prompt that is sent to the agent for `step`: its template rendered
/// with what `context` holds, then the instructions that name its sentinels.
pub fn prompt_for(step: &Step, context: &PipelineContext) -> (prompt: String)
    ensures
        prompt@ == step.effective_prompt(context.rendering_variables()),
{
    let variables = context.get_rendering_variables();
    step.build_effective_prompt(&variables)
}

/// What the reply `reply` to the step `step` means.
pub fn classify(step: &Step, reply: String) -> (r: ExecutionResult)
    ensures
        r@ == verdict(*step, reply@),
{
    if step.needs_continuation(reply.as_str()) {
        if let Some(continuation) = &step.continuation {
            return match (continuation.action, &continuation.target) {
                (ContinuationAction::Route, Some(target)) => ExecutionResult::Continue {
                    action: ContinueAction::Route(target.clone()),
                    target: Some(target.clone()),
                },
                _ => ExecutionResult::Continue { action: ContinueAction::Retry, target: None },
            };
        }
    }
    if step.is_success(reply.as_str()) {
        let next_step = match step.next_step_on_success() {
            Some(next) => Some(next.clone()),
            None => None,
        };
        return ExecutionResult::Success { output: reply, next_step };
    }
    match step.next_step_on_failure() {
        Some(target) => ExecutionResult::FailedWithRoute {
            error: "No termination pattern found".to_owned(),
            next_step: target.clone(),
        },
        None => ExecutionResult::Continue { action: ContinueAction::Retry, target: None },
    }
}

/// What the answer `answer` of the agent means for the step `step`.
pub fn settle(step: &Step, answer: Result<AgentResponse, AgentError>) -> (r: ExecutionResult)
    ensures
        r@ == outcome(*step, answer),
{
    match answer {
        Ok(response) => classify(step, response.content),
        Err(e) => ExecutionResult::Failed { error: e.message() },
    }
}

/// The result of a run in which the agent gave no answer within the timeout
/// of the step.
pub fn timeout_failure(step: &Step) -> (r: ExecutionResult)
    ensures
        r@ == timeout_verdict(step.timeout_secs),
{
    let n = decimal_string(step.timeout_secs);
    let head = concat("Timeout after ", n.as_str());
    ExecutionResult::Failed { error: concat(head.as_str(), " seconds") }
}

/// The result of a run that was interrupted before the agent was asked: it
/// holds no output and no lines, and the template of the step as its prompt.
pub open spec fn interrupted_at_once(step: Step) -> ExecutionResultView {
    ExecutionResultView::Interrupted {
        step_id: step.id@,
        accumulated_output: Seq::empty(),
        recent_lines: Seq::empty(),
        original_prompt: step.prompt_template@,
    }
}

/// The result of a run that was interrupted before the agent was asked.
pub fn interrupted_before(step: &Step) -> (r: ExecutionResult)
    ensures
        r@ == interrupted_at_once(*step),
{
    let r = ExecutionResult::Interrupted {
        step_id: step.id.clone(),
        accumulated_output: String::new(),
        recent_lines: Vec::new(),
        original_prompt: step.prompt_template.clone(),
    };
    proof {
        assert(texts(Seq::<String>::empty()) =~= Seq::<Seq<char>>::empty());
    }
    r
}

/// What a run means that may have been interrupted after the agent answered.
pub fn settle_interruptible(
    step: &Step,
    prompt: String,
    answer: Result<AgentResponse, AgentError>,
    interrupted: bool,
    lines: Option<Vec<String>>,
) -> (r: ExecutionResult)
    ensures
        r@ == interruptible_outcome(*step, prompt@, answer, interrupted, lines),
{
    if interrupted {
        let accumulated_output = match answer {
            Ok(response) => response.content,
            Err(_) => String::new(),
        };
        let recent_lines = match lines {
            Some(l) => l,
            None => {
                proof {
                    assert(texts(Seq::<String>::empty()) =~= Seq::<Seq<char>>::empty());
                }
                Vec::new()
            },
        };
        ExecutionResult::Interrupted {
            step_id: step.id.clone(),
            accumulated_output,
            recent_lines,
            original_prompt: prompt,
        }
    } else {
        settle(step, answer)
    }
}

/// What a run means whose answer was awaited for at most the timeout of the
/// step: no answer in time is a timeout, which an interruption turns into
/// an interruption without output; any answer is judged as usual.
pub open spec fn awaited_outcome(
    step: Step,
    prompt: Seq<char>,
    answer: Option<Result<AgentResponse, AgentError>>,
    interrupted: bool,
    lines: Option<Vec<String>>,
) -> ExecutionResultView {
    match answer {
        Some(given) => interruptible_outcome(step, prompt, given, interrupted, lines),
        None => if interrupted {
            ExecutionResultView::Interrupted {
                step_id: step.id@,
                accumulated_output: Seq::empty(),
                recent_lines: kept_lines(lines),
                original_prompt: prompt,
            }
        } else {
            timeout_verdict(step.timeout_secs)
        },
    }
}

/// What a run means whose answer was awaited for at most the timeout of the
/// step; `answer` is `None` where none came in time.
pub fn settle_awaited(
    step: &Step,
    prompt: String,
    answer: Option<Result<AgentResponse, AgentError>>,
    interrupted: bool,
    lines: Option<Vec<String>>,
) -> (r: ExecutionResult)
    ensures
        r@ == awaited_outcome(*step, prompt@, answer, interrupted, lines),
{
    match answer {
        Some(given) => settle_interruptible(step, prompt, given, interrupted, lines),
        None => {
            if interrupted {
                settle_interruptible(
                    step,
                    prompt,
                    Err(AgentError::Timeout(step.timeout_secs)),
                    true,
                    lines,
                )
            } else {
                timeout_failure(step)
            }
        },
    }
}

/// Whether the flag is set. Another thread may set it at any time, so
/// nothing is known of the answer.
fn is_set(flag: &Arc<AtomicBool>) -> bool {
    flag.load(std::sync::atomic::Ordering::SeqCst)
}

/// Runs steps with an agent.
pub struct StepExecutor<A> {
    agent: A,
}

impl<A: AgentExecutor> StepExecutor<A> {
    /// The agent that is asked.
    pub closed spec fn asks(self) -> A {
        self.agent
    }

    /// An executor that asks `agent`.
    pub fn new(agent: A) -> (e: Self)
        ensures
            e.asks() == agent,
    {
        StepExecutor { agent }
    }

    /// The agent that is asked.
    pub fn agent(&self) -> (a: &A)
        ensures
            *a == self.asks(),
    {
        &self.agent
    }

    /// Runs `step` once: asks the agent with the prompt that `prompt_for`
    /// makes, handing it `callback`, and judges the answer. Whatever the
    /// agent answers, the result is what that answer means for the step; it
    /// is never an interruption.
    pub fn execute<C: ProgressCallback>(
        &self,
        step: &Step,
        context: &PipelineContext,
        callback: Option<&C>,
    ) -> (r: ExecutionResult)
        ensures
            exists|answer: Result<AgentResponse, AgentError>| r@ == outcome(*step, answer),
            !(r@ is Interrupted),
    {
        let prompt = prompt_for(step, context);
        let answer = self.agent.execute_streaming(prompt.as_str(), callback);
        let r = settle(step, answer);
        r
    }

    /// Runs `step` once, unless `interrupted` is set: before the agent is
    /// asked, the run ends at once; after it has answered, the run ends as
    /// an interruption that keeps the text of the answer and the lines that
    /// the observer kept.
    pub fn execute_interruptible<C: ProgressCallback>(
        &self,
        step: &Step,
        context: &PipelineContext,
        callback: Option<&C>,
        interrupted: Arc<AtomicBool>,
    ) -> (r: ExecutionResult)
        ensures
            r@ == interrupted_at_once(*step) || exists|
                answer: Result<AgentResponse, AgentError>,
                interrupted: bool,
                lines: Option<Vec<String>>,
            |
                r@ == interruptible_outcome(
                    *step,
                    step.effective_prompt(context.rendering_variables()),
                    answer,
                    interrupted,
                    lines,
                ),
            r@ is Interrupted ==> r@->Interrupted_step_id == step.id@,
            !(r@ is Interrupted) ==> exists|answer: Result<AgentResponse, AgentError>|
                r@ == outcome(*step, answer),
    {
        if is_set(&interrupted) {
            return interrupted_before(step);
        }
        let prompt = prompt_for(step, context);
        let answer = self.agent.execute_streaming(prompt.as_str(), callback);
        if is_set(&interrupted) {
            let lines = match callback {
                Some(cb) => cb.get_context_lines(),
                None => None,
            };
            settle_interruptible(step, prompt, answer, true, lines)
        } else {
            settle_interruptible(step, prompt, answer, false, None)
        }
    }
}

} // verus!
