use pipeline::agent::{AgentError, AgentExecutor, AgentResponse, ProgressCallback};
use pipeline::agent::NoopCallback;
use pipeline::execution::{
    ContinueAction, ExecutionEngine, ExecutionResult, SchedulingStrategy, StepExecutor,
};
use pipeline::model::condition::TerminationCondition;
use pipeline::model::{PipelineContext, Step};
use std::sync::atomic::{AtomicBool, Ordering};
use std::sync::Arc;
use pipeline::model::config::{
    ContinuationAction, ContinuationConfig, PipelineConfig, StepConfig, TerminationConfig,
    VariableDefinition, VariableSource,
};
use pipeline::model::{
    ConditionPattern, ContinuationCondition, ExecutionStatus, Pipeline, StepState, Timestamp,
};
use serde_yaml::Value;
use std::cell::Cell;

/// Mock agent that returns predefined responses
pub struct MockAgent {
    responses: Vec<String>,
    index: Cell<usize>,
}

impl MockAgent {
    pub fn new(responses: Vec<String>) -> Self {
        Self { responses, index: Cell::new(0) }
    }

    fn next(&self) -> Result<AgentResponse, AgentError> {
        let idx = self.index.get();
        self.index.set(idx + 1);
        if idx >= self.responses.len() {
            return Err(AgentError::Internal(format!(
                "MockAgent: No response available for request {}",
                idx + 1
            )));
        }
        Ok(AgentResponse::new(self.responses[idx].clone()))
    }
}

impl AgentExecutor for MockAgent {
    fn execute(&self, _prompt: &str) -> Result<AgentResponse, AgentError> {
        self.next()
    }

    fn execute_streaming<C: ProgressCallback>(
        &self,
        _prompt: &str,
        _callback: Option<&C>,
    ) -> Result<AgentResponse, AgentError> {
        self.next()
    }
}

fn text(value: Option<&Value>) -> Option<String> {
    value.and_then(|v| match v {
        Value::Null => None,
        Value::String(s) => Some(s.clone()),
        Value::Number(n) => Some(n.to_string()),
        Value::Bool(b) => Some(b.to_string()),
        other => panic!("expected a text, got {:?}", other),
    })
}

fn flag(value: Option<&Value>) -> bool {
    value.and_then(|v| v.as_bool()).unwrap_or(false)
}

fn step_from_yaml(value: &Value) -> StepConfig {
    let termination = value.get("termination").filter(|t| !t.is_null()).map(|t| TerminationConfig {
        success_pattern: text(t.get("success_pattern")).expect("success_pattern"),
        on_success: text(t.get("on_success")),
        on_failure: text(t.get("on_failure")),
        use_regex: flag(t.get("use_regex")),
    });
    let continuation = value.get("continuation").filter(|c| !c.is_null()).map(|c| ContinuationConfig {
        pattern: text(c.get("pattern")).expect("pattern"),
        action: match text(c.get("action")).as_deref() {
            None | Some("retry") => ContinuationAction::Retry,
            Some("route") => ContinuationAction::Route,
            Some(other) => panic!("unknown action {}", other),
        },
        target: text(c.get("target")),
        carry_notes: flag(c.get("carry_notes")),
        use_regex: flag(c.get("use_regex")),
    });
    StepConfig {
        id: text(value.get("id")).expect("id"),
        name: text(value.get("name")).expect("name"),
        description: text(value.get("description")),
        prompt: text(value.get("prompt")).expect("prompt"),
        depends_on: value
            .get("depends_on")
            .and_then(|d| d.as_sequence())
            .map(|d| d.iter().map(|x| text(Some(x)).unwrap()).collect())
            .unwrap_or_default(),
        termination,
        continuation,
        max_retries: value.get("max_retries").and_then(|v| v.as_u64()).map(|n| n as usize),
        timeout_secs: value.get("timeout_secs").and_then(|v| v.as_u64()),
        allow_parallel: flag(value.get("allow_parallel")),
    }
}

/// Reads a definition from YAML and checks it.
pub fn config_from_yaml(yaml: &str) -> Result<PipelineConfig, String> {
    let document: Value = serde_yaml::from_str(yaml).map_err(|e| e.to_string())?;
    let steps = document
        .get("steps")
        .and_then(|s| s.as_sequence())
        .map(|s| s.iter().map(step_from_yaml).collect())
        .unwrap_or_default();
    let mut config = PipelineConfig::new(text(document.get("name")).expect("name"), steps);
    config.version = text(document.get("version"));
    config.max_retries = document.get("max_retries").and_then(|v| v.as_u64()).map(|n| n as usize);
    config.default_timeout_secs = document.get("default_timeout_secs").and_then(|v| v.as_u64());
    if let Some(variables) = document.get("variables").and_then(|v| v.as_mapping()) {
        for (key, value) in variables {
            let source = match value {
                Value::String(s) => VariableSource::Text(s.clone()),
                Value::Mapping(_) => VariableSource::Mapping {
                    path: text(value.get("path")),
                    validate_exists: value.get("validate_exists").and_then(|v| v.as_bool()),
                },
                other => VariableSource::Other(serde_yaml::to_string(other).unwrap_or_default()),
            };
            config
                .variables
                .push((text(Some(key)).unwrap(), VariableDefinition::from_source(source)));
        }
    }
    let existing: Vec<String> = config
        .files_to_check()
        .into_iter()
        .filter(|path| std::path::Path::new(path).exists())
        .collect();
    config.validate(&existing).map_err(|e| e.message())?;
    Ok(config)
}

/// Run a pipeline with a mock agent that returns predefined responses
pub fn run_pipeline_with_mock(
    pipeline: &mut Pipeline,
    responses: Vec<String>,
) -> Result<PipelineTestResult, String> {
    let agent = MockAgent::new(responses);
    run_pipeline_with_agent(pipeline, agent)
}

/// Run a pipeline with any agent implementation
pub fn run_pipeline_with_agent<A: AgentExecutor>(
    pipeline: &mut Pipeline,
    agent: A,
) -> Result<PipelineTestResult, String> {
    let start = std::time::Instant::now();
    let mut engine = ExecutionEngine::new(agent, SchedulingStrategy::Sequential);
    engine.execute(pipeline)?;
    let duration = start.elapsed();

    Ok(PipelineTestResult {
        pipeline: copy_of(pipeline),
        duration_ms: duration.as_millis() as u64,
    })
}

fn copy_of(pipeline: &Pipeline) -> Pipeline {
    Pipeline {
        name: pipeline.name.clone(),
        variables: pipeline.variables.clone(),
        steps: pipeline.steps.clone(),
        state: pipeline.state.clone(),
        execution_order: pipeline.execution_order.clone(),
    }
}

/// Test result from running a pipeline
#[derive(Debug)]
pub struct PipelineTestResult {
    pub pipeline: Pipeline,
    pub duration_ms: u64,
}

impl PipelineTestResult {
    /// Check if the pipeline completed successfully
    pub fn is_success(&self) -> bool {
        matches!(self.pipeline.state.status, ExecutionStatus::Completed)
    }

    /// Check if the pipeline failed
    pub fn is_failed(&self) -> bool {
        matches!(self.pipeline.state.status, ExecutionStatus::Failed)
    }

    /// Get the output of a specific step
    pub fn get_step_output(&self, step_id: &str) -> Option<String> {
        self.pipeline.step(step_id).and_then(|s| {
            match &s.state {
                StepState::Completed { output, .. } => Some(output.clone()),
                _ => None,
            }
        })
    }

    /// Get the state of a specific step
    pub fn get_step_state(&self, step_id: &str) -> Option<&StepState> {
        self.pipeline.step(step_id).map(|s| &s.state)
    }

    /// Get the error message from a failed step
    pub fn get_step_error(&self, step_id: &str) -> Option<String> {
        self.pipeline.step(step_id).and_then(|s| {
            match &s.state {
                StepState::Failed { error, .. } => Some(error.clone()),
                _ => None,
            }
        })
    }

    /// Count how many times a step was executed (based on attempt count)
    pub fn count_step_attempts(&self, step_id: &str) -> usize {
        self.pipeline.step(step_id)
            .and_then(|s| match &s.state {
                StepState::Completed { attempts, .. } => Some(*attempts),
                StepState::Failed { attempts, .. } => Some(*attempts),
                _ => Some(0),
            })
            .unwrap_or(0)
    }

    /// Get the execution order of steps
    pub fn execution_order(&self) -> Vec<String> {
        self.pipeline.execution_order().to_vec()
    }

    /// Get completed steps in order
    pub fn completed_steps(&self) -> Vec<String> {
        self.pipeline.steps.iter()
            .filter(|s| matches!(s.state, StepState::Completed { .. }))
            .map(|s| s.id.clone())
            .collect()
    }

    /// Get failed steps
    pub fn failed_steps(&self) -> Vec<String> {
        self.pipeline.steps.iter()
            .filter(|s| matches!(s.state, StepState::Failed { .. }))
            .map(|s| s.id.clone())
            .collect()
    }

    /// Get a summary of the result
    pub fn summary(&self) -> String {
        let status = match self.pipeline.state.status {
            ExecutionStatus::Completed => "✅ Completed",
            ExecutionStatus::Failed => "❌ Failed",
            ExecutionStatus::Running => "🔄 Running",
            _ => "❓ Unknown",
        };
        format!(
            "{} - {} steps completed, {} steps failed, {}ms",
            status,
            self.completed_steps().len(),
            self.failed_steps().len(),
            self.duration_ms
        )
    }
}

/// Assert a step was executed and check its output
pub fn assert_step_executed(
    result: &PipelineTestResult,
    step_id: &str,
    expected_output: &str,
) {
    let step = result
        .pipeline
        .step(step_id)
        .unwrap_or_else(|| panic!("Step '{}' not found in result", step_id));

    assert!(
        matches!(step.state, StepState::Completed { .. }),
        "Step '{}' should be completed, but was in state: {:?}",
        step_id, step.state
    );

    let output = match &step.state {
        StepState::Completed { output, .. } => output.clone(),
        _ => panic!("Step '{}' is not completed", step_id),
    };

    assert!(
        output.contains(expected_output),
        "Step '{}' output:\n{}\n\ndoes not contain:\n{}",
        step_id, output, expected_output
    );
}

/// Assert a step failed with specific message
pub fn assert_step_failed(
    result: &PipelineTestResult,
    step_id: &str,
    expected_error: &str,
) {
    let step = result
        .pipeline
        .step(step_id)
        .unwrap_or_else(|| panic!("Step '{}' not found in result", step_id));

    assert!(
        matches!(step.state, StepState::Failed { .. }),
        "Step '{}' should have failed, but was in state: {:?}",
        step_id, step.state
    );

    let error = match &step.state {
        StepState::Failed { error, .. } => error.clone(),
        _ => panic!("Step '{}' is not failed", step_id),
    };

    assert!(
        error.contains(expected_error),
        "Step '{}' error:\n{}\n\ndoes not contain:\n{}",
        step_id, error, expected_error
    );
}

/// Assert pipeline completed successfully
pub fn assert_pipeline_completed(result: &PipelineTestResult) {
    assert!(
        result.is_success(),
        "Pipeline should be completed, but was: {}",
        result.summary()
    );
}

/// Assert pipeline failed
pub fn assert_pipeline_failed(result: &PipelineTestResult) {
    assert!(
        result.is_failed(),
        "Pipeline should have failed, but was: {}",
        result.summary()
    );
}

/// Assert specific steps were executed in order
pub fn assert_execution_order(
    result: &PipelineTestResult,
    expected_order: &[&str],
) {
    // Get completed or failed steps in the order they appear in execution_order
    let actual_order: Vec<String> = result.pipeline.execution_order()
        .iter()
        .filter(|id| {
            result.pipeline.step(id)
                .map(|s| {
                    matches!(s.state, StepState::Completed { .. } | StepState::Failed { .. })
                })
                .unwrap_or(false)
        })
        .cloned()
        .collect();

    assert_eq!(
        actual_order, expected_order,
        "Expected execution order: {:?}\nActual: {:?}",
        expected_order, actual_order
    );
}

/// Count how many times a step was executed
pub fn count_step_executions(result: &PipelineTestResult, step_id: &str) -> usize {
    result.count_step_attempts(step_id)
}

/// Create a continuation condition for retry
pub fn retry_continuation(pattern: &str) -> ContinuationCondition {
    ContinuationCondition {
        pattern: ConditionPattern::Simple(pattern.to_string()),
        action: ContinuationAction::Retry,
        target: None,
    }
}

/// Create a continuation condition for routing
pub fn route_continuation(pattern: &str, target: &str) -> ContinuationCondition {
    ContinuationCondition {
        pattern: ConditionPattern::Simple(pattern.to_string()),
        action: ContinuationAction::Route,
        target: Some(target.to_string()),
    }
}

/// Parse a pipeline from YAML string
pub fn pipeline_from_yaml(yaml: &str) -> Pipeline {
    let config = config_from_yaml(yaml)
        .unwrap_or_else(|e| panic!("Failed to parse pipeline YAML: {}", e));
    config.to_pipeline()
}

/// Create a minimal pipeline for testing
pub fn minimal_pipeline() -> Pipeline {
    let yaml = r#"
name: "Test Pipeline"
steps:
  - id: "step1"
    name: "Step 1"
    prompt: "Do something"
    termination:
      success_pattern: "DONE"
"#;
    pipeline_from_yaml(yaml)
}


#[test]
fn test_run_pipeline_with_mock_simple() {
    let mut pipeline = minimal_pipeline();
    let responses = vec!["Working... DONE".to_string()];

    let result = run_pipeline_with_mock(&mut pipeline, responses);

    assert!(result.is_ok());
    let test_result = result.unwrap();
    assert!(test_result.is_success());
    assert_step_executed(&test_result, "step1", "DONE");
}

#[test]
fn test_assert_step_executed() {
    let mut pipeline = minimal_pipeline();
    if let Some(step) = pipeline.step_mut("step1") {
        step.state = StepState::Completed {
            output: "Task completed with DONE marker".to_string(),
            attempts: 1,
            started_at: Timestamp::now(),
            completed_at: Timestamp::now(),
        };
    }

    let result = PipelineTestResult {
        pipeline,
        duration_ms: 100,
    };

    assert_step_executed(&result, "step1", "DONE");
}

#[test]
fn test_assert_step_failed() {
    let mut pipeline = minimal_pipeline();
    if let Some(step) = pipeline.step_mut("step1") {
        step.state = StepState::Failed {
            error: "Max retries exceeded".to_string(),
            attempts: 3,
            last_started_at: Timestamp::now(),
            failed_at: Timestamp::now(),
        };
    }

    let result = PipelineTestResult {
        pipeline,
        duration_ms: 100,
    };

    assert_step_failed(&result, "step1", "exceeded");
}

#[test]
fn test_assert_execution_order() {
    let yaml = r#"
name: "Test Pipeline"
steps:
  - id: "a"
    name: "A"
    prompt: "Test"
    termination:
      success_pattern: "DONE"
  - id: "b"
    name: "B"
    prompt: "Test"
    depends_on: ["a"]
    termination:
      success_pattern: "DONE"
  - id: "c"
    name: "C"
    prompt: "Test"
    depends_on: ["b"]
    termination:
      success_pattern: "DONE"
"#;
    let mut pipeline = pipeline_from_yaml(yaml);

    // Mark all steps as completed
    let now = Timestamp::now();
    for step_id in ["a", "b", "c"] {
        if let Some(step) = pipeline.step_mut(step_id) {
            step.state = StepState::Completed {
                output: "DONE".to_string(),
                attempts: 1,
                started_at: now,
                completed_at: now,
            };
        }
    }

    let result = PipelineTestResult {
        pipeline,
        duration_ms: 100,
    };

    assert_execution_order(&result, &["a", "b", "c"]);
}


/// Test that steps execute in order with success routing
#[test]
fn test_success_chain() {
    let yaml = r#"
name: "Test: Success Chain"
description: "Verify steps execute in order with success routing"

steps:
  - id: "plan"
    name: "Create Plan"
    prompt: "Create implementation plan"
    termination:
      success_pattern: "✅ PLAN COMPLETE"
      on_success: "implement"

  - id: "implement"
    name: "Implement"
    depends_on: ["plan"]
    prompt: "Implement feature"
    termination:
      success_pattern: "✅ IMPLEMENTATION_DONE"
      on_success: "review"

  - id: "review"
    name: "Review"
    depends_on: ["implement"]
    prompt: "Review implementation"
    termination:
      success_pattern: "✅ APPROVED"
"#;

    let config = config_from_yaml(yaml).unwrap();
    let mut pipeline = config.to_pipeline();

    let responses = vec![
        "Creating the plan... ✅ PLAN COMPLETE".to_string(),
        "Implementing... ✅ IMPLEMENTATION_DONE".to_string(),
        "Reviewing... ✅ APPROVED".to_string(),
    ];

    let result = run_pipeline_with_mock(&mut pipeline, responses).unwrap();

    // Assert pipeline completed successfully
    assert_pipeline_completed(&result);

    // Assert steps executed in correct order
    assert_execution_order(&result, &["plan", "implement", "review"]);

    // Assert each step has correct output
    assert_step_executed(&result, "plan", "✅ PLAN COMPLETE");
    assert_step_executed(&result, "implement", "✅ IMPLEMENTATION_DONE");
    assert_step_executed(&result, "review", "✅ APPROVED");

    // Assert each step was executed exactly once
    assert_eq!(count_step_executions(&result, "plan"), 1);
    assert_eq!(count_step_executions(&result, "implement"), 1);
    assert_eq!(count_step_executions(&result, "review"), 1);

    // Assert no failures
    assert_eq!(result.failed_steps().len(), 0);
}

/// Test a longer success chain (5 steps)
#[test]
fn test_success_chain_long() {
    let yaml = r#"
name: "Long Success Chain"

steps:
  - id: "step1"
    name: "Step 1"
    prompt: "First step"
    termination:
      success_pattern: "✅ STEP1_DONE"
      on_success: "step2"

  - id: "step2"
    name: "Step 2"
    prompt: "Second step"
    termination:
      success_pattern: "✅ STEP2_DONE"
      on_success: "step3"

  - id: "step3"
    name: "Step 3"
    prompt: "Third step"
    termination:
      success_pattern: "✅ STEP3_DONE"
      on_success: "step4"

  - id: "step4"
    name: "Step 4"
    prompt: "Fourth step"
    termination:
      success_pattern: "✅ STEP4_DONE"
      on_success: "step5"

  - id: "step5"
    name: "Step 5"
    prompt: "Fifth step"
    termination:
      success_pattern: "✅ STEP5_DONE"
"#;

    let config = config_from_yaml(yaml).unwrap();
    let mut pipeline = config.to_pipeline();

    let responses = vec![
        "✅ STEP1_DONE".to_string(),
        "✅ STEP2_DONE".to_string(),
        "✅ STEP3_DONE".to_string(),
        "✅ STEP4_DONE".to_string(),
        "✅ STEP5_DONE".to_string(),
    ];

    let result = run_pipeline_with_mock(&mut pipeline, responses).unwrap();

    assert_pipeline_completed(&result);
    assert_execution_order(&result, &["step1", "step2", "step3", "step4", "step5"]);

    for (step, pattern) in [
        ("step1", "✅ STEP1_DONE"),
        ("step2", "✅ STEP2_DONE"),
        ("step3", "✅ STEP3_DONE"),
        ("step4", "✅ STEP4_DONE"),
        ("step5", "✅ STEP5_DONE"),
    ] {
        assert_step_executed(&result, step, pattern);
        assert_eq!(count_step_executions(&result, step), 1);
    }
}

/// Test success chain without on_success (pipeline should end)
#[test]
fn test_success_chain_end_without_routing() {
    let yaml = r#"
name: "End Without Routing"

steps:
  - id: "task"
    name: "Do Task"
    prompt: "Do something"
    termination:
      success_pattern: "✅ DONE"
"#;

    let config = config_from_yaml(yaml).unwrap();
    let mut pipeline = config.to_pipeline();

    let responses = vec!["✅ DONE".to_string()];

    let result = run_pipeline_with_mock(&mut pipeline, responses).unwrap();

    assert_pipeline_completed(&result);
    assert_step_executed(&result, "task", "✅ DONE");
    assert_eq!(result.completed_steps().len(), 1);
}

/// Test success chain with independent parallel steps
#[test]
fn test_success_chain_with_parallel() {
    let yaml = r#"
name: "Parallel After Sequential"

steps:
  - id: "setup"
    name: "Setup"
    prompt: "Setup phase"
    termination:
      success_pattern: "✅ SETUP_DONE"

  - id: "task_a"
    name: "Task A"
    depends_on: ["setup"]
    prompt: "Task A"
    termination:
      success_pattern: "✅ TASK_A_DONE"

  - id: "task_b"
    name: "Task B"
    depends_on: ["setup"]
    prompt: "Task B"
    termination:
      success_pattern: "✅ TASK_B_DONE"
"#;

    let config = config_from_yaml(yaml).unwrap();
    let mut pipeline = config.to_pipeline();

    let responses = vec![
        "✅ SETUP_DONE".to_string(),
        "✅ TASK_A_DONE".to_string(),
        "✅ TASK_B_DONE".to_string(),
    ];

    let result = run_pipeline_with_mock(&mut pipeline, responses).unwrap();

    assert_pipeline_completed(&result);
    assert_eq!(result.completed_steps().len(), 3);

    // Verify setup was first
    assert_eq!(result.execution_order()[0], "setup");

    // Verify both tasks completed
    assert_step_executed(&result, "task_a", "✅ TASK_A_DONE");
    assert_step_executed(&result, "task_b", "✅ TASK_B_DONE");
}

/// Test that retry action works and respects max_retries
#[test]
fn test_retry_behavior() {
    let yaml = r#"
name: "Test: Retry on Continuation"
description: "Verify retry action works and respects max_retries"

steps:
  - id: "task"
    name: "Do Task"
    max_retries: 3
    prompt: "Do some work"
    termination:
      success_pattern: "✅ DONE"
    continuation:
      pattern: "🔄 CONTINUE"
      action: "retry"
"#;

    let config = config_from_yaml(yaml).unwrap();
    let mut pipeline = config.to_pipeline();

    let responses = vec![
        "Working on it... 🔄 CONTINUE".to_string(),
        "Still working... 🔄 CONTINUE".to_string(),
        "Finished! ✅ DONE".to_string(),
    ];

    let result = run_pipeline_with_mock(&mut pipeline, responses).unwrap();

    // Assert pipeline completed successfully
    assert_pipeline_completed(&result);

    // Assert task was executed 3 times (2 retries + 1 success)
    assert_eq!(count_step_executions(&result, "task"), 3);

    // Assert final output contains success pattern
    assert_step_executed(&result, "task", "✅ DONE");
}

/// Test retry with max retries exactly met
#[test]
fn test_retry_max_retries_exact() {
    let yaml = r#"
name: "Test: Max Retries Exact"

steps:
  - id: "task"
    name: "Do Task"
    max_retries: 3
    prompt: "Do work"
    termination:
      success_pattern: "✅ DONE"
    continuation:
      pattern: "🔄 RETRY"
      action: "retry"
"#;

    let config = config_from_yaml(yaml).unwrap();
    let mut pipeline = config.to_pipeline();

    // Exactly 3 responses, last one succeeds
    let responses = vec![
        "First attempt 🔄 RETRY".to_string(),
        "Second attempt 🔄 RETRY".to_string(),
        "Third attempt ✅ DONE".to_string(),
    ];

    let result = run_pipeline_with_mock(&mut pipeline, responses).unwrap();

    assert_pipeline_completed(&result);
    assert_eq!(count_step_executions(&result, "task"), 3);
    assert_step_executed(&result, "task", "✅ DONE");
}

/// Test retry with single attempt (no retries)
#[test]
fn test_retry_single_attempt() {
    let yaml = r#"
name: "Test: Single Attempt Success"

steps:
  - id: "task"
    name: "Do Task"
    max_retries: 0
    prompt: "Do work"
    termination:
      success_pattern: "✅ DONE"
"#;

    let config = config_from_yaml(yaml).unwrap();
    let mut pipeline = config.to_pipeline();

    let responses = vec!["✅ DONE".to_string()];

    let result = run_pipeline_with_mock(&mut pipeline, responses).unwrap();

    assert_pipeline_completed(&result);
    assert_eq!(count_step_executions(&result, "task"), 1);
    assert_step_executed(&result, "task", "✅ DONE");
}

/// Test retry with mixed success/continuation pattern
#[test]
fn test_retry_mixed_patterns() {
    let yaml = r#"
name: "Test: Mixed Patterns"

steps:
  - id: "task"
    name: "Do Task"
    max_retries: 5
    prompt: "Do work"
    termination:
      success_pattern: "✅ FINISHED"
    continuation:
      pattern: "🔄 CONTINUE"
      action: "retry"
"#;

    let config = config_from_yaml(yaml).unwrap();
    let mut pipeline = config.to_pipeline();

    let responses = vec![
        "Starting... 🔄 CONTINUE".to_string(),
        "Progress... 🔄 CONTINUE".to_string(),
        "Almost done... 🔄 CONTINUE".to_string(),
        "Still working... 🔄 CONTINUE".to_string(),
        "✅ FINISHED".to_string(),
    ];

    let result = run_pipeline_with_mock(&mut pipeline, responses).unwrap();

    assert_pipeline_completed(&result);
    assert_eq!(count_step_executions(&result, "task"), 5);
    assert_step_executed(&result, "task", "✅ FINISHED");
}

/// Test that continuation pattern takes precedence over success pattern
#[test]
fn test_retry_precedence() {
    let yaml = r#"
name: "Test: Continuation Precedence"

steps:
  - id: "task"
    name: "Do Task"
    max_retries: 2
    prompt: "Do work"
    termination:
      success_pattern: "✅ DONE"
    continuation:
      pattern: "🔄 CONTINUE"
      action: "retry"
"#;

    let config = config_from_yaml(yaml).unwrap();
    let mut pipeline = config.to_pipeline();

    // Response contains both patterns - continuation should take precedence
    let responses = vec![
        "Has both patterns: ✅ DONE 🔄 CONTINUE".to_string(),
        "Now just ✅ DONE".to_string(),
    ];

    let result = run_pipeline_with_mock(&mut pipeline, responses).unwrap();

    assert_pipeline_completed(&result);
    assert_eq!(count_step_executions(&result, "task"), 2);
}

/// Test that pipeline fails when max_retries is exceeded
#[test]
fn test_max_retries_exceeded() {
    let yaml = r#"
name: "Test: Max Retries Exceeded"
description: "Verify pipeline fails when max_retries is exceeded"

steps:
  - id: "task"
    name: "Do Task"
    max_retries: 3
    prompt: "Do work"
    termination:
      success_pattern: "✅ DONE"
    continuation:
      pattern: "🔄 RETRY"
      action: "retry"
"#;

    let config = config_from_yaml(yaml).unwrap();
    let mut pipeline = config.to_pipeline();

    // 4 responses all requesting retry (1 initial + 3 retries)
    let responses = vec![
        "Still working... 🔄 RETRY".to_string(),
        "More work... 🔄 RETRY".to_string(),
        "Even more... 🔄 RETRY".to_string(),
        "Still not done... 🔄 RETRY".to_string(),
    ];

    let result = run_pipeline_with_mock(&mut pipeline, responses).unwrap();

    // Assert pipeline failed
    assert_pipeline_failed(&result);

    // Assert task attempted 4 times (1 initial + 3 retries)
    assert_eq!(count_step_executions(&result, "task"), 4);

    // Assert failure reason mentions retries
    assert_step_failed(&result, "task", "retry");
}

/// Test max_retries of 0 (single attempt only)
#[test]
fn test_max_retries_zero() {
    let yaml = r#"
name: "Test: Max Retries Zero"

steps:
  - id: "task"
    name: "Do Task"
    max_retries: 0
    prompt: "Do work"
    termination:
      success_pattern: "✅ DONE"
    continuation:
      pattern: "🔄 RETRY"
      action: "retry"
"#;

    let config = config_from_yaml(yaml).unwrap();
    let mut pipeline = config.to_pipeline();

    // Even though response requests retry, max_retries=0 prevents it
    let responses = vec!["Please retry 🔄 RETRY".to_string()];

    let result = run_pipeline_with_mock(&mut pipeline, responses).unwrap();

    // Should fail (no success pattern)
    assert_pipeline_failed(&result);

    // Only attempted once
    assert_eq!(count_step_executions(&result, "task"), 1);
}

/// Test max_retries of 1
#[test]
fn test_max_retries_one() {
    let yaml = r#"
name: "Test: Max Retries One"

steps:
  - id: "task"
    name: "Do Task"
    max_retries: 1
    prompt: "Do work"
    termination:
      success_pattern: "✅ DONE"
    continuation:
      pattern: "🔄 RETRY"
      action: "retry"
"#;

    let config = config_from_yaml(yaml).unwrap();
    let mut pipeline = config.to_pipeline();

    // 2 requests, both retry
    let responses = vec![
        "First attempt 🔄 RETRY".to_string(),
        "Second attempt 🔄 RETRY".to_string(),
    ];

    let result = run_pipeline_with_mock(&mut pipeline, responses).unwrap();

    assert_pipeline_failed(&result);
    assert_eq!(count_step_executions(&result, "task"), 2);  // 1 initial + 1 retry
}

/// Test success on exactly max_retries attempt
#[test]
fn test_success_on_last_retry() {
    let yaml = r#"
name: "Test: Success on Last Retry"

steps:
  - id: "task"
    name: "Do Task"
    max_retries: 3
    prompt: "Do work"
    termination:
      success_pattern: "✅ DONE"
    continuation:
      pattern: "🔄 RETRY"
      action: "retry"
"#;

    let config = config_from_yaml(yaml).unwrap();
    let mut pipeline = config.to_pipeline();

    // 3 retry requests, then success
    let responses = vec![
        "Attempt 1 🔄 RETRY".to_string(),
        "Attempt 2 🔄 RETRY".to_string(),
        "Attempt 3 🔄 RETRY".to_string(),
        "Attempt 4 ✅ DONE".to_string(),
    ];

    let result = run_pipeline_with_mock(&mut pipeline, responses).unwrap();

    assert_pipeline_completed(&result);
    assert_eq!(count_step_executions(&result, "task"), 4);  // 1 initial + 3 retries
    assert_step_executed(&result, "task", "✅ DONE");
}

/// Test large max_retries value
#[test]
fn test_large_max_retries() {
    let yaml = r#"
name: "Test: Large Max Retries"

steps:
  - id: "task"
    name: "Do Task"
    max_retries: 10
    prompt: "Do work"
    termination:
      success_pattern: "✅ DONE"
    continuation:
      pattern: "🔄 RETRY"
      action: "retry"
"#;

    let config = config_from_yaml(yaml).unwrap();
    let mut pipeline = config.to_pipeline();

    // 5 retry requests, then success
    let responses = (0..5)
        .map(|i| format!("Attempt {} 🔄 RETRY", i + 1))
        .chain(std::iter::once("Success ✅ DONE".to_string()))
        .collect();

    let result = run_pipeline_with_mock(&mut pipeline, responses).unwrap();

    assert_pipeline_completed(&result);
    assert_eq!(count_step_executions(&result, "task"), 6);
    assert_step_executed(&result, "task", "✅ DONE");
}

/// Test mixed retry and success across multiple steps
#[test]
fn test_retries_multiple_steps() {
    let yaml = r#"
name: "Test: Retries on Multiple Steps"

steps:
  - id: "step1"
    name: "Step 1"
    max_retries: 2
    prompt: "Step 1"
    termination:
      success_pattern: "✅ S1_DONE"
      on_success: "step2"
    continuation:
      pattern: "🔄 RETRY"
      action: "retry"

  - id: "step2"
    name: "Step 2"
    depends_on: ["step1"]
    max_retries: 1
    prompt: "Step 2"
    termination:
      success_pattern: "✅ S2_DONE"
      on_success: "step3"
    continuation:
      pattern: "🔄 RETRY"
      action: "retry"

  - id: "step3"
    name: "Step 3"
    depends_on: ["step2"]
    max_retries: 3
    prompt: "Step 3"
    termination:
      success_pattern: "✅ S3_DONE"
    continuation:
      pattern: "🔄 RETRY"
      action: "retry"
"#;

    let config = config_from_yaml(yaml).unwrap();
    let mut pipeline = config.to_pipeline();

    let responses = vec![
        // step1: retry once, then success
        "S1 attempt 1 🔄 RETRY".to_string(),
        "S1 attempt 2 ✅ S1_DONE".to_string(),
        // step2: succeed immediately
        "S2 attempt 1 ✅ S2_DONE".to_string(),
        // step3: retry twice, then success
        "S3 attempt 1 🔄 RETRY".to_string(),
        "S3 attempt 2 🔄 RETRY".to_string(),
        "S3 attempt 3 ✅ S3_DONE".to_string(),
    ];

    let result = run_pipeline_with_mock(&mut pipeline, responses).unwrap();

    assert_pipeline_completed(&result);
    assert_eq!(count_step_executions(&result, "step1"), 2);  // 1 initial + 1 retry
    assert_eq!(count_step_executions(&result, "step2"), 1);  // no retries
    assert_eq!(count_step_executions(&result, "step3"), 3);  // 1 initial + 2 retries

    assert_step_executed(&result, "step1", "✅ S1_DONE");
    assert_step_executed(&result, "step2", "✅ S2_DONE");
    assert_step_executed(&result, "step3", "✅ S3_DONE");
}

/// Test that max_retries is per-step, not global
#[test]
fn test_max_retries_per_step() {
    let yaml = r#"
name: "Test: Max Retries Per Step"

steps:
  - id: "step1"
    name: "Step 1"
    max_retries: 2
    prompt: "Step 1"
    termination:
      success_pattern: "✅ S1_DONE"
      on_success: "step2"
    continuation:
      pattern: "🔄 RETRY"
      action: "retry"

  - id: "step2"
    name: "Step 2"
    depends_on: ["step1"]
    max_retries: 2
    prompt: "Step 2"
    termination:
      success_pattern: "✅ S2_DONE"
    continuation:
      pattern: "🔄 RETRY"
      action: "retry"
"#;

    let config = config_from_yaml(yaml).unwrap();
    let mut pipeline = config.to_pipeline();

    // Both steps should exhaust their retries independently
    let responses = vec![
        "S1 attempt 1 🔄 RETRY".to_string(),
        "S1 attempt 2 🔄 RETRY".to_string(),
        "S1 attempt 3 ✅ S1_DONE".to_string(),
        "S2 attempt 1 🔄 RETRY".to_string(),
        "S2 attempt 2 🔄 RETRY".to_string(),
        "S2 attempt 3 🔄 RETRY".to_string(),
    ];

    let result = run_pipeline_with_mock(&mut pipeline, responses).unwrap();

    // step1 succeeded, step2 failed
    assert_pipeline_failed(&result);
    assert_eq!(count_step_executions(&result, "step1"), 3);
    assert_eq!(count_step_executions(&result, "step2"), 3);

    assert_step_executed(&result, "step1", "✅ S1_DONE");
    assert_step_failed(&result, "step2", "retry");
}

/// Test review loop with on_failure routing (revision is a "failure" that routes back)
#[test]
fn test_review_loop() {
    let yaml = r#"
name: "Test: Review Loop"
description: "Verify back-and-forth routing between implementation and review using on_failure"

steps:
  - id: "implement"
    name: "Implement"
    prompt: "Implement feature"
    termination:
      success_pattern: "✅ IMPLEMENTATION_DONE"
      on_success: "review"

  - id: "review"
    name: "Review"
    depends_on: ["implement"]
    prompt: "Review implementation"
    termination:
      success_pattern: "✅ APPROVED"
      on_success: "deploy"
      on_failure: "implement"

  - id: "deploy"
    name: "Deploy"
    depends_on: ["review"]
    prompt: "Deploy feature"
    termination:
      success_pattern: "✅ DEPLOYED"
"#;

    let config = config_from_yaml(yaml).unwrap();
    let mut pipeline = config.to_pipeline();

    let responses = vec![
        "Implementation v1... ✅ IMPLEMENTATION_DONE".to_string(),
        "Review: needs work... (no approval pattern, triggers on_failure)".to_string(),
        "Implementation v2... ✅ IMPLEMENTATION_DONE".to_string(),
        "Review: approved! ✅ APPROVED".to_string(),
        "Deploying... ✅ DEPLOYED".to_string(),
    ];

    let result = run_pipeline_with_mock(&mut pipeline, responses).unwrap();

    // Assert pipeline completed successfully
    assert_pipeline_completed(&result);

    // For review loops, steps execute multiple times
    // Note: attempts field tracks the last attempt number, not total executions
    // For review loops, we verify the workflow completed correctly
    assert!(count_step_executions(&result, "implement") >= 1);
    assert!(count_step_executions(&result, "review") >= 1);
    assert_eq!(count_step_executions(&result, "deploy"), 1);

    // Final output should be from deploy
    assert_step_executed(&result, "deploy", "✅ DEPLOYED");
}

/// Test review loop with multiple revisions
#[test]
fn test_review_loop_multiple_revisions() {
    let yaml = r#"
name: "Test: Multiple Revisions"

steps:
  - id: "implement"
    name: "Implement"
    prompt: "Implement feature"
    termination:
      success_pattern: "✅ IMPL"
      on_success: "review"

  - id: "review"
    name: "Review"
    depends_on: ["implement"]
    prompt: "Review implementation"
    termination:
      success_pattern: "✅ APPROVED"
      on_failure: "implement"
"#;

    let config = config_from_yaml(yaml).unwrap();
    let mut pipeline = config.to_pipeline();

    // 4 implementations before approval
    let responses = vec![
        "Impl v1... ✅ IMPL".to_string(),
        "Review: needs revision (no approval)".to_string(),
        "Impl v2... ✅ IMPL".to_string(),
        "Review: still needs work (no approval)".to_string(),
        "Impl v3... ✅ IMPL".to_string(),
        "Review: close but not quite (no approval)".to_string(),
        "Impl v4... ✅ IMPL".to_string(),
        "Review: approved! ✅ APPROVED".to_string(),
    ];

    let result = run_pipeline_with_mock(&mut pipeline, responses).unwrap();

    assert_pipeline_completed(&result);

    // Note: attempts field tracks the last attempt number, not total executions
    // For review loops with multiple iterations, we verify workflow completion
    assert!(count_step_executions(&result, "implement") >= 1);
    assert!(count_step_executions(&result, "review") >= 1);

    // Final review should have approval
    assert_step_executed(&result, "review", "✅ APPROVED");
}

/// Test review loop with on_failure route
#[test]
fn test_review_loop_with_failure_route() {
    let yaml = r#"
name: "Test: Review with Failure"

steps:
  - id: "implement"
    name: "Implement"
    prompt: "Implement feature"
    termination:
      success_pattern: "✅ DONE"
      on_success: "review"

  - id: "review"
    name: "Review"
    depends_on: ["implement"]
    prompt: "Review implementation"
    termination:
      success_pattern: "✅ PASS"
      on_success: "deploy"
      on_failure: "implement"

  - id: "deploy"
    name: "Deploy"
    depends_on: ["review"]
    prompt: "Deploy feature"
    termination:
      success_pattern: "✅ DEPLOYED"
"#;

    let config = config_from_yaml(yaml).unwrap();
    let mut pipeline = config.to_pipeline();

    // First review has no success pattern, so it fails and routes to implement
    let responses = vec![
        "Implementation v1... ✅ DONE".to_string(),
        "Review: this doesn't pass (no approval pattern)".to_string(),  // No success pattern
        "Implementation v2... ✅ DONE".to_string(),
        "Review: looks good ✅ PASS".to_string(),
        "Deploying... ✅ DEPLOYED".to_string(),
    ];

    let result = run_pipeline_with_mock(&mut pipeline, responses).unwrap();

    assert_pipeline_completed(&result);

    // Note: attempts field tracks the last attempt number, not total executions
    assert!(count_step_executions(&result, "implement") >= 1);
    assert!(count_step_executions(&result, "review") >= 1);
    assert_eq!(count_step_executions(&result, "deploy"), 1);

    // Final review should have passed
    assert_step_executed(&result, "review", "✅ PASS");
}

/// Test review loop with complex multi-step workflow
#[test]
fn test_review_loop_complex_workflow() {
    let yaml = r#"
name: "Test: Complex Review Workflow"

steps:
  - id: "design"
    name: "Design"
    prompt: "Create design"
    termination:
      success_pattern: "✅ DESIGN_DONE"
      on_success: "implement"

  - id: "implement"
    name: "Implement"
    depends_on: ["design"]
    prompt: "Implement feature"
    termination:
      success_pattern: "✅ IMPL_DONE"
      on_success: "review"

  - id: "review"
    name: "Review"
    depends_on: ["implement"]
    prompt: "Review implementation"
    termination:
      success_pattern: "✅ APPROVED"
      on_success: "test"
      on_failure: "implement"

  - id: "test"
    name: "Test"
    depends_on: ["review"]
    prompt: "Run tests"
    termination:
      success_pattern: "✅ TESTS_PASS"
      on_success: "deploy"

  - id: "deploy"
    name: "Deploy"
    depends_on: ["test"]
    prompt: "Deploy feature"
    termination:
      success_pattern: "✅ DEPLOYED"
"#;

    let config = config_from_yaml(yaml).unwrap();
    let mut pipeline = config.to_pipeline();

    let responses = vec![
        "Design created ✅ DESIGN_DONE".to_string(),
        "Implementation v1... ✅ IMPL_DONE".to_string(),
        "Review: needs changes (no approval)".to_string(),
        "Implementation v2... ✅ IMPL_DONE".to_string(),
        "Review: looks good ✅ APPROVED".to_string(),
        "Tests running... ✅ TESTS_PASS".to_string(),
        "Deployment complete ✅ DEPLOYED".to_string(),
    ];

    let result = run_pipeline_with_mock(&mut pipeline, responses).unwrap();

    assert_pipeline_completed(&result);

    // Check each step ran at least once (review loop causes multiple executions)
    assert!(count_step_executions(&result, "design") >= 1);
    assert!(count_step_executions(&result, "implement") >= 1);
    assert!(count_step_executions(&result, "review") >= 1);
    assert_eq!(count_step_executions(&result, "test"), 1);
    assert_eq!(count_step_executions(&result, "deploy"), 1);

    // Check final outputs
    assert_step_executed(&result, "design", "✅ DESIGN_DONE");
    assert_step_executed(&result, "implement", "✅ IMPL_DONE");
    assert_step_executed(&result, "review", "✅ APPROVED");
    assert_step_executed(&result, "test", "✅ TESTS_PASS");
    assert_step_executed(&result, "deploy", "✅ DEPLOYED");
}

/// Test that on_failure routing works
#[test]
fn test_failure_routing() {
    let yaml = r#"
name: "Test: Failure Routing"
description: "Verify on_failure routing works"

steps:
  - id: "risky_task"
    name: "Risky Task"
    prompt: "Do something that might fail"
    termination:
      success_pattern: "âœ… SUCCESS"
      on_failure: "fallback"

  - id: "fallback"
    name: "Fallback"
    depends_on: ["risky_task"]
    prompt: "Handle the failure"
    termination:
      success_pattern: "âœ… HANDLED"
"#;

    let config = config_from_yaml(yaml).unwrap();
    let mut pipeline = config.to_pipeline();

    // Task fails (no success pattern)
    let responses = vec![
        "Task failed...".to_string(),  // No âœ… SUCCESS pattern
        "Handling the failure... âœ… HANDLED".to_string(),
    ];

    let result = run_pipeline_with_mock(&mut pipeline, responses).unwrap();

    // Assert pipeline completed successfully (via fallback)
    assert_pipeline_completed(&result);

    // Assert risky_task failed
    assert_step_failed(&result, "risky_task", "termination");

    // Assert fallback succeeded
    assert_step_executed(&result, "fallback", "âœ… HANDLED");

    // Assert execution order
    assert_execution_order(&result, &["risky_task", "fallback"]);
}


/// Test failure with explicit on_failure to end pipeline
#[test]
fn test_failure_to_terminator() {
    let yaml = r#"
name: "Test: Failure to Terminator"

steps:
  - id: "task"
    name: "Task"
    prompt: "Do task"
    termination:
      success_pattern: "âœ… SUCCESS"
      on_success: "cleanup"
      on_failure: "cleanup"

  - id: "cleanup"
    name: "Cleanup"
    depends_on: ["task"]
    prompt: "Cleanup resources"
    termination:
      success_pattern: "âœ… CLEANUP_DONE"
"#;

    let config = config_from_yaml(yaml).unwrap();
    let mut pipeline = config.to_pipeline();

    // Task fails, but cleanup should run
    let responses = vec![
        "Task failed...".to_string(),
        "Cleaning up... âœ… CLEANUP_DONE".to_string(),
    ];

    let result = run_pipeline_with_mock(&mut pipeline, responses).unwrap();

    // Assert pipeline completed (cleanup ran)
    assert_pipeline_completed(&result);

    assert_step_failed(&result, "task", "termination");
    assert_step_executed(&result, "cleanup", "âœ… CLEANUP_DONE");
}


/// Test failure with timeout
#[test]
fn test_failure_timeout() {
    let yaml = r#"
name: "Test: Timeout Failure"

steps:
  - id: "task"
    name: "Task"
    prompt: "Do task"
    timeout_secs: 0
    termination:
      success_pattern: "âœ… DONE"
      on_failure: "cleanup"

  - id: "cleanup"
    name: "Cleanup"
    depends_on: ["task"]
    prompt: "Cleanup"
    termination:
      success_pattern: "âœ… CLEANUP_DONE"
"#;

    let config = config_from_yaml(yaml).unwrap();
    let mut pipeline = config.to_pipeline();

    // Note: This test uses a very short timeout. The mock agent returns immediately,
    // so timeout might not trigger. This test is more about the structure.
    let responses = vec![
        "Task response âœ… DONE".to_string(),
        "Cleanup... âœ… CLEANUP_DONE".to_string(),
    ];

    let result = run_pipeline_with_mock(&mut pipeline, responses).unwrap();

    // With quick mock response, it should succeed
    assert_pipeline_completed(&result);
    assert_step_executed(&result, "task", "âœ… DONE");
}

/// Test failure then retry (combination of failure and retry)
#[test]
fn test_failure_then_retry() {
    let yaml = r#"
name: "Test: Failure Then Retry"

steps:
  - id: "task"
    name: "Task"
    max_retries: 2
    prompt: "Do task"
    termination:
      success_pattern: "âœ… DONE"
    continuation:
      pattern: "ðŸ”„ RETRY"
      action: "retry"
      target: null
      carry_notes: false
"#;

    let config = config_from_yaml(yaml).unwrap();
    let mut pipeline = config.to_pipeline();

    // First attempt: retry, second attempt: retry, third: fail (no pattern)
    let responses = vec![
        "First ðŸ”„ RETRY".to_string(),
        "Second ðŸ”„ RETRY".to_string(),
        "Third - no pattern".to_string(),
    ];

    let result = run_pipeline_with_mock(&mut pipeline, responses).unwrap();

    // Should fail after exhausting retries
    assert_pipeline_failed(&result);
    assert_eq!(count_step_executions(&result, "task"), 3);
}

/// Test partial success with some failures
#[test]
fn test_partial_success() {
    let yaml = r#"
name: "Test: Partial Success"

steps:
  - id: "step1"
    name: "Step 1"
    prompt: "Step 1"
    termination:
      success_pattern: "âœ… S1"
      on_success: "step2"

  - id: "step2"
    name: "Step 2"
    depends_on: ["step1"]
    prompt: "Step 2"
    termination:
      success_pattern: "âœ… S2"
      on_success: "step3"
      on_failure: "step3"

  - id: "step3"
    name: "Step 3"
    depends_on: ["step2"]
    prompt: "Step 3"
    termination:
      success_pattern: "âœ… S3"
"#;

    let config = config_from_yaml(yaml).unwrap();
    let mut pipeline = config.to_pipeline();

    // step1 succeeds, step2 fails but routes to step3 anyway
    let responses = vec![
        "Step1 done âœ… S1".to_string(),
        "Step2 failed...".to_string(),
        "Step3 done âœ… S3".to_string(),
    ];

    let result = run_pipeline_with_mock(&mut pipeline, responses).unwrap();

    assert_pipeline_completed(&result);
    assert_step_executed(&result, "step1", "âœ… S1");
    assert_step_failed(&result, "step2", "termination");
    assert_step_executed(&result, "step3", "âœ… S3");
}

/// Test basic variable substitution with global variables
#[test]
fn test_variable_substitution_global() {
    let yaml = r#"
name: "Test: Variable Substitution - Global"

variables:
  project_name: "pi-pipeline"
  feature: "variable substitution"

steps:
  - id: "step1"
    name: "Use Global Variables"
    prompt: "Work on {{ project_name }} project, specifically {{ feature }}"
    termination:
      success_pattern: "✅ DONE"
"#;

    let config = config_from_yaml(yaml).unwrap();
    let mut pipeline = config.to_pipeline();

    // The mock agent should receive the substituted prompt
    let responses = vec!["✅ DONE".to_string()];
    let result = run_pipeline_with_mock(&mut pipeline, responses).unwrap();

    assert_pipeline_completed(&result);
    assert_step_executed(&result, "step1", "✅ DONE");
}

/// Test step output substitution - using output from previous step
#[test]
fn test_variable_substitution_step_output() {
    let yaml = r#"
name: "Test: Variable Substitution - Step Output"

steps:
  - id: "plan"
    name: "Create Plan"
    prompt: "Create a plan for implementing feature X"
    termination:
      success_pattern: "✅ PLAN_DONE"
      on_success: "implement"

  - id: "implement"
    name: "Implement Feature"
    depends_on: ["plan"]
    prompt: "Implement based on this plan: {{ steps.plan.output }}"
    termination:
      success_pattern: "✅ IMPLEMENTED"
"#;

    let config = config_from_yaml(yaml).unwrap();
    let mut pipeline = config.to_pipeline();

    let plan_output = "1. Define structure\n2. Write tests\n3. Implement code\n✅ PLAN_DONE";
    let responses = vec![
        plan_output.to_string(),
        "Implementing... ✅ IMPLEMENTED".to_string(),
    ];

    let result = run_pipeline_with_mock(&mut pipeline, responses).unwrap();

    assert_pipeline_completed(&result);
    assert_execution_order(&result, &["plan", "implement"]);

    // Verify plan step output
    assert_step_executed(&result, "plan", "✅ PLAN_DONE");

    // Verify implement step received the plan output
    let implement_output = result.get_step_output("implement").unwrap();
    // The implement step should have received a prompt containing the plan output
    // We verify this by checking the implement step completed successfully
    assert!(implement_output.contains("✅ IMPLEMENTED"));
}

/// Test multiple variable substitutions in one prompt
#[test]
fn test_variable_substitution_multiple() {
    let yaml = r#"
name: "Test: Multiple Variable Substitutions"

variables:
  project: "pi-pipeline"
  version: "1.0.0"
  author: "Felix"

steps:
  - id: "step1"
    name: "Generate Info"
    prompt: "Generate info for {{ project }} v{{ version }} by {{ author }}"
    termination:
      success_pattern: "✅ INFO"
      on_success: "step2"

  - id: "step2"
    name: "Use Previous Output"
    depends_on: ["step1"]
    prompt: "Review: {{ steps.step1.output }}\nProject: {{ project }}"
    termination:
      success_pattern: "✅ REVIEWED"
"#;

    let config = config_from_yaml(yaml).unwrap();
    let mut pipeline = config.to_pipeline();

    let responses = vec![
        "Info: pi-pipeline v1.0.0 by Felix\n✅ INFO".to_string(),
        "Reviewing...\n✅ REVIEWED".to_string(),
    ];

    let result = run_pipeline_with_mock(&mut pipeline, responses).unwrap();

    assert_pipeline_completed(&result);
    assert_execution_order(&result, &["step1", "step2"]);
}

/// Test variable substitution across a chain of steps
#[test]
fn test_variable_substitution_chain() {
    let yaml = r#"
name: "Test: Variable Substitution Chain"

variables:
  feature: "dynamic prompts"

steps:
  - id: "analyze"
    name: "Analyze"
    prompt: "Analyze {{ feature }}"
    termination:
      success_pattern: "✅ ANALYZED"
      on_success: "design"

  - id: "design"
    name: "Design"
    depends_on: ["analyze"]
    prompt: "Design based on analysis: {{ steps.analyze.output }}"
    termination:
      success_pattern: "✅ DESIGNED"
      on_success: "implement"

  - id: "implement"
    name: "Implement"
    depends_on: ["design"]
    prompt: "Implement using design: {{ steps.design.output }}\nOriginal feature: {{ feature }}"
    termination:
      success_pattern: "✅ DONE"
"#;

    let config = config_from_yaml(yaml).unwrap();
    let mut pipeline = config.to_pipeline();

    let responses = vec![
        "Analysis complete\n✅ ANALYZED".to_string(),
        "Design created\n✅ DESIGNED".to_string(),
        "Implementation complete\n✅ DONE".to_string(),
    ];

    let result = run_pipeline_with_mock(&mut pipeline, responses).unwrap();

    assert_pipeline_completed(&result);
    assert_execution_order(&result, &["analyze", "design", "implement"]);
}

/// Test variable substitution with review loop
#[test]
fn test_variable_substitution_with_review_loop() {
    let yaml = r#"
name: "Test: Variable Substitution with Review Loop"

variables:
  requirement: "Build a REST API"

steps:
  - id: "implement"
    name: "Implement"
    prompt: "Implement: {{ requirement }}"
    termination:
      success_pattern: "✅ DONE"
      on_failure: "review"

  - id: "review"
    name: "Review"
    depends_on: ["implement"]
    prompt: "Review this implementation: {{ steps.implement.output }}"
    termination:
      success_pattern: "✅ APPROVED"
      on_failure: "implement"
"#;

    let config = config_from_yaml(yaml).unwrap();
    let mut pipeline = config.to_pipeline();

    // First implementation, review rejects, second implementation, review approves
    let responses = vec![
        "Initial implementation\n✅ DONE".to_string(),
        "Needs changes: add authentication\n".to_string(),
        "Added authentication\n✅ DONE".to_string(),
        "Looks good!\n✅ APPROVED".to_string(),
    ];

    let result = run_pipeline_with_mock(&mut pipeline, responses).unwrap();

    assert_pipeline_completed(&result);

    // Both implement and review should have run multiple times
    assert!(count_step_executions(&result, "implement") >= 2);
    assert!(count_step_executions(&result, "review") >= 1);
}

/// Test variable substitution when no variables are defined
#[test]
fn test_variable_substitution_empty() {
    let yaml = r#"
name: "Test: No Variables"

steps:
  - id: "step1"
    name: "Simple Step"
    prompt: "Just do the work"
    termination:
      success_pattern: "✅ DONE"
"#;

    let config = config_from_yaml(yaml).unwrap();
    let mut pipeline = config.to_pipeline();

    let responses = vec!["✅ DONE".to_string()];
    let result = run_pipeline_with_mock(&mut pipeline, responses).unwrap();

    assert_pipeline_completed(&result);
}

/// Test that undefined variables are not substituted (remain as-is)
#[test]
fn test_variable_substitution_undefined() {
    let yaml = r#"
name: "Test: Undefined Variables"

variables:
  defined_var: "hello"

steps:
  - id: "step1"
    name: "Step With Undefined Var"
    prompt: "{{ defined_var }} and {{ undefined_var }}"
    termination:
      success_pattern: "✅ DONE"
"#;

    let config = config_from_yaml(yaml).unwrap();
    let mut pipeline = config.to_pipeline();

    // The step should still work, undefined vars just stay as {{ undefined_var }}
    let responses = vec!["hello and {{ undefined_var }}\n✅ DONE".to_string()];
    let result = run_pipeline_with_mock(&mut pipeline, responses).unwrap();

    assert_pipeline_completed(&result);
    assert_step_executed(&result, "step1", "✅ DONE");
}

/// Test variable substitution with parallel steps
#[test]
fn test_variable_substitution_parallel() {
    let yaml = r#"
name: "Test: Parallel Steps with Variables"

variables:
  base_feature: "data processing"

steps:
  - id: "setup"
    name: "Setup"
    prompt: "Setup {{ base_feature }} module"
    termination:
      success_pattern: "✅ SETUP_DONE"

  - id: "task_a"
    name: "Task A"
    depends_on: ["setup"]
    prompt: "Task A for {{ base_feature }}"
    termination:
      success_pattern: "✅ TASK_A_DONE"

  - id: "task_b"
    name: "Task B"
    depends_on: ["setup"]
    prompt: "Task B for {{ base_feature }}"
    termination:
      success_pattern: "✅ TASK_B_DONE"

  - id: "merge"
    name: "Merge Results"
    depends_on: ["task_a", "task_b"]
    prompt: "Merge A: {{ steps.task_a.output }} and B: {{ steps.task_b.output }}"
    termination:
      success_pattern: "✅ MERGED"
"#;

    let config = config_from_yaml(yaml).unwrap();
    let mut pipeline = config.to_pipeline();

    let responses = vec![
        "Setup complete\n✅ SETUP_DONE".to_string(),
        "Task A done\n✅ TASK_A_DONE".to_string(),
        "Task B done\n✅ TASK_B_DONE".to_string(),
        "Merged results\n✅ MERGED".to_string(),
    ];

    let result = run_pipeline_with_mock(&mut pipeline, responses).unwrap();

    assert_pipeline_completed(&result);
    assert_eq!(result.completed_steps().len(), 4);
}

/// Test variable substitution with special characters in values
#[test]
fn test_variable_substitution_special_chars() {
    let yaml = r#"
name: "Test: Special Characters in Variables"

variables:
  complex_value: "Value with \"quotes\", 'apostrophes', and \n newlines"
  emoji: "🚀✨💻"
  url: "https://example.com/path?query=value&other=123"

steps:
  - id: "step1"
    name: "Handle Special Chars"
    prompt: "Complex: {{ complex_value }}\nEmoji: {{ emoji }}\nURL: {{ url }}"
    termination:
      success_pattern: "✅ PROCESSED"
"#;

    let config = config_from_yaml(yaml).unwrap();
    let mut pipeline = config.to_pipeline();

    let responses = vec!["✅ PROCESSED".to_string()];
    let result = run_pipeline_with_mock(&mut pipeline, responses).unwrap();

    assert_pipeline_completed(&result);
    assert_step_executed(&result, "step1", "✅ PROCESSED");
}

fn step_with_done(on_success: Option<&str>, on_failure: Option<&str>) -> Step {
    Step {
        id: "test".to_string(),
        prompt_template: "Do the task".to_string(),
        dependencies: vec![],
        termination: Some(TerminationCondition {
            success_pattern: ConditionPattern::Simple("DONE".to_string()),
            on_success: on_success.map(|s| s.to_string()),
            on_failure: on_failure.map(|s| s.to_string()),
        }),
        continuation: None,
        max_retries: 3,
        timeout_secs: 300,
        state: StepState::Pending,
    }
}

#[test]
fn test_step_success() {
    let step = step_with_done(Some("next"), None);
    let agent = MockAgent::new(vec!["Working... DONE".to_string()]);
    let executor = StepExecutor::new(agent);
    let context = PipelineContext::new();

    let result = executor.execute(&step, &context, None::<&NoopCallback>);

    match result {
        ExecutionResult::Success { output, next_step } => {
            assert_eq!(output, "Working... DONE");
            assert_eq!(next_step, Some("next".to_string()));
        }
        _ => panic!("Expected success, got {:?}", result),
    }
}

#[test]
fn test_step_continuation_retry() {
    let mut step = step_with_done(None, None);
    step.continuation = Some(retry_continuation("CONTINUE"));
    let agent = MockAgent::new(vec!["Need more work... CONTINUE".to_string()]);
    let executor = StepExecutor::new(agent);
    let context = PipelineContext::new();

    let result = executor.execute(&step, &context, None::<&NoopCallback>);

    match result {
        ExecutionResult::Continue { action, target } => {
            assert_eq!(action, ContinueAction::Retry);
            assert!(target.is_none());
        }
        _ => panic!("Expected continue, got {:?}", result),
    }
}

#[test]
fn test_executor_signal_handling_sets_interrupted_flag() {
    let interrupted_flag = Arc::new(AtomicBool::new(false));
    let step = step_with_done(None, None);
    let agent = MockAgent::new(vec!["Working... DONE".to_string()]);
    let executor = StepExecutor::new(agent);
    let context = PipelineContext::new();

    interrupted_flag.store(true, Ordering::SeqCst);

    let result =
        executor.execute_interruptible(&step, &context, None::<&NoopCallback>, interrupted_flag);

    assert!(matches!(result, ExecutionResult::Interrupted { .. }));
}

#[test]
fn test_executor_returns_interrupted_result_when_flag_set() {
    let interrupted_flag = Arc::new(AtomicBool::new(false));
    let step = step_with_done(None, None);
    let agent = MockAgent::new(vec!["Working... DONE".to_string()]);
    let executor = StepExecutor::new(agent);
    let context = PipelineContext::new();

    interrupted_flag.store(true, Ordering::SeqCst);

    let result =
        executor.execute_interruptible(&step, &context, None::<&NoopCallback>, interrupted_flag);

    match result {
        ExecutionResult::Interrupted { step_id, accumulated_output, original_prompt, .. } => {
            assert_eq!(step_id, "test");
            assert_eq!(accumulated_output, "");
            assert_eq!(original_prompt, "Do the task");
        }
        _ => panic!("Expected Interrupted result, got {:?}", result),
    }
    assert_eq!(executor.agent().index.get(), 0);
}

#[test]
fn an_executor_that_is_not_interrupted_judges_the_answer() {
    let step = step_with_done(Some("next"), None);
    let executor = StepExecutor::new(MockAgent::new(vec!["all DONE".to_string()]));
    let result = executor.execute_interruptible(
        &step,
        &PipelineContext::new(),
        Some(&NoopCallback),
        Arc::new(AtomicBool::new(false)),
    );
    assert!(matches!(result, ExecutionResult::Success { .. }));
    let failing = StepExecutor::new(MockAgent::new(vec![]));
    match failing.execute(&step, &PipelineContext::new(), Some(&NoopCallback)) {
        ExecutionResult::Failed { error } => {
            assert_eq!(error, "Internal error: MockAgent: No response available for request 1")
        }
        other => panic!("expected a failure, got {:?}", other),
    }
}

#[test]
fn test_step_no_termination_pattern_retries() {
    let step = step_with_done(None, None);
    let agent = MockAgent::new(vec!["Working on it...".to_string()]);
    let executor = StepExecutor::new(agent);
    let context = PipelineContext::new();

    let result = executor.execute(&step, &context, None::<&NoopCallback>);

    match result {
        ExecutionResult::Continue { action, target } => {
            assert_eq!(action, ContinueAction::Retry);
            assert!(target.is_none());
        }
        _ => panic!("Expected Continue with Retry, got {:?}", result),
    }
}

#[test]
fn test_step_no_termination_pattern_with_failure_handler_routes() {
    let step = step_with_done(None, Some("handler"));
    let agent = MockAgent::new(vec!["Working on it...".to_string()]);
    let executor = StepExecutor::new(agent);
    let context = PipelineContext::new();

    let result = executor.execute(&step, &context, None::<&NoopCallback>);

    match result {
        ExecutionResult::FailedWithRoute { error, next_step } => {
            assert_eq!(error, "No termination pattern found");
            assert_eq!(next_step, "handler");
        }
        _ => panic!("Expected FailedWithRoute, got {:?}", result),
    }
}

#[test]
fn test_execute_simple_pipeline() {
    let yaml = r#"
name: "Test Pipeline"
steps:
  - id: "step1"
    name: "First"
    prompt: "Do task 1"
    termination:
      success_pattern: "DONE"
      on_success: "step2"
  - id: "step2"
    name: "Second"
    prompt: "Do task 2"
    termination:
      success_pattern: "DONE"
"#;

    let config = config_from_yaml(yaml).unwrap();
    let mut pipeline = config.to_pipeline();

    let agent = MockAgent::new(vec!["DONE".to_string(), "DONE".to_string()]);
    let mut engine = ExecutionEngine::new(agent, SchedulingStrategy::Sequential);

    let result = engine.execute(&mut pipeline);
    assert!(result.is_ok());
    assert!(pipeline.is_complete());
}

#[test]
fn test_variable_file_path_only() {
    let yaml = r#"
name: "Test Pipeline"
variables:
  readme:
    path: "README.md"
steps: []
"#;

    let config = config_from_yaml(yaml).unwrap();
    let var = config.get_variable("readme");
    assert!(var.is_some(), "Variable should exist");

    match var.unwrap() {
        VariableDefinition::File { path, validate_exists } => {
            assert_eq!(path, "README.md");
            assert_eq!(*validate_exists, false, "Should default to false");
        }
        VariableDefinition::String(_) => {
            panic!("Expected File variable, got String");
        }
    }
}

#[test]
fn test_variable_file_with_validate_false() {
    let yaml = r#"
name: "Test Pipeline"
variables:
  output_file:
    path: "./dist/bundle.js"
    validate_exists: false
steps: []
"#;

    let config = config_from_yaml(yaml).unwrap();
    let var = config.get_variable("output_file");
    assert!(var.is_some(), "Variable should exist");

    match var.unwrap() {
        VariableDefinition::File { path, validate_exists } => {
            assert_eq!(path, "./dist/bundle.js");
            assert_eq!(*validate_exists, false);
        }
        VariableDefinition::String(_) => {
            panic!("Expected File variable, got String");
        }
    }
}

#[test]
fn test_parse_simple_pipeline() {
    let yaml = r#"
name: "Test Pipeline"
version: "1.0"

variables:
  feature_name: "test feature"

steps:
  - id: "step1"
    name: "First Step"
    prompt: "Do something with {{ feature_name }}"
    termination:
      success_pattern: "DONE"
      on_success: "step2"

  - id: "step2"
    name: "Second Step"
    depends_on: ["step1"]
    prompt: "Follow up"
    termination:
      success_pattern: "DONE"
"#;

    let config = config_from_yaml(yaml).unwrap();
    assert_eq!(config.name, "Test Pipeline");
    assert_eq!(config.steps.len(), 2);
    assert_eq!(config.version, Some("1.0".to_string()));
    assert_eq!(
        config.variables_as_string_map().get("feature_name"),
        Some(&"test feature".to_string())
    );
}
