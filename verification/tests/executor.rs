use pipeline::execution::executor::{classify, settle, timeout_failure};
use pipeline::execution::{ContinueAction, ExecutionResult};
use pipeline::agent::{AgentError, AgentResponse};
use pipeline::model::condition::TerminationCondition;
use pipeline::model::config::ContinuationAction;
use pipeline::model::{ConditionPattern, ContinuationCondition, Step, StepState};

fn step_with(
    termination: Option<TerminationCondition>,
    continuation: Option<ContinuationCondition>,
) -> Step {
    Step {
        id: "test".to_string(),
        prompt_template: "Do the work".to_string(),
        dependencies: vec![],
        termination,
        continuation,
        max_retries: 3,
        timeout_secs: 300,
        state: StepState::Pending,
    }
}

fn done(on_success: Option<&str>, on_failure: Option<&str>) -> Option<TerminationCondition> {
    Some(TerminationCondition {
        success_pattern: ConditionPattern::Simple("✅ DONE".to_string()),
        on_success: on_success.map(|s| s.to_string()),
        on_failure: on_failure.map(|s| s.to_string()),
    })
}

fn retry_on(pattern: &str) -> Option<ContinuationCondition> {
    Some(ContinuationCondition {
        pattern: ConditionPattern::Simple(pattern.to_string()),
        action: ContinuationAction::Retry,
        target: None,
    })
}

#[test]
fn test_execution_result_interrupted_variant_exists() {
    let result = ExecutionResult::Interrupted {
        step_id: "test-step".to_string(),
        accumulated_output: "partial output".to_string(),
        recent_lines: vec!["line 1".to_string(), "line 2".to_string()],
        original_prompt: "test prompt".to_string(),
    };

    assert!(matches!(result, ExecutionResult::Interrupted { .. }));
}

#[test]
fn test_execution_result_interrupted_fields() {
    let result = ExecutionResult::Interrupted {
        step_id: "test-step".to_string(),
        accumulated_output: "partial output".to_string(),
        recent_lines: vec!["line 1".to_string()],
        original_prompt: "test prompt".to_string(),
    };

    if let ExecutionResult::Interrupted {
        step_id,
        accumulated_output,
        recent_lines,
        original_prompt,
    } = result
    {
        assert_eq!(step_id, "test-step");
        assert_eq!(accumulated_output, "partial output");
        assert_eq!(recent_lines.len(), 1);
        assert_eq!(recent_lines[0], "line 1");
        assert_eq!(original_prompt, "test prompt");
    } else {
        panic!("Expected Interrupted variant");
    }
}

#[test]
fn continuation_wins_over_success() {
    let step = step_with(done(None, None), retry_on("🔄 RETRY"));
    match classify(&step, "✅ DONE 🔄 RETRY".to_string()) {
        ExecutionResult::Continue { action, target } => {
            assert_eq!(action, ContinueAction::Retry);
            assert!(target.is_none());
        }
        other => panic!("expected a continuation, got {:?}", other),
    }
}

#[test]
fn success_carries_the_reply_and_the_next_step() {
    let step = step_with(done(Some("next"), None), retry_on("🔄 RETRY"));
    match classify(&step, "Working... ✅ DONE".to_string()) {
        ExecutionResult::Success { output, next_step } => {
            assert_eq!(output, "Working... ✅ DONE");
            assert_eq!(next_step, Some("next".to_string()));
        }
        other => panic!("expected success, got {:?}", other),
    }
}

#[test]
fn unmatched_reply_is_retried_without_a_failure_route() {
    let step = step_with(done(None, None), None);
    match classify(&step, "Working on it...".to_string()) {
        ExecutionResult::Continue { action, target } => {
            assert_eq!(action, ContinueAction::Retry);
            assert!(target.is_none());
        }
        other => panic!("expected a retry, got {:?}", other),
    }
}

#[test]
fn unmatched_reply_follows_the_failure_route() {
    let step = step_with(done(None, Some("handler")), None);
    match classify(&step, "Working on it...".to_string()) {
        ExecutionResult::FailedWithRoute { error, next_step } => {
            assert_eq!(error, "No termination pattern found");
            assert_eq!(next_step, "handler");
        }
        other => panic!("expected a routed failure, got {:?}", other),
    }
}

#[test]
fn continuation_routes_to_its_target() {
    let continuation = Some(ContinuationCondition {
        pattern: ConditionPattern::Simple("NEEDS REVIEW".to_string()),
        action: ContinuationAction::Route,
        target: Some("review".to_string()),
    });
    let step = step_with(done(None, None), continuation);
    match classify(&step, "NEEDS REVIEW".to_string()) {
        ExecutionResult::Continue { action, target } => {
            assert_eq!(action, ContinueAction::Route("review".to_string()));
            assert_eq!(target, Some("review".to_string()));
        }
        other => panic!("expected a route, got {:?}", other),
    }
}

#[test]
fn a_route_without_target_is_a_retry() {
    let continuation = Some(ContinuationCondition {
        pattern: ConditionPattern::Simple("MORE".to_string()),
        action: ContinuationAction::Route,
        target: None,
    });
    let step = step_with(done(None, None), continuation);
    match classify(&step, "MORE".to_string()) {
        ExecutionResult::Continue { action, target } => {
            assert_eq!(action, ContinueAction::Retry);
            assert!(target.is_none());
        }
        other => panic!("expected a retry, got {:?}", other),
    }
}

#[test]
fn a_step_without_sentinels_succeeds_on_done() {
    let step = step_with(None, None);
    assert!(matches!(
        classify(&step, "all DONE".to_string()),
        ExecutionResult::Success { next_step: None, .. }
    ));
    assert!(matches!(
        classify(&step, "not yet".to_string()),
        ExecutionResult::Continue { action: ContinueAction::Retry, target: None }
    ));
}

#[test]
fn agent_errors_fail_the_step_with_their_message() {
    let step = step_with(done(None, Some("handler")), None);
    match settle(&step, Err(AgentError::Timeout(30))) {
        ExecutionResult::Failed { error } => assert_eq!(error, "Timeout after 30 seconds"),
        other => panic!("expected a failure, got {:?}", other),
    }
    match settle(&step, Err(AgentError::Api("pi exited with non-zero status: Some(1)".to_string()))) {
        ExecutionResult::Failed { error } => {
            assert_eq!(error, "API error: pi exited with non-zero status: Some(1)")
        }
        other => panic!("expected a failure, got {:?}", other),
    }
    match settle(&step, Ok(AgentResponse::new("fine ✅ DONE".to_string()))) {
        ExecutionResult::Success { output, .. } => assert_eq!(output, "fine ✅ DONE"),
        other => panic!("expected success, got {:?}", other),
    }
}

#[test]
fn timeout_failure_names_the_timeout_of_the_step() {
    let step = step_with(done(None, None), None);
    match timeout_failure(&step) {
        ExecutionResult::Failed { error } => assert_eq!(error, "Timeout after 300 seconds"),
        other => panic!("expected a failure, got {:?}", other),
    }
}

#[test]
fn agent_error_messages() {
    assert_eq!(AgentError::Network("down".to_string()).message(), "Network error: down");
    assert_eq!(AgentError::Authentication.message(), "Authentication failed");
    assert_eq!(AgentError::InvalidRequest("x".to_string()).message(), "Invalid request: x");
    assert_eq!(AgentError::RateLimited(7).message(), "Rate limited: retry after 7 seconds");
    assert_eq!(AgentError::Internal("boom".to_string()).message(), "Internal error: boom");
    assert_eq!(AgentError::Timeout(0).message(), "Timeout after 0 seconds");
    assert_eq!(
        AgentError::Timeout(18446744073709551615).message(),
        "Timeout after 18446744073709551615 seconds"
    );
}

#[test]
fn an_awaited_answer_may_time_out_or_be_interrupted() {
    let step = step_with(done(Some("next"), None), None);
    let lines = Some(vec!["last line".to_string()]);
    match pipeline::execution::executor::settle_awaited(&step, "p".to_string(), None, false, None) {
        ExecutionResult::Failed { error } => assert_eq!(error, "Timeout after 300 seconds"),
        other => panic!("expected a timeout, got {:?}", other),
    }
    match pipeline::execution::executor::settle_awaited(
        &step,
        "p".to_string(),
        None,
        true,
        lines.clone(),
    ) {
        ExecutionResult::Interrupted { step_id, accumulated_output, recent_lines, original_prompt } => {
            assert_eq!(step_id, "test");
            assert_eq!(accumulated_output, "");
            assert_eq!(recent_lines, vec!["last line"]);
            assert_eq!(original_prompt, "p");
        }
        other => panic!("expected an interruption, got {:?}", other),
    }
    match pipeline::execution::executor::settle_awaited(
        &step,
        "p".to_string(),
        Some(Ok(AgentResponse::new("half ✅ DONE".to_string()))),
        true,
        lines,
    ) {
        ExecutionResult::Interrupted { accumulated_output, recent_lines, .. } => {
            assert_eq!(accumulated_output, "half ✅ DONE");
            assert_eq!(recent_lines.len(), 1);
        }
        other => panic!("expected an interruption, got {:?}", other),
    }
    assert!(matches!(
        pipeline::execution::executor::settle_awaited(
            &step,
            "p".to_string(),
            Some(Ok(AgentResponse::new("✅ DONE".to_string()))),
            false,
            None,
        ),
        ExecutionResult::Success { .. }
    ));
    assert_eq!(
        pipeline::execution::executor::prompt_for(&step, &pipeline::model::PipelineContext::new()),
        step.build_effective_prompt(&pipeline::model::Variables::new())
    );
}
