use pipeline::execution::{ExecutionScheduler, SchedulingStrategy};
use pipeline::model::config::{PipelineConfig, StepConfig, TerminationConfig};

fn step_config(id: &str, depends_on: &[&str]) -> StepConfig {
    StepConfig {
        id: id.to_string(),
        name: id.to_string(),
        description: None,
        prompt: "Test".to_string(),
        depends_on: depends_on.iter().map(|s| s.to_string()).collect(),
        termination: Some(TerminationConfig {
            success_pattern: "DONE".to_string(),
            on_success: None,
            on_failure: None,
            use_regex: false,
        }),
        continuation: None,
        max_retries: None,
        timeout_secs: None,
        allow_parallel: false,
    }
}

#[test]
fn test_sequential_scheduler() {
    let config = PipelineConfig::new(
        "Test Pipeline".to_string(),
        vec![
            step_config("step1", &[]),
            step_config("step2", &["step1"]),
            step_config("step3", &["step2"]),
        ],
    );
    config.validate(&vec![]).unwrap();
    let pipeline = config.to_pipeline();
    let scheduler = ExecutionScheduler::new(SchedulingStrategy::Sequential);

    let next = scheduler.next_steps(&pipeline);
    assert_eq!(next, vec!["step1"]);
}

#[test]
fn test_parallel_scheduler() {
    let config = PipelineConfig::new(
        "Test Pipeline".to_string(),
        vec![
            step_config("step1", &[]),
            step_config("step2", &[]),
            step_config("step3", &["step1", "step2"]),
        ],
    );
    config.validate(&vec![]).unwrap();
    let pipeline = config.to_pipeline();
    let scheduler = ExecutionScheduler::new(SchedulingStrategy::Parallel);

    let next = scheduler.next_steps(&pipeline);
    assert_eq!(next.len(), 2);
    assert!(next.contains(&"step1".to_string()));
    assert!(next.contains(&"step2".to_string()));
}
