//! Orchestration of multi-step agent pipelines: prompts, sentinels, retries and routing.

pub mod agent;
pub mod cli;
pub mod execution;
pub mod model;
pub mod persistence;
pub mod text;

pub use agent::{
    AgentClientConfig, AgentError, AgentExecutor, AgentResponse, PiAgentClient, PiJsonEvent,
    ProgressCallback,
};
pub use execution::{ExecutionEngine, ExecutionEvent, SchedulingStrategy};
pub use model::{ExecutionStatus, Pipeline, PipelineContext, Step, StepState};
