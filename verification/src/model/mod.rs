//! The domain model: pipelines, steps and their states.

pub mod condition;
pub mod config;
pub mod context;
pub mod graph;
pub mod pipeline;
pub mod state;
pub mod step;
pub mod validation;
pub mod variables;

pub use state::{ExecutionStatus, PipelineState, StepState, StepStateView, Timestamp};
pub use step::{ConditionPattern, ContinuationCondition, Step, StepDefaults};
pub use variables::Variables;
pub use context::{ContextNote, PipelineContext};
pub use pipeline::Pipeline;
