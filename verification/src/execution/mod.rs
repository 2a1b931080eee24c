//! Running a pipeline: judging replies, choosing steps, driving the run.

pub mod course;
pub mod engine;
pub mod executor;
pub mod laws;
pub mod scheduler;
pub mod transitions;

pub use executor::{ContinueAction, ExecutionResult, StepExecutor};
pub use scheduler::{ExecutionScheduler, SchedulingStrategy};
pub use engine::{ExecutionEngine, ExecutionEvent};
