//! The condition under which a step counts as done.

use crate::model::step::ConditionPattern;
use vstd::prelude::*;

verus! {

/// When a step is done, and where the pipeline goes from there.
#[derive(Debug)]
pub struct TerminationCondition {
    /// The pattern that signals success.
    pub success_pattern: ConditionPattern,
    /// The step to go to on success.
    pub on_success: Option<String>,
    /// The step to go to when the pattern is missing.
    pub on_failure: Option<String>,
}

impl Clone for TerminationCondition {
    fn clone(&self) -> (r: Self)
        ensures
            r == *self,
    {
        TerminationCondition {
            success_pattern: self.success_pattern.clone(),
            on_success: crate::text::clone_opt(&self.on_success),
            on_failure: crate::text::clone_opt(&self.on_failure),
        }
    }
}

} // verus!
