//! Observers of the agent's events.

use crate::agent::pi_events::PiJsonEvent;
use vstd::prelude::*;

verus! {

/// An observer of the events of a streamed call. It is called once for each
/// event, in the order of arrival.
pub trait ProgressCallback {
    /// Takes note of `event`.
    fn on_event(&self, event: &PiJsonEvent);

    /// The last lines that the observer has seen, where it keeps them.
    fn get_context_lines(&self) -> Option<Vec<String>>;
}

/// The observer that does nothing.
#[derive(Debug, Clone, Copy, Default)]
pub struct NoopCallback;

impl ProgressCallback for NoopCallback {
    fn on_event(&self, event: &PiJsonEvent) {
    }

    fn get_context_lines(&self) -> (r: Option<Vec<String>>)
        ensures
            r is None,
    {
        None
    }
}

} // verus!
