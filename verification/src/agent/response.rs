//! What an agent answers, and how it fails.

use crate::text::{concat, decimal, decimal_string};
use vstd::prelude::*;

verus! {

/// Why a call of the agent failed.
#[derive(Debug)]
pub enum AgentError {
    Network(String),
    Api(String),
    Timeout(u64),
    Authentication,
    InvalidRequest(String),
    RateLimited(u64),
    Internal(String),
}

impl AgentError {
    /// The failure in words.
    pub open spec fn message_text(self) -> Seq<char> {
        match self {
            AgentError::Network(m) => "Network error: "@ + m@,
            AgentError::Api(m) => "API error: "@ + m@,
            AgentError::Timeout(secs) => "Timeout after "@ + decimal(secs as nat) + " seconds"@,
            AgentError::Authentication => "Authentication failed"@,
            AgentError::InvalidRequest(m) => "Invalid request: "@ + m@,
            AgentError::RateLimited(secs) => "Rate limited: retry after "@ + decimal(secs as nat)
                + " seconds"@,
            AgentError::Internal(m) => "Internal error: "@ + m@,
        }
    }

    /// The failure in words.
    pub fn message(&self) -> (s: String)
        ensures
            s@ == self.message_text(),
    {
        match self {
            AgentError::Network(m) => concat("Network error: ", m.as_str()),
            AgentError::Api(m) => concat("API error: ", m.as_str()),
            AgentError::Timeout(secs) => {
                let n = decimal_string(*secs);
                let head = concat("Timeout after ", n.as_str());
                concat(head.as_str(), " seconds")
            },
            AgentError::Authentication => "Authentication failed".to_owned(),
            AgentError::InvalidRequest(m) => concat("Invalid request: ", m.as_str()),
            AgentError::RateLimited(secs) => {
                let n = decimal_string(*secs);
                let head = concat("Rate limited: retry after ", n.as_str());
                concat(head.as_str(), " seconds")
            },
            AgentError::Internal(m) => concat("Internal error: ", m.as_str()),
        }
    }
}

/// How many tokens a call used.
#[derive(Debug, Clone, Copy, PartialEq, Eq, Structural)]
pub struct TokenUsage {
    pub prompt_tokens: u32,
    pub completion_tokens: u32,
    pub total_tokens: u32,
}

/// The answer of the agent.
#[derive(Debug)]
pub struct AgentResponse {
    /// The text of the answer.
    pub content: String,
    /// Whether the answer is complete.
    pub done: bool,
    /// How many tokens the call used, if known.
    pub usage: Option<TokenUsage>,
}

impl Clone for AgentResponse {
    fn clone(&self) -> (r: Self)
        ensures
            r == *self,
    {
        AgentResponse { content: self.content.clone(), done: self.done, usage: self.usage }
    }
}

impl AgentResponse {
    /// A complete answer with the text `content` and no usage.
    pub fn new(content: String) -> (r: Self)
        ensures
            r.content == content,
            r.done,
            r.usage is None,
    {
        AgentResponse { content, done: true, usage: None }
    }

    /// The same answer with `usage` recorded.
    pub fn with_usage(self, usage: TokenUsage) -> (r: Self)
        ensures
            r.content == self.content,
            r.done == self.done,
            r.usage == Some(usage),
    {
        let AgentResponse { content, done, usage: _ } = self;
        AgentResponse { content, done, usage: Some(usage) }
    }
}

} // verus!
