//! The agent: its settings, its answers, and the client that calls it.

pub mod client;
pub mod decode;
pub mod json;
pub mod pi_events;
pub mod response;
pub mod streaming;
pub mod subprocess_client;

pub use client::{create_agent_client, AgentClientConfig};
pub use json::{JsonNumber, JsonValue};
pub use pi_events::{AssistantMessageEvent, Message, PiJsonEvent, ToolCall};
pub use response::{AgentError, AgentResponse, TokenUsage};
pub use streaming::{NoopCallback, ProgressCallback};
pub use subprocess_client::PiSubprocessClient;

use vstd::prelude::*;

verus! {

/// The executable that `config` names: its endpoint, or `pi`.
pub open spec fn executable_of(config: AgentClientConfig) -> Seq<char> {
    match config.endpoint {
        Some(path) => path@,
        None => "pi"@,
    }
}

/// Something that answers prompts.
pub trait AgentExecutor {
    /// Sends `prompt` and gives back the whole answer.
    fn execute(&self, prompt: &str) -> Result<AgentResponse, AgentError>;

    /// Sends `prompt`, hands each event of the answer to `callback` as it
    /// arrives, and gives back the whole answer.
    fn execute_streaming<C: ProgressCallback>(
        &self,
        prompt: &str,
        callback: Option<&C>,
    ) -> Result<AgentResponse, AgentError>;
}

/// The client of the agent's command-line program.
#[derive(Debug)]
pub struct PiAgentClient {
    subprocess_client: PiSubprocessClient,
}

impl Clone for PiAgentClient {
    fn clone(&self) -> (r: Self)
        ensures
            r == *self,
    {
        PiAgentClient { subprocess_client: self.subprocess_client.clone() }
    }
}

impl PiAgentClient {
    /// The path of the executable.
    pub closed spec fn path(self) -> Seq<char> {
        self.subprocess_client.path()
    }

    /// The timeout of a call, in seconds.
    pub closed spec fn timeout(self) -> u64 {
        self.subprocess_client.timeout()
    }

    /// The client that `config` describes: it calls the endpoint of `config`
    /// as an executable, or `pi` where `config` has none.
    pub fn new(config: AgentClientConfig) -> (client: Self)
        ensures
            client.path() == executable_of(config),
            client.timeout() == config.timeout_secs,
    {
        let pi_path = match config.endpoint {
            Some(path) => path,
            None => "pi".to_owned(),
        };
        PiAgentClient { subprocess_client: PiSubprocessClient::new(pi_path, config.timeout_secs) }
    }

    /// The path of the executable.
    pub fn pi_path(&self) -> (p: &str)
        ensures
            p@ == self.path(),
    {
        self.subprocess_client.pi_path()
    }

    /// The timeout of a call, in seconds.
    pub fn timeout_secs(&self) -> (t: u64)
        ensures
            t == self.timeout(),
    {
        self.subprocess_client.timeout_secs()
    }

    /// The subprocess client behind this client.
    pub fn subprocess(&self) -> (c: &PiSubprocessClient)
        ensures
            c.path() == self.path(),
            c.timeout() == self.timeout(),
    {
        &self.subprocess_client
    }
}

} // verus!
