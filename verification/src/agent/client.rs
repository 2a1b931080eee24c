//! Settings of the agent client.

use crate::agent::PiAgentClient;
use vstd::prelude::*;

verus! {

/// Settings of the agent client.
#[derive(Debug)]
pub struct AgentClientConfig {
    /// The path of the agent's executable; `pi` where none is given.
    pub endpoint: Option<String>,
    /// An API key, where one is needed.
    pub api_key: Option<String>,
    /// The model to use, where one is chosen.
    pub model: Option<String>,
    /// The timeout of a call, in seconds.
    pub timeout_secs: u64,
    /// Whether answers are streamed.
    pub enable_streaming: bool,
}

impl Clone for AgentClientConfig {
    fn clone(&self) -> (r: Self)
        ensures
            r == *self,
    {
        AgentClientConfig {
            endpoint: crate::text::clone_opt(&self.endpoint),
            api_key: crate::text::clone_opt(&self.api_key),
            model: crate::text::clone_opt(&self.model),
            timeout_secs: self.timeout_secs,
            enable_streaming: self.enable_streaming,
        }
    }
}

impl Default for AgentClientConfig {
    fn default() -> (c: Self)
        ensures
            c.endpoint is None,
            c.api_key is None,
            c.model is None,
            c.timeout_secs == 300,
            c.enable_streaming,
    {
        AgentClientConfig {
            endpoint: None,
            api_key: None,
            model: None,
            timeout_secs: 300,
            enable_streaming: true,
        }
    }
}

impl AgentClientConfig {
    /// The default settings: no endpoint, key or model, five minutes, streaming.
    pub fn new() -> (c: Self)
        ensures
            c.endpoint is None,
            c.api_key is None,
            c.model is None,
            c.timeout_secs == 300,
            c.enable_streaming,
    {
        AgentClientConfig {
            endpoint: None,
            api_key: None,
            model: None,
            timeout_secs: 300,
            enable_streaming: true,
        }
    }

    /// The same settings with the endpoint `endpoint`.
    pub fn with_endpoint(self, endpoint: String) -> (c: Self)
        ensures
            c.endpoint == Some(endpoint),
            c.api_key == self.api_key,
            c.model == self.model,
            c.timeout_secs == self.timeout_secs,
            c.enable_streaming == self.enable_streaming,
    {
        let mut c = self;
        c.endpoint = Some(endpoint);
        c
    }

    /// The same settings with the API key `api_key`.
    pub fn with_api_key(self, api_key: String) -> (c: Self)
        ensures
            c.endpoint == self.endpoint,
            c.api_key == Some(api_key),
            c.model == self.model,
            c.timeout_secs == self.timeout_secs,
            c.enable_streaming == self.enable_streaming,
    {
        let mut c = self;
        c.api_key = Some(api_key);
        c
    }

    /// The same settings with the model `model`.
    pub fn with_model(self, model: String) -> (c: Self)
        ensures
            c.endpoint == self.endpoint,
            c.api_key == self.api_key,
            c.model == Some(model),
            c.timeout_secs == self.timeout_secs,
            c.enable_streaming == self.enable_streaming,
    {
        let mut c = self;
        c.model = Some(model);
        c
    }

    /// The same settings with a timeout of `timeout_secs` seconds.
    pub fn with_timeout(self, timeout_secs: u64) -> (c: Self)
        ensures
            c.endpoint == self.endpoint,
            c.api_key == self.api_key,
            c.model == self.model,
            c.timeout_secs == timeout_secs,
            c.enable_streaming == self.enable_streaming,
    {
        let mut c = self;
        c.timeout_secs = timeout_secs;
        c
    }

    /// The same settings with streaming switched on or off.
    pub fn with_streaming(self, enable: bool) -> (c: Self)
        ensures
            c.endpoint == self.endpoint,
            c.api_key == self.api_key,
            c.model == self.model,
            c.timeout_secs == self.timeout_secs,
            c.enable_streaming == enable,
    {
        let mut c = self;
        c.enable_streaming = enable;
        c
    }
}

/// The client that `config` describes.
pub fn create_agent_client(config: AgentClientConfig) -> (client: PiAgentClient)
    ensures
        client.path() == crate::agent::executable_of(config),
        client.timeout() == config.timeout_secs,
{
    PiAgentClient::new(config)
}

} // verus!
