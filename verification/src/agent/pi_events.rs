//! The events that the agent writes, one JSON object per line.

use crate::agent::json::JsonValue;
use vstd::prelude::*;

verus! {

/// A message of the conversation.
#[derive(Debug, Clone)]
pub struct Message {
    pub role: String,
    pub content: Vec<JsonValue>,
}

/// A call of a tool.
#[derive(Debug, Clone)]
pub struct ToolCall {
    pub tool_type: String,
    pub id: String,
    pub name: String,
    pub arguments: JsonValue,
}

/// What happens inside a message while the assistant writes it.
#[derive(Debug, Clone)]
pub enum AssistantMessageEvent {
    ThinkingStart { content_index: usize, partial: Option<Message> },
    ThinkingDelta { content_index: usize, delta: String },
    ThinkingEnd { content_index: usize, content: Option<String> },
    TextStart { content_index: usize, partial: Option<Message> },
    TextDelta { content_index: usize, delta: String },
    TextEnd { content_index: usize, content: Option<String> },
    ToolcallStart { content_index: usize, partial: Option<Message> },
    ToolcallDelta { content_index: usize, delta: String, partial: Option<Message> },
    ToolcallEnd { content_index: usize, tool_call: Option<ToolCall>, partial: Option<Message> },
    /// An event of a kind that is not known here.
    Other,
}

/// An event of the agent's run.
#[derive(Debug, Clone)]
pub enum PiJsonEvent {
    AgentStart,
    AgentEnd,
    TurnStart,
    TurnEnd { message: Option<Message>, tool_results: Vec<JsonValue> },
    MessageStart,
    MessageEnd,
    MessageUpdate { assistant_message_event: Option<AssistantMessageEvent>, message: Option<Message> },
    Session { version: u32, id: String, timestamp: String, cwd: String },
    ToolExecutionStart { tool_call_id: String, tool_name: String, args: JsonValue },
    ToolExecutionUpdate {
        tool_call_id: String,
        tool_name: String,
        args: JsonValue,
        partial_result: JsonValue,
    },
    ToolExecutionEnd { tool_call_id: String, tool_name: String, result: JsonValue, is_error: bool },
}

impl PiJsonEvent {
    /// The piece of the answer that the event carries: the delta of a text
    /// delta inside a message update.
    pub open spec fn text_delta(self) -> Option<Seq<char>> {
        match self {
            PiJsonEvent::MessageUpdate {
                assistant_message_event: Some(AssistantMessageEvent::TextDelta { delta, .. }),
                ..
            } => Some(delta@),
            _ => None,
        }
    }

    /// The piece of the answer that the event carries, if any.
    pub fn answer_delta(&self) -> (r: Option<&String>)
        ensures
            crate::text::opt_ref_text(r) == self.text_delta(),
    {
        match self {
            PiJsonEvent::MessageUpdate { assistant_message_event, .. } => {
                match assistant_message_event {
                    Some(AssistantMessageEvent::TextDelta { delta, .. }) => Some(delta),
                    _ => None,
                }
            },
            _ => None,
        }
    }
}

} // verus!
