//! Reading events from JSON.
//!
//! An event is a JSON object whose member `type` names its kind. Names of
//! members are taken in camel case and in snake case alike, members that are
//! not known are passed over, and a member that may be missing has its usual
//! value then.

use crate::agent::json::{entry_of, lemma_entry_index, lemma_entry_removed, JsonNumber, JsonValue};
use crate::agent::pi_events::{AssistantMessageEvent, Message, PiJsonEvent, ToolCall};
use crate::text::same_text;
use vstd::prelude::*;

verus! {

/// Why a JSON value is not an event.
#[derive(Debug)]
pub enum EventError {
    /// The line is not JSON; the text says why.
    InvalidJson(String),
    /// The value is not an object, or has no member `type` that is a text.
    NotAnEvent,
    /// The value is an event of a kind that is not known.
    UnknownType(String),
    /// A member that the kind of event needs is missing or of the wrong kind.
    InvalidField,
}

/// The member `first`, or else the member `second`.
pub open spec fn either(
    entries: Seq<(String, JsonValue)>,
    first: Seq<char>,
    second: Seq<char>,
) -> Option<JsonValue> {
    match entry_of(entries, first) {
        Some(v) => Some(v),
        None => entry_of(entries, second),
    }
}

/// The text that a member must be.
pub open spec fn text_in(v: Option<JsonValue>) -> Option<String> {
    match v {
        Some(JsonValue::String(s)) => Some(s),
        _ => None,
    }
}

/// The text that a member may be: a member that is missing or null is no
/// text, and a member of another kind is an error.
pub open spec fn optional_text_in(v: Option<JsonValue>) -> Option<Option<String>> {
    match v {
        None => Some(None),
        Some(JsonValue::Null) => Some(None),
        Some(JsonValue::String(s)) => Some(Some(s)),
        _ => None,
    }
}

/// The position that a member must be: a whole number that is not negative
/// and fits a machine word.
pub open spec fn index_in(v: Option<JsonValue>) -> Option<usize> {
    match v {
        Some(JsonValue::Number(JsonNumber::Unsigned(n))) => if n <= usize::MAX {
            Some(n as usize)
        } else {
            None
        },
        _ => None,
    }
}

/// The version that a member must be: a whole number that is not negative
/// and fits 32 bits.
pub open spec fn version_in(v: Option<JsonValue>) -> Option<u32> {
    match v {
        Some(JsonValue::Number(JsonNumber::Unsigned(n))) => if n <= u32::MAX {
            Some(n as u32)
        } else {
            None
        },
        _ => None,
    }
}

/// The flag that a member may be: a member that is missing is `false`.
pub open spec fn flag_in(v: Option<JsonValue>) -> Option<bool> {
    match v {
        None => Some(false),
        Some(JsonValue::Bool(b)) => Some(b),
        _ => None,
    }
}

/// The value of a member that may be missing: null then.
pub open spec fn value_in(v: Option<JsonValue>) -> JsonValue {
    match v {
        Some(x) => x,
        None => JsonValue::Null,
    }
}

/// The elements that a member must hold.
pub open spec fn array_in(v: Option<JsonValue>) -> Option<Vec<JsonValue>> {
    match v {
        Some(JsonValue::Array(items)) => Some(items),
        _ => None,
    }
}

/// The message that a value is: an object with a role and a content.
pub open spec fn message_in(v: JsonValue) -> Option<Message> {
    match v {
        JsonValue::Object(entries) => match (
            text_in(entry_of(entries@, "role"@)),
            array_in(entry_of(entries@, "content"@)),
        ) {
            (Some(role), Some(content)) => Some(Message { role, content }),
            _ => None,
        },
        _ => None,
    }
}

/// The message that a member may be: a member that is missing or null is no
/// message, and a member that is no message is an error.
pub open spec fn optional_message_in(v: Option<JsonValue>) -> Option<Option<Message>> {
    match v {
        None => Some(None),
        Some(JsonValue::Null) => Some(None),
        Some(x) => match message_in(x) {
            Some(m) => Some(Some(m)),
            None => None,
        },
    }
}

/// The tool call that a value is: an object with a type, an id, a name and
/// arguments.
pub open spec fn tool_call_in(v: JsonValue) -> Option<ToolCall> {
    match v {
        JsonValue::Object(entries) => match (
            text_in(entry_of(entries@, "type"@)),
            text_in(entry_of(entries@, "id"@)),
            text_in(entry_of(entries@, "name"@)),
            entry_of(entries@, "arguments"@),
        ) {
            (Some(tool_type), Some(id), Some(name), Some(arguments)) => Some(
                ToolCall { tool_type, id, name, arguments },
            ),
            _ => None,
        },
        _ => None,
    }
}

/// The tool call that a member may be.
pub open spec fn optional_tool_call_in(v: Option<JsonValue>) -> Option<Option<ToolCall>> {
    match v {
        None => Some(None),
        Some(JsonValue::Null) => Some(None),
        Some(x) => match tool_call_in(x) {
            Some(c) => Some(Some(c)),
            None => None,
        },
    }
}

/// The kinds of events inside a message.
pub open spec fn is_inner_kind(kind: Seq<char>) -> bool {
    kind == "thinking_start"@ || kind == "thinking_delta"@ || kind == "thinking_end"@ || kind
        == "text_start"@ || kind == "text_delta"@ || kind == "text_end"@ || kind
        == "toolcall_start"@ || kind == "toolcall_delta"@ || kind == "toolcall_end"@
}

/// The event inside a message that a value is. An event of a kind that is
/// not known is `Other`, whatever else it holds.
pub open spec fn inner_event_in(v: JsonValue) -> Option<AssistantMessageEvent> {
    match v {
        JsonValue::Object(entries) => match text_in(entry_of(entries@, "type"@)) {
            Some(kind) => if !is_inner_kind(kind@) {
                Some(AssistantMessageEvent::Other)
            } else {
                let index = index_in(either(entries@, "contentIndex"@, "content_index"@));
                let partial = optional_message_in(entry_of(entries@, "partial"@));
                let delta = text_in(entry_of(entries@, "delta"@));
                let content = optional_text_in(entry_of(entries@, "content"@));
                let call = optional_tool_call_in(either(entries@, "toolCall"@, "tool_call"@));
                if index is None {
                    None
                } else if kind@ == "thinking_start"@ {
                    match partial {
                        Some(partial) => Some(
                            AssistantMessageEvent::ThinkingStart {
                                content_index: index->0,
                                partial,
                            },
                        ),
                        None => None,
                    }
                } else if kind@ == "thinking_delta"@ {
                    match delta {
                        Some(delta) => Some(
                            AssistantMessageEvent::ThinkingDelta { content_index: index->0, delta },
                        ),
                        None => None,
                    }
                } else if kind@ == "thinking_end"@ {
                    match content {
                        Some(content) => Some(
                            AssistantMessageEvent::ThinkingEnd { content_index: index->0, content },
                        ),
                        None => None,
                    }
                } else if kind@ == "text_start"@ {
                    match partial {
                        Some(partial) => Some(
                            AssistantMessageEvent::TextStart { content_index: index->0, partial },
                        ),
                        None => None,
                    }
                } else if kind@ == "text_delta"@ {
                    match delta {
                        Some(delta) => Some(
                            AssistantMessageEvent::TextDelta { content_index: index->0, delta },
                        ),
                        None => None,
                    }
                } else if kind@ == "text_end"@ {
                    match content {
                        Some(content) => Some(
                            AssistantMessageEvent::TextEnd { content_index: index->0, content },
                        ),
                        None => None,
                    }
                } else if kind@ == "toolcall_start"@ {
                    match partial {
                        Some(partial) => Some(
                            AssistantMessageEvent::ToolcallStart {
                                content_index: index->0,
                                partial,
                            },
                        ),
                        None => None,
                    }
                } else if kind@ == "toolcall_delta"@ {
                    match (delta, partial) {
                        (Some(delta), Some(partial)) => Some(
                            AssistantMessageEvent::ToolcallDelta {
                                content_index: index->0,
                                delta,
                                partial,
                            },
                        ),
                        _ => None,
                    }
                } else {
                    match (call, partial) {
                        (Some(tool_call), Some(partial)) => Some(
                            AssistantMessageEvent::ToolcallEnd {
                                content_index: index->0,
                                tool_call,
                                partial,
                            },
                        ),
                        _ => None,
                    }
                }
            },
            None => None,
        },
        _ => None,
    }
}

/// The event inside a message that a member may be.
pub open spec fn optional_inner_event_in(v: Option<JsonValue>) -> Option<
    Option<AssistantMessageEvent>,
> {
    match v {
        None => Some(None),
        Some(JsonValue::Null) => Some(None),
        Some(x) => match inner_event_in(x) {
            Some(e) => Some(Some(e)),
            None => None,
        },
    }
}

/// The kinds of events.
pub open spec fn is_event_kind(kind: Seq<char>) -> bool {
    kind == "session"@ || kind == "agent_start"@ || kind == "agent_end"@ || kind == "turn_start"@
        || kind == "turn_end"@ || kind == "message_start"@ || kind == "message_end"@ || kind
        == "message_update"@ || kind == "tool_execution_start"@ || kind
        == "tool_execution_update"@ || kind == "tool_execution_end"@
}

/// `given` where it is there, and the error of a field otherwise.
pub open spec fn needed<T>(given: Option<T>) -> Result<T, EventError> {
    match given {
        Some(x) => Ok(x),
        None => Err(EventError::InvalidField),
    }
}

/// The event that the members `entries` and the kind `kind` make.
pub open spec fn event_of_kind(entries: Seq<(String, JsonValue)>, kind: Seq<char>) -> Option<
    PiJsonEvent,
> {
    let call_id = text_in(either(entries, "toolCallId"@, "tool_call_id"@));
    let tool = text_in(either(entries, "toolName"@, "tool_name"@));
    if kind == "agent_start"@ {
        Some(PiJsonEvent::AgentStart)
    } else if kind == "agent_end"@ {
        Some(PiJsonEvent::AgentEnd)
    } else if kind == "turn_start"@ {
        Some(PiJsonEvent::TurnStart)
    } else if kind == "message_start"@ {
        Some(PiJsonEvent::MessageStart)
    } else if kind == "message_end"@ {
        Some(PiJsonEvent::MessageEnd)
    } else if kind == "turn_end"@ {
        match (
            optional_message_in(entry_of(entries, "message"@)),
            array_in(either(entries, "toolResults"@, "tool_results"@)),
        ) {
            (Some(message), Some(tool_results)) => Some(
                PiJsonEvent::TurnEnd { message, tool_results },
            ),
            _ => None,
        }
    } else if kind == "message_update"@ {
        match (
            optional_inner_event_in(
                either(entries, "assistantMessageEvent"@, "assistant_message_event"@),
            ),
            optional_message_in(entry_of(entries, "message"@)),
        ) {
            (Some(assistant_message_event), Some(message)) => Some(
                PiJsonEvent::MessageUpdate { assistant_message_event, message },
            ),
            _ => None,
        }
    } else if kind == "session"@ {
        match (
            version_in(entry_of(entries, "version"@)),
            text_in(entry_of(entries, "id"@)),
            text_in(entry_of(entries, "timestamp"@)),
            text_in(entry_of(entries, "cwd"@)),
        ) {
            (Some(version), Some(id), Some(timestamp), Some(cwd)) => Some(
                PiJsonEvent::Session { version, id, timestamp, cwd },
            ),
            _ => None,
        }
    } else if kind == "tool_execution_start"@ {
        match (call_id, tool, entry_of(entries, "args"@)) {
            (Some(tool_call_id), Some(tool_name), Some(args)) => Some(
                PiJsonEvent::ToolExecutionStart { tool_call_id, tool_name, args },
            ),
            _ => None,
        }
    } else if kind == "tool_execution_update"@ {
        match (call_id, tool, entry_of(entries, "args"@)) {
            (Some(tool_call_id), Some(tool_name), Some(args)) => Some(
                PiJsonEvent::ToolExecutionUpdate {
                    tool_call_id,
                    tool_name,
                    args,
                    partial_result: value_in(either(entries, "partialResult"@, "partial_result"@)),
                },
            ),
            _ => None,
        }
    } else {
        match (call_id, tool, flag_in(either(entries, "isError"@, "is_error"@))) {
            (Some(tool_call_id), Some(tool_name), Some(is_error)) => Some(
                PiJsonEvent::ToolExecutionEnd {
                    tool_call_id,
                    tool_name,
                    result: value_in(entry_of(entries, "result"@)),
                    is_error,
                },
            ),
            _ => None,
        }
    }
}

/// The event that a JSON value is, or why it is none.
pub open spec fn decoded(json: JsonValue) -> Result<PiJsonEvent, EventError> {
    match json {
        JsonValue::Object(entries) => match text_in(entry_of(entries@, "type"@)) {
            Some(kind) => if is_event_kind(kind@) {
                needed(event_of_kind(entries@, kind@))
            } else {
                Err(EventError::UnknownType(kind))
            },
            None => Err(EventError::NotAnEvent),
        },
        _ => Err(EventError::NotAnEvent),
    }
}

/// The lengths of the names of members, and the first letters of those that
/// are equally long: no two names are the same.
proof fn lemma_member_names()
    ensures
        "type"@.len() == 4,
        "message"@.len() == 7,
        "toolResults"@.len() == 11,
        "tool_results"@.len() == 12,
        "assistantMessageEvent"@.len() == 21,
        "assistant_message_event"@.len() == 23,
        "version"@.len() == 7,
        "id"@.len() == 2,
        "timestamp"@.len() == 9,
        "cwd"@.len() == 3,
        "toolCallId"@.len() == 10,
        "tool_call_id"@.len() == 12,
        "toolName"@.len() == 8,
        "tool_name"@.len() == 9,
        "args"@.len() == 4,
        "partialResult"@.len() == 13,
        "partial_result"@.len() == 14,
        "result"@.len() == 6,
        "isError"@.len() == 7,
        "is_error"@.len() == 8,
        "contentIndex"@.len() == 12,
        "content_index"@.len() == 13,
        "partial"@.len() == 7,
        "delta"@.len() == 5,
        "content"@.len() == 7,
        "toolCall"@.len() == 8,
        "tool_call"@.len() == 9,
        "role"@.len() == 4,
        "name"@.len() == 4,
        "arguments"@.len() == 9,
        "name"@[0] == 'n',
        "args"@[0] == 'a',
        "type"@[0] == 't',
        "is_error"@[0] == 'i',
        "toolName"@[0] == 't',
{
    reveal_strlit("type");
    reveal_strlit("message");
    reveal_strlit("toolResults");
    reveal_strlit("tool_results");
    reveal_strlit("assistantMessageEvent");
    reveal_strlit("assistant_message_event");
    reveal_strlit("version");
    reveal_strlit("id");
    reveal_strlit("timestamp");
    reveal_strlit("cwd");
    reveal_strlit("toolCallId");
    reveal_strlit("tool_call_id");
    reveal_strlit("toolName");
    reveal_strlit("tool_name");
    reveal_strlit("args");
    reveal_strlit("partialResult");
    reveal_strlit("partial_result");
    reveal_strlit("result");
    reveal_strlit("isError");
    reveal_strlit("is_error");
    reveal_strlit("contentIndex");
    reveal_strlit("content_index");
    reveal_strlit("partial");
    reveal_strlit("delta");
    reveal_strlit("content");
    reveal_strlit("toolCall");
    reveal_strlit("tool_call");
    reveal_strlit("role");
    reveal_strlit("name");
    reveal_strlit("arguments");
}

/// Takes the member `key` out of `entries`.
fn take(entries: &mut Vec<(String, JsonValue)>, key: &str) -> (r: Option<JsonValue>)
    ensures
        r == entry_of(old(entries)@, key@),
        r is None ==> final(entries)@ == old(entries)@,
        forall|other: Seq<char>|
            other != key@ ==> #[trigger] entry_of(final(entries)@, other) == entry_of(
                old(entries)@,
                other,
            ),
{
    let mut i: usize = 0;
    while i < entries.len()
        invariant
            i <= entries.len(),
            *entries == *old(entries),
            forall|j: int| 0 <= j < i ==> (#[trigger] entries@[j]).0@ != key@,
        decreases entries.len() - i,
    {
        if same_text(entries[i].0.as_str(), key) {
            proof {
                lemma_entry_index(entries@, key@);
                assert forall|other: Seq<char>| other != key@ implies #[trigger] entry_of(
                    entries@.remove(i as int),
                    other,
                ) == entry_of(entries@, other) by {
                    lemma_entry_removed(entries@, i as int, other);
                }
            }
            let (_, value) = entries.remove(i);
            return Some(value);
        }
        i = i + 1;
    }
    proof {
        lemma_entry_index(entries@, key@);
    }
    None
}

/// Takes the member `first`, or else the member `second`, out of `entries`.
fn take_either(entries: &mut Vec<(String, JsonValue)>, first: &str, second: &str) -> (r: Option<
    JsonValue,
>)
    ensures
        r == either(old(entries)@, first@, second@),
        forall|other: Seq<char>|
            other != first@ && other != second@ ==> #[trigger] entry_of(final(entries)@, other)
                == entry_of(old(entries)@, other),
{
    match take(entries, first) {
        Some(v) => Some(v),
        None => take(entries, second),
    }
}

fn into_text(v: Option<JsonValue>) -> (r: Option<String>)
    ensures
        r == text_in(v),
{
    match v {
        Some(JsonValue::String(s)) => Some(s),
        _ => None,
    }
}

fn into_optional_text(v: Option<JsonValue>) -> (r: Option<Option<String>>)
    ensures
        r == optional_text_in(v),
{
    match v {
        None => Some(None),
        Some(JsonValue::Null) => Some(None),
        Some(JsonValue::String(s)) => Some(Some(s)),
        _ => None,
    }
}

fn into_index(v: Option<JsonValue>) -> (r: Option<usize>)
    ensures
        r == index_in(v),
{
    match v {
        Some(JsonValue::Number(JsonNumber::Unsigned(n))) => {
            if n <= usize::MAX as u64 {
                Some(n as usize)
            } else {
                None
            }
        },
        _ => None,
    }
}

fn into_version(v: Option<JsonValue>) -> (r: Option<u32>)
    ensures
        r == version_in(v),
{
    match v {
        Some(JsonValue::Number(JsonNumber::Unsigned(n))) => {
            if n <= u32::MAX as u64 {
                Some(n as u32)
            } else {
                None
            }
        },
        _ => None,
    }
}

fn into_flag(v: Option<JsonValue>) -> (r: Option<bool>)
    ensures
        r == flag_in(v),
{
    match v {
        None => Some(false),
        Some(JsonValue::Bool(b)) => Some(b),
        _ => None,
    }
}

fn into_value(v: Option<JsonValue>) -> (r: JsonValue)
    ensures
        r == value_in(v),
{
    match v {
        Some(x) => x,
        None => JsonValue::Null,
    }
}

fn into_array(v: Option<JsonValue>) -> (r: Option<Vec<JsonValue>>)
    ensures
        r == array_in(v),
{
    match v {
        Some(JsonValue::Array(items)) => Some(items),
        _ => None,
    }
}

fn into_message(v: JsonValue) -> (r: Option<Message>)
    ensures
        r == message_in(v),
{
    proof {
        lemma_member_names();
    }
    match v {
        JsonValue::Object(entries) => {
            let mut entries = entries;
            let role = into_text(take(&mut entries, "role"));
            let content = into_array(take(&mut entries, "content"));
            match (role, content) {
                (Some(role), Some(content)) => Some(Message { role, content }),
                _ => None,
            }
        },
        _ => None,
    }
}

fn into_optional_message(v: Option<JsonValue>) -> (r: Option<Option<Message>>)
    ensures
        r == optional_message_in(v),
{
    match v {
        None => Some(None),
        Some(JsonValue::Null) => Some(None),
        Some(x) => match into_message(x) {
            Some(m) => Some(Some(m)),
            None => None,
        },
    }
}

fn into_tool_call(v: JsonValue) -> (r: Option<ToolCall>)
    ensures
        r == tool_call_in(v),
{
    proof {
        lemma_member_names();
    }
    match v {
        JsonValue::Object(entries) => {
            let mut entries = entries;
            let tool_type = into_text(take(&mut entries, "type"));
            let id = into_text(take(&mut entries, "id"));
            let name = into_text(take(&mut entries, "name"));
            let arguments = take(&mut entries, "arguments");
            match (tool_type, id, name, arguments) {
                (Some(tool_type), Some(id), Some(name), Some(arguments)) => Some(
                    ToolCall { tool_type, id, name, arguments },
                ),
                _ => None,
            }
        },
        _ => None,
    }
}

fn into_optional_tool_call(v: Option<JsonValue>) -> (r: Option<Option<ToolCall>>)
    ensures
        r == optional_tool_call_in(v),
{
    match v {
        None => Some(None),
        Some(JsonValue::Null) => Some(None),
        Some(x) => match into_tool_call(x) {
            Some(c) => Some(Some(c)),
            None => None,
        },
    }
}

fn inner_kind_known(kind: &str) -> (b: bool)
    ensures
        b == is_inner_kind(kind@),
{
    same_text(kind, "thinking_start") || same_text(kind, "thinking_delta") || same_text(
        kind,
        "thinking_end",
    ) || same_text(kind, "text_start") || same_text(kind, "text_delta") || same_text(
        kind,
        "text_end",
    ) || same_text(kind, "toolcall_start") || same_text(kind, "toolcall_delta") || same_text(
        kind,
        "toolcall_end",
    )
}

fn into_inner_event(v: JsonValue) -> (r: Option<AssistantMessageEvent>)
    ensures
        r == inner_event_in(v),
{
    proof {
        lemma_member_names();
    }
    let mut entries = match v {
        JsonValue::Object(entries) => entries,
        _ => {
            return None;
        },
    };
    let kind = match into_text(take(&mut entries, "type")) {
        Some(kind) => kind,
        None => {
            return None;
        },
    };
    if !inner_kind_known(kind.as_str()) {
        return Some(AssistantMessageEvent::Other);
    }
    let content_index = match into_index(take_either(&mut entries, "contentIndex", "content_index")) {
        Some(i) => i,
        None => {
            return None;
        },
    };
    if same_text(kind.as_str(), "thinking_start") {
        match into_optional_message(take(&mut entries, "partial")) {
            Some(partial) => Some(AssistantMessageEvent::ThinkingStart { content_index, partial }),
            None => None,
        }
    } else if same_text(kind.as_str(), "thinking_delta") {
        match into_text(take(&mut entries, "delta")) {
            Some(delta) => Some(AssistantMessageEvent::ThinkingDelta { content_index, delta }),
            None => None,
        }
    } else if same_text(kind.as_str(), "thinking_end") {
        match into_optional_text(take(&mut entries, "content")) {
            Some(content) => Some(AssistantMessageEvent::ThinkingEnd { content_index, content }),
            None => None,
        }
    } else if same_text(kind.as_str(), "text_start") {
        match into_optional_message(take(&mut entries, "partial")) {
            Some(partial) => Some(AssistantMessageEvent::TextStart { content_index, partial }),
            None => None,
        }
    } else if same_text(kind.as_str(), "text_delta") {
        match into_text(take(&mut entries, "delta")) {
            Some(delta) => Some(AssistantMessageEvent::TextDelta { content_index, delta }),
            None => None,
        }
    } else if same_text(kind.as_str(), "text_end") {
        match into_optional_text(take(&mut entries, "content")) {
            Some(content) => Some(AssistantMessageEvent::TextEnd { content_index, content }),
            None => None,
        }
    } else if same_text(kind.as_str(), "toolcall_start") {
        match into_optional_message(take(&mut entries, "partial")) {
            Some(partial) => Some(AssistantMessageEvent::ToolcallStart { content_index, partial }),
            None => None,
        }
    } else if same_text(kind.as_str(), "toolcall_delta") {
        let delta = into_text(take(&mut entries, "delta"));
        let partial = into_optional_message(take(&mut entries, "partial"));
        match (delta, partial) {
            (Some(delta), Some(partial)) => Some(
                AssistantMessageEvent::ToolcallDelta { content_index, delta, partial },
            ),
            _ => None,
        }
    } else {
        let tool_call = into_optional_tool_call(take_either(&mut entries, "toolCall", "tool_call"));
        let partial = into_optional_message(take(&mut entries, "partial"));
        match (tool_call, partial) {
            (Some(tool_call), Some(partial)) => Some(
                AssistantMessageEvent::ToolcallEnd { content_index, tool_call, partial },
            ),
            _ => None,
        }
    }
}

fn into_optional_inner_event(v: Option<JsonValue>) -> (r: Option<Option<AssistantMessageEvent>>)
    ensures
        r == optional_inner_event_in(v),
{
    match v {
        None => Some(None),
        Some(JsonValue::Null) => Some(None),
        Some(x) => match into_inner_event(x) {
            Some(e) => Some(Some(e)),
            None => None,
        },
    }
}

fn event_kind_known(kind: &str) -> (b: bool)
    ensures
        b == is_event_kind(kind@),
{
    same_text(kind, "session") || same_text(kind, "agent_start") || same_text(kind, "agent_end")
        || same_text(kind, "turn_start") || same_text(kind, "turn_end") || same_text(
        kind,
        "message_start",
    ) || same_text(kind, "message_end") || same_text(kind, "message_update") || same_text(
        kind,
        "tool_execution_start",
    ) || same_text(kind, "tool_execution_update") || same_text(kind, "tool_execution_end")
}

/// The event that the members `entries` and the kind `kind` make.
fn into_event_of_kind(entries: Vec<(String, JsonValue)>, kind: &str) -> (r: Option<PiJsonEvent>)
    requires
        is_event_kind(kind@),
    ensures
        r == event_of_kind(entries@, kind@),
{
    proof {
        lemma_member_names();
    }
    let mut entries = entries;
    if same_text(kind, "agent_start") {
        Some(PiJsonEvent::AgentStart)
    } else if same_text(kind, "agent_end") {
        Some(PiJsonEvent::AgentEnd)
    } else if same_text(kind, "turn_start") {
        Some(PiJsonEvent::TurnStart)
    } else if same_text(kind, "message_start") {
        Some(PiJsonEvent::MessageStart)
    } else if same_text(kind, "message_end") {
        Some(PiJsonEvent::MessageEnd)
    } else if same_text(kind, "turn_end") {
        let message = into_optional_message(take(&mut entries, "message"));
        let tool_results = into_array(take_either(&mut entries, "toolResults", "tool_results"));
        match (message, tool_results) {
            (Some(message), Some(tool_results)) => Some(
                PiJsonEvent::TurnEnd { message, tool_results },
            ),
            _ => None,
        }
    } else if same_text(kind, "message_update") {
        let assistant_message_event = into_optional_inner_event(
            take_either(&mut entries, "assistantMessageEvent", "assistant_message_event"),
        );
        let message = into_optional_message(take(&mut entries, "message"));
        match (assistant_message_event, message) {
            (Some(assistant_message_event), Some(message)) => Some(
                PiJsonEvent::MessageUpdate { assistant_message_event, message },
            ),
            _ => None,
        }
    } else if same_text(kind, "session") {
        let version = into_version(take(&mut entries, "version"));
        let id = into_text(take(&mut entries, "id"));
        let timestamp = into_text(take(&mut entries, "timestamp"));
        let cwd = into_text(take(&mut entries, "cwd"));
        match (version, id, timestamp, cwd) {
            (Some(version), Some(id), Some(timestamp), Some(cwd)) => Some(
                PiJsonEvent::Session { version, id, timestamp, cwd },
            ),
            _ => None,
        }
    } else {
        let call_id = into_text(take_either(&mut entries, "toolCallId", "tool_call_id"));
        let tool = into_text(take_either(&mut entries, "toolName", "tool_name"));
        if same_text(kind, "tool_execution_start") {
            match (call_id, tool, take(&mut entries, "args")) {
                (Some(tool_call_id), Some(tool_name), Some(args)) => Some(
                    PiJsonEvent::ToolExecutionStart { tool_call_id, tool_name, args },
                ),
                _ => None,
            }
        } else if same_text(kind, "tool_execution_update") {
            let args = take(&mut entries, "args");
            let partial_result = into_value(
                take_either(&mut entries, "partialResult", "partial_result"),
            );
            match (call_id, tool, args) {
                (Some(tool_call_id), Some(tool_name), Some(args)) => Some(
                    PiJsonEvent::ToolExecutionUpdate {
                        tool_call_id,
                        tool_name,
                        args,
                        partial_result,
                    },
                ),
                _ => None,
            }
        } else {
            let is_error = into_flag(take_either(&mut entries, "isError", "is_error"));
            let result = into_value(take(&mut entries, "result"));
            match (call_id, tool, is_error) {
                (Some(tool_call_id), Some(tool_name), Some(is_error)) => Some(
                    PiJsonEvent::ToolExecutionEnd { tool_call_id, tool_name, result, is_error },
                ),
                _ => None,
            }
        }
    }
}

/// The event that a JSON value is, or why it is none.
pub fn decode_event(json: JsonValue) -> (r: Result<PiJsonEvent, EventError>)
    ensures
        r == decoded(json),
{
    proof {
        lemma_member_names();
    }
    let mut entries = match json {
        JsonValue::Object(entries) => entries,
        _ => {
            return Err(EventError::NotAnEvent);
        },
    };
    let ghost members = entries@;
    let kind = match into_text(take(&mut entries, "type")) {
        Some(kind) => kind,
        None => {
            return Err(EventError::NotAnEvent);
        },
    };
    if !event_kind_known(kind.as_str()) {
        return Err(EventError::UnknownType(kind));
    }
    proof {
        lemma_type_apart(members, entries@, kind@);
    }
    match into_event_of_kind(entries, kind.as_str()) {
        Some(event) => Ok(event),
        None => Err(EventError::InvalidField),
    }
}

/// What the members of an event say does not depend on its member `type`,
/// once the kind is known.
proof fn lemma_type_apart(
    members: Seq<(String, JsonValue)>,
    others: Seq<(String, JsonValue)>,
    kind: Seq<char>,
)
    requires
        forall|other: Seq<char>|
            other != "type"@ ==> #[trigger] entry_of(others, other) == entry_of(members, other),
    ensures
        event_of_kind(others, kind) == event_of_kind(members, kind),
{
    lemma_member_names();
}

/// The event that the line `line` holds, if it holds one.
pub open spec fn event_in_line(line: Seq<char>) -> Option<PiJsonEvent> {
    match crate::agent::json::json_read(line) {
        Some(json) => match decoded(json) {
            Ok(event) => Some(event),
            Err(_) => None,
        },
        None => None,
    }
}

/// Reads the line `line` as an event.
pub fn parse_event(line: &str) -> (r: Result<PiJsonEvent, EventError>)
    ensures
        match crate::agent::json::json_read(line@) {
            Some(json) => r == decoded(json),
            None => r matches Err(EventError::InvalidJson(_)),
        },
        match event_in_line(line@) {
            Some(event) => r == Ok::<PiJsonEvent, EventError>(event),
            None => r is Err,
        },
{
    match crate::agent::json::parse(line) {
        Ok(json) => decode_event(json),
        Err(reason) => Err(EventError::InvalidJson(reason)),
    }
}

/// Every event of a kind that carries nothing is read, whatever else its
/// object holds; an object of a kind that is not known is refused as such,
/// and never as anything worse; and every other event is read as soon as
/// its members are what its kind needs.
pub proof fn lemma_events_are_read(entries: Vec<(String, JsonValue)>, kind: String)
    requires
        entry_of(entries@, "type"@) == Some(JsonValue::String(kind)),
    ensures
        kind@ == "agent_start"@ ==> decoded(JsonValue::Object(entries)) == Ok::<
            PiJsonEvent,
            EventError,
        >(PiJsonEvent::AgentStart),
        kind@ == "agent_end"@ ==> decoded(JsonValue::Object(entries)) == Ok::<
            PiJsonEvent,
            EventError,
        >(PiJsonEvent::AgentEnd),
        kind@ == "turn_start"@ ==> decoded(JsonValue::Object(entries)) == Ok::<
            PiJsonEvent,
            EventError,
        >(PiJsonEvent::TurnStart),
        kind@ == "message_start"@ ==> decoded(JsonValue::Object(entries)) == Ok::<
            PiJsonEvent,
            EventError,
        >(PiJsonEvent::MessageStart),
        kind@ == "message_end"@ ==> decoded(JsonValue::Object(entries)) == Ok::<
            PiJsonEvent,
            EventError,
        >(PiJsonEvent::MessageEnd),
        !is_event_kind(kind@) ==> decoded(JsonValue::Object(entries)) == Err::<
            PiJsonEvent,
            EventError,
        >(EventError::UnknownType(kind)),
        is_event_kind(kind@) ==> (decoded(JsonValue::Object(entries)) is Ok <==> event_of_kind(
            entries@,
            kind@,
        ) is Some),
        kind@ == "message_update"@ && either(
            entries@,
            "assistantMessageEvent"@,
            "assistant_message_event"@,
        ) is None && entry_of(entries@, "message"@) is None ==> decoded(
            JsonValue::Object(entries),
        ) is Ok,
{
    reveal_strlit("agent_start");
    reveal_strlit("agent_end");
    reveal_strlit("turn_start");
    reveal_strlit("turn_end");
    reveal_strlit("message_start");
    reveal_strlit("message_end");
    reveal_strlit("message_update");
    reveal_strlit("session");
    reveal_strlit("tool_execution_start");
    reveal_strlit("tool_execution_update");
    reveal_strlit("tool_execution_end");
    assert("agent_end"@.len() == 9);
    assert("turn_start"@.len() == 10);
    assert("turn_end"@.len() == 8);
    assert("message_start"@.len() == 13);
    assert("agent_start"@[0] == 'a');
}

/// A member is found under either spelling of its name, the first one
/// first: both spellings are read to the same field.
pub proof fn lemma_either_spelling(
    entries: Seq<(String, JsonValue)>,
    first: Seq<char>,
    second: Seq<char>,
    value: JsonValue,
)
    ensures
        entry_of(entries, first) == Some(value) ==> either(entries, first, second) == Some(value),
        entry_of(entries, first) is None && entry_of(entries, second) == Some(value) ==> either(
            entries,
            first,
            second,
        ) == Some(value),
        entry_of(entries, first) is None && entry_of(entries, second) is None ==> either(
            entries,
            first,
            second,
        ) is None,
{
}

/// Every event that carries members is read as soon as its members are of
/// their kinds, under either spelling of their names, with the values of
/// the members, and whatever else the object holds: the end of a turn with
/// its results, and its message if it has one; an update with what happens
/// inside the message, if it says so; a session with its version, id, time
/// and directory; the start and the update of a tool with its call, name
/// and arguments; the end of a tool with its call and name, its result, or
/// null, and whether it failed, which it did not where nothing says so.
pub proof fn lemma_every_shape_is_read(entries: Vec<(String, JsonValue)>, kind: String)
    requires
        entry_of(entries@, "type"@) == Some(JsonValue::String(kind)),
    ensures
        kind@ == "turn_end"@ && optional_message_in(entry_of(entries@, "message"@)) is Some
            && array_in(either(entries@, "toolResults"@, "tool_results"@)) is Some ==> decoded(
            JsonValue::Object(entries),
        ) == Ok::<PiJsonEvent, EventError>(
            PiJsonEvent::TurnEnd {
                message: optional_message_in(entry_of(entries@, "message"@))->0,
                tool_results: array_in(either(entries@, "toolResults"@, "tool_results"@))->0,
            },
        ),
        kind@ == "message_update"@ && optional_inner_event_in(
            either(entries@, "assistantMessageEvent"@, "assistant_message_event"@),
        ) is Some && optional_message_in(entry_of(entries@, "message"@)) is Some ==> decoded(
            JsonValue::Object(entries),
        ) == Ok::<PiJsonEvent, EventError>(
            PiJsonEvent::MessageUpdate {
                assistant_message_event: optional_inner_event_in(
                    either(entries@, "assistantMessageEvent"@, "assistant_message_event"@),
                )->0,
                message: optional_message_in(entry_of(entries@, "message"@))->0,
            },
        ),
        kind@ == "session"@ && version_in(entry_of(entries@, "version"@)) is Some && text_in(
            entry_of(entries@, "id"@),
        ) is Some && text_in(entry_of(entries@, "timestamp"@)) is Some && text_in(
            entry_of(entries@, "cwd"@),
        ) is Some ==> decoded(JsonValue::Object(entries)) == Ok::<PiJsonEvent, EventError>(
            PiJsonEvent::Session {
                version: version_in(entry_of(entries@, "version"@))->0,
                id: text_in(entry_of(entries@, "id"@))->0,
                timestamp: text_in(entry_of(entries@, "timestamp"@))->0,
                cwd: text_in(entry_of(entries@, "cwd"@))->0,
            },
        ),
        kind@ == "tool_execution_start"@ && text_in(
            either(entries@, "toolCallId"@, "tool_call_id"@),
        ) is Some && text_in(either(entries@, "toolName"@, "tool_name"@)) is Some && entry_of(
            entries@,
            "args"@,
        ) is Some ==> decoded(JsonValue::Object(entries)) == Ok::<PiJsonEvent, EventError>(
            PiJsonEvent::ToolExecutionStart {
                tool_call_id: text_in(either(entries@, "toolCallId"@, "tool_call_id"@))->0,
                tool_name: text_in(either(entries@, "toolName"@, "tool_name"@))->0,
                args: entry_of(entries@, "args"@)->0,
            },
        ),
        kind@ == "tool_execution_update"@ && text_in(
            either(entries@, "toolCallId"@, "tool_call_id"@),
        ) is Some && text_in(either(entries@, "toolName"@, "tool_name"@)) is Some && entry_of(
            entries@,
            "args"@,
        ) is Some ==> decoded(JsonValue::Object(entries)) == Ok::<PiJsonEvent, EventError>(
            PiJsonEvent::ToolExecutionUpdate {
                tool_call_id: text_in(either(entries@, "toolCallId"@, "tool_call_id"@))->0,
                tool_name: text_in(either(entries@, "toolName"@, "tool_name"@))->0,
                args: entry_of(entries@, "args"@)->0,
                partial_result: value_in(either(entries@, "partialResult"@, "partial_result"@)),
            },
        ),
        kind@ == "tool_execution_end"@ && text_in(
            either(entries@, "toolCallId"@, "tool_call_id"@),
        ) is Some && text_in(either(entries@, "toolName"@, "tool_name"@)) is Some && flag_in(
            either(entries@, "isError"@, "is_error"@),
        ) is Some ==> decoded(JsonValue::Object(entries)) == Ok::<PiJsonEvent, EventError>(
            PiJsonEvent::ToolExecutionEnd {
                tool_call_id: text_in(either(entries@, "toolCallId"@, "tool_call_id"@))->0,
                tool_name: text_in(either(entries@, "toolName"@, "tool_name"@))->0,
                result: value_in(entry_of(entries@, "result"@)),
                is_error: flag_in(either(entries@, "isError"@, "is_error"@))->0,
            },
        ),
        either(entries@, "isError"@, "is_error"@) is None ==> flag_in(
            either(entries@, "isError"@, "is_error"@),
        ) == Some(false),
{
    reveal_strlit("agent_start");
    reveal_strlit("agent_end");
    reveal_strlit("turn_start");
    reveal_strlit("turn_end");
    reveal_strlit("message_start");
    reveal_strlit("message_end");
    reveal_strlit("message_update");
    reveal_strlit("session");
    reveal_strlit("tool_execution_start");
    reveal_strlit("tool_execution_update");
    reveal_strlit("tool_execution_end");
    assert("agent_start"@.len() == 11);
    assert("agent_end"@.len() == 9);
    assert("turn_start"@.len() == 10);
    assert("turn_end"@.len() == 8);
    assert("message_start"@.len() == 13);
    assert("message_end"@.len() == 11);
    assert("message_update"@.len() == 14);
    assert("session"@.len() == 7);
    assert("tool_execution_start"@.len() == 20);
    assert("tool_execution_update"@.len() == 21);
    assert("tool_execution_end"@.len() == 18);
}

/// Every event inside a message is read as soon as it gives its position,
/// under either spelling, and its members are of their kinds: a delta with
/// its text, an end with its content if it has one, a start with the
/// message so far if it has one, the end of a tool call with the call if it
/// has one. An event of a kind that is not known is read as `Other`.
pub proof fn lemma_every_inner_shape_is_read(inner: Vec<(String, JsonValue)>, kind: String)
    requires
        entry_of(inner@, "type"@) == Some(JsonValue::String(kind)),
    ensures
        !is_inner_kind(kind@) ==> inner_event_in(JsonValue::Object(inner)) == Some(
            AssistantMessageEvent::Other,
        ),
        ({
            let index = index_in(either(inner@, "contentIndex"@, "content_index"@));
            let partial = optional_message_in(entry_of(inner@, "partial"@));
            let delta = text_in(entry_of(inner@, "delta"@));
            let content = optional_text_in(entry_of(inner@, "content"@));
            let call = optional_tool_call_in(either(inner@, "toolCall"@, "tool_call"@));
            let read = inner_event_in(JsonValue::Object(inner));
            index is Some ==> {
                &&& kind@ == "thinking_start"@ && partial is Some ==> read == Some(
                    AssistantMessageEvent::ThinkingStart {
                        content_index: index->0,
                        partial: partial->0,
                    },
                )
                &&& kind@ == "thinking_delta"@ && delta is Some ==> read == Some(
                    AssistantMessageEvent::ThinkingDelta {
                        content_index: index->0,
                        delta: delta->0,
                    },
                )
                &&& kind@ == "thinking_end"@ && content is Some ==> read == Some(
                    AssistantMessageEvent::ThinkingEnd {
                        content_index: index->0,
                        content: content->0,
                    },
                )
                &&& kind@ == "text_start"@ && partial is Some ==> read == Some(
                    AssistantMessageEvent::TextStart {
                        content_index: index->0,
                        partial: partial->0,
                    },
                )
                &&& kind@ == "text_delta"@ && delta is Some ==> read == Some(
                    AssistantMessageEvent::TextDelta { content_index: index->0, delta: delta->0 },
                )
                &&& kind@ == "text_end"@ && content is Some ==> read == Some(
                    AssistantMessageEvent::TextEnd {
                        content_index: index->0,
                        content: content->0,
                    },
                )
                &&& kind@ == "toolcall_start"@ && partial is Some ==> read == Some(
                    AssistantMessageEvent::ToolcallStart {
                        content_index: index->0,
                        partial: partial->0,
                    },
                )
                &&& kind@ == "toolcall_delta"@ && delta is Some && partial is Some ==> read
                    == Some(
                    AssistantMessageEvent::ToolcallDelta {
                        content_index: index->0,
                        delta: delta->0,
                        partial: partial->0,
                    },
                )
                &&& kind@ == "toolcall_end"@ && call is Some && partial is Some ==> read == Some(
                    AssistantMessageEvent::ToolcallEnd {
                        content_index: index->0,
                        tool_call: call->0,
                        partial: partial->0,
                    },
                )
            }
        }),
{
    reveal_strlit("thinking_start");
    reveal_strlit("thinking_delta");
    reveal_strlit("thinking_end");
    reveal_strlit("text_start");
    reveal_strlit("text_delta");
    reveal_strlit("text_end");
    reveal_strlit("toolcall_start");
    reveal_strlit("toolcall_delta");
    reveal_strlit("toolcall_end");
    assert("thinking_start"@.len() == 14 && "thinking_start"@[1] == 'h' && "thinking_start"@[9]
        == 's');
    assert("thinking_delta"@.len() == 14 && "thinking_delta"@[1] == 'h' && "thinking_delta"@[9]
        == 'd');
    assert("thinking_end"@.len() == 12 && "thinking_end"@[1] == 'h');
    assert("text_start"@.len() == 10 && "text_start"@[5] == 's');
    assert("text_delta"@.len() == 10 && "text_delta"@[5] == 'd');
    assert("text_end"@.len() == 8);
    assert("toolcall_start"@.len() == 14 && "toolcall_start"@[1] == 'o' && "toolcall_start"@[9]
        == 's');
    assert("toolcall_delta"@.len() == 14 && "toolcall_delta"@[1] == 'o' && "toolcall_delta"@[9]
        == 'd');
    assert("toolcall_end"@.len() == 12 && "toolcall_end"@[1] == 'o');
}

/// A text delta inside a message update is read with its text, given its
/// position; this is the piece of the answer that a stream is made of.
pub proof fn lemma_text_delta_is_read(inner: Vec<(String, JsonValue)>, index: u64, delta: String)
    requires
        entry_of(inner@, "type"@) matches Some(JsonValue::String(kind)) && kind@ == "text_delta"@,
        either(inner@, "contentIndex"@, "content_index"@) == Some(
            JsonValue::Number(JsonNumber::Unsigned(index)),
        ),
        index <= usize::MAX,
        entry_of(inner@, "delta"@) == Some(JsonValue::String(delta)),
    ensures
        inner_event_in(JsonValue::Object(inner)) == Some(
            AssistantMessageEvent::TextDelta { content_index: index as usize, delta },
        ),
{
    reveal_strlit("thinking_start");
    reveal_strlit("thinking_delta");
    reveal_strlit("thinking_end");
    reveal_strlit("text_start");
    reveal_strlit("text_delta");
    reveal_strlit("text_end");
    assert("thinking_start"@.len() == 14);
    assert("thinking_delta"@.len() == 14);
    assert("thinking_end"@.len() == 12);
    assert("text_start"@[5] == 's');
}

} // verus!
