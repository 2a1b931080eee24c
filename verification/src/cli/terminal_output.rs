//! What the terminal shows of the agent's events.

use crate::agent::json::JsonValue;
use crate::agent::pi_events::{AssistantMessageEvent, PiJsonEvent};
use crate::text::{concat, first_line, first_line_of, same_text};
use std::sync::atomic::{AtomicBool, AtomicUsize};
use vstd::prelude::*;
use vstd::string::StringSliceAdditionalSpecFns;
use vstd::utf8::{decode_utf8, encode_utf8, is_char_boundary};

verus! {

/// The greatest position up to `at` that lies between two characters of the
/// text with the bytes `bytes`.
pub open spec fn boundary_at_or_before(bytes: Seq<u8>, at: int) -> int
    decreases at,
{
    if at <= 0 {
        0
    } else if is_char_boundary(bytes, at) {
        at
    } else {
        boundary_at_or_before(bytes, at - 1)
    }
}

/// The text `s` cut to `max_len` bytes: a longer text keeps its first
/// `max_len - 3` bytes, less the bytes of a character that the cut would
/// split, and ends in three dots.
pub open spec fn truncated(s: Seq<char>, bytes: Seq<u8>, len: usize, max_len: usize) -> Seq<
    char,
> {
    if len <= max_len {
        s
    } else {
        let keep = if max_len >= 3 {
            max_len - 3
        } else {
            0
        };
        decode_utf8(bytes.subrange(0, boundary_at_or_before(bytes, keep))) + "..."@
    }
}

/// The text `s` cut to `max_len` bytes of its UTF-8 form.
pub open spec fn cut(s: Seq<char>, max_len: usize) -> Seq<char> {
    truncated(s, encode_utf8(s), encode_utf8(s).len() as usize, max_len)
}

/// What is shown of the arguments of a tool call: the path for reading and
/// writing, the command for the shell, the path and the first lines of the
/// old and the new text for editing; for another tool its path, or else its
/// command, or else `unknown`.
pub open spec fn tool_args_text(tool_name: Seq<char>, args: JsonValue) -> Seq<char> {
    let path = args.text_of("path"@);
    let command = args.text_of("command"@);
    if tool_name == "read"@ || tool_name == "write"@ {
        cut(path, 50)
    } else if tool_name == "bash"@ {
        cut(command, 50)
    } else if tool_name == "edit"@ {
        cut(path, 50) + " | old: \""@ + cut(first_line(args.text_of("oldText"@)), 30)
            + "\" | new: \""@ + cut(first_line(args.text_of("newText"@)), 30) + "\""@
    } else if path.len() > 0 {
        cut(path, 50)
    } else if command.len() > 0 {
        cut(command, 50)
    } else {
        "unknown"@
    }
}

/// A tool call as it is shown: in the colour of the tool, its name and its
/// arguments between angle brackets.
pub open spec fn tool_call_text(tool_name: Seq<char>, args: JsonValue) -> Seq<char> {
    tool_color(tool_name) + "<"@ + tool_name + ": "@ + tool_args_text(tool_name, args) + ">"@
        + "\x1b[0m"@
}

/// The text of the first element of `items`, if it has one.
pub open spec fn first_text(items: Seq<JsonValue>) -> Option<Seq<char>> {
    if items.len() > 0 {
        match items[0].field("text"@) {
            Some(JsonValue::String(t)) => Some(t@),
            _ => None,
        }
    } else {
        None
    }
}

/// What is shown of the result of a tool: the first line of its first text,
/// or the result itself where it is a text, cut to a hundred bytes; else
/// `completed`.
pub open spec fn result_summary(result: JsonValue) -> Seq<char> {
    let from_content = match result.field("content"@) {
        Some(JsonValue::Array(items)) => first_text(items@),
        _ => None,
    };
    match from_content {
        Some(t) => cut(first_line(t), 100),
        None => match result {
            JsonValue::String(s) => cut(s@, 100),
            _ => "completed"@,
        },
    }
}

/// The result of a tool as it is shown: a green check mark or a red cross,
/// then the summary of the result.
pub open spec fn tool_result_text(is_error: bool, result: JsonValue) -> Seq<char> {
    (if is_error {
        "\x1b[31m"@ + "✗"@
    } else {
        "\x1b[32m"@ + "✓"@
    }) + " "@ + result_summary(result) + "\x1b[0m"@
}

/// Something that the terminal shows.
#[derive(Debug, Clone, PartialEq, Eq)]
pub enum TerminalOutput {
    /// A text that is shown at once, without ending the line.
    Text(String),
    /// A line.
    Line(String),
    /// A line in a dim style.
    DimLine(String),
    /// A line of the error output.
    Warning(String),
}

/// What a `TerminalOutput` says.
pub enum TerminalOutputView {
    Text(Seq<char>),
    Line(Seq<char>),
    DimLine(Seq<char>),
    Warning(Seq<char>),
}

impl View for TerminalOutput {
    type V = TerminalOutputView;

    open spec fn view(&self) -> TerminalOutputView {
        match *self {
            TerminalOutput::Text(s) => TerminalOutputView::Text(s@),
            TerminalOutput::Line(s) => TerminalOutputView::Line(s@),
            TerminalOutput::DimLine(s) => TerminalOutputView::DimLine(s@),
            TerminalOutput::Warning(s) => TerminalOutputView::Warning(s@),
        }
    }
}

/// What a list of outputs says.
pub open spec fn output_views(outputs: Seq<TerminalOutput>) -> Seq<TerminalOutputView> {
    outputs.map_values(|o: TerminalOutput| o@)
}

/// What the terminal shows of an event, and what is remembered after it.
pub struct Rendering {
    /// What is shown, in order.
    pub outputs: Vec<TerminalOutput>,
    /// Whether the agent is thinking.
    pub in_thinking: bool,
    /// The number of tool calls seen.
    pub tool_calls: usize,
}

/// The tool call that a message begins with: the name and the arguments of
/// its first piece of content.
pub open spec fn announced_call(content: Seq<JsonValue>) -> Option<(Seq<char>, JsonValue)> {
    if content.len() > 0 {
        match (content[0].field("name"@), content[0].field("arguments"@)) {
            (Some(JsonValue::String(name)), Some(args)) => Some((name@, args)),
            _ => None,
        }
    } else {
        None
    }
}

/// The warning of a tool that runs without having been called.
pub open spec fn uncalled_warning(tool_name: Seq<char>) -> Seq<char> {
    "  [Warning: Tool execution started without preceding tool call for '"@ + tool_name + "']"@
}

/// What the terminal shows of `event`.
pub open spec fn shown(
    show_thinking: bool,
    in_thinking: bool,
    tool_calls: usize,
    event: PiJsonEvent,
) -> Seq<TerminalOutputView> {
    match event {
        PiJsonEvent::MessageUpdate { assistant_message_event: Some(inner), .. } => match inner {
            AssistantMessageEvent::TextDelta { delta, .. } => seq![
                TerminalOutputView::Text(delta@),
            ],
            AssistantMessageEvent::TextEnd { .. } => seq![TerminalOutputView::Line(Seq::empty())],
            AssistantMessageEvent::ThinkingDelta { .. } => if show_thinking && !in_thinking {
                seq![TerminalOutputView::DimLine("Thinking..."@)]
            } else {
                Seq::empty()
            },
            AssistantMessageEvent::ThinkingEnd { .. } => if show_thinking && in_thinking {
                seq![TerminalOutputView::DimLine("End of thinking"@)]
            } else {
                Seq::empty()
            },
            AssistantMessageEvent::ToolcallStart { partial: Some(message), .. } => {
                match announced_call(message.content@) {
                    Some(call) => seq![
                        TerminalOutputView::Line(Seq::empty()),
                        TerminalOutputView::Line(tool_call_text(call.0, call.1)),
                    ],
                    None => Seq::empty(),
                }
            },
            _ => Seq::empty(),
        },
        PiJsonEvent::ToolExecutionStart { tool_name, .. } => {
            let running = TerminalOutputView::Line("  Executing "@ + tool_name@ + "..."@);
            if tool_calls == 0 {
                seq![
                    TerminalOutputView::Warning(Seq::empty()),
                    TerminalOutputView::Warning(uncalled_warning(tool_name@)),
                    running,
                ]
            } else {
                seq![running]
            }
        },
        PiJsonEvent::ToolExecutionEnd { is_error, result, .. } => seq![
            TerminalOutputView::Line("  "@ + tool_result_text(is_error, result)),
        ],
        PiJsonEvent::AgentEnd => seq![TerminalOutputView::Line(Seq::empty())],
        _ => Seq::empty(),
    }
}

/// Whether the agent is thinking after `event`.
pub open spec fn thinking_after(show_thinking: bool, in_thinking: bool, event: PiJsonEvent) -> bool {
    match event {
        PiJsonEvent::MessageUpdate {
            assistant_message_event: Some(AssistantMessageEvent::ThinkingDelta { .. }),
            ..
        } => in_thinking || show_thinking,
        PiJsonEvent::MessageUpdate {
            assistant_message_event: Some(AssistantMessageEvent::ThinkingEnd { .. }),
            ..
        } => in_thinking && !show_thinking,
        _ => in_thinking,
    }
}

/// The number of tool calls seen after `event`: one more after the end of a
/// tool call, starting anew where the counter is full.
pub open spec fn tool_calls_after(tool_calls: usize, event: PiJsonEvent) -> usize {
    match event {
        PiJsonEvent::MessageUpdate {
            assistant_message_event: Some(AssistantMessageEvent::ToolcallEnd { .. }),
            ..
        } => if tool_calls < usize::MAX {
            (tool_calls + 1) as usize
        } else {
            0
        },
        _ => tool_calls,
    }
}

/// The colour of a tool: blue to read, green to write, yellow for the shell,
/// cyan to edit, white otherwise.
pub open spec fn tool_color(tool_name: Seq<char>) -> Seq<char> {
    if tool_name == "read"@ {
        "\x1b[34m"@
    } else if tool_name == "write"@ {
        "\x1b[32m"@
    } else if tool_name == "bash"@ {
        "\x1b[33m"@
    } else if tool_name == "edit"@ {
        "\x1b[36m"@
    } else {
        "\x1b[37m"@
    }
}

/// Keeps track of what the terminal shows while the agent works.
#[derive(Debug)]
pub struct TerminalOutputCallback {
    show_thinking: bool,
    step_number: AtomicUsize,
    total_steps: usize,
    in_thinking: AtomicBool,
    last_tool_call_id: AtomicUsize,
}

/// What the counter holds at this moment. The tracker is shared between
/// threads, any of which may count on at any time, so nothing is known of
/// the answer.
fn load_count(cell: &AtomicUsize) -> usize {
    cell.load(std::sync::atomic::Ordering::SeqCst)
}

/// What the flag holds at this moment; as with a counter, nothing is known
/// of the answer.
fn load_flag(cell: &AtomicBool) -> bool {
    cell.load(std::sync::atomic::Ordering::SeqCst)
}

/// Counts one on, starting anew where the counter is full, and gives back
/// what the counter held before, of which nothing is known.
fn add_one(cell: &AtomicUsize) -> usize {
    cell.fetch_add(1, std::sync::atomic::Ordering::SeqCst)
}

/// Sets the flag for every thread that shares it.
fn store_flag(cell: &AtomicBool, value: bool) {
    cell.store(value, std::sync::atomic::Ordering::SeqCst)
}

impl TerminalOutputCallback {
    /// Whether the thinking of the agent is shown.
    pub closed spec fn shows_thinking(self) -> bool {
        self.show_thinking
    }

    /// The number of steps.
    pub closed spec fn steps_in_all(self) -> usize {
        self.total_steps
    }

    /// A tracker for `total_steps` steps, none of which has begun.
    pub fn new(show_thinking: bool, total_steps: usize) -> (c: Self)
        ensures
            c.shows_thinking() == show_thinking,
            c.steps_in_all() == total_steps,
    {
        TerminalOutputCallback {
            show_thinking,
            step_number: AtomicUsize::new(0),
            total_steps,
            in_thinking: AtomicBool::new(false),
            last_tool_call_id: AtomicUsize::new(0),
        }
    }

    /// Whether the thinking of the agent is shown.
    pub fn show_thinking(&self) -> (b: bool)
        ensures
            b == self.shows_thinking(),
    {
        self.show_thinking
    }

    /// The number of the current step, as it stands at this moment: every
    /// thread that shares the tracker may go on to the next step.
    pub fn step_number(&self) -> usize {
        load_count(&self.step_number)
    }

    /// The number of steps.
    pub fn total_steps(&self) -> (n: usize)
        ensures
            n == self.steps_in_all(),
    {
        self.total_steps
    }

    /// Whether the agent is thinking, as noted at this moment by whichever
    /// thread took the last event.
    pub fn in_thinking(&self) -> bool {
        load_flag(&self.in_thinking)
    }

    /// The number of tool calls seen so far, by all threads that share the
    /// tracker.
    pub fn tool_calls_seen(&self) -> usize {
        load_count(&self.last_tool_call_id)
    }

    /// Goes on to the next step.
    pub fn increment_step(&self) {
        let _ = add_one(&self.step_number);
    }

    /// Counts one more tool call.
    pub fn count_tool_call(&self) {
        let _ = add_one(&self.last_tool_call_id);
    }

    /// Notes whether the agent is thinking.
    pub fn set_in_thinking(&self, value: bool) {
        store_flag(&self.in_thinking, value)
    }

    /// The colour of a tool, as an ANSI escape sequence.
    pub fn get_tool_color(tool_name: &str) -> (s: String)
        ensures
            s@ == tool_color(tool_name@),
    {
        if same_text(tool_name, "read") {
            "\x1b[34m".to_owned()
        } else if same_text(tool_name, "write") {
            "\x1b[32m".to_owned()
        } else if same_text(tool_name, "bash") {
            "\x1b[33m".to_owned()
        } else if same_text(tool_name, "edit") {
            "\x1b[36m".to_owned()
        } else {
            "\x1b[37m".to_owned()
        }
    }

    /// The ANSI escape sequence that ends a colour.
    pub fn get_reset_color() -> (s: String)
        ensures
            s@ == "\x1b[0m"@,
    {
        "\x1b[0m".to_owned()
    }

    /// The colour of success: green.
    pub fn get_success_color() -> (s: String)
        ensures
            s@ == "\x1b[32m"@,
    {
        "\x1b[32m".to_owned()
    }

    /// The colour of failure: red.
    pub fn get_error_color() -> (s: String)
        ensures
            s@ == "\x1b[31m"@,
    {
        "\x1b[31m".to_owned()
    }

    /// The text `s` cut to `max_len` bytes.
    pub fn truncate_string(s: &str, max_len: usize) -> (r: String)
        ensures
            r@ == truncated(s@, s.spec_bytes(), s.len(), max_len),
    {
        if s.len() <= max_len {
            return s.to_owned();
        }
        let mut cut: usize = if max_len >= 3 {
            max_len - 3
        } else {
            0
        };
        let ghost keep = cut;
        while cut > 0 && !s.is_char_boundary(cut)
            invariant
                cut <= keep,
                boundary_at_or_before(s.spec_bytes(), keep as int) == boundary_at_or_before(
                    s.spec_bytes(),
                    cut as int,
                ),
            decreases cut,
        {
            cut = cut - 1;
        }
        proof {
            vstd::utf8::encode_utf8_valid_utf8(s@);
            vstd::utf8::is_char_boundary_start_end_of_seq(s.spec_bytes());
        }
        let (head, _) = s.split_at(cut);
        proof {
            vstd::utf8::encode_utf8_decode_utf8(head@);
        }
        concat(head, "...")
    }
}

impl TerminalOutputCallback {
    /// The text of the argument `arg_name`, where it is a text; the empty
    /// text otherwise.
    pub fn extract_arg_value(args: &JsonValue, arg_name: &str) -> (s: String)
        ensures
            s@ == args.text_of(arg_name@),
    {
        args.text_at(arg_name)
    }

    /// The text `s` cut to `max_len` bytes.
    pub fn cut_text(s: &str, max_len: usize) -> (r: String)
        ensures
            r@ == cut(s@, max_len),
    {
        TerminalOutputCallback::truncate_string(s, max_len)
    }

    /// What is shown of the arguments of a tool call.
    pub fn format_tool_args(tool_name: &str, args: &JsonValue) -> (s: String)
        ensures
            s@ == tool_args_text(tool_name@, *args),
    {
        let path = args.text_at("path");
        let command = args.text_at("command");
        if same_text(tool_name, "read") || same_text(tool_name, "write") {
            TerminalOutputCallback::cut_text(path.as_str(), 50)
        } else if same_text(tool_name, "bash") {
            TerminalOutputCallback::cut_text(command.as_str(), 50)
        } else if same_text(tool_name, "edit") {
            let old_text = args.text_at("oldText");
            let new_text = args.text_at("newText");
            let old_preview = first_line_of(old_text.as_str());
            let new_preview = first_line_of(new_text.as_str());
            let mut s = TerminalOutputCallback::cut_text(path.as_str(), 50);
            s.append(" | old: \"");
            s.append(TerminalOutputCallback::cut_text(old_preview.as_str(), 30).as_str());
            s.append("\" | new: \"");
            s.append(TerminalOutputCallback::cut_text(new_preview.as_str(), 30).as_str());
            s.append("\"");
            s
        } else if !path.as_str().is_empty() {
            TerminalOutputCallback::cut_text(path.as_str(), 50)
        } else if !command.as_str().is_empty() {
            TerminalOutputCallback::cut_text(command.as_str(), 50)
        } else {
            "unknown".to_owned()
        }
    }

    /// A tool call as it is shown.
    pub fn format_tool_call(tool_name: &str, args: &JsonValue) -> (s: String)
        ensures
            s@ == tool_call_text(tool_name@, *args),
    {
        let mut s = TerminalOutputCallback::get_tool_color(tool_name);
        s.append("<");
        s.append(tool_name);
        s.append(": ");
        s.append(TerminalOutputCallback::format_tool_args(tool_name, args).as_str());
        s.append(">");
        s.append("\x1b[0m");
        s
    }

    /// What is shown of the result of a tool.
    pub fn extract_result_summary(result: &JsonValue) -> (s: String)
        ensures
            s@ == result_summary(*result),
    {
        if let Some(content) = result.get("content") {
            if let Some(items) = content.as_array() {
                if items.len() > 0 {
                    if let Some(text) = items[0].get("text") {
                        if let Some(t) = text.as_str() {
                            let line = first_line_of(t.as_str());
                            return TerminalOutputCallback::cut_text(line.as_str(), 100);
                        }
                    }
                }
            }
        }
        match result.as_str() {
            Some(s) => TerminalOutputCallback::cut_text(s.as_str(), 100),
            None => "completed".to_owned(),
        }
    }

    /// The result of a tool as it is shown.
    pub fn format_tool_result(is_error: bool, result: &JsonValue) -> (s: String)
        ensures
            s@ == tool_result_text(is_error, *result),
    {
        let mut s = if is_error {
            let mut s = TerminalOutputCallback::get_error_color();
            s.append("✗");
            s
        } else {
            let mut s = TerminalOutputCallback::get_success_color();
            s.append("✓");
            s
        };
        s.append(" ");
        s.append(TerminalOutputCallback::extract_result_summary(result).as_str());
        s.append("\x1b[0m");
        s
    }

    /// What the terminal shows of `event`, after which the tracker remembers
    /// whether the agent is thinking and how many tool calls it has seen.
    pub fn render(&self, event: &PiJsonEvent) -> (outputs: Vec<TerminalOutput>)
        ensures
            exists|in_thinking: bool, tool_calls: usize|
                output_views(outputs@) == shown(
                    self.shows_thinking(),
                    in_thinking,
                    tool_calls,
                    *event,
                ),
    {
        let in_thinking = load_flag(&self.in_thinking);
        let tool_calls = load_count(&self.last_tool_call_id);
        let rendering = render_event(self.show_thinking, in_thinking, tool_calls, event);
        proof {
            assert(output_views(rendering.outputs@) == shown(
                self.shows_thinking(),
                in_thinking,
                tool_calls,
                *event,
            ));
        }
        if rendering.in_thinking != in_thinking {
            store_flag(&self.in_thinking, rendering.in_thinking);
        }
        if rendering.tool_calls != tool_calls {
            let _ = add_one(&self.last_tool_call_id);
        }
        rendering.outputs
    }
}

/// What the terminal shows of `event`, and what is remembered after it.
pub fn render_event(
    show_thinking: bool,
    in_thinking: bool,
    tool_calls: usize,
    event: &PiJsonEvent,
) -> (r: Rendering)
    ensures
        output_views(r.outputs@) == shown(show_thinking, in_thinking, tool_calls, *event),
        r.in_thinking == thinking_after(show_thinking, in_thinking, *event),
        r.tool_calls == tool_calls_after(tool_calls, *event),
{
    let mut outputs: Vec<TerminalOutput> = Vec::new();
    let mut thinking = in_thinking;
    let mut calls = tool_calls;
    match event {
        PiJsonEvent::MessageUpdate { assistant_message_event: Some(inner), .. } => {
            match inner {
                AssistantMessageEvent::TextDelta { delta, .. } => {
                    outputs.push(TerminalOutput::Text(delta.clone()));
                },
                AssistantMessageEvent::TextEnd { .. } => {
                    outputs.push(TerminalOutput::Line(String::new()));
                },
                AssistantMessageEvent::ThinkingDelta { .. } => {
                    if show_thinking && !in_thinking {
                        outputs.push(TerminalOutput::DimLine("Thinking...".to_owned()));
                        thinking = true;
                    }
                },
                AssistantMessageEvent::ThinkingEnd { .. } => {
                    if show_thinking && in_thinking {
                        outputs.push(TerminalOutput::DimLine("End of thinking".to_owned()));
                        thinking = false;
                    }
                },
                AssistantMessageEvent::ToolcallStart { partial: Some(message), .. } => {
                    if message.content.len() > 0 {
                        if let Some(name) = message.content[0].get("name") {
                            if let Some(tool_name) = name.as_str() {
                                if let Some(args) = message.content[0].get("arguments") {
                                    outputs.push(TerminalOutput::Line(String::new()));
                                    outputs.push(
                                        TerminalOutput::Line(
                                            TerminalOutputCallback::format_tool_call(
                                                tool_name.as_str(),
                                                args,
                                            ),
                                        ),
                                    );
                                }
                            }
                        }
                    }
                },
                AssistantMessageEvent::ToolcallEnd { .. } => {
                    calls = if tool_calls < usize::MAX {
                        tool_calls + 1
                    } else {
                        0
                    };
                },
                _ => {},
            }
        },
        PiJsonEvent::ToolExecutionStart { tool_name, .. } => {
            if tool_calls == 0 {
                outputs.push(TerminalOutput::Warning(String::new()));
                let head = concat(
                    "  [Warning: Tool execution started without preceding tool call for '",
                    tool_name.as_str(),
                );
                outputs.push(TerminalOutput::Warning(concat(head.as_str(), "']")));
            }
            let head = concat("  Executing ", tool_name.as_str());
            outputs.push(TerminalOutput::Line(concat(head.as_str(), "...")));
        },
        PiJsonEvent::ToolExecutionEnd { is_error, result, .. } => {
            let text = TerminalOutputCallback::format_tool_result(*is_error, result);
            outputs.push(TerminalOutput::Line(concat("  ", text.as_str())));
        },
        PiJsonEvent::AgentEnd => {
            outputs.push(TerminalOutput::Line(String::new()));
        },
        _ => {},
    }
    Rendering { outputs, in_thinking: thinking, tool_calls: calls }
}

} // verus!
