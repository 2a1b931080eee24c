//! The agent as a child process: how it is called, and how its stream of
//! events is read.

use crate::agent::decode::{event_in_line, is_event_kind, parse_event, EventError};
use crate::agent::json::{entry_of, json_read, JsonValue};
use crate::agent::pi_events::PiJsonEvent;
use crate::agent::response::{AgentError, AgentResponse};
use crate::text::{concat, signed_decimal, signed_decimal_string};
use vstd::prelude::*;

verus! {

/// How the agent's executable is called.
#[derive(Debug)]
pub struct PiSubprocessClient {
    pi_path: String,
    timeout_secs: u64,
}

impl Clone for PiSubprocessClient {
    fn clone(&self) -> (r: Self)
        ensures
            r == *self,
    {
        PiSubprocessClient { pi_path: self.pi_path.clone(), timeout_secs: self.timeout_secs }
    }
}

impl PiSubprocessClient {
    /// The path of the executable.
    pub closed spec fn path(self) -> Seq<char> {
        self.pi_path@
    }

    /// The number of seconds after which a silent child is given up.
    pub closed spec fn timeout(self) -> u64 {
        self.timeout_secs
    }

    /// A client that calls the executable at `pi_path` and waits at most
    /// `timeout_secs` seconds for each line of its output.
    pub fn new(pi_path: String, timeout_secs: u64) -> (c: Self)
        ensures
            c.path() == pi_path@,
            c.timeout() == timeout_secs,
    {
        PiSubprocessClient { pi_path, timeout_secs }
    }

    /// The path of the executable.
    pub fn pi_path(&self) -> (p: &str)
        ensures
            p@ == self.path(),
    {
        self.pi_path.as_str()
    }

    /// The number of seconds after which a silent child is given up.
    pub fn timeout_secs(&self) -> (t: u64)
        ensures
            t == self.timeout(),
    {
        self.timeout_secs
    }
}

/// The arguments with which the agent is called to answer `prompt` as a
/// stream of events.
pub open spec fn streaming_arguments(prompt: Seq<char>) -> Seq<Seq<char>> {
    seq!["--mode"@, "json"@, "--print"@, prompt]
}

/// The arguments with which the agent is called to answer `prompt` as text.
pub open spec fn text_arguments(prompt: Seq<char>) -> Seq<Seq<char>> {
    seq!["--mode"@, "text"@, "--print"@, prompt]
}

impl PiSubprocessClient {
    /// The arguments with which the agent is called to answer `prompt` as a
    /// stream of events.
    pub fn streaming_command(&self, prompt: &str) -> (arguments: Vec<String>)
        ensures
            crate::text::texts(arguments@) == streaming_arguments(prompt@),
    {
        let mut arguments: Vec<String> = Vec::new();
        arguments.push("--mode".to_owned());
        arguments.push("json".to_owned());
        arguments.push("--print".to_owned());
        arguments.push(prompt.to_owned());
        arguments
    }

    /// The arguments with which the agent is called to answer `prompt` as text.
    pub fn text_command(&self, prompt: &str) -> (arguments: Vec<String>)
        ensures
            crate::text::texts(arguments@) == text_arguments(prompt@),
    {
        let mut arguments: Vec<String> = Vec::new();
        arguments.push("--mode".to_owned());
        arguments.push("text".to_owned());
        arguments.push("--print".to_owned());
        arguments.push(prompt.to_owned());
        arguments
    }

    /// The failure of a child that was silent for too long.
    pub fn timed_out(&self) -> (e: AgentError)
        ensures
            e == AgentError::Timeout(self.timeout()),
    {
        AgentError::Timeout(self.timeout_secs)
    }
}

/// What a line of the agent's output was.
#[derive(Debug)]
pub enum LineOutcome {
    /// An empty line.
    Blank,
    /// An event.
    Event(PiJsonEvent),
    /// A line that is no event; the run goes on.
    Malformed(EventError),
}

/// What becomes of the text gathered so far when the line `line` arrives:
/// the delta of a text delta is added, and every other line leaves it as it
/// is.
pub open spec fn gathered(text: Seq<char>, line: Seq<char>) -> Seq<char> {
    if line.len() == 0 {
        text
    } else {
        match event_in_line(line) {
            Some(event) => match event.text_delta() {
                Some(delta) => text + delta,
                None => text,
            },
            None => text,
        }
    }
}

/// The text gathered from the lines `lines`, taken one after the other,
/// when `text` was gathered before them.
pub open spec fn gathered_all(text: Seq<char>, lines: Seq<Seq<char>>) -> Seq<char>
    decreases lines.len(),
{
    if lines.len() == 0 {
        text
    } else {
        gathered(gathered_all(text, lines.drop_last()), lines.last())
    }
}

/// The events that the lines `lines` hold, in the order of the lines.
pub open spec fn events_in(lines: Seq<Seq<char>>) -> Seq<PiJsonEvent>
    decreases lines.len(),
{
    if lines.len() == 0 {
        Seq::empty()
    } else {
        let before = events_in(lines.drop_last());
        if lines.last().len() > 0 && event_in_line(lines.last()) is Some {
            before.push(event_in_line(lines.last())->0)
        } else {
            before
        }
    }
}

/// A line that holds no event is passed over: the text gathered from a
/// stream and the events that it holds, in their order, are those of the
/// stream without that line, wherever the line stands.
pub proof fn lemma_unread_line_is_passed_over(
    text: Seq<char>,
    before: Seq<Seq<char>>,
    line: Seq<char>,
    after: Seq<Seq<char>>,
)
    requires
        line.len() == 0 || event_in_line(line) is None,
    ensures
        gathered_all(text, before.push(line) + after) == gathered_all(text, before + after),
        events_in(before.push(line) + after) == events_in(before + after),
    decreases after.len(),
{
    if after.len() == 0 {
        assert(before.push(line) + after =~= before.push(line));
        assert(before + after =~= before);
        assert(before.push(line).drop_last() =~= before);
    } else {
        let with = before.push(line) + after;
        let without = before + after;
        assert(with.drop_last() =~= before.push(line) + after.drop_last());
        assert(without.drop_last() =~= before + after.drop_last());
        lemma_unread_line_is_passed_over(text, before, line, after.drop_last());
    }
}

/// A line whose object is of a kind that is not known holds no event, and
/// neither does a line that is no JSON: such lines are passed over.
pub proof fn lemma_unknown_kind_is_no_event(
    line: Seq<char>,
    entries: Vec<(String, JsonValue)>,
    kind: String,
)
    ensures
        json_read(line) is None ==> event_in_line(line) is None,
        json_read(line) == Some(JsonValue::Object(entries)) && entry_of(
            entries@,
            "type"@,
        ) == Some(JsonValue::String(kind)) && !is_event_kind(kind@) ==> event_in_line(line)
            is None,
{
}

/// The text of the exit code `code` as the failure of the child shows it.
pub open spec fn shown_code(code: Option<i32>) -> Seq<char> {
    match code {
        Some(n) => "Some("@ + signed_decimal(n as int) + ")"@,
        None => "None"@,
    }
}

/// The failure of a child that ended with the exit code `code`.
pub open spec fn exit_message(code: Option<i32>) -> Seq<char> {
    "pi exited with non-zero status: "@ + shown_code(code)
}

/// The answer of the agent, gathered from the lines of its output.
#[derive(Debug)]
pub struct StreamAccumulator {
    text: String,
}

impl StreamAccumulator {
    /// The text gathered so far.
    pub closed spec fn so_far(self) -> Seq<char> {
        self.text@
    }

    /// An accumulator that has gathered nothing.
    pub fn new() -> (a: Self)
        ensures
            a.so_far().len() == 0,
    {
        StreamAccumulator { text: String::new() }
    }

    /// The text gathered so far.
    pub fn text(&self) -> (t: &str)
        ensures
            t@ == self.so_far(),
    {
        self.text.as_str()
    }

    /// Takes the line `line` of the agent's output. An empty line is passed
    /// over; a line that holds an event gives that event, and adds to the
    /// text where the event is a text delta; any other line is reported as
    /// malformed and changes nothing. No line ends the stream.
    pub fn on_line(&mut self, line: &str) -> (r: LineOutcome)
        ensures
            final(self).so_far() == gathered(old(self).so_far(), line@),
            if line@.len() == 0 {
                r is Blank
            } else {
                match event_in_line(line@) {
                    Some(event) => r == LineOutcome::Event(event),
                    None => r is Malformed,
                }
            },
    {
        if line.is_empty() {
            return LineOutcome::Blank;
        }
        match parse_event(line) {
            Ok(event) => {
                match event.answer_delta() {
                    Some(delta) => {
                        self.text.append(delta.as_str());
                    },
                    None => {},
                }
                LineOutcome::Event(event)
            },
            Err(e) => LineOutcome::Malformed(e),
        }
    }

    /// The answer once the child has ended: the text gathered, or the
    /// failure of a child that did not end well.
    pub fn finish(self, succeeded: bool, code: Option<i32>) -> (r: Result<AgentResponse, AgentError>)
        ensures
            succeeded ==> (r matches Ok(response) && response.content@ == self.so_far()
                && response.done && response.usage is None),
            !succeeded ==> (r matches Err(AgentError::Api(message)) && message@ == exit_message(
                code,
            )),
    {
        if succeeded {
            Ok(AgentResponse { content: self.text, done: true, usage: None })
        } else {
            let shown = match code {
                Some(n) => {
                    let digits = signed_decimal_string(n as i64);
                    let head = concat("Some(", digits.as_str());
                    concat(head.as_str(), ")")
                },
                None => "None".to_owned(),
            };
            Err(AgentError::Api(concat("pi exited with non-zero status: ", shown.as_str())))
        }
    }
}

/// The failure of a child that answered as text and did not end well: its
/// exit code, or -1 where it has none, and what it wrote to its error
/// output.
pub open spec fn text_exit_message(code: Option<i32>, complaint: Seq<char>) -> Seq<char> {
    "pi exited with code "@ + signed_decimal(
        match code {
            Some(n) => n as int,
            None => -1,
        },
    ) + ": "@ + complaint
}

/// The failure of a child that answered as text and did not end well.
pub fn text_exit_failure(code: Option<i32>, complaint: &str) -> (e: AgentError)
    ensures
        e matches AgentError::Api(m) && m@ == text_exit_message(code, complaint@),
{
    let shown = signed_decimal_string(
        match code {
            Some(n) => n as i64,
            None => -1,
        },
    );
    let mut message = "pi exited with code ".to_owned();
    message.append(shown.as_str());
    message.append(": ");
    message.append(complaint);
    AgentError::Api(message)
}

/// The failure of a child whose answer is no text.
pub fn decode_failure(reason: &str) -> (e: AgentError)
    ensures
        e matches AgentError::Internal(m) && m@ == "Failed to decode pi output: "@ + reason@,
{
    AgentError::Internal(concat("Failed to decode pi output: ", reason))
}

/// The failure of a child that could not be run.
pub fn run_failure(reason: &str) -> (e: AgentError)
    ensures
        e matches AgentError::Internal(m) && m@ == "Failed to execute pi subprocess: "@ + reason@,
{
    AgentError::Internal(concat("Failed to execute pi subprocess: ", reason))
}

/// The failure of a child that could not be started.
pub fn spawn_failure(reason: &str) -> (e: AgentError)
    ensures
        e matches AgentError::Internal(m) && m@ == "Failed to spawn pi subprocess: "@ + reason@,
{
    AgentError::Internal(concat("Failed to spawn pi subprocess: ", reason))
}

/// The failure of a child whose output could not be reached.
pub fn stdout_failure() -> (e: AgentError)
    ensures
        e matches AgentError::Internal(m) && m@ == "Failed to get stdout handle"@,
{
    AgentError::Internal("Failed to get stdout handle".to_owned())
}

/// The failure of a child whose output could not be read.
pub fn read_failure(reason: &str) -> (e: AgentError)
    ensures
        e matches AgentError::Internal(m) && m@ == "Failed to read stdout: "@ + reason@,
{
    AgentError::Internal(concat("Failed to read stdout: ", reason))
}

/// The failure of a child that could not be waited for.
pub fn wait_failure(reason: &str) -> (e: AgentError)
    ensures
        e matches AgentError::Internal(m) && m@ == "Failed to wait for subprocess: "@ + reason@,
{
    AgentError::Internal(concat("Failed to wait for subprocess: ", reason))
}

} // verus!
