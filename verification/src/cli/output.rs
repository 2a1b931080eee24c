//! Texts for the terminal.

use crate::execution::engine::{ExecutionEvent, ExecutionEventView};
use crate::execution::executor::{ContinueAction, ContinueActionView};
use crate::model::state::{ExecutionStatus, StepState, StepStateView};
use crate::text::{
    concat, decimal, decimal_string, join_first, joined, lines_of, split_lines, to_chars,
};
use vstd::prelude::*;

verus! {

/// A span of `secs` seconds in words: seconds below a minute, minutes and
/// seconds below an hour, hours, minutes and seconds from there.
pub open spec fn duration_text(secs: u64) -> Seq<char> {
    if secs < 60 {
        decimal(secs as nat) + "s"@
    } else if secs < 3600 {
        decimal((secs / 60) as nat) + "m "@ + decimal((secs % 60) as nat) + "s"@
    } else {
        decimal((secs / 3600) as nat) + "h "@ + decimal(((secs % 3600) / 60) as nat) + "m "@
            + decimal((secs % 60) as nat) + "s"@
    }
}

/// A span of `secs` seconds in words.
pub fn format_duration(secs: u64) -> (s: String)
    ensures
        s@ == duration_text(secs),
{
    let mut s = String::new();
    if secs < 60 {
        s.append(decimal_string(secs).as_str());
        s.append("s");
    } else if secs < 3600 {
        s.append(decimal_string(secs / 60).as_str());
        s.append("m ");
        s.append(decimal_string(secs % 60).as_str());
        s.append("s");
    } else {
        s.append(decimal_string(secs / 3600).as_str());
        s.append("h ");
        s.append(decimal_string((secs % 3600) / 60).as_str());
        s.append("m ");
        s.append(decimal_string(secs % 60).as_str());
        s.append("s");
    }
    s
}

/// The id `id` as it is written: thirty-two hexadecimal digits in five
/// groups.
pub uninterp spec fn uuid_text(id: uuid::Uuid) -> Seq<char>;

/// `uuid::Uuid::to_string`: the id in its hyphenated form.
#[verifier::external_body]
fn uuid_string(id: &uuid::Uuid) -> (s: String)
    ensures
        s@ == uuid_text(*id),
{
    id.to_string()
}

/// How a piece of text is set off.
#[derive(Debug, Clone, Copy, PartialEq, Eq, Structural)]
pub enum Style {
    Plain,
    Dim,
    Bold,
    Cyan,
    Green,
    Red,
    Yellow,
    Blue,
}

/// A sign that opens a line.
#[derive(Debug, Clone, Copy, PartialEq, Eq, Structural)]
pub enum Icon {
    Check,
    Cross,
    Spinner,
    Info,
    Warn,
    Rocket,
}

/// A piece of a line for the terminal: a sign, or a text in a style.
#[derive(Debug, Clone, PartialEq, Eq)]
pub enum Piece {
    Sign(Icon),
    Text(Style, String),
}

/// What a `Piece` says.
pub enum PieceView {
    Sign(Icon),
    Text(Style, Seq<char>),
}

impl View for Piece {
    type V = PieceView;

    open spec fn view(&self) -> PieceView {
        match *self {
            Piece::Sign(icon) => PieceView::Sign(icon),
            Piece::Text(style, text) => PieceView::Text(style, text@),
        }
    }
}

/// What a list of pieces says.
pub open spec fn piece_views(pieces: Seq<Piece>) -> Seq<PieceView> {
    pieces.map_values(|p: Piece| p@)
}

/// The first eight characters of `text`, or all of it where it is shorter.
pub open spec fn short(text: Seq<char>) -> Seq<char> {
    if text.len() <= 8 {
        text
    } else {
        text.take(8)
    }
}

/// The state of a step as it is shown.
pub open spec fn step_state_piece(state: StepStateView) -> PieceView {
    match state {
        StepStateView::Pending => PieceView::Text(Style::Dim, "PENDING"@),
        StepStateView::Retrying { attempt } => PieceView::Text(
            Style::Yellow,
            "RETRYING (attempt "@ + decimal(attempt as nat) + ")"@,
        ),
        StepStateView::Running { attempt, .. } => PieceView::Text(
            Style::Yellow,
            "RUNNING (attempt "@ + decimal(attempt as nat) + ")"@,
        ),
        StepStateView::Completed { .. } => PieceView::Text(Style::Green, "COMPLETED"@),
        StepStateView::Failed { .. } => PieceView::Text(Style::Red, "FAILED"@),
        StepStateView::Skipped { .. } => PieceView::Text(Style::Dim, "SKIPPED"@),
        StepStateView::Blocked { .. } => PieceView::Text(Style::Yellow, "BLOCKED"@),
    }
}

/// The name of a status.
pub open spec fn status_name(status: ExecutionStatus) -> Seq<char> {
    match status {
        ExecutionStatus::Pending => "Pending"@,
        ExecutionStatus::Running => "Running"@,
        ExecutionStatus::Completed => "Completed"@,
        ExecutionStatus::Failed => "Failed"@,
        ExecutionStatus::Cancelled => "Cancelled"@,
        ExecutionStatus::Paused => "Paused"@,
    }
}

/// The status of a run as it is shown.
pub open spec fn status_piece(status: ExecutionStatus) -> PieceView {
    match status {
        ExecutionStatus::Pending => PieceView::Text(Style::Dim, "PENDING"@),
        ExecutionStatus::Running => PieceView::Text(Style::Yellow, "RUNNING"@),
        ExecutionStatus::Completed => PieceView::Text(Style::Green, "COMPLETED"@),
        ExecutionStatus::Failed => PieceView::Text(Style::Red, "FAILED"@),
        ExecutionStatus::Cancelled => PieceView::Text(Style::Yellow, "CANCELLED"@),
        ExecutionStatus::Paused => PieceView::Text(Style::Blue, "PAUSED"@),
    }
}

/// A plain piece.
pub open spec fn plain(text: Seq<char>) -> PieceView {
    PieceView::Text(Style::Plain, text)
}

/// An event of a run as it is shown, piece by piece.
pub open spec fn event_pieces(event: ExecutionEventView) -> Seq<PieceView> {
    match event {
        ExecutionEventView::PipelineStarted { execution_id, pipeline_name } => seq![
            PieceView::Sign(Icon::Rocket),
            plain(" Starting pipeline "@),
            PieceView::Text(Style::Bold, pipeline_name),
            plain(" ("@),
            PieceView::Text(Style::Dim, short(uuid_text(execution_id))),
            plain(")"@),
        ],
        ExecutionEventView::StepStarted { step_id, attempt } => if attempt > 1 {
            seq![
                PieceView::Sign(Icon::Spinner),
                plain(" "@),
                PieceView::Text(Style::Cyan, step_id),
                plain(" (retry "@),
                PieceView::Text(Style::Dim, decimal((attempt - 1) as nat)),
                plain("/"@),
                PieceView::Text(Style::Dim, "3"@),
                plain(")"@),
            ]
        } else {
            seq![PieceView::Sign(Icon::Spinner), plain(" "@), PieceView::Text(Style::Cyan, step_id)]
        },
        ExecutionEventView::StepOutput { step_id, output } => seq![
            PieceView::Sign(Icon::Info),
            plain(" Output from "@),
            PieceView::Text(Style::Dim, step_id),
            plain(":\n"@ + output),
        ],
        ExecutionEventView::StepCompleted { step_id, next_step } => match next_step {
            Some(next) => seq![
                PieceView::Sign(Icon::Check),
                plain(" "@),
                PieceView::Text(Style::Green, step_id),
                plain(" → "@),
                PieceView::Text(Style::Cyan, next),
            ],
            None => seq![
                PieceView::Sign(Icon::Check),
                plain(" "@),
                PieceView::Text(Style::Green, step_id),
            ],
        },
        ExecutionEventView::StepFailed { step_id, error } => seq![
            PieceView::Sign(Icon::Cross),
            plain(" "@),
            PieceView::Text(Style::Red, step_id),
            plain(": "@),
            PieceView::Text(Style::Dim, error),
        ],
        ExecutionEventView::StepContinued { step_id, action } => seq![
            PieceView::Sign(Icon::Info),
            plain(" "@),
            PieceView::Text(Style::Yellow, step_id),
            plain(
                " ("@ + (match action {
                    ContinueActionView::Retry => "retrying"@,
                    ContinueActionView::Route(target) => "routing to "@ + target,
                }) + ")"@,
            ),
        ],
        ExecutionEventView::StepRetrying { step_id, attempt, max_retries } => seq![
            PieceView::Sign(Icon::Warn),
            plain(" "@),
            PieceView::Text(Style::Yellow, step_id),
            plain(
                " (attempt "@ + decimal(attempt as nat) + "/"@ + decimal(max_retries as nat)
                    + ")"@,
            ),
        ],
        ExecutionEventView::StepRerouted { from_step, to_step } => seq![
            PieceView::Sign(Icon::Info),
            plain(" "@),
            PieceView::Text(Style::Dim, from_step),
            plain(" → "@),
            PieceView::Text(Style::Cyan, to_step),
        ],
        ExecutionEventView::PipelineCompleted { execution_id, status } => {
            let head = seq![
                PieceView::Sign(Icon::Info),
                plain(" Pipeline ("@),
                PieceView::Text(Style::Dim, short(uuid_text(execution_id))),
                plain(") "@),
            ];
            match status {
                ExecutionStatus::Completed => head + seq![
                    PieceView::Text(Style::Green, "successfully"@),
                    plain(" completed"@),
                ],
                ExecutionStatus::Failed => head.push(PieceView::Text(Style::Red, "failed"@)),
                _ => head.push(plain(status_name(status))),
            }
        },
    }
}

fn text_piece(style: Style, text: &str) -> (p: Piece)
    ensures
        p@ == PieceView::Text(style, text@),
{
    Piece::Text(style, text.to_owned())
}

/// The first eight characters of `text`.
pub fn shorten(text: &str) -> (s: String)
    ensures
        s@ == short(text@),
{
    let chars = to_chars(text);
    if chars.len() <= 8 {
        return text.to_owned();
    }
    let mut s = String::new();
    let mut i: usize = 0;
    while i < 8
        invariant
            i <= 8 < chars.len(),
            s@ == chars@.take(i as int),
        decreases 8 - i,
    {
        s.push(chars[i]);
        i = i + 1;
    }
    s
}

/// The state of a step as it is shown.
pub fn format_step_state(state: &StepState) -> (p: Piece)
    ensures
        p@ == step_state_piece(state@),
{
    match state {
        StepState::Pending => text_piece(Style::Dim, "PENDING"),
        StepState::Retrying { attempt } => {
            let head = concat("RETRYING (attempt ", decimal_string(*attempt as u64).as_str());
            Piece::Text(Style::Yellow, concat(head.as_str(), ")"))
        },
        StepState::Running { attempt, .. } => {
            let head = concat("RUNNING (attempt ", decimal_string(*attempt as u64).as_str());
            Piece::Text(Style::Yellow, concat(head.as_str(), ")"))
        },
        StepState::Completed { .. } => text_piece(Style::Green, "COMPLETED"),
        StepState::Failed { .. } => text_piece(Style::Red, "FAILED"),
        StepState::Skipped { .. } => text_piece(Style::Dim, "SKIPPED"),
        StepState::Blocked { .. } => text_piece(Style::Yellow, "BLOCKED"),
    }
}

/// The status of a run as it is shown.
pub fn format_status(status: ExecutionStatus) -> (p: Piece)
    ensures
        p@ == status_piece(status),
{
    match status {
        ExecutionStatus::Pending => text_piece(Style::Dim, "PENDING"),
        ExecutionStatus::Running => text_piece(Style::Yellow, "RUNNING"),
        ExecutionStatus::Completed => text_piece(Style::Green, "COMPLETED"),
        ExecutionStatus::Failed => text_piece(Style::Red, "FAILED"),
        ExecutionStatus::Cancelled => text_piece(Style::Yellow, "CANCELLED"),
        ExecutionStatus::Paused => text_piece(Style::Blue, "PAUSED"),
    }
}

/// The name of a status.
pub fn status_text(status: ExecutionStatus) -> (s: String)
    ensures
        s@ == status_name(status),
{
    match status {
        ExecutionStatus::Pending => "Pending".to_owned(),
        ExecutionStatus::Running => "Running".to_owned(),
        ExecutionStatus::Completed => "Completed".to_owned(),
        ExecutionStatus::Failed => "Failed".to_owned(),
        ExecutionStatus::Cancelled => "Cancelled".to_owned(),
        ExecutionStatus::Paused => "Paused".to_owned(),
    }
}

/// An event of a run as it is shown, piece by piece.
pub fn format_execution_event(event: &ExecutionEvent) -> (pieces: Vec<Piece>)
    ensures
        piece_views(pieces@) == event_pieces(event@),
{
    let mut pieces: Vec<Piece> = Vec::new();
    match event {
        ExecutionEvent::PipelineStarted { execution_id, pipeline_name } => {
            pieces.push(Piece::Sign(Icon::Rocket));
            pieces.push(text_piece(Style::Plain, " Starting pipeline "));
            pieces.push(text_piece(Style::Bold, pipeline_name.as_str()));
            pieces.push(text_piece(Style::Plain, " ("));
            pieces.push(Piece::Text(Style::Dim, shorten(uuid_string(execution_id).as_str())));
            pieces.push(text_piece(Style::Plain, ")"));
        },
        ExecutionEvent::StepStarted { step_id, attempt } => {
            pieces.push(Piece::Sign(Icon::Spinner));
            pieces.push(text_piece(Style::Plain, " "));
            pieces.push(text_piece(Style::Cyan, step_id.as_str()));
            if *attempt > 1 {
                pieces.push(text_piece(Style::Plain, " (retry "));
                pieces.push(Piece::Text(Style::Dim, decimal_string((*attempt - 1) as u64)));
                pieces.push(text_piece(Style::Plain, "/"));
                pieces.push(text_piece(Style::Dim, "3"));
                pieces.push(text_piece(Style::Plain, ")"));
            }
        },
        ExecutionEvent::StepOutput { step_id, output } => {
            pieces.push(Piece::Sign(Icon::Info));
            pieces.push(text_piece(Style::Plain, " Output from "));
            pieces.push(text_piece(Style::Dim, step_id.as_str()));
            pieces.push(Piece::Text(Style::Plain, concat(":\n", output.as_str())));
        },
        ExecutionEvent::StepCompleted { step_id, next_step } => {
            pieces.push(Piece::Sign(Icon::Check));
            pieces.push(text_piece(Style::Plain, " "));
            pieces.push(text_piece(Style::Green, step_id.as_str()));
            if let Some(next) = next_step {
                pieces.push(text_piece(Style::Plain, " → "));
                pieces.push(text_piece(Style::Cyan, next.as_str()));
            }
        },
        ExecutionEvent::StepFailed { step_id, error } => {
            pieces.push(Piece::Sign(Icon::Cross));
            pieces.push(text_piece(Style::Plain, " "));
            pieces.push(text_piece(Style::Red, step_id.as_str()));
            pieces.push(text_piece(Style::Plain, ": "));
            pieces.push(text_piece(Style::Dim, error.as_str()));
        },
        ExecutionEvent::StepContinued { step_id, action } => {
            pieces.push(Piece::Sign(Icon::Info));
            pieces.push(text_piece(Style::Plain, " "));
            pieces.push(text_piece(Style::Yellow, step_id.as_str()));
            let what = match action {
                ContinueAction::Retry => "retrying".to_owned(),
                ContinueAction::Route(target) => concat("routing to ", target.as_str()),
            };
            let head = concat(" (", what.as_str());
            pieces.push(Piece::Text(Style::Plain, concat(head.as_str(), ")")));
        },
        ExecutionEvent::StepRetrying { step_id, attempt, max_retries } => {
            pieces.push(Piece::Sign(Icon::Warn));
            pieces.push(text_piece(Style::Plain, " "));
            pieces.push(text_piece(Style::Yellow, step_id.as_str()));
            let mut tail = " (attempt ".to_owned();
            tail.append(decimal_string(*attempt as u64).as_str());
            tail.append("/");
            tail.append(decimal_string(*max_retries as u64).as_str());
            tail.append(")");
            pieces.push(Piece::Text(Style::Plain, tail));
        },
        ExecutionEvent::StepRerouted { from_step, to_step } => {
            pieces.push(Piece::Sign(Icon::Info));
            pieces.push(text_piece(Style::Plain, " "));
            pieces.push(text_piece(Style::Dim, from_step.as_str()));
            pieces.push(text_piece(Style::Plain, " → "));
            pieces.push(text_piece(Style::Cyan, to_step.as_str()));
        },
        ExecutionEvent::PipelineCompleted { execution_id, status } => {
            pieces.push(Piece::Sign(Icon::Info));
            pieces.push(text_piece(Style::Plain, " Pipeline ("));
            pieces.push(Piece::Text(Style::Dim, shorten(uuid_string(execution_id).as_str())));
            pieces.push(text_piece(Style::Plain, ") "));
            match status {
                ExecutionStatus::Completed => {
                    pieces.push(text_piece(Style::Green, "successfully"));
                    pieces.push(text_piece(Style::Plain, " completed"));
                },
                ExecutionStatus::Failed => {
                    pieces.push(text_piece(Style::Red, "failed"));
                },
                _ => {
                    pieces.push(Piece::Text(Style::Plain, status_text(*status)));
                },
            }
        },
    }
    pieces
}

/// The output of a step as it is shown: all of it where it has at most
/// `max_lines` lines, and otherwise its first `max_lines` lines, followed by
/// a note of how many lines were left out.
pub open spec fn output_pieces(output: Seq<char>, max_lines: usize) -> Seq<PieceView> {
    let lines = lines_of(output);
    if lines.len() <= max_lines {
        seq![plain(output)]
    } else {
        seq![
            plain(joined(lines.take(max_lines as int)) + "\n"@),
            PieceView::Text(Style::Dim, "[truncated]"@),
            plain("... ("@ + decimal((lines.len() - max_lines) as nat) + " more lines)"@),
        ]
    }
}

/// The output of a step as it is shown.
pub fn format_output(output: &str, max_lines: usize) -> (pieces: Vec<Piece>)
    ensures
        piece_views(pieces@) == output_pieces(output@, max_lines),
{
    let lines = split_lines(output);
    let mut pieces: Vec<Piece> = Vec::new();
    if lines.len() <= max_lines {
        pieces.push(text_piece(Style::Plain, output));
    } else {
        let kept = join_first(&lines, max_lines);
        pieces.push(Piece::Text(Style::Plain, concat(kept.as_str(), "\n")));
        pieces.push(text_piece(Style::Dim, "[truncated]"));
        let left = decimal_string((lines.len() - max_lines) as u64);
        let head = concat("... (", left.as_str());
        pieces.push(Piece::Text(Style::Plain, concat(head.as_str(), " more lines)")));
    }
    pieces
}

} // verus!
