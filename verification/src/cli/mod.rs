//! The command line: its commands and what is shown on the terminal.

pub mod commands;
pub mod output;
pub mod terminal_output;

use commands::{HistoryCommand, ListCommand, RunCommand, ValidateCommand};
use vstd::prelude::*;

verus! {

/// What the command line asks for.
#[derive(Debug, Clone)]
pub struct Cli {
    /// The command.
    pub command: Command,
    /// Whether more is logged.
    pub verbose: bool,
    /// The file that holds the settings.
    pub config: Option<String>,
    /// Whether the output of steps is shown as it arrives.
    pub stream: bool,
}

/// The commands.
#[derive(Debug, Clone)]
pub enum Command {
    /// Runs a pipeline.
    Run(RunCommand),
    /// Checks the definition of a pipeline.
    Validate(ValidateCommand),
    /// Lists the pipelines of the history.
    List(ListCommand),
    /// Shows past runs.
    History(HistoryCommand),
}

} // verus!
