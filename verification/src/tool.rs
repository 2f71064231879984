//! External tools as values: the command line to run, and what came of
//! running it.

use crate::text::texts;
use vstd::prelude::*;

verus! {

/// A command line for the caller to run.
#[derive(Debug, PartialEq, Eq)]
pub struct CommandLine {
    /// The program to start.
    pub program: String,
    /// Its arguments, in order.
    pub args: Vec<String>,
    /// The directory to start it in; `None` leaves the caller's own.
    pub dir: Option<String>,
}

/// What a `CommandLine` holds, as plain text.
pub struct CommandView {
    pub program: Seq<char>,
    pub args: Seq<Seq<char>>,
    pub dir: Option<Seq<char>>,
}

impl View for CommandLine {
    type V = CommandView;

    open spec fn view(&self) -> CommandView {
        CommandView {
            program: self.program@,
            args: texts(self.args@),
            dir: match self.dir {
                Some(dir) => Some(dir@),
                None => None,
            },
        }
    }
}

/// What a tool that ran left behind.
#[derive(Debug, PartialEq, Eq)]
pub struct ToolOutput {
    /// Whether the tool reported success.
    pub success: bool,
    /// What it wrote to standard output.
    pub stdout: String,
    /// What it wrote to standard error.
    pub stderr: String,
}

/// What came of running a command line.
#[derive(Debug, PartialEq, Eq)]
pub enum ToolRun {
    /// The tool could not be started. Holds the system's reason.
    NotStarted(String),
    /// The tool ran to its end.
    Exited(ToolOutput),
}

/// What a `ToolRun` holds, as plain values.
pub enum RunView {
    NotStarted(Seq<char>),
    Exited { success: bool, stdout: Seq<char>, stderr: Seq<char> },
}

impl View for ToolRun {
    type V = RunView;

    open spec fn view(&self) -> RunView {
        match self {
            ToolRun::NotStarted(reason) => RunView::NotStarted(reason@),
            ToolRun::Exited(output) => RunView::Exited {
                success: output.success,
                stdout: output.stdout@,
                stderr: output.stderr@,
            },
        }
    }
}

} // verus!
