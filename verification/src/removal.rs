//! Removing a worktree, step by step.
//!
//! A `Removal` says what is to be done next and takes in what came of it. The
//! caller runs the tools and touches the directory; every decision is made
//! here.

use crate::failure::{outcome_view, Failure, FailureView};
use crate::provision::git_line;
use crate::text::texts;
use crate::tool::{CommandLine, CommandView, RunView, ToolRun};
use vstd::prelude::*;
use vstd::string::StringExecFns;

verus! {

/// How far a removal has come.
#[derive(Debug, PartialEq, Eq)]
pub enum Phase {
    /// The tool's forced removal is to be run.
    Removing,
    /// The tool has run; whether the directory is still there is to be found
    /// out. Holds the tool's complaint where it reported failure.
    Probing { complaint: Option<String> },
    /// The directory is still there and is to be deleted.
    Deleting { complaint: Option<String> },
    /// The tool's stale records are to be pruned.
    Pruning,
    /// The branch is to be deleted.
    DeletingBranch,
    /// The removal has ended.
    Done(Result<(), Failure>),
}

/// What a `Phase` holds, as plain values.
pub enum PhaseView {
    Removing,
    Probing { complaint: Option<Seq<char>> },
    Deleting { complaint: Option<Seq<char>> },
    Pruning,
    DeletingBranch,
    Done(Result<(), FailureView>),
}

/// The view of a text that may be absent.
pub open spec fn text_view(text: Option<String>) -> Option<Seq<char>> {
    match text {
        Some(text) => Some(text@),
        None => None,
    }
}

impl View for Phase {
    type V = PhaseView;

    open spec fn view(&self) -> PhaseView {
        match self {
            Phase::Removing => PhaseView::Removing,
            Phase::Probing { complaint } => PhaseView::Probing { complaint: text_view(*complaint) },
            Phase::Deleting { complaint } => PhaseView::Deleting {
                complaint: text_view(*complaint),
            },
            Phase::Pruning => PhaseView::Pruning,
            Phase::DeletingBranch => PhaseView::DeletingBranch,
            Phase::Done(result) => PhaseView::Done(outcome_view(*result)),
        }
    }
}

/// What the caller is to do next.
#[derive(Debug, PartialEq, Eq)]
pub enum RemovalAction {
    /// Run this command line and report its run.
    Run(CommandLine),
    /// Find out whether this directory is there and report it.
    ProbeDirectory(String),
    /// Delete this directory with all that is in it, without following any
    /// link found inside, and report the failure if there is one.
    DeleteTree(String),
    /// Nothing: the removal has ended in this way.
    Finish(Result<(), Failure>),
}

/// What a `RemovalAction` holds, as plain values.
pub enum ActionView {
    Run(CommandView),
    ProbeDirectory(Seq<char>),
    DeleteTree(Seq<char>),
    Finish(Result<(), FailureView>),
}

impl View for RemovalAction {
    type V = ActionView;

    open spec fn view(&self) -> ActionView {
        match self {
            RemovalAction::Run(line) => ActionView::Run(line@),
            RemovalAction::ProbeDirectory(path) => ActionView::ProbeDirectory(path@),
            RemovalAction::DeleteTree(path) => ActionView::DeleteTree(path@),
            RemovalAction::Finish(result) => ActionView::Finish(outcome_view(*result)),
        }
    }
}

/// What came of the last action.
#[derive(Debug, PartialEq, Eq)]
pub enum RemovalEvent {
    /// The command line was run.
    Ran(ToolRun),
    /// The directory was looked for; holds whether it is there.
    Probed(bool),
    /// The directory was deleted, or could not be; holds the reason then.
    Deleted(Option<String>),
}

/// What a `RemovalEvent` holds, as plain values.
pub enum EventView {
    Ran(RunView),
    Probed(bool),
    Deleted(Option<Seq<char>>),
}

impl View for RemovalEvent {
    type V = EventView;

    open spec fn view(&self) -> EventView {
        match self {
            RemovalEvent::Ran(run) => EventView::Ran(run@),
            RemovalEvent::Probed(exists) => EventView::Probed(*exists),
            RemovalEvent::Deleted(failure) => EventView::Deleted(text_view(*failure)),
        }
    }
}

/// The removal of one worktree, in progress.
#[derive(Debug, PartialEq, Eq)]
pub struct Removal {
    project_path: String,
    worktree_path: String,
    branch: Option<String>,
    phase: Phase,
}

/// What a `Removal` holds, as plain values.
pub struct RemovalView {
    /// The repository.
    pub project_path: Seq<char>,
    /// The worktree's directory.
    pub worktree_path: Seq<char>,
    /// The branch to delete with the worktree, if any.
    pub branch: Option<Seq<char>>,
    /// How far the removal has come.
    pub phase: PhaseView,
}

impl View for Removal {
    type V = RemovalView;

    closed spec fn view(&self) -> RemovalView {
        RemovalView {
            project_path: self.project_path@,
            worktree_path: self.worktree_path@,
            branch: text_view(self.branch),
            phase: self.phase@,
        }
    }
}

/// A removal that has not begun.
pub open spec fn removal_start(
    project_path: Seq<char>,
    worktree_path: Seq<char>,
    branch: Option<Seq<char>>,
) -> RemovalView {
    RemovalView { project_path, worktree_path, branch, phase: PhaseView::Removing }
}

/// Whether a branch is to be deleted: one is named, and its name is not
/// empty.
pub open spec fn names_branch(branch: Option<Seq<char>>) -> bool {
    branch matches Some(name) && name.len() > 0
}

/// The name of the branch, empty where none is named.
pub open spec fn branch_text(branch: Option<Seq<char>>) -> Seq<char> {
    match branch {
        Some(name) => name,
        None => Seq::empty(),
    }
}

/// The failure reported where the tool and the deletion of the directory both
/// failed.
pub open spec fn both_failed(complaint: Seq<char>, reason: Seq<char>) -> FailureView {
    FailureView::ExternalTool("Git failed: "@ + complaint + "; Force remove failed: "@ + reason)
}

/// What the caller is to do in a state.
pub open spec fn pending(state: RemovalView) -> ActionView {
    match state.phase {
        PhaseView::Removing => ActionView::Run(
            git_line(
                seq!["worktree"@, "remove"@, "--force"@, state.worktree_path],
                state.project_path,
            ),
        ),
        PhaseView::Probing { complaint } => ActionView::ProbeDirectory(state.worktree_path),
        PhaseView::Deleting { complaint } => ActionView::DeleteTree(state.worktree_path),
        PhaseView::Pruning => ActionView::Run(
            git_line(seq!["worktree"@, "prune"@], state.project_path),
        ),
        PhaseView::DeletingBranch => ActionView::Run(
            git_line(
                seq!["branch"@, "-D"@, branch_text(state.branch)],
                state.project_path,
            ),
        ),
        PhaseView::Done(result) => ActionView::Finish(result),
    }
}

/// The phase that follows on an event.
///
/// - The tool's removal: if the tool could not be started the removal fails
///   with the reason; otherwise the directory is looked for, whatever the
///   tool reported.
/// - The look: a directory that is still there is deleted; one that is gone
///   counts as removed, though the tool may have reported failure.
/// - The deletion: its failure fails the removal only where the tool had
///   reported failure too; the error then carries both.
/// - The pruning: whatever came of it, the branch is deleted next where one
///   is named, and else the removal has succeeded.
/// - The branch's deletion: if the tool could not be started the removal
///   fails with the reason; if it reported failure, the removal ends with the
///   worktree gone and the branch kept.
///
/// An event that does not answer the pending action changes nothing.
pub open spec fn next_phase(state: RemovalView, event: EventView) -> PhaseView {
    match (state.phase, event) {
        (PhaseView::Removing, EventView::Ran(RunView::NotStarted(reason))) => PhaseView::Done(
            Err(FailureView::ExternalTool(reason)),
        ),
        (
            PhaseView::Removing,
            EventView::Ran(RunView::Exited { success, stdout, stderr }),
        ) => PhaseView::Probing {
            complaint: if success {
                None
            } else {
                Some(stderr)
            },
        },
        (PhaseView::Probing { complaint }, EventView::Probed(exists)) => if exists {
            PhaseView::Deleting { complaint }
        } else {
            PhaseView::Pruning
        },
        (PhaseView::Deleting { complaint }, EventView::Deleted(failure)) => match (
            complaint,
            failure,
        ) {
            (Some(complaint), Some(reason)) => PhaseView::Done(
                Err(both_failed(complaint, reason)),
            ),
            _ => PhaseView::Pruning,
        },
        (PhaseView::Pruning, EventView::Ran(run)) => if names_branch(state.branch) {
            PhaseView::DeletingBranch
        } else {
            PhaseView::Done(Ok(()))
        },
        (PhaseView::DeletingBranch, EventView::Ran(RunView::NotStarted(reason))) => PhaseView::Done(
            Err(FailureView::ExternalTool(reason)),
        ),
        (
            PhaseView::DeletingBranch,
            EventView::Ran(RunView::Exited { success, stdout, stderr }),
        ) => if success {
            PhaseView::Done(Ok(()))
        } else {
            PhaseView::Done(
                Err(
                    FailureView::PartialRemoval {
                        branch: branch_text(state.branch),
                        detail: stderr,
                    },
                ),
            )
        },
        _ => state.phase,
    }
}

/// The state that follows on an event.
pub open spec fn advanced(state: RemovalView, event: EventView) -> RemovalView {
    RemovalView { phase: next_phase(state, event), ..state }
}

impl Removal {
    /// Begins the removal of the worktree at `worktree_path` from the
    /// repository at `project_path`, together with `branch` where one is
    /// given.
    pub fn new(project_path: &str, worktree_path: &str, branch: Option<&str>) -> (removal: Removal)
        ensures
            removal@ == removal_start(
                project_path@,
                worktree_path@,
                match branch {
                    Some(name) => Some(name@),
                    None => None,
                },
            ),
    {
        Removal {
            project_path: String::from_str(project_path),
            worktree_path: String::from_str(worktree_path),
            branch: match branch {
                Some(name) => Some(String::from_str(name)),
                None => None,
            },
            phase: Phase::Removing,
        }
    }

    /// How far the removal has come.
    pub fn phase(&self) -> (phase: &Phase)
        ensures
            phase@ == self@.phase,
    {
        &self.phase
    }

    /// What the caller is to do next.
    pub fn action(&self) -> (action: RemovalAction)
        ensures
            action@ == pending(self@),
    {
        match &self.phase {
            Phase::Removing => {
                let mut args: Vec<String> = Vec::new();
                args.push(String::from_str("worktree"));
                args.push(String::from_str("remove"));
                args.push(String::from_str("--force"));
                args.push(self.worktree_path.clone());
                proof {
                    assert(texts(args@) =~= seq![
                        "worktree"@,
                        "remove"@,
                        "--force"@,
                        self.worktree_path@,
                    ]);
                }
                RemovalAction::Run(self.git(args))
            },
            Phase::Probing { .. } => RemovalAction::ProbeDirectory(self.worktree_path.clone()),
            Phase::Deleting { .. } => RemovalAction::DeleteTree(self.worktree_path.clone()),
            Phase::Pruning => {
                let mut args: Vec<String> = Vec::new();
                args.push(String::from_str("worktree"));
                args.push(String::from_str("prune"));
                proof {
                    assert(texts(args@) =~= seq!["worktree"@, "prune"@]);
                }
                RemovalAction::Run(self.git(args))
            },
            Phase::DeletingBranch => {
                let name = match &self.branch {
                    Some(name) => name.clone(),
                    None => String::new(),
                };
                let mut args: Vec<String> = Vec::new();
                args.push(String::from_str("branch"));
                args.push(String::from_str("-D"));
                let ghost text = name@;
                args.push(name);
                proof {
                    assert(texts(args@) =~= seq!["branch"@, "-D"@, text]);
                }
                RemovalAction::Run(self.git(args))
            },
            Phase::Done(result) => RemovalAction::Finish(
                match result {
                    Ok(()) => Ok(()),
                    Err(error) => Err(error.clone()),
                },
            ),
        }
    }

    /// The tool's command line with the arguments `args`, started in the
    /// repository.
    fn git(&self, args: Vec<String>) -> (line: CommandLine)
        ensures
            line@ == git_line(texts(args@), self@.project_path),
    {
        CommandLine {
            program: String::from_str("git"),
            args,
            dir: Some(self.project_path.clone()),
        }
    }

    /// Whether a branch is to be deleted.
    fn has_branch(&self) -> (named: bool)
        ensures
            named == names_branch(self@.branch),
    {
        match &self.branch {
            Some(name) => name.as_str().unicode_len() > 0,
            None => false,
        }
    }

    /// Takes in what came of the pending action.
    pub fn advance(self, event: RemovalEvent) -> (next: Removal)
        ensures
            next@ == advanced(self@, event@),
    {
        let named = self.has_branch();
        let Removal { project_path, worktree_path, branch, phase } = self;
        let ghost state = RemovalView {
            project_path: project_path@,
            worktree_path: worktree_path@,
            branch: text_view(branch),
            phase: phase@,
        };
        let phase = match (phase, event) {
            (Phase::Removing, RemovalEvent::Ran(ToolRun::NotStarted(reason))) => Phase::Done(
                Err(Failure::ExternalTool(reason)),
            ),
            (Phase::Removing, RemovalEvent::Ran(ToolRun::Exited(output))) => Phase::Probing {
                complaint: if output.success {
                    None
                } else {
                    Some(output.stderr)
                },
            },
            (Phase::Probing { complaint }, RemovalEvent::Probed(exists)) => if exists {
                Phase::Deleting { complaint }
            } else {
                Phase::Pruning
            },
            (Phase::Deleting { complaint }, RemovalEvent::Deleted(failure)) => match (
                complaint,
                failure,
            ) {
                (Some(complaint), Some(reason)) => {
                    let mut text = String::from_str("Git failed: ");
                    text.append(complaint.as_str());
                    text.append("; Force remove failed: ");
                    text.append(reason.as_str());
                    Phase::Done(Err(Failure::ExternalTool(text)))
                },
                _ => Phase::Pruning,
            },
            (Phase::Pruning, RemovalEvent::Ran(_)) => if named {
                Phase::DeletingBranch
            } else {
                Phase::Done(Ok(()))
            },
            (Phase::DeletingBranch, RemovalEvent::Ran(ToolRun::NotStarted(reason))) => Phase::Done(
                Err(Failure::ExternalTool(reason)),
            ),
            (Phase::DeletingBranch, RemovalEvent::Ran(ToolRun::Exited(output))) => {
                if output.success {
                    Phase::Done(Ok(()))
                } else {
                    Phase::Done(
                        Err(
                            Failure::PartialRemoval {
                                branch: match &branch {
                                    Some(name) => name.clone(),
                                    None => String::new(),
                                },
                                detail: output.stderr,
                            },
                        ),
                    )
                }
            },
            (phase, _) => phase,
        };
        Removal { project_path, worktree_path, branch, phase }
    }
}

/// Removal survives a failure of the tool. If the tool's removal reports
/// failure but the directory is gone afterwards, the removal goes on to the
/// pruning and, with no branch to delete, succeeds whatever came of the
/// pruning; with a branch, it succeeds once that is deleted.
pub proof fn lemma_removal_survives_tool_failure(
    project_path: Seq<char>,
    worktree_path: Seq<char>,
    branch: Option<Seq<char>>,
    stdout: Seq<char>,
    stderr: Seq<char>,
    pruning: RunView,
    branch_stdout: Seq<char>,
    branch_stderr: Seq<char>,
)
    ensures
        ({
            let begun = removal_start(project_path, worktree_path, branch);
            let failed = advanced(
                begun,
                EventView::Ran(RunView::Exited { success: false, stdout, stderr }),
            );
            let gone = advanced(failed, EventView::Probed(false));
            let pruned = advanced(gone, EventView::Ran(pruning));
            let deleted = advanced(
                pruned,
                EventView::Ran(
                    RunView::Exited {
                        success: true,
                        stdout: branch_stdout,
                        stderr: branch_stderr,
                    },
                ),
            );
            &&& !names_branch(branch) ==> pending(pruned) == ActionView::Finish(Ok(()))
            &&& names_branch(branch) ==> pending(deleted) == ActionView::Finish(Ok(()))
        }),
{
}

} // verus!
