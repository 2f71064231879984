//! Listing, creating and removing worktrees: the command lines for the
//! version-control tool, and what follows from what the tool did.

use crate::failure::{Failure, FailureView};
use crate::paths::Platform;
use crate::text::{chars_of, replace_range, replaced, text_of, texts};
use crate::tool::{CommandLine, CommandView, RunView, ToolRun};
use crate::worktree::{parse_worktrees, parsed, views, Worktree, WorktreeView};
use vstd::prelude::*;
use vstd::string::StringExecFns;

verus! {

/// The command line of the version-control tool with the arguments `args`,
/// started in `dir`.
pub open spec fn git_line(args: Seq<Seq<char>>, dir: Seq<char>) -> CommandView {
    CommandView { program: "git"@, args, dir: Some(dir) }
}

/// The command line of the version-control tool with the arguments `args`,
/// started in `dir`.
fn git(args: Vec<String>, dir: &str) -> (line: CommandLine)
    ensures
        line@ == git_line(texts(args@), dir@),
{
    CommandLine { program: String::from_str("git"), args, dir: Some(String::from_str(dir)) }
}

/// The command line that lists the worktrees of the repository at
/// `project_path`.
pub fn list_command(project_path: &str) -> (line: CommandLine)
    ensures
        line@ == git_line(seq!["worktree"@, "list"@, "--porcelain"@], project_path@),
{
    let mut args: Vec<String> = Vec::new();
    args.push(String::from_str("worktree"));
    args.push(String::from_str("list"));
    args.push(String::from_str("--porcelain"));
    proof {
        assert(texts(args@) =~= seq!["worktree"@, "list"@, "--porcelain"@]);
    }
    git(args, project_path)
}

/// What the listing command's run means: the worktrees that its output
/// describes, or a failure that names the directory and carries the reason or
/// the tool's own words.
pub open spec fn listed(project_path: Seq<char>, run: RunView) -> Result<
    Seq<WorktreeView>,
    FailureView,
> {
    match run {
        RunView::NotStarted(reason) => Err(
            FailureView::ExternalTool(
                "Failed to execute git command at '"@ + project_path + "': "@ + reason,
            ),
        ),
        RunView::Exited { success, stdout, stderr } => if success {
            Ok(parsed(stdout))
        } else {
            Err(FailureView::ExternalTool("Git Error at '"@ + project_path + "': "@ + stderr))
        },
    }
}

/// The worktrees of the repository at `project_path`, from the run of its
/// listing command.
pub fn list_worktrees(project_path: &str, run: &ToolRun) -> (result: Result<Vec<Worktree>, Failure>)
    ensures
        match result {
            Ok(worktrees) => listed(project_path@, run@) == Ok::<Seq<WorktreeView>, FailureView>(
                views(worktrees@),
            ),
            Err(error) => listed(project_path@, run@) == Err::<Seq<WorktreeView>, FailureView>(
                error@,
            ),
        },
{
    match run {
        ToolRun::NotStarted(reason) => {
            let mut text = String::from_str("Failed to execute git command at '");
            text.append(project_path);
            text.append("': ");
            text.append(reason.as_str());
            Err(Failure::ExternalTool(text))
        },
        ToolRun::Exited(output) => {
            if output.success {
                Ok(parse_worktrees(output.stdout.as_str()))
            } else {
                let mut text = String::from_str("Git Error at '");
                text.append(project_path);
                text.append("': ");
                text.append(output.stderr.as_str());
                Err(Failure::ExternalTool(text))
            }
        },
    }
}

/// The arguments that create a worktree at `path` on the new branch `branch`,
/// from `base` where one is given.
pub open spec fn create_args(path: Seq<char>, branch: Seq<char>, base: Option<Seq<char>>) -> Seq<
    Seq<char>,
> {
    let fixed = seq!["worktree"@, "add"@, "-b"@, branch, path];
    match base {
        Some(base) => fixed.push(base),
        None => fixed,
    }
}

/// The command line that creates a worktree of the repository at
/// `project_path`.
pub fn create_command(project_path: &str, path: &str, branch: &str, base: Option<&str>) -> (line:
    CommandLine)
    ensures
        line@ == git_line(
            create_args(
                path@,
                branch@,
                match base {
                    Some(base) => Some(base@),
                    None => None,
                },
            ),
            project_path@,
        ),
{
    let mut args: Vec<String> = Vec::new();
    args.push(String::from_str("worktree"));
    args.push(String::from_str("add"));
    args.push(String::from_str("-b"));
    args.push(String::from_str(branch));
    args.push(String::from_str(path));
    proof {
        assert(texts(args@) =~= seq!["worktree"@, "add"@, "-b"@, branch@, path@]);
    }
    match base {
        Some(base) => {
            let ghost fixed = texts(args@);
            args.push(String::from_str(base));
            proof {
                assert(texts(args@) =~= fixed.push(base@));
            }
        },
        None => {},
    }
    git(args, project_path)
}

/// What is left to do once a worktree has been created.
#[derive(Clone, Copy, Debug, PartialEq, Eq, Structural)]
pub enum Created {
    /// Nothing.
    Ready,
    /// The ignored entries of the source tree are to be linked into the new
    /// worktree. Whatever comes of that, the worktree stays created.
    LinkIgnored,
}

/// What the creating command's run means. A tool that could not be started,
/// or that reported failure, fails the creation, with the reason or the
/// tool's own words. Otherwise the worktree is there, and linking follows
/// where it was asked for.
pub open spec fn created(run: RunView, link_ignored: bool) -> Result<Created, FailureView> {
    match run {
        RunView::NotStarted(reason) => Err(FailureView::ExternalTool(reason)),
        RunView::Exited { success, stdout, stderr } => if !success {
            Err(FailureView::ExternalTool(stderr))
        } else if link_ignored {
            Ok(Created::LinkIgnored)
        } else {
            Ok(Created::Ready)
        },
    }
}

/// What follows from the run of the creating command.
pub fn create_worktree(run: &ToolRun, link_ignored: bool) -> (result: Result<Created, Failure>)
    ensures
        match result {
            Ok(next) => created(run@, link_ignored) == Ok::<Created, FailureView>(next),
            Err(error) => created(run@, link_ignored) == Err::<Created, FailureView>(error@),
        },
{
    match run {
        ToolRun::NotStarted(reason) => Err(Failure::ExternalTool(reason.clone())),
        ToolRun::Exited(output) => {
            if !output.success {
                Err(Failure::ExternalTool(output.stderr.clone()))
            } else if link_ignored {
                Ok(Created::LinkIgnored)
            } else {
                Ok(Created::Ready)
            }
        },
    }
}

/// The path of a worktree's directory as the platform's file manager takes
/// it: with backslashes on Windows, unchanged elsewhere.
pub open spec fn folder_text(path: Seq<char>, platform: Platform) -> Seq<char> {
    match platform {
        Platform::Windows => replaced(path, '/', '\\'),
        Platform::Unix => path,
    }
}

/// The path to hand to the platform's file manager to show the directory
/// `path`.
pub fn folder_to_open(path: &str, platform: Platform) -> (folder: String)
    ensures
        folder@ == folder_text(path@, platform),
{
    match platform {
        Platform::Windows => {
            let chars = chars_of(path);
            let turned = replace_range(&chars, 0, chars.len(), '/', '\\');
            proof {
                assert(chars@.subrange(0, chars@.len() as int) =~= chars@);
                assert(turned@.subrange(0, turned@.len() as int) =~= turned@);
            }
            text_of(&turned, 0, turned.len())
        },
        Platform::Unix => String::from_str(path),
    }
}

/// The failure to report where the file manager could not show `folder`.
pub fn open_failed(folder: &str, reason: &str) -> (error: Failure)
    ensures
        error@ == FailureView::ExternalTool(
            "Failed to open folder '"@ + folder@ + "': "@ + reason@,
        ),
{
    let mut text = String::from_str("Failed to open folder '");
    text.append(folder);
    text.append("': ");
    text.append(reason);
    Failure::ExternalTool(text)
}

} // verus!
