use worktree_manager::failure::Failure;
use worktree_manager::paths::Platform;
use worktree_manager::provision::{
    create_command, create_worktree, folder_to_open, list_command, list_worktrees, open_failed,
    Created,
};
use worktree_manager::tool::{CommandLine, ToolOutput, ToolRun};
use worktree_manager::worktree::Worktree;

fn exited(success: bool, stdout: &str, stderr: &str) -> ToolRun {
    ToolRun::Exited(ToolOutput { success, stdout: stdout.to_string(), stderr: stderr.to_string() })
}

fn not_started(reason: &str) -> ToolRun {
    ToolRun::NotStarted(reason.to_string())
}

fn git(args: &[&str], dir: &str) -> CommandLine {
    CommandLine {
        program: "git".to_string(),
        args: args.iter().map(|a| a.to_string()).collect(),
        dir: Some(dir.to_string()),
    }
}

#[test]
fn list_command_asks_for_the_porcelain_listing() {
    assert_eq!(list_command("/repo"), git(&["worktree", "list", "--porcelain"], "/repo"));
}

#[test]
fn list_worktrees_reads_the_output() {
    let run = exited(true, "worktree /repo\nHEAD 1\nbranch refs/heads/main\n\n", "warning");
    assert_eq!(
        list_worktrees("/repo", &run),
        Ok(vec![Worktree {
            path: "/repo".to_string(),
            head_hash: "1".to_string(),
            branch: Some("main".to_string()),
        }])
    );
}

#[test]
fn list_worktrees_reports_a_tool_that_did_not_start() {
    assert_eq!(
        list_worktrees("/repo", &not_started("program not found")),
        Err(Failure::ExternalTool(
            "Failed to execute git command at '/repo': program not found".to_string()
        ))
    );
}

#[test]
fn list_worktrees_reports_the_tools_failure() {
    let run = exited(false, "worktree /repo\n", "fatal: not a git repository");
    assert_eq!(
        list_worktrees("/nowhere", &run),
        Err(Failure::ExternalTool("Git Error at '/nowhere': fatal: not a git repository".to_string()))
    );
}

#[test]
fn create_command_names_branch_and_path() {
    assert_eq!(
        create_command("/repo", "/repo-feature", "feature-1", None),
        git(&["worktree", "add", "-b", "feature-1", "/repo-feature"], "/repo")
    );
}

#[test]
fn create_command_takes_a_base() {
    assert_eq!(
        create_command("/repo", "/repo-feature", "feature-1", Some("origin/main")),
        git(&["worktree", "add", "-b", "feature-1", "/repo-feature", "origin/main"], "/repo")
    );
}

#[test]
fn create_worktree_links_where_asked() {
    assert_eq!(create_worktree(&exited(true, "", ""), true), Ok(Created::LinkIgnored));
    assert_eq!(create_worktree(&exited(true, "", "Preparing worktree"), false), Ok(Created::Ready));
}

#[test]
fn create_worktree_fails_with_the_tools_words() {
    assert_eq!(
        create_worktree(&exited(false, "", "fatal: a branch named 'x' already exists"), true),
        Err(Failure::ExternalTool("fatal: a branch named 'x' already exists".to_string()))
    );
    assert_eq!(
        create_worktree(&not_started("No such file or directory"), true),
        Err(Failure::ExternalTool("No such file or directory".to_string()))
    );
}

#[test]
fn folder_to_open_writes_backslashes_on_windows() {
    assert_eq!(folder_to_open("C:/repo/a", Platform::Windows), "C:\\repo\\a");
    assert_eq!(folder_to_open("C:\\repo/a", Platform::Windows), "C:\\repo\\a");
    assert_eq!(folder_to_open("/repo/a", Platform::Unix), "/repo/a");
}

#[test]
fn open_failed_names_the_folder() {
    assert_eq!(
        open_failed("C:\\repo", "no handler"),
        Failure::ExternalTool("Failed to open folder 'C:\\repo': no handler".to_string())
    );
}
