use worktree_manager::failure::Failure;
use worktree_manager::removal::{Phase, Removal, RemovalAction, RemovalEvent};
use worktree_manager::tool::{CommandLine, ToolOutput, ToolRun};

fn exited(success: bool, stderr: &str) -> RemovalEvent {
    RemovalEvent::Ran(ToolRun::Exited(ToolOutput {
        success,
        stdout: String::new(),
        stderr: stderr.to_string(),
    }))
}

fn not_started(reason: &str) -> RemovalEvent {
    RemovalEvent::Ran(ToolRun::NotStarted(reason.to_string()))
}

fn git(args: &[&str]) -> RemovalAction {
    RemovalAction::Run(CommandLine {
        program: "git".to_string(),
        args: args.iter().map(|a| a.to_string()).collect(),
        dir: Some("/repo".to_string()),
    })
}

fn removal(branch: Option<&str>) -> Removal {
    Removal::new("/repo", "/repo-x", branch)
}

fn after(branch: Option<&str>, events: Vec<RemovalEvent>) -> Removal {
    let mut state = removal(branch);
    for event in events {
        state = state.advance(event);
    }
    state
}

#[test]
fn removal_begins_with_the_forced_removal() {
    let state = removal(None);
    assert_eq!(state.phase(), &Phase::Removing);
    assert_eq!(state.action(), git(&["worktree", "remove", "--force", "/repo-x"]));
}

#[test]
fn removal_without_branch_runs_to_success() {
    let state = after(None, vec![exited(true, "")]);
    assert_eq!(state.action(), RemovalAction::ProbeDirectory("/repo-x".to_string()));
    let state = state.advance(RemovalEvent::Probed(false));
    assert_eq!(state.action(), git(&["worktree", "prune"]));
    let state = state.advance(exited(true, ""));
    assert_eq!(state.action(), RemovalAction::Finish(Ok(())));
}

#[test]
fn removal_deletes_the_branch_last() {
    let state = after(Some("feature-1"), vec![exited(true, ""), RemovalEvent::Probed(false), exited(true, "")]);
    assert_eq!(state.phase(), &Phase::DeletingBranch);
    assert_eq!(state.action(), git(&["branch", "-D", "feature-1"]));
    assert_eq!(state.advance(exited(true, "")).action(), RemovalAction::Finish(Ok(())));
}

#[test]
fn an_empty_branch_name_is_no_branch() {
    let state = after(Some(""), vec![exited(true, ""), RemovalEvent::Probed(false), exited(true, "")]);
    assert_eq!(state.action(), RemovalAction::Finish(Ok(())));
}

#[test]
fn removal_fails_where_the_tool_does_not_start() {
    let state = after(Some("b"), vec![not_started("program not found")]);
    assert_eq!(
        state.action(),
        RemovalAction::Finish(Err(Failure::ExternalTool("program not found".to_string())))
    );
}

#[test]
fn removal_survives_a_tool_failure_where_the_directory_is_gone() {
    let state = after(
        None,
        vec![exited(false, "fatal: '/repo-x' is not a working tree"), RemovalEvent::Probed(false)],
    );
    assert_eq!(state.action(), git(&["worktree", "prune"]));
    assert_eq!(state.advance(exited(false, "prune failed")).action(), RemovalAction::Finish(Ok(())));
}

#[test]
fn a_directory_that_stays_is_deleted() {
    let state = after(None, vec![exited(false, "fatal: locked"), RemovalEvent::Probed(true)]);
    assert_eq!(state.action(), RemovalAction::DeleteTree("/repo-x".to_string()));
    let state = state.advance(RemovalEvent::Deleted(None));
    assert_eq!(state.action(), git(&["worktree", "prune"]));
    assert_eq!(state.advance(exited(true, "")).action(), RemovalAction::Finish(Ok(())));
}

#[test]
fn a_directory_that_stays_after_success_is_deleted_too() {
    let state = after(None, vec![exited(true, ""), RemovalEvent::Probed(true)]);
    assert_eq!(state.action(), RemovalAction::DeleteTree("/repo-x".to_string()));
    let state = state.advance(RemovalEvent::Deleted(Some("access denied".to_string())));
    assert_eq!(state.action(), git(&["worktree", "prune"]));
}

#[test]
fn removal_fails_where_tool_and_deletion_both_fail() {
    let state = after(
        Some("b"),
        vec![
            exited(false, "fatal: locked"),
            RemovalEvent::Probed(true),
            RemovalEvent::Deleted(Some("access denied".to_string())),
        ],
    );
    assert_eq!(
        state.action(),
        RemovalAction::Finish(Err(Failure::ExternalTool(
            "Git failed: fatal: locked; Force remove failed: access denied".to_string()
        )))
    );
}

#[test]
fn a_branch_that_stays_is_a_partial_removal() {
    let state = after(
        Some("feature-1"),
        vec![
            exited(true, ""),
            RemovalEvent::Probed(false),
            exited(true, ""),
            exited(false, "error: branch 'feature-1' not found."),
        ],
    );
    let failure = Failure::PartialRemoval {
        branch: "feature-1".to_string(),
        detail: "error: branch 'feature-1' not found.".to_string(),
    };
    assert_eq!(
        failure.message(),
        "Worktree removed, but failed to delete branch 'feature-1': error: branch 'feature-1' not found."
    );
    assert_eq!(state.action(), RemovalAction::Finish(Err(failure)));
}

#[test]
fn branch_deletion_that_does_not_start_fails_the_removal() {
    let state = after(
        Some("b"),
        vec![exited(true, ""), RemovalEvent::Probed(false), not_started("gone"), not_started("gone")],
    );
    assert_eq!(state.action(), RemovalAction::Finish(Err(Failure::ExternalTool("gone".to_string()))));
}

#[test]
fn an_event_that_answers_nothing_changes_nothing() {
    let state = after(None, vec![RemovalEvent::Probed(true)]);
    assert_eq!(state, removal(None));
    let state = after(None, vec![RemovalEvent::Deleted(None)]);
    assert_eq!(state, removal(None));
    let state = after(None, vec![exited(true, ""), exited(true, "")]);
    assert_eq!(state, after(None, vec![exited(true, "")]));
    let done = after(None, vec![exited(true, ""), RemovalEvent::Probed(false), exited(true, "")]);
    assert_eq!(done.advance(RemovalEvent::Probed(true)).action(), RemovalAction::Finish(Ok(())));
}
