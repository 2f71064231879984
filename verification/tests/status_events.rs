use worktree_manager::failure::Failure;
use worktree_manager::status::{HookPayload, Notification, SessionStatus};

fn payload(status: &str) -> HookPayload {
    HookPayload { path: "/p".to_string(), status: status.to_string(), message: None }
}

#[test]
fn status_words_name_a_status() {
    assert_eq!(payload("waiting_auth").kind(), Some(SessionStatus::WaitingAuth));
    assert_eq!(payload("running").kind(), Some(SessionStatus::Running));
    assert_eq!(payload("idle").kind(), Some(SessionStatus::Idle));
    assert_eq!(payload("Idle").kind(), None);
    assert_eq!(payload("").kind(), None);
    assert_eq!(payload("waiting_auth ").kind(), None);
}

#[test]
fn waiting_for_approval_calls_for_a_notification() {
    assert_eq!(
        payload("waiting_auth").notification("Helper"),
        Some(Notification {
            title: "Helper Permission Request".to_string(),
            body: "Helper is waiting for your approval.".to_string(),
        })
    );
}

#[test]
fn other_statuses_call_for_none() {
    assert_eq!(payload("running").notification("Helper"), None);
    assert_eq!(payload("idle").notification("Helper"), None);
    assert_eq!(payload("waiting").notification("Helper"), None);
}

#[test]
fn every_error_has_its_message() {
    assert_eq!(Failure::ExternalTool("fatal: x".to_string()).message(), "fatal: x");
    assert_eq!(Failure::Spawn("no window".to_string()).message(), "no window");
    assert_eq!(
        Failure::NotFound { assistant: "Helper".to_string() }.message(),
        "No active Helper session found for this path"
    );
    assert_eq!(
        Failure::PartialRemoval { branch: "b".to_string(), detail: "d".to_string() }.message(),
        "Worktree removed, but failed to delete branch 'b': d"
    );
}

#[test]
fn an_error_copies_whole() {
    let errors = [
        Failure::ExternalTool("a".to_string()),
        Failure::Spawn("b".to_string()),
        Failure::NotFound { assistant: "x".to_string() },
        Failure::PartialRemoval { branch: "c".to_string(), detail: "d".to_string() },
    ];
    for error in &errors {
        assert_eq!(&error.clone(), error);
    }
}
