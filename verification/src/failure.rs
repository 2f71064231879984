//! The failures that the operations report.

use vstd::prelude::*;
use vstd::string::StringExecFns;

verus! {

/// Why an operation failed.
#[derive(Debug, PartialEq, Eq)]
pub enum Failure {
    /// An external tool could not be started or reported failure. Holds the
    /// text shown to the caller, which carries the tool's own diagnostics.
    ExternalTool(String),
    /// The worktree is gone but its branch could not be deleted.
    PartialRemoval {
        /// The branch that stays.
        branch: String,
        /// What the tool said.
        detail: String,
    },
    /// The assistant could not be launched, its process identifier could not
    /// be read, or the platform has no support for sessions. Holds the text
    /// shown to the caller.
    Spawn(String),
    /// No session is registered for the path.
    NotFound {
        /// The name under which users know the assistant.
        assistant: String,
    },
}

/// What a `Failure` holds, as plain text.
pub enum FailureView {
    ExternalTool(Seq<char>),
    PartialRemoval { branch: Seq<char>, detail: Seq<char> },
    Spawn(Seq<char>),
    NotFound { assistant: Seq<char> },
}

impl View for Failure {
    type V = FailureView;

    open spec fn view(&self) -> FailureView {
        match self {
            Failure::ExternalTool(text) => FailureView::ExternalTool(text@),
            Failure::PartialRemoval { branch, detail } => FailureView::PartialRemoval {
                branch: branch@,
                detail: detail@,
            },
            Failure::Spawn(text) => FailureView::Spawn(text@),
            Failure::NotFound { assistant } => FailureView::NotFound { assistant: assistant@ },
        }
    }
}

/// The text that tells a user of the failure.
pub open spec fn message_of(error: FailureView) -> Seq<char> {
    match error {
        FailureView::ExternalTool(text) => text,
        FailureView::PartialRemoval { branch, detail } => "Worktree removed, but failed to delete branch '"@
            + branch + "': "@ + detail,
        FailureView::Spawn(text) => text,
        FailureView::NotFound { assistant } => "No active "@ + assistant
            + " session found for this path"@,
    }
}

impl Clone for Failure {
    fn clone(&self) -> (copy: Failure)
        ensures
            copy@ == self@,
    {
        match self {
            Failure::ExternalTool(text) => Failure::ExternalTool(text.clone()),
            Failure::PartialRemoval { branch, detail } => Failure::PartialRemoval {
                branch: branch.clone(),
                detail: detail.clone(),
            },
            Failure::Spawn(text) => Failure::Spawn(text.clone()),
            Failure::NotFound { assistant } => Failure::NotFound { assistant: assistant.clone() },
        }
    }
}

impl Failure {
    /// The text that tells a user of the failure.
    pub fn message(&self) -> (text: String)
        ensures
            text@ == message_of(self@),
    {
        match self {
            Failure::ExternalTool(text) => text.clone(),
            Failure::PartialRemoval { branch, detail } => {
                let mut text = String::from_str("Worktree removed, but failed to delete branch '");
                text.append(branch.as_str());
                text.append("': ");
                text.append(detail.as_str());
                text
            },
            Failure::Spawn(text) => text.clone(),
            Failure::NotFound { assistant } => {
                let mut text = String::from_str("No active ");
                text.append(assistant.as_str());
                text.append(" session found for this path");
                text
            },
        }
    }
}

/// The view of a result that carries nothing on success.
pub open spec fn outcome_view(result: Result<(), Failure>) -> Result<(), FailureView> {
    match result {
        Ok(()) => Ok(()),
        Err(error) => Err(error@),
    }
}

} // verus!
