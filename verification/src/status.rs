//! Status events that a session sends about itself.

use vstd::prelude::*;
use vstd::string::StringExecFns;

verus! {

/// A status event as it arrives.
#[derive(Debug, PartialEq, Eq)]
pub struct HookPayload {
    /// The workspace that the session is bound to.
    pub path: String,
    /// The status: `waiting_auth`, `running` or `idle`.
    pub status: String,
    /// A text that came with it.
    pub message: Option<String>,
}

/// What a session can say of itself.
#[derive(Clone, Copy, Debug, PartialEq, Eq, Structural)]
pub enum SessionStatus {
    /// It waits for the user's approval.
    WaitingAuth,
    /// It is at work.
    Running,
    /// It has nothing to do.
    Idle,
}

/// The status that a word names.
pub open spec fn status_of(word: Seq<char>) -> Option<SessionStatus> {
    if word == "waiting_auth"@ {
        Some(SessionStatus::WaitingAuth)
    } else if word == "running"@ {
        Some(SessionStatus::Running)
    } else if word == "idle"@ {
        Some(SessionStatus::Idle)
    } else {
        None
    }
}

/// A notification for the desktop.
#[derive(Debug, PartialEq, Eq)]
pub struct Notification {
    /// Its title.
    pub title: String,
    /// Its text.
    pub body: String,
}

impl HookPayload {
    /// The status that the event names, if it names one.
    pub fn kind(&self) -> (kind: Option<SessionStatus>)
        ensures
            kind == status_of(self.status@),
    {
        if self.status == String::from_str("waiting_auth") {
            Some(SessionStatus::WaitingAuth)
        } else if self.status == String::from_str("running") {
            Some(SessionStatus::Running)
        } else if self.status == String::from_str("idle") {
            Some(SessionStatus::Idle)
        } else {
            None
        }
    }

    /// The notification that the event calls for: one where the session
    /// waits for approval, none otherwise. It calls the assistant by the name
    /// `assistant`, under which users know it.
    pub fn notification(&self, assistant: &str) -> (note: Option<Notification>)
        ensures
            match note {
                Some(note) => {
                    &&& self.status@ == "waiting_auth"@
                    &&& note.title@ == assistant@ + " Permission Request"@
                    &&& note.body@ == assistant@ + " is waiting for your approval."@
                },
                None => self.status@ != "waiting_auth"@,
            },
    {
        if self.status == String::from_str("waiting_auth") {
            let mut title = String::from_str(assistant);
            title.append(" Permission Request");
            let mut body = String::from_str(assistant);
            body.append(" is waiting for your approval.");
            Some(Notification { title, body })
        } else {
            None
        }
    }
}

} // verus!
