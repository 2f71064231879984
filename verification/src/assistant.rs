//! The assistant that is supervised: the program that is started in a
//! session, the name under which users know it, and what is named after it.

use crate::decimal::{append_decimal, decimal};
use vstd::prelude::*;
use vstd::string::StringExecFns;

verus! {

/// The port on which the status endpoint listens.
pub const STATUS_PORT: u16 = 36911;

/// The assistant that is supervised.
#[derive(Debug, PartialEq, Eq)]
pub struct Assistant {
    /// The program that is started in a session's window.
    pub program: String,
    /// The name under which users know the assistant.
    pub name: String,
}

/// What an `Assistant` holds, as plain text.
pub struct AssistantView {
    pub program: Seq<char>,
    pub name: Seq<char>,
}

impl View for Assistant {
    type V = AssistantView;

    open spec fn view(&self) -> AssistantView {
        AssistantView { program: self.program@, name: self.name@ }
    }
}

/// The name of the directory, under the user's home, in which the assistant
/// keeps its settings: the program's name behind a dot.
pub open spec fn settings_folder_text(program: Seq<char>) -> Seq<char> {
    "."@ + program
}

/// The name of the event under which a status is passed on to the user
/// interface.
pub open spec fn status_event_text(program: Seq<char>) -> Seq<char> {
    program + "-status-change"@
}

/// The route of the status endpoint.
pub open spec fn status_route_text(program: Seq<char>) -> Seq<char> {
    "/"@ + program + "/status"@
}

/// The address of the status endpoint on this machine.
pub open spec fn status_address_text(program: Seq<char>, port: u16) -> Seq<char> {
    "http://localhost:"@ + decimal(port as nat) + status_route_text(program)
}

impl Assistant {
    /// The name of the directory, under the user's home, in which the
    /// assistant keeps its settings.
    pub fn settings_folder(&self) -> (folder: String)
        ensures
            folder@ == settings_folder_text(self@.program),
    {
        let mut folder = String::from_str(".");
        folder.append(self.program.as_str());
        folder
    }

    /// The name of the event under which a status is passed on to the user
    /// interface.
    pub fn status_event(&self) -> (event: String)
        ensures
            event@ == status_event_text(self@.program),
    {
        let mut event = self.program.clone();
        event.append("-status-change");
        event
    }

    /// The route of the status endpoint.
    pub fn status_route(&self) -> (route: String)
        ensures
            route@ == status_route_text(self@.program),
    {
        let mut route = String::from_str("/");
        route.append(self.program.as_str());
        route.append("/status");
        route
    }

    /// The address of the status endpoint on this machine.
    pub fn status_address(&self, port: u16) -> (address: String)
        ensures
            address@ == status_address_text(self@.program, port),
    {
        let mut address = String::from_str("http://localhost:");
        append_decimal(&mut address, port as u32);
        let route = self.status_route();
        address.append(route.as_str());
        address
    }
}

} // verus!
