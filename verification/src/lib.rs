//! Provisioning of source-control worktrees and supervision of the assistant
//! sessions bound to them: the decisions, parsers and command builders, with
//! the effects left to the caller.

pub mod assistant;
pub mod decimal;
pub mod failure;
pub mod hooks;
pub mod ignore;
pub mod linking;
pub mod paths;
pub mod planner;
pub mod provision;
pub mod removal;
pub mod session;
pub mod status;
pub mod supervisor;
pub mod text;
pub mod tool;
pub mod worktree;

pub use worktree::{parse_worktrees, Worktree};
