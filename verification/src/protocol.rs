//! The messages exchanged between the command line and the daemon.
use vstd::prelude::*;

verus! {

/// A request sent to the daemon.
#[derive(Debug, Clone)]
pub enum Request {
    /// A terminal reports its working directory.
    Notify { terminal_id: String, cwd: String },
    /// How many terminals and worktrees the daemon knows.
    Status,
    /// What a terminal currently shows.
    Current { terminal_id: String },
    /// Health checks, optionally for one terminal.
    Doctor { terminal_id: Option<String> },
    /// Move a worktree to another colour.
    CycleColor { worktree_path: String },
}

/// The outcome of one health check.
#[derive(Debug, Clone)]
pub struct DoctorCheck {
    pub name: String,
    pub ok: bool,
    pub details: String,
}

/// The daemon's answer to a request.
#[derive(Debug, Clone)]
pub enum Response {
    Ack { changed: bool, worktree_key: Option<String>, color: String },
    Status { running: bool, terminals: usize, active_worktrees: usize },
    Current { terminal_id: String, worktree_key: Option<String>, color: Option<String> },
    Doctor { ok: bool, checks: Vec<DoctorCheck> },
    Error { message: String },
}

} // verus!
