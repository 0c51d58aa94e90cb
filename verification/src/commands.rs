//! The subcommands of the command line that carry plain values.
use vstd::prelude::*;

verus! {

/// What `board` does.
#[derive(Debug, Clone)]
pub enum BoardCmd {
    /// List available boards.
    List,
    /// Show the resolved configuration of a board.
    Info { board: String },
}

/// What `maint` does.
#[derive(Debug, Clone)]
pub enum MaintCmd {
    /// Clean up stale builds and old stage3 tarballs (everything with `all`).
    Cleanup { all: bool },
    /// Show build output and logs, of one step where named.
    Logs { board: String, step: Option<String> },
    /// Check the environment for common issues.
    Doctor,
}

} // verus!
