//! The subcommands and their arguments.
use vstd::prelude::*;

verus! {

/// `grove repo …`
#[derive(Debug, Clone, PartialEq, Eq)]
pub enum RepoCmd {
    /// Track an existing local repository.
    Add { path: String },
    /// Stop tracking a repository.
    Rm { name: String },
    /// List tracked repositories.
    List,
    /// Create a new, empty repository in the container layout.
    New { name: String, dir: Option<String> },
    /// Convert a legacy bare repository to the container layout.
    Migrate { name: Option<String> },
}

/// `grove tree …`
#[derive(Debug, Clone, PartialEq, Eq)]
pub enum TreeCmd {
    /// List worktrees for a repository.
    List { repo: Option<String> },
    /// Close a worktree and its session.
    Close { query: Option<String> },
    /// Prune stale worktree entries, and with `orphans` leftover
    /// directories, with `merged` worktrees whose branch is done; over every
    /// tracked repository with `all`.
    Prune { repo: Option<String>, all: bool, orphans: bool, merged: bool },
}

/// `grove session …`
#[derive(Debug, Clone, PartialEq, Eq)]
pub enum SessionCmd {
    /// List active sessions.
    List,
    /// Attach to an existing session.
    Attach { name: String },
}

/// `grove config …`
#[derive(Debug, Clone, Copy, PartialEq, Eq, Structural)]
pub enum ConfigCmd {
    /// Show the configuration file.
    Show,
    /// Edit the configuration file in `$EDITOR`.
    Edit,
}

} // verus!
