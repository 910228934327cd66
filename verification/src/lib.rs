//! grove: git worktrees paired with terminal multiplexer sessions.
use vstd::prelude::*;

pub mod text;
pub mod multiplexer;
pub mod git;
pub mod config;
pub mod tree;
pub mod open;
pub mod db;
pub mod tmux;
pub mod zellij;
pub mod session;
pub mod init;
pub mod cli;
pub mod migrate;

verus! {
} // verus!
