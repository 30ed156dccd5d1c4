//! Worktree management logic: reading git's porcelain output, naming and
//! placing worktrees, and composing the messages shown to the user.

pub mod text;
pub mod git;
pub mod paths;
pub mod config;
pub mod style;
pub mod display;
pub mod commands;
pub mod hooks;
pub mod cli;
