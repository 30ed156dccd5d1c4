//! The command line: global options and subcommands.

use vstd::prelude::*;

verus! {

/// When to use colors.
#[derive(Debug, Clone, Copy, PartialEq, Eq, Structural)]
pub enum ColorMode {
    Auto,
    Always,
    Never,
}

/// The parsed command line.
pub struct Cli {
    pub color: ColorMode,
    pub command: Command,
}

/// The subcommands.
#[allow(inconsistent_fields)]
pub enum Command {
    /// Create a worktree for a branch (or switch to it if it already exists).
    /// `base` is the ref a new branch starts from.
    Add { branch: String, base: Option<String>, no_hooks: bool },
    /// Switch to an existing worktree.
    Switch { branch: Option<String> },
    /// List worktrees.
    List { all: bool, json: bool },
    /// Remove the worktree for a branch.
    Remove { branch: String, force: bool, delete_branch: bool },
    /// Print the path of the worktree for a branch.
    Dir { branch: String },
    /// Clone a repository as a bare repo.
    Clone { url: String, no_worktree: bool, no_hooks: bool },
    /// Interactively remove unused worktrees.
    Clean { delete_branch: bool },
    /// Remove references to stale worktrees.
    Prune,
    /// Show the status of all worktrees.
    Status { short: bool, all: bool },
    /// Fetch from origin.
    Fetch { all: bool },
    /// Set up shell integration.
    Init { shell: Option<String>, inject: bool },
}

/// The color override to install: `Never` and `Always` force it; `Auto`
/// turns colors off when `NO_COLOR` is set (non-empty), on when stderr is a
/// terminal, and otherwise leaves the decision to the environment (`None`).
pub fn color_override(mode: ColorMode, no_color: bool, stderr_is_terminal: bool) -> (r: Option<bool>)
    ensures
        r == match mode {
            ColorMode::Never => Some(false),
            ColorMode::Always => Some(true),
            ColorMode::Auto => if no_color {
                Some(false)
            } else if stderr_is_terminal {
                Some(true)
            } else {
                None
            },
        },
{
    match mode {
        ColorMode::Never => Some(false),
        ColorMode::Always => Some(true),
        ColorMode::Auto => {
            if no_color {
                Some(false)
            } else if stderr_is_terminal {
                Some(true)
            } else {
                None
            }
        },
    }
}

} // verus!
