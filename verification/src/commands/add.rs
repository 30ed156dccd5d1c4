//! `arbor add`: where the new worktree goes, and how it gets its branch.

use vstd::prelude::*;

use crate::config::{worktree_location, Config};
use crate::git::commands::{captured, create_tracking_branch, worktree_add_existing, worktree_add_new_branch};
use crate::git::runner::{concat, GitCommand};
use crate::git::types::{sanitize_branch, sanitized};
use crate::paths::{join, joined};
use crate::text::push_str;

verus! {

/// Where the worktree of `branch` goes: under the project's own worktree
/// directory when `.arbor.toml` sets one (with no repository level), else
/// under the global one.
pub open spec fn worktree_target(
    worktree_dir: Seq<char>,
    repo_name: Seq<char>,
    branch: Seq<char>,
    local_dir: Option<Seq<char>>,
) -> Seq<char> {
    match local_dir {
        Some(dir) => joined(dir, sanitized(branch)),
        None => worktree_location(worktree_dir, repo_name, branch),
    }
}

/// The worktree path for `branch`, given the project's resolved override.
pub fn resolve_wt_path(config: &Config, repo_name: &str, branch: &str, local_dir: Option<&str>) -> (r: String)
    ensures
        r@ == worktree_target(
            config.worktree_dir@,
            repo_name@,
            branch@,
            crate::git::runner::opt_view(local_dir),
        ),
{
    match local_dir {
        Some(dir) => {
            let leaf = sanitize_branch(branch);
            join(dir, leaf.as_str())
        },
        None => config.worktree_path(repo_name, branch),
    }
}

/// How the worktree gets its branch.
#[derive(Debug, Clone, Copy, PartialEq, Eq, Structural)]
pub enum AddStrategy {
    /// The branch exists locally: check it out.
    LinkLocal,
    /// Only `origin` has it: create a tracking branch, then check it out.
    TrackRemote,
    /// Nobody has it: create it.
    CreateBranch,
}

/// A local branch wins over a remote one; with neither, a new branch is made.
pub fn add_strategy(local_exists: bool, remote_exists: bool) -> (r: AddStrategy)
    ensures
        r == if local_exists {
            AddStrategy::LinkLocal
        } else if remote_exists {
            AddStrategy::TrackRemote
        } else {
            AddStrategy::CreateBranch
        },
{
    if local_exists {
        AddStrategy::LinkLocal
    } else if remote_exists {
        AddStrategy::TrackRemote
    } else {
        AddStrategy::CreateBranch
    }
}

/// The git invocations that create the worktree, in order. `base` only
/// matters for a new branch.
pub fn add_commands(strategy: AddStrategy, wt_path: &str, branch: &str, base: Option<&str>) -> (r: Vec<GitCommand>)
    ensures
        match strategy {
            AddStrategy::LinkLocal => r.len() == 1 && captured(
                r@[0],
                seq!["worktree"@, "add"@, wt_path@, branch@],
                None,
            ),
            AddStrategy::TrackRemote => r.len() == 2 && captured(
                r@[0],
                seq!["branch"@, "--track"@, branch@, "origin/"@ + branch@],
                None,
            ) && captured(r@[1], seq!["worktree"@, "add"@, wt_path@, branch@], None),
            AddStrategy::CreateBranch => r.len() == 1 && captured(
                r@[0],
                match base {
                    Some(b) => seq!["worktree"@, "add"@, "-b"@, branch@, wt_path@, b@],
                    None => seq!["worktree"@, "add"@, "-b"@, branch@, wt_path@],
                },
                None,
            ),
        },
{
    match strategy {
        AddStrategy::LinkLocal => vec![worktree_add_existing(wt_path, branch, None)],
        AddStrategy::TrackRemote => vec![
            create_tracking_branch(branch, None),
            worktree_add_existing(wt_path, branch, None),
        ],
        AddStrategy::CreateBranch => vec![worktree_add_new_branch(wt_path, branch, base, None)],
    }
}

/// The note shown when `--base` has no effect because the branch exists.
pub fn base_ignored_note(strategy: AddStrategy, has_base: bool) -> (r: Option<&'static str>)
    ensures
        !has_base ==> r is None,
        has_base && strategy == AddStrategy::LinkLocal ==> (r matches Some(t) && t@
            == "--base ignored \u{2014} branch already exists locally"@),
        has_base && strategy == AddStrategy::TrackRemote ==> (r matches Some(t) && t@
            == "--base ignored \u{2014} tracking existing remote branch"@),
        strategy == AddStrategy::CreateBranch ==> r is None,
{
    if !has_base {
        return None;
    }
    match strategy {
        AddStrategy::LinkLocal => Some("--base ignored \u{2014} branch already exists locally"),
        AddStrategy::TrackRemote => Some("--base ignored \u{2014} tracking existing remote branch"),
        AddStrategy::CreateBranch => None,
    }
}

/// The note shown before a new branch is created.
pub fn new_branch_note(branch: &str) -> (r: String)
    ensures
        r@ == "No existing branch found \u{2014} creating new branch '"@ + branch@ + "'"@,
{
    let mut r = concat("No existing branch found \u{2014} creating new branch '", branch);
    crate::text::push_str(&mut r, "'");
    r
}

/// The report once the worktree exists at `short_path`.
pub fn added_message(strategy: AddStrategy, branch: &str, short_path: &str) -> (r: String)
    ensures
        r@ == match strategy {
            AddStrategy::LinkLocal => "Linked '"@ + branch@ + "' at "@ + short_path@,
            AddStrategy::TrackRemote => "Linked '"@ + branch@ + "' (tracking origin) at "@ + short_path@,
            AddStrategy::CreateBranch => "Created '"@ + branch@ + "' at "@ + short_path@,
        },
{
    let mut r = match strategy {
        AddStrategy::CreateBranch => concat("Created '", branch),
        _ => concat("Linked '", branch),
    };
    match strategy {
        AddStrategy::TrackRemote => push_str(&mut r, "' (tracking origin) at "),
        _ => push_str(&mut r, "' at "),
    }
    push_str(&mut r, short_path);
    r
}

} // verus!
