//! Everything the library asks of git and reads back from it.
//!
//! The functions at this level work on the current directory's repository;
//! [`commands`] has the same operations for a chosen directory, and more.

pub mod commands;
pub mod runner;
pub mod types;

use vstd::prelude::*;

use commands::{ahead_behind_of, captured, inherited, repo_name_of};
use runner::{opt_view, GitCommand, OutputMode};
use types::{entry_views, porcelain_entries, WorktreeEntry};
use crate::text::owned;

verus! {

/// `git rev-parse --show-toplevel`: prints the working tree's top directory.
pub fn repo_toplevel() -> (r: GitCommand)
    ensures
        captured(r, seq!["rev-parse"@, "--show-toplevel"@], None),
{
    let args = vec![owned("rev-parse"), owned("--show-toplevel")];
    let r = GitCommand { args, cwd: None, mode: OutputMode::Captured };
    assert(r.arg_views() =~= seq!["rev-parse"@, "--show-toplevel"@]);
    r
}

/// Names the repository whose top directory is `toplevel`.
pub fn repo_name(toplevel: &str) -> (r: Result<String, commands::GitError>)
    ensures
        match repo_name_of(toplevel@) {
            Some(n) => r matches Ok(t) && t@ == n,
            None => r == Err::<String, commands::GitError>(commands::GitError::NoFinalComponent),
        },
{
    commands::repo_name(toplevel)
}

/// Checks for the local branch from the current directory.
pub fn local_branch_exists(branch: &str) -> (r: GitCommand)
    ensures
        captured(r, seq!["show-ref"@, "--verify"@, "--quiet"@, "refs/heads/"@ + branch@], None),
{
    commands::local_branch_exists(branch, None)
}

/// Checks for the branch on `origin` from the current directory.
pub fn remote_branch_exists(branch: &str) -> (r: GitCommand)
    ensures
        captured(
            r,
            seq!["show-ref"@, "--verify"@, "--quiet"@, "refs/remotes/origin/"@ + branch@],
            None,
        ),
{
    commands::remote_branch_exists(branch, None)
}

/// Checks out an existing branch at `path`.
pub fn worktree_add_existing(path: &str, branch: &str) -> (r: GitCommand)
    ensures
        captured(r, seq!["worktree"@, "add"@, path@, branch@], None),
{
    commands::worktree_add_existing(path, branch, None)
}

/// Creates `branch` from HEAD and checks it out at `path`.
pub fn worktree_add_new_branch(path: &str, branch: &str) -> (r: GitCommand)
    ensures
        captured(r, seq!["worktree"@, "add"@, "-b"@, branch@, path@], None),
{
    commands::worktree_add_new_branch(path, branch, None, None)
}

/// A local branch following `origin/<branch>`.
pub fn create_tracking_branch(branch: &str) -> (r: GitCommand)
    ensures
        captured(r, seq!["branch"@, "--track"@, branch@, "origin/"@ + branch@], None),
{
    commands::create_tracking_branch(branch, None)
}

/// `git worktree list --porcelain`.
pub fn worktree_list_porcelain(cwd: Option<&str>) -> (r: GitCommand)
    ensures
        captured(r, seq!["worktree"@, "list"@, "--porcelain"@], opt_view(cwd)),
{
    commands::worktree_list_porcelain(cwd)
}

/// `git worktree list`, the human-readable listing.
pub fn worktree_list(cwd: Option<&str>) -> (r: GitCommand)
    ensures
        captured(r, seq!["worktree"@, "list"@], opt_view(cwd)),
{
    let args = vec![owned("worktree"), owned("list")];
    let r = GitCommand { args, cwd: runner::owned_opt(cwd), mode: OutputMode::Captured };
    assert(r.arg_views() =~= seq!["worktree"@, "list"@]);
    r
}

/// `git worktree remove [--force] <path>`.
pub fn worktree_remove(path: &str, force: bool) -> (r: GitCommand)
    ensures
        inherited(
            r,
            if force {
                seq!["worktree"@, "remove"@, "--force"@, path@]
            } else {
                seq!["worktree"@, "remove"@, path@]
            },
            None,
        ),
{
    commands::worktree_remove(path, force)
}

/// `git worktree prune --verbose`, with git's report on the terminal.
pub fn worktree_prune() -> (r: GitCommand)
    ensures
        inherited(r, seq!["worktree"@, "prune"@, "--verbose"@], None),
{
    let args = vec![owned("worktree"), owned("prune"), owned("--verbose")];
    let r = GitCommand { args, cwd: None, mode: OutputMode::Inherited };
    assert(r.arg_views() =~= seq!["worktree"@, "prune"@, "--verbose"@]);
    r
}

/// `git clone --bare <url> <dest>`.
pub fn clone_bare(url: &str, dest: &str) -> (r: GitCommand)
    ensures
        inherited(r, seq!["clone"@, "--bare"@, url@, dest@], None),
{
    commands::clone_bare(url, dest)
}

/// Gives a bare clone the fetch refspec it lacks.
pub fn configure_bare_fetch(repo_path: &str) -> (r: GitCommand)
    ensures
        captured(
            r,
            seq!["config"@, "remote.origin.fetch"@, "+refs/heads/*:refs/remotes/origin/*"@],
            Some(repo_path@),
        ),
{
    commands::configure_bare_fetch(repo_path)
}

/// `git fetch origin` in `repo_path`.
pub fn fetch_origin(repo_path: &str) -> (r: GitCommand)
    ensures
        inherited(r, seq!["fetch"@, "origin"@], Some(repo_path@)),
{
    commands::fetch_origin(repo_path)
}

/// `git status --porcelain` in `cwd`.
pub fn status_porcelain(cwd: &str) -> (r: GitCommand)
    ensures
        captured(r, seq!["status"@, "--porcelain"@], Some(cwd@)),
{
    commands::status_porcelain(cwd)
}

/// Reads `(ahead, behind)` from `git rev-list --left-right --count` output.
pub fn ahead_behind(output: &str) -> (r: Option<(usize, usize)>)
    ensures
        r == ahead_behind_of(output@),
{
    commands::ahead_behind(output)
}

/// Path and branch of an entry.
pub open spec fn path_and_branch(e: WorktreeEntry) -> (Seq<char>, Option<Seq<char>>) {
    (e.path, e.branch)
}

/// The views of path-and-branch pairs.
pub open spec fn pair_views(v: Seq<(String, Option<String>)>) -> Seq<(Seq<char>, Option<Seq<char>>)> {
    v.map_values(|p: (String, Option<String>)| (p.0@, p.1.deep_view()))
}

/// Path and branch of each entry.
pub open spec fn pairs_of(es: Seq<WorktreeEntry>) -> Seq<(Seq<char>, Option<Seq<char>>)> {
    es.map_values(|e: WorktreeEntry| path_and_branch(e))
}

/// Each listed worktree's path and branch (`None` for a detached HEAD or a
/// bare entry), in order.
pub fn parse_worktree_list(porcelain: &str) -> (r: Vec<(String, Option<String>)>)
    ensures
        pair_views(r@) == pairs_of(porcelain_entries(porcelain@)),
{
    let all = types::parse_worktree_list(porcelain);
    let ghost es = entry_views(all@);
    let mut out: Vec<(String, Option<String>)> = Vec::new();
    let mut i: usize = 0;
    while i < all.len()
        invariant
            es == entry_views(all@),
            es == porcelain_entries(porcelain@),
            i <= all.len(),
            out.len() == i,
            pair_views(out@) == pairs_of(es.take(i as int)),
        decreases all.len() - i,
    {
        let p = commands::copy_worktree(&all[i]);
        let ghost before = out@;
        assert(es[i as int] == all@[i as int]@);
        let ghost pv = path_and_branch(p@);
        out.push((p.path, p.branch));
        assert(pair_views(out@)[i as int] == pv);
        assert forall|j: int| 0 <= j < i + 1 implies pair_views(out@)[j] == pairs_of(
            es.take(i + 1),
        )[j] by {
            if j < i {
                assert(pairs_of(es.take(i as int))[j] == pair_views(before)[j]);
                assert(out@[j] == before[j]);
            }
        }
        assert(pair_views(out@) =~= pairs_of(es.take(i + 1)));
        i = i + 1;
    }
    assert(es.take(all.len() as int) =~= es);
    out
}

} // verus!
