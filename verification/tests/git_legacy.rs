use arbor::git::runner::OutputMode;
use arbor::git::{
    ahead_behind, clone_bare, configure_bare_fetch, create_tracking_branch, fetch_origin,
    local_branch_exists, remote_branch_exists, repo_name, repo_toplevel, status_porcelain,
    worktree_add_existing, worktree_add_new_branch, worktree_list, worktree_list_porcelain,
    worktree_prune, worktree_remove,
};

#[test]
fn current_directory_commands() {
    let t = repo_toplevel();
    assert_eq!(t.args, vec!["rev-parse", "--show-toplevel"]);
    assert_eq!(t.mode, OutputMode::Captured);
    assert_eq!(local_branch_exists("x").args, vec!["show-ref", "--verify", "--quiet", "refs/heads/x"]);
    assert_eq!(
        remote_branch_exists("x").args,
        vec!["show-ref", "--verify", "--quiet", "refs/remotes/origin/x"]
    );
    assert_eq!(worktree_add_existing("/w/x", "x").args, vec!["worktree", "add", "/w/x", "x"]);
    assert_eq!(worktree_add_new_branch("/w/x", "x").args, vec!["worktree", "add", "-b", "x", "/w/x"]);
    assert_eq!(create_tracking_branch("x").args, vec!["branch", "--track", "x", "origin/x"]);
}

#[test]
fn listing_and_removal_commands() {
    let l = worktree_list(Some("/r"));
    assert_eq!(l.args, vec!["worktree", "list"]);
    assert_eq!(l.cwd.as_deref(), Some("/r"));
    assert_eq!(worktree_list_porcelain(None).args, vec!["worktree", "list", "--porcelain"]);
    let rm = worktree_remove("/w/x", true);
    assert_eq!(rm.args, vec!["worktree", "remove", "--force", "/w/x"]);
    assert_eq!(rm.mode, OutputMode::Inherited);
    assert_eq!(worktree_remove("/w/x", false).args, vec!["worktree", "remove", "/w/x"]);
    let p = worktree_prune();
    assert_eq!(p.args, vec!["worktree", "prune", "--verbose"]);
    assert_eq!(p.mode, OutputMode::Inherited);
}

#[test]
fn clone_and_fetch_commands() {
    assert_eq!(clone_bare("u", "/d").args, vec!["clone", "--bare", "u", "/d"]);
    let c = configure_bare_fetch("/d");
    assert_eq!(c.args, vec!["config", "remote.origin.fetch", "+refs/heads/*:refs/remotes/origin/*"]);
    assert_eq!(c.cwd.as_deref(), Some("/d"));
    let f = fetch_origin("/d");
    assert_eq!(f.args, vec!["fetch", "origin"]);
    assert_eq!(f.mode, OutputMode::Inherited);
    assert_eq!(status_porcelain("/w").args, vec!["status", "--porcelain"]);
}

#[test]
fn legacy_readers() {
    assert_eq!(repo_name("/home/u/repos/app.git").unwrap(), "app");
    assert_eq!(ahead_behind("2\t5"), Some((5, 2)));
    assert_eq!(ahead_behind("2"), None);
}
