use arbor::git::commands::{
    ahead_behind, ahead_behind_command, delete_branch, head_branch, is_worktree_dirty,
    linked_worktrees, local_branch_exists, remote_branch_exists, repo_name, repo_name_or_unknown,
    repo_toplevel, resolve_worktree_branch, worktree_add_new_branch, worktree_infos,
    worktree_prune, GitError,
};
use arbor::git::runner::{captured_text, exit_failure_message, failure_message, launch_failure_message, OutputMode};

const LISTING: &str = "\
worktree /home/user/.arbor/repos/project.git
bare

worktree /home/user/.arbor/worktrees/project/feature-auth
HEAD def5678
branch refs/heads/feature/auth

worktree /home/user/.arbor/worktrees/project/main
HEAD abc1234
branch refs/heads/main
";

#[test]
fn branch_existence_commands() {
    let c = local_branch_exists("feat", None);
    assert_eq!(c.args, vec!["show-ref", "--verify", "--quiet", "refs/heads/feat"]);
    assert_eq!(c.cwd, None);
    assert_eq!(c.mode, OutputMode::Captured);
    let r = remote_branch_exists("feat", Some("/repo"));
    assert_eq!(r.args, vec!["show-ref", "--verify", "--quiet", "refs/remotes/origin/feat"]);
    assert_eq!(r.cwd.as_deref(), Some("/repo"));
}

#[test]
fn new_branch_from_base() {
    let c = worktree_add_new_branch("/w/feat", "feat", Some("HEAD~1"), None);
    assert_eq!(c.args, vec!["worktree", "add", "-b", "feat", "/w/feat", "HEAD~1"]);
    let d = worktree_add_new_branch("/w/feat", "feat", None, None);
    assert_eq!(d.args, vec!["worktree", "add", "-b", "feat", "/w/feat"]);
}

#[test]
fn delete_branch_flag_follows_force() {
    assert_eq!(delete_branch("x", true, None).args, vec!["branch", "-D", "x"]);
    assert_eq!(delete_branch("x", false, None).args, vec!["branch", "-d", "x"]);
}

#[test]
fn ahead_behind_reads_counts() {
    assert_eq!(ahead_behind("3\t5"), Some((5, 3)));
    assert_eq!(ahead_behind("0 0"), Some((0, 0)));
    assert_eq!(ahead_behind("+2 1"), Some((1, 2)));
    assert_eq!(ahead_behind("1"), None);
    assert_eq!(ahead_behind("1 2 3"), None);
    assert_eq!(ahead_behind("x 2"), None);
    assert_eq!(ahead_behind("99999999999999999999999 1"), None);
    let c = ahead_behind_command("/w");
    assert_eq!(c.args, vec!["rev-list", "--left-right", "--count", "@{upstream}...HEAD"]);
}

#[test]
fn head_branch_strips_heads() {
    assert_eq!(head_branch("refs/heads/main"), "main");
    assert_eq!(head_branch("main"), "main");
}

#[test]
fn toplevel_and_name() {
    assert_eq!(repo_toplevel(LISTING).unwrap(), "/home/user/.arbor/repos/project.git");
    assert_eq!(repo_toplevel(""), Err(GitError::EmptyWorktreeList));
    assert_eq!(repo_toplevel("HEAD x"), Err(GitError::UnexpectedWorktreeListFormat));
    assert_eq!(repo_name("/home/user/.arbor/repos/project.git").unwrap(), "project");
    assert_eq!(repo_name("/home/user/app/").unwrap(), "app");
    assert_eq!(repo_name("/"), Err(GitError::NoFinalComponent));
    assert_eq!(repo_name("/a/.."), Err(GitError::NoFinalComponent));
    assert_eq!(repo_name_or_unknown(Some(LISTING)), "project");
    assert_eq!(repo_name_or_unknown(None), "unknown");
    assert_eq!(repo_name_or_unknown(Some("")), "unknown");
}

#[test]
fn resolve_exact_and_sanitized() {
    let (p, b) = resolve_worktree_branch("feature/auth", LISTING).unwrap();
    assert_eq!(p, "/home/user/.arbor/worktrees/project/feature-auth");
    assert_eq!(b, "feature/auth");
    let (p2, b2) = resolve_worktree_branch("feature-auth", LISTING).unwrap();
    assert_eq!(p2, p);
    assert_eq!(b2, "feature/auth");
    let err = resolve_worktree_branch("nonexistent", LISTING).unwrap_err();
    assert_eq!(err.message(), "No worktree found for branch 'nonexistent'");
}

#[test]
fn exact_match_wins_over_earlier_sanitized_one() {
    let listing = "worktree /a\nbranch refs/heads/x/y\n\nworktree /b\nbranch refs/heads/x-y\n";
    let (p, b) = resolve_worktree_branch("x-y", listing).unwrap();
    assert_eq!(p, "/b");
    assert_eq!(b, "x-y");
}

#[test]
fn linked_worktrees_skip_bare_and_infos_follow_probes() {
    let linked = linked_worktrees(LISTING);
    assert_eq!(linked.len(), 2);
    let infos = worktree_infos(&linked, &vec![(Some((1, 0)), true), (None, false)]);
    assert_eq!(infos[0].branch.as_deref(), Some("feature/auth"));
    assert!(infos[0].dirty);
    assert_eq!(infos[0].tracking, Some((1, 0)));
    assert_eq!(infos[1].path, "/home/user/.arbor/worktrees/project/main");
    assert_eq!(infos[1].tracking, None);
}

#[test]
fn dirtiness_from_status() {
    assert!(is_worktree_dirty(Some(" M file")));
    assert!(!is_worktree_dirty(Some("")));
    assert!(!is_worktree_dirty(None));
}

#[test]
fn runner_texts() {
    assert_eq!(worktree_prune("  Removing worktrees/x: gone\n"), "Removing worktrees/x: gone");
    assert_eq!(captured_text("\n out \t"), "out");
    let args = vec!["worktree".to_string(), "list".to_string()];
    assert_eq!(launch_failure_message(&args), "failed to run: git worktree list");
    assert_eq!(failure_message(&args, "fatal: no\n"), "git worktree list failed: fatal: no");
    assert_eq!(exit_failure_message(&args, "exit status: 1"), "git worktree list exited with status exit status: 1");
}
