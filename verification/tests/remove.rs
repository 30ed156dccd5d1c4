use arbor::commands::remove::{
    check_removable, cwd_inside, deleted_branch_message, no_worktree_hint, parse_was_hash,
    resolve_dot,
    RemoveError,
};

#[test]
fn was_hash_read_from_git_output() {
    assert_eq!(
        parse_was_hash("Deleted branch feat (was abc1234)."),
        Some("abc1234".to_string())
    );
    assert_eq!(parse_was_hash("Deleted branch feat."), None);
    assert_eq!(parse_was_hash("(was abc"), None);
    assert_eq!(parse_was_hash("(was )"), Some(String::new()));
}

#[test]
fn deleted_branch_messages() {
    assert_eq!(
        deleted_branch_message("feat", "Deleted branch feat (was abc1234)."),
        "Deleted branch 'feat' (was abc1234)"
    );
    assert_eq!(deleted_branch_message("feat", ""), "Deleted branch 'feat'");
}

#[test]
fn missing_worktree_hint() {
    assert_eq!(
        no_worktree_hint("feat/x"),
        "No worktree found for branch 'feat/x'. Did you mean `arbor add feat/x`?"
    );
}

#[test]
fn dirty_worktree_needs_force() {
    assert_eq!(check_removable(true, false), Err(RemoveError::UncommittedChanges));
    assert_eq!(check_removable(true, true), Ok(()));
    assert_eq!(check_removable(false, false), Ok(()));
    assert_eq!(check_removable(false, true), Ok(()));
    assert_eq!(
        RemoveError::UncommittedChanges.message(),
        "Worktree has uncommitted changes. Use --force to remove anyway."
    );
}

const LISTING: &str = "\
worktree /home/u/.arbor/repos/proj.git
bare

worktree /home/u/.arbor/worktrees/proj/feat
HEAD def5678
branch refs/heads/feat

worktree /home/u/.arbor/worktrees/proj/feature
HEAD abc1234
detached
";

#[test]
fn dot_resolves_to_enclosing_worktree() {
    let (path, branch) = resolve_dot(LISTING, "/home/u/.arbor/worktrees/proj/feat/src").unwrap();
    assert_eq!(path, "/home/u/.arbor/worktrees/proj/feat");
    assert_eq!(branch.as_deref(), Some("feat"));
    let (path, branch) = resolve_dot(LISTING, "/home/u/.arbor/worktrees/proj/feature").unwrap();
    assert_eq!(path, "/home/u/.arbor/worktrees/proj/feature");
    assert_eq!(branch, None);
}

#[test]
fn dot_outside_any_worktree() {
    assert_eq!(resolve_dot(LISTING, "/home/u/.arbor/repos/proj.git"), Err(RemoveError::NotInsideWorktree));
    assert_eq!(resolve_dot(LISTING, "/tmp"), Err(RemoveError::NotInsideWorktree));
    assert_eq!(resolve_dot(LISTING, "/home/u/.arbor/worktrees/proj/fea"), Err(RemoveError::NotInsideWorktree));
    assert_eq!(RemoveError::NotInsideWorktree.message(), "Not inside a worktree");
}

#[test]
fn dirty_refusal_is_the_uncommitted_changes_error() {
    let err = check_removable(true, false).unwrap_err();
    assert_eq!(err, RemoveError::UncommittedChanges);
    assert!(err.message().contains("uncommitted changes"));
}

#[test]
fn current_directory_inside_worktree() {
    assert!(cwd_inside("/w/feat/src", "/w/feat"));
    assert!(cwd_inside("/w/feat", "/w/feat"));
    assert!(!cwd_inside("/w/feature", "/w/feat"));
    assert!(!cwd_inside("/w", "/w/feat"));
}
