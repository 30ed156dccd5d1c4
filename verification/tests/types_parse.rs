use std::path::PathBuf;

use arbor::git::types::{parse_worktree_list, sanitize_branch, strip_git_suffix};

#[test]
fn types_parse_single_worktree() {
    let input = "\
worktree /home/user/project
HEAD abc1234
branch refs/heads/main
";
    let result = parse_worktree_list(input);
    assert_eq!(result.len(), 1);
    assert_eq!(PathBuf::from(&result[0].path), PathBuf::from("/home/user/project"));
    assert_eq!(result[0].branch.as_deref(), Some("main"));
    assert!(!result[0].bare);
}

#[test]
fn types_parse_multiple_worktrees() {
    let input = "\
worktree /home/user/project
HEAD abc1234
branch refs/heads/main

worktree /home/user/.arbor/worktrees/project/feature-auth
HEAD def5678
branch refs/heads/feature/auth
";
    let result = parse_worktree_list(input);
    assert_eq!(result.len(), 2);
    assert_eq!(result[0].branch.as_deref(), Some("main"));
    assert_eq!(
        PathBuf::from(&result[1].path),
        PathBuf::from("/home/user/.arbor/worktrees/project/feature-auth")
    );
    assert_eq!(result[1].branch.as_deref(), Some("feature/auth"));
}

#[test]
fn types_parse_empty_input() {
    let result = parse_worktree_list("");
    assert!(result.is_empty());
}

#[test]
fn types_parse_mixed_bare_normal_and_detached() {
    let input = "\
worktree /home/user/.arbor/repos/project.git
HEAD 0000000000000000000000000000000000000000
bare

worktree /home/user/.arbor/worktrees/project/main
HEAD abc1234abc1234abc1234abc1234abc1234abc12
branch refs/heads/main

worktree /home/user/.arbor/worktrees/project/hotfix
HEAD def5678def5678def5678def5678def5678def56
detached
";
    let result = parse_worktree_list(input);
    assert_eq!(result.len(), 3);

    assert_eq!(
        PathBuf::from(&result[0].path),
        PathBuf::from("/home/user/.arbor/repos/project.git")
    );
    assert_eq!(result[0].branch, None);
    assert!(result[0].bare);

    assert_eq!(result[1].branch.as_deref(), Some("main"));
    assert!(!result[1].bare);

    assert_eq!(
        PathBuf::from(&result[2].path),
        PathBuf::from("/home/user/.arbor/worktrees/project/hotfix")
    );
    assert_eq!(result[2].branch, None);
    assert!(!result[2].bare);
}

#[test]
fn types_parse_worktree_path_with_spaces() {
    let input = "\
worktree /Users/jane doe/My Projects/cool app
HEAD abc1234
branch refs/heads/develop
";
    let result = parse_worktree_list(input);
    assert_eq!(result.len(), 1);
    assert_eq!(
        PathBuf::from(&result[0].path),
        PathBuf::from("/Users/jane doe/My Projects/cool app")
    );
    assert_eq!(result[0].branch.as_deref(), Some("develop"));
}

#[test]
fn slashes_become_dashes() {
    assert_eq!(sanitize_branch("feature/auth"), "feature-auth");
    assert_eq!(sanitize_branch("a/b/c"), "a-b-c");
    assert_eq!(sanitize_branch("main"), "main");
    assert_eq!(sanitize_branch(&sanitize_branch("x/y")), sanitize_branch("x/y"));
}

#[test]
fn git_suffix_stripped_once() {
    assert_eq!(strip_git_suffix("project.git"), "project");
    assert_eq!(strip_git_suffix("project"), "project");
    assert_eq!(strip_git_suffix("a.git.git"), "a.git");
    assert_eq!(strip_git_suffix(".git"), "");
}
