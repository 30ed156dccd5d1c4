use std::path::PathBuf;

use arbor::git::parse_worktree_list;

#[test]
fn git_parse_single_worktree() {
    let input = "\
worktree /home/user/project
HEAD abc1234
branch refs/heads/main
";
    let result = parse_worktree_list(input);
    assert_eq!(result.len(), 1);
    assert_eq!(PathBuf::from(&result[0].0), PathBuf::from("/home/user/project"));
    assert_eq!(result[0].1.as_deref(), Some("main"));
}

#[test]
fn git_parse_multiple_worktrees() {
    let input = "\
worktree /home/user/project
HEAD abc1234
branch refs/heads/main

worktree /home/user/.arbor/worktrees/project/feature-auth
HEAD def5678
branch refs/heads/feature/auth
";
    let result = parse_worktree_list(input);
    assert_eq!(result.len(), 2);
    assert_eq!(result[0].1.as_deref(), Some("main"));
    assert_eq!(
        PathBuf::from(&result[1].0),
        PathBuf::from("/home/user/.arbor/worktrees/project/feature-auth")
    );
    assert_eq!(result[1].1.as_deref(), Some("feature/auth"));
}

#[test]
fn git_parse_empty_input() {
    let result = parse_worktree_list("");
    assert!(result.is_empty());
}

#[test]
fn git_parse_mixed_bare_normal_and_detached() {
    let input = "\
worktree /home/user/.arbor/repos/project.git
HEAD 0000000000000000000000000000000000000000
bare

worktree /home/user/.arbor/worktrees/project/main
HEAD abc1234abc1234abc1234abc1234abc1234abc12
branch refs/heads/main

worktree /home/user/.arbor/worktrees/project/hotfix
HEAD def5678def5678def5678def5678def5678def56
detached
";
    let result = parse_worktree_list(input);
    assert_eq!(result.len(), 3);

    assert_eq!(
        PathBuf::from(&result[0].0),
        PathBuf::from("/home/user/.arbor/repos/project.git")
    );
    assert_eq!(result[0].1, None);

    assert_eq!(result[1].1.as_deref(), Some("main"));

    assert_eq!(
        PathBuf::from(&result[2].0),
        PathBuf::from("/home/user/.arbor/worktrees/project/hotfix")
    );
    assert_eq!(result[2].1, None);
}

#[test]
fn git_parse_worktree_path_with_spaces() {
    let input = "\
worktree /Users/jane doe/My Projects/cool app
HEAD abc1234
branch refs/heads/develop
";
    let result = parse_worktree_list(input);
    assert_eq!(result.len(), 1);
    assert_eq!(
        PathBuf::from(&result[0].0),
        PathBuf::from("/Users/jane doe/My Projects/cool app")
    );
    assert_eq!(result[0].1.as_deref(), Some("develop"));
}

#[test]
fn crlf_listing_parses_like_lf() {
    let input = "worktree /a\r\nbranch refs/heads/x\r\n";
    let result = parse_worktree_list(input);
    assert_eq!(result.len(), 1);
    assert_eq!(result[0].0, "/a");
    assert_eq!(result[0].1.as_deref(), Some("x"));
}

#[test]
fn lines_before_first_entry_are_ignored() {
    let input = "branch refs/heads/stray\nworktree /a\nHEAD 1\n";
    let result = parse_worktree_list(input);
    assert_eq!(result.len(), 1);
    assert_eq!(result[0].1, None);
}

#[test]
fn non_heads_reference_kept_whole() {
    let result = parse_worktree_list("worktree /a\nbranch refs/tags/v1");
    assert_eq!(result[0].1.as_deref(), Some("refs/tags/v1"));
}
