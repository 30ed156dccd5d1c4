use arbor::commands::clean::{
    abandoned_defaults, branch_deletion, branch_failure_message, chosen_removals, clean_summary,
    is_abandoned, offers_cleaning, removal_command, removal_failure_message, selected_containing,
    CleanProgress,
};
use arbor::git::runner::OutputMode;
use arbor::git::types::WorktreeInfo;

fn make_worktree(branch: Option<&str>, dirty: bool, tracking: Option<(usize, usize)>) -> WorktreeInfo {
    WorktreeInfo {
        path: "/tmp/test".to_string(),
        branch: branch.map(String::from),
        dirty,
        tracking,
    }
}

#[test]
fn detached_clean_no_upstream_is_abandoned() {
    let wt = make_worktree(None, false, None);
    assert!(is_abandoned(&wt));
}

#[test]
fn detached_dirty_is_not_abandoned() {
    let wt = make_worktree(None, true, None);
    assert!(!is_abandoned(&wt));
}

#[test]
fn detached_with_upstream_is_not_abandoned() {
    let wt = make_worktree(None, false, Some((0, 0)));
    assert!(!is_abandoned(&wt));
}

#[test]
fn named_branch_clean_no_upstream_is_not_abandoned() {
    let wt = make_worktree(Some("feat"), false, None);
    assert!(!is_abandoned(&wt));
}

#[test]
fn named_branch_with_tracking_is_not_abandoned() {
    let wt = make_worktree(Some("main"), false, Some((0, 0)));
    assert!(!is_abandoned(&wt));
}

#[test]
fn named_dirty_branch_is_not_abandoned() {
    let wt = make_worktree(Some("feat"), true, Some((1, 0)));
    assert!(!is_abandoned(&wt));
}

#[test]
fn defaults_preselect_only_abandoned() {
    let wts = vec![
        make_worktree(Some("main"), false, Some((0, 0))),
        make_worktree(None, false, None),
        make_worktree(None, true, None),
    ];
    assert_eq!(abandoned_defaults(&wts), vec![false, true, false]);
}

#[test]
fn dirty_worktree_is_removed_with_force() {
    let wt = make_worktree(Some("feat"), true, None);
    let cmd = removal_command(&wt);
    assert_eq!(cmd.args, vec!["worktree", "remove", "--force", "/tmp/test"]);
    assert_eq!(cmd.mode, OutputMode::Inherited);
    let clean = make_worktree(Some("feat"), false, None);
    assert_eq!(removal_command(&clean).args, vec!["worktree", "remove", "/tmp/test"]);
}

#[test]
fn branch_deleted_only_when_asked_and_named() {
    let wt = make_worktree(Some("feat"), false, None);
    let cmd = branch_deletion(&wt, true).unwrap();
    assert_eq!(cmd.args, vec!["branch", "-d", "feat"]);
    assert!(branch_deletion(&wt, false).is_none());
    assert!(branch_deletion(&make_worktree(None, false, None), true).is_none());
}

#[test]
fn clean_summary_wording() {
    assert_eq!(clean_summary(0, 3), None);
    assert_eq!(clean_summary(1, 0).unwrap(), "Cleaned 1 worktree");
    assert_eq!(clean_summary(2, 1).unwrap(), "Cleaned 2 worktrees, deleted 1 branch");
    assert_eq!(clean_summary(3, 2).unwrap(), "Cleaned 3 worktrees, deleted 2 branches");
}

fn at(path: &str, branch: Option<&str>) -> WorktreeInfo {
    WorktreeInfo { path: path.to_string(), branch: branch.map(String::from), dirty: false, tracking: None }
}

#[test]
fn selection_holding_current_directory() {
    let wts = vec![at("/w/a", Some("a")), at("/w/b", Some("b")), at("/w/c", None)];
    assert_eq!(selected_containing(&wts, &[0, 1], "/w/b/src"), Some(1));
    assert_eq!(selected_containing(&wts, &[2, 0], "/w/b/src"), None);
    assert_eq!(selected_containing(&wts, &[], "/w/a"), None);
    assert_eq!(selected_containing(&wts, &[2, 0], "/w/a"), Some(0));
}

#[test]
fn clean_progress_records_removals() {
    let mut p = CleanProgress::new();
    assert_eq!(p.summary(), None);
    let del = p.worktree_removed(&at("/w/a", Some("feat/a")), true);
    assert_eq!(del.unwrap().args, vec!["branch", "-d", "feat/a"]);
    p.branch_deleted();
    assert!(p.worktree_removed(&at("/w/b", None), true).is_none());
    assert!(p.worktree_removed(&at("/w/c", Some("c")), false).is_none());
    assert_eq!(p.removed_count(), 3);
    assert_eq!(p.branches_deleted(), 1);
    assert!(p.was_removed("/w/b"));
    assert!(!p.was_removed("/w/d"));
    assert_eq!(p.summary().as_deref(), Some("Cleaned 3 worktrees, deleted 1 branch"));
}

#[test]
fn clean_failure_messages() {
    assert_eq!(
        removal_failure_message(&at("/w/a", Some("a")), "~/w/a", "boom"),
        "Failed to remove worktree for 'a': boom"
    );
    assert_eq!(
        removal_failure_message(&at("/w/a", None), "~/w/a", "boom"),
        "Failed to remove worktree for '~/w/a': boom"
    );
    assert_eq!(branch_failure_message("a", "not merged"), "Could not delete branch 'a': not merged");
}

#[test]
fn clean_steps_report_each_outcome() {
    let mut p = CleanProgress::new();
    let (msg, next) = p.after_removal(&at("/w/a", Some("a")), true, "~/w/a", Ok(()));
    assert_eq!(msg, "Removed ~/w/a");
    assert_eq!(next.unwrap().args, vec!["branch", "-d", "a"]);
    assert_eq!(p.after_deletion("a", Err("not merged")), "Could not delete branch 'a': not merged");
    assert_eq!(p.branches_deleted(), 0);
    let (msg, next) = p.after_removal(&at("/w/b", None), true, "~/w/b", Err("locked"));
    assert_eq!(msg, "Failed to remove worktree for '~/w/b': locked");
    assert!(next.is_none());
    assert_eq!(p.removed_count(), 1);
    let (_, next) = p.after_removal(&at("/w/c", Some("c")), true, "~/w/c", Ok(()));
    assert!(next.is_some());
    assert_eq!(p.after_deletion("c", Ok(())), "Deleted branch 'c'");
    assert_eq!(p.branches_deleted(), 1);
    assert_eq!(p.summary().as_deref(), Some("Cleaned 2 worktrees, deleted 1 branch"));
}

#[test]
fn cleaning_needs_more_than_the_main_worktree() {
    assert!(!offers_cleaning(&[]));
    assert!(!offers_cleaning(&[at("/w/main", Some("main"))]));
    assert!(offers_cleaning(&[at("/w/main", Some("main")), at("/w/a", None)]));
    assert_eq!(chosen_removals(None), None);
    assert_eq!(chosen_removals(Some(vec![])), None);
    assert_eq!(chosen_removals(Some(vec![1, 2])), Some(vec![1, 2]));
}
