use arbor::commands::prune::{parse_pruned_line, prune_summary, pruned_note, pruned_worktrees};

#[test]
fn pruned_report_is_read() {
    let report = "Removing worktrees/feat: gitdir file points to non-existent location\nRemoving worktrees/old-x: gitdir file points to non-existent location";
    let pruned = pruned_worktrees(report);
    assert_eq!(pruned.len(), 2);
    assert_eq!(pruned[0].name, "feat");
    assert_eq!(pruned[0].reason, "gitdir file points to non-existent location");
    assert_eq!(pruned[1].name, "old-x");
    assert_eq!(pruned_note(&pruned[1]), "Pruned 'old-x' (gitdir file points to non-existent location)");
}

#[test]
fn unrelated_lines_are_skipped() {
    assert!(pruned_worktrees("").is_empty());
    assert!(parse_pruned_line("something else").is_none());
    assert!(parse_pruned_line("Removing worktrees/x").is_none());
    assert_eq!(pruned_worktrees("noise\nRemoving worktrees/a: gone\n").len(), 1);
}

#[test]
fn prune_summaries() {
    assert_eq!(prune_summary(1), "Pruned 1 stale worktree");
    assert_eq!(prune_summary(3), "Pruned 3 stale worktrees");
}
