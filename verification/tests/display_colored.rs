use arbor::display::{format_summary, WorktreeSummary};

#[test]
fn format_summary_with_colors() {
    colored::control::set_override(true);
    let s = WorktreeSummary { total: 1, dirty: 1, ahead: 0, behind: 0, detached: 0 };
    assert_eq!(
        format_summary("p", &s),
        "\u{1b}[1mp\u{1b}[0m \u{1b}[2m\u{2014}\u{1b}[0m 1 worktrees (\u{1b}[33m1 dirty\u{1b}[0m)"
    );
}
