use arbor::display::{
    cd_hint, cd_hint_in, format_worktree_item_in, shorten_path_in, table_row_in,
    aggregate, batch_label, fetch_summary, format_summary, format_worktree_item, shorten_path,
    shorten_path_with, summarize, table_header, table_row, tracking_text, WorktreeSummary,
};
use arbor::git::types::WorktreeInfo;
use arbor::style::Paint;

fn wt(branch: Option<&str>, dirty: bool, tracking: Option<(usize, usize)>) -> WorktreeInfo {
    WorktreeInfo { path: "/tmp/x".to_string(), branch: branch.map(String::from), dirty, tracking }
}

#[test]
fn summarize_counts() {
    let wts = vec![
        wt(Some("main"), false, Some((0, 0))),
        wt(Some("feat"), true, Some((2, 1))),
        wt(None, false, None),
        wt(Some("x"), true, Some((0, 3))),
    ];
    let s = summarize(&wts);
    assert_eq!(s, WorktreeSummary { total: 4, dirty: 2, ahead: 1, behind: 2, detached: 1 });
}

#[test]
fn format_summary_plain() {
    colored::control::set_override(false);
    let s = WorktreeSummary { total: 3, dirty: 1, ahead: 0, behind: 2, detached: 0 };
    assert_eq!(format_summary("proj", &s), "proj \u{2014} 3 worktrees (1 dirty, 2 behind)");
    let clean = WorktreeSummary { total: 2, dirty: 0, ahead: 0, behind: 0, detached: 0 };
    assert_eq!(format_summary("proj", &clean), "proj \u{2014} 2 worktrees (all clean)");
}

#[test]
fn tracking_cells() {
    assert_eq!(tracking_text(Some((0, 0))), ("=".to_string(), Paint::Green));
    assert_eq!(tracking_text(Some((3, 0))), ("\u{2191}3".to_string(), Paint::Cyan));
    assert_eq!(tracking_text(Some((0, 4))), ("\u{2193}4".to_string(), Paint::Magenta));
    assert_eq!(tracking_text(Some((1, 2))), ("\u{2191}1 \u{2193}2".to_string(), Paint::Magenta));
    assert_eq!(tracking_text(None), ("\u{2014}".to_string(), Paint::Dimmed));
}

#[test]
fn rows_and_items_plain() {
    colored::control::set_override(false);
    let w = wt(None, true, Some((0, 4)));
    assert_eq!(format_worktree_item(&w), "(detached)  \u{2717}  \u{2193}4  /tmp/x");
    assert_eq!(table_header(true), vec!["Branch", "State", "Tracking", "Path"]);
    assert_eq!(table_header(false).len(), 3);
    assert_eq!(table_row(&wt(Some("main"), false, None), false), vec!["main", "\u{2713}", "\u{2014}"]);
}

#[test]
fn fetch_and_batch_lines() {
    colored::control::set_override(false);
    assert_eq!(fetch_summary(1, 0), "\u{25b8} Fetched 1 repository");
    assert_eq!(fetch_summary(3, 0), "\u{25b8} Fetched 3 repositories");
    assert_eq!(fetch_summary(2, 1), "\u{25b8} Fetched 2/3 repositories (1 failed)");
    assert_eq!(batch_label(1), "Total (1 repo)");
    assert_eq!(batch_label(2), "Total (2 repos)");
    let a = WorktreeSummary { total: 2, dirty: 1, ahead: 0, behind: 1, detached: 0 };
    let b = WorktreeSummary { total: 3, dirty: 0, ahead: 2, behind: 0, detached: 1 };
    assert_eq!(aggregate(&[a, b]), WorktreeSummary { total: 5, dirty: 1, ahead: 2, behind: 1, detached: 1 });
}

#[test]
fn batch_of_parts_is_summary_of_whole() {
    let first = vec![wt(Some("a"), true, None), wt(None, false, Some((1, 0)))];
    let second = vec![wt(Some("b"), false, Some((0, 2)))];
    let mut all = first.clone_all();
    all.extend(second.clone_all());
    let agg = aggregate(&[summarize(&first), summarize(&second)]);
    assert_eq!(agg, summarize(&all));
}

trait CloneAll {
    fn clone_all(&self) -> Vec<WorktreeInfo>;
}

impl CloneAll for Vec<WorktreeInfo> {
    fn clone_all(&self) -> Vec<WorktreeInfo> {
        self.iter()
            .map(|w| WorktreeInfo { path: w.path.clone(), branch: w.branch.clone(), dirty: w.dirty, tracking: w.tracking })
            .collect()
    }
}

#[test]
fn shorten_under_home() {
    assert_eq!(shorten_path_with("/home/u/x", Some("x")), "~/x");
    assert_eq!(shorten_path_with("/opt/x", None), "/opt/x");
    let home = dirs::home_dir().unwrap();
    let inside = home.join("projects/app");
    assert_eq!(shorten_path(inside.to_str().unwrap()), "~/projects/app");
    assert_eq!(shorten_path("/definitely/not/home"), "/definitely/not/home");
}

#[test]
fn cd_hint_names_the_path() {
    assert_eq!(cd_hint("/nonexistent-root/x"), "cd /nonexistent-root/x");
}

#[test]
fn paths_shortened_against_home() {
    assert_eq!(shorten_path_in("/home/u/w/feat", Some("/home/u")), "~/w/feat");
    assert_eq!(shorten_path_in("/home/uv/w", Some("/home/u")), "/home/uv/w");
    assert_eq!(shorten_path_in("/home/u/w", None), "/home/u/w");
    assert_eq!(cd_hint_in("/home/u/w/feat", Some("/home/u")), "cd ~/w/feat");
    assert_eq!(cd_hint_in("/tmp/x", Some("/home/u")), "cd /tmp/x");
}

#[test]
fn rows_and_items_shorten_against_home() {
    colored::control::set_override(false);
    let e = WorktreeInfo { path: "/home/u/w/feat".to_string(), branch: Some("feat".to_string()), dirty: false, tracking: None };
    assert_eq!(table_row_in(&e, true, Some("/home/u"))[3], "~/w/feat");
    assert_eq!(table_row_in(&e, false, Some("/home/u")).len(), 3);
    assert_eq!(format_worktree_item_in(&e, Some("/home/u")), "feat  \u{2713}  \u{2014}  ~/w/feat");
}
