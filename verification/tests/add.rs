use arbor::commands::add::{
    add_commands, add_strategy, added_message, base_ignored_note, new_branch_note, resolve_wt_path,
    AddStrategy,
};
use arbor::config::Config;

fn config() -> Config {
    Config { repos_dir: "/h/.arbor/repos".to_string(), worktree_dir: "/h/.arbor/worktrees".to_string() }
}

#[test]
fn worktree_path_under_global_dir() {
    assert_eq!(resolve_wt_path(&config(), "proj", "feature/auth", None), "/h/.arbor/worktrees/proj/feature-auth");
}

#[test]
fn worktree_path_under_project_dir() {
    assert_eq!(
        resolve_wt_path(&config(), "proj", "feature/auth", Some("/repo/.agents/worktrees")),
        "/repo/.agents/worktrees/feature-auth"
    );
}

#[test]
fn strategy_prefers_local_branch() {
    assert_eq!(add_strategy(true, true), AddStrategy::LinkLocal);
    assert_eq!(add_strategy(true, false), AddStrategy::LinkLocal);
    assert_eq!(add_strategy(false, true), AddStrategy::TrackRemote);
    assert_eq!(add_strategy(false, false), AddStrategy::CreateBranch);
}

#[test]
fn commands_per_strategy() {
    let local = add_commands(AddStrategy::LinkLocal, "/w/f", "f", Some("main"));
    assert_eq!(local.len(), 1);
    assert_eq!(local[0].args, vec!["worktree", "add", "/w/f", "f"]);
    let remote = add_commands(AddStrategy::TrackRemote, "/w/f", "f", None);
    assert_eq!(remote.len(), 2);
    assert_eq!(remote[0].args, vec!["branch", "--track", "f", "origin/f"]);
    assert_eq!(remote[1].args, vec!["worktree", "add", "/w/f", "f"]);
    let new = add_commands(AddStrategy::CreateBranch, "/w/f", "f", Some("main"));
    assert_eq!(new[0].args, vec!["worktree", "add", "-b", "f", "/w/f", "main"]);
}

#[test]
fn base_notes() {
    assert_eq!(
        base_ignored_note(AddStrategy::LinkLocal, true),
        Some("--base ignored \u{2014} branch already exists locally")
    );
    assert_eq!(
        base_ignored_note(AddStrategy::TrackRemote, true),
        Some("--base ignored \u{2014} tracking existing remote branch")
    );
    assert_eq!(base_ignored_note(AddStrategy::CreateBranch, true), None);
    assert_eq!(base_ignored_note(AddStrategy::LinkLocal, false), None);
    assert_eq!(new_branch_note("f"), "No existing branch found \u{2014} creating new branch 'f'");
}

#[test]
fn added_messages() {
    assert_eq!(added_message(AddStrategy::LinkLocal, "f", "~/w/f"), "Linked 'f' at ~/w/f");
    assert_eq!(
        added_message(AddStrategy::TrackRemote, "f", "~/w/f"),
        "Linked 'f' (tracking origin) at ~/w/f"
    );
    assert_eq!(added_message(AddStrategy::CreateBranch, "f", "~/w/f"), "Created 'f' at ~/w/f");
}
