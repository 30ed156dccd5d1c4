use std::path::PathBuf;

use arbor::config::ConfigError;
use arbor::hooks::{
    hook_env, hook_failure_message, hook_note, post_create_commands, resolve_worktree_dir,
    resolve_worktree_dir_with, HookCommands, HookContext, Hooks, ProjectConfig,
};

#[test]
fn resolve_absolute_worktree_dir() {
    let result = resolve_worktree_dir("/tmp/worktrees", "/some/repo").unwrap();
    assert_eq!(PathBuf::from(result), PathBuf::from("/tmp/worktrees"));
}

#[test]
fn resolve_tilde_worktree_dir() {
    let home = dirs::home_dir().unwrap();
    let result = resolve_worktree_dir("~/custom/wt", "/some/repo").unwrap();
    assert_eq!(PathBuf::from(result), home.join("custom/wt"));
}

#[test]
fn resolve_relative_worktree_dir() {
    let result = resolve_worktree_dir(".agents/worktrees", "/some/repo").unwrap();
    assert_eq!(PathBuf::from(result), PathBuf::from("/some/repo/.agents/worktrees"));
}

#[test]
fn resolve_with_explicit_home() {
    assert_eq!(resolve_worktree_dir_with("~/wt", "/r", Some("/home/u")).unwrap(), "/home/u/wt");
    assert_eq!(resolve_worktree_dir_with("~", "/r", Some("/home/u")).unwrap(), "/home/u/");
    assert_eq!(resolve_worktree_dir_with("~/wt", "/r", None), Err(ConfigError::NoHomeDirectory));
    assert_eq!(resolve_worktree_dir_with("wt", "/r", None).unwrap(), "/r/wt");
}

#[test]
fn single_and_multiple_hook_commands() {
    let single = HookCommands::Single("npm install".to_string());
    assert_eq!(single.into_vec(), vec!["npm install"]);
    let multiple = HookCommands::Multiple(vec!["npm install".to_string(), "cp .env.example .env".to_string()]);
    assert_eq!(multiple.into_vec(), vec!["npm install", "cp .env.example .env"]);
    let none = ProjectConfig { worktree_dir: None, hooks: Hooks { post_create: None } };
    assert!(post_create_commands(none).is_empty());
}

#[test]
fn hook_environment_and_messages() {
    let ctx = HookContext {
        worktree_path: "/w/feat".to_string(),
        branch: "feat".to_string(),
        repo_name: "proj".to_string(),
        event: "post_create".to_string(),
    };
    let env = hook_env(&ctx);
    assert_eq!(
        env,
        vec![
            ("ARBOR_WORKTREE".to_string(), "/w/feat".to_string()),
            ("ARBOR_BRANCH".to_string(), "feat".to_string()),
            ("ARBOR_REPO".to_string(), "proj".to_string()),
            ("ARBOR_EVENT".to_string(), "post_create".to_string()),
        ]
    );
    assert_eq!(hook_note("npm install"), "Running hook: npm install");
    assert_eq!(hook_failure_message("exit 1", "exit status: 1"), "Hook failed: exit 1 (exit status: 1)");
}
