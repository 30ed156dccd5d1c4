use std::path::{Path, PathBuf};

use arbor::config::{expand_tilde, expand_tilde_with, Config, ConfigError};

#[test]
fn expand_tilde_with_slash() {
    let home = dirs::home_dir().unwrap();
    let result = expand_tilde("~/.arbor/worktrees").unwrap();
    assert_eq!(PathBuf::from(result), home.join(".arbor/worktrees"));
}

#[test]
fn expand_tilde_bare() {
    let home = dirs::home_dir().unwrap();
    let result = expand_tilde("~").unwrap();
    assert_eq!(PathBuf::from(result), home);
}

#[test]
fn expand_tilde_absolute_path_unchanged() {
    let result = expand_tilde("/tmp/worktrees").unwrap();
    assert_eq!(PathBuf::from(result), PathBuf::from("/tmp/worktrees"));
}

#[test]
fn expand_tilde_relative_path_unchanged() {
    let result = expand_tilde("some/relative/path").unwrap();
    assert_eq!(PathBuf::from(result), PathBuf::from("some/relative/path"));
}

#[test]
fn expand_tilde_against_given_home() {
    assert_eq!(expand_tilde_with("~/x", Some("/home/u")).unwrap(), "/home/u/x");
    assert_eq!(expand_tilde_with("~x", Some("/home/u")).unwrap(), "/home/u/x");
    assert_eq!(expand_tilde_with("~//x", Some("/home/u")).unwrap(), "/x");
    assert_eq!(expand_tilde_with("~/x", None), Err(ConfigError::NoHomeDirectory));
    assert_eq!(expand_tilde_with("/x", None).unwrap(), "/x");
    assert_eq!(ConfigError::NoHomeDirectory.message(), "Could not determine home directory");
}

#[test]
fn worktree_path_sanitizes_branch() {
    let config = Config {
        repos_dir: "/home/u/.arbor/repos".to_string(),
        worktree_dir: "/home/u/.arbor/worktrees".to_string(),
    };
    let p = config.worktree_path("my-app", "feat/login");
    assert_eq!(p, "/home/u/.arbor/worktrees/my-app/feat-login");
    assert_eq!(Path::new(&p).file_name().unwrap(), "feat-login");
}

#[test]
fn expanded_config_keeps_plain_paths() {
    let config = Config { repos_dir: "/r".to_string(), worktree_dir: "/w".to_string() };
    let c = config.expanded().unwrap();
    assert_eq!(c.repos_dir, "/r");
    assert_eq!(c.worktree_dir, "/w");
}

#[test]
fn default_configuration() {
    let c = arbor::config::default_config();
    assert_eq!(c.repos_dir, "~/.arbor/repos");
    assert_eq!(c.worktree_dir, "~/.arbor/worktrees");
    assert_eq!(
        arbor::config::default_config_text(),
        "repos_dir = \"~/.arbor/repos\"\nworktree_dir = \"~/.arbor/worktrees\"\n"
    );
}

#[test]
fn config_expanded_against_one_home() {
    let c = arbor::config::Config { repos_dir: "~/r".to_string(), worktree_dir: "~".to_string() };
    let e = c.expanded_with(Some("/home/u")).unwrap();
    assert_eq!(e.repos_dir, "/home/u/r");
    assert_eq!(e.worktree_dir, "/home/u/");
    let c = arbor::config::Config { repos_dir: "/r".to_string(), worktree_dir: "~/w".to_string() };
    assert_eq!(c.expanded_with(None).err(), Some(arbor::config::ConfigError::NoHomeDirectory));
    let c = arbor::config::Config { repos_dir: "/r".to_string(), worktree_dir: "/w".to_string() };
    let e = c.expanded_with(None).unwrap();
    assert_eq!((e.repos_dir.as_str(), e.worktree_dir.as_str()), ("/r", "/w"));
}
