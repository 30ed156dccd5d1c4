//! Per-project settings from `.arbor.toml`: the worktree directory override
//! and the commands run after a worktree is created.

use vstd::prelude::*;

use crate::config::{expand_tilde, tilde_expanded, ConfigError};
use crate::git::runner::concat;
use crate::paths::{is_absolute, join, joined};
use crate::text::{owned, push_str, starts_with};

verus! {

/// `post_create` holds one command or a list of them.
pub enum HookCommands {
    Single(String),
    Multiple(Vec<String>),
}

impl HookCommands {
    /// The commands, in the order they run.
    pub fn into_vec(self) -> (r: Vec<String>)
        ensures
            match self {
                HookCommands::Single(s) => r@ == seq![s],
                HookCommands::Multiple(v) => r@ == v@,
            },
    {
        match self {
            HookCommands::Single(s) => vec![s],
            HookCommands::Multiple(v) => v,
        }
    }
}

/// The `[hooks]` table.
pub struct Hooks {
    pub post_create: Option<HookCommands>,
}

/// The contents of `.arbor.toml`.
pub struct ProjectConfig {
    pub worktree_dir: Option<String>,
    pub hooks: Hooks,
}

/// What a hook is told about the worktree it runs for.
pub struct HookContext {
    pub worktree_path: String,
    pub branch: String,
    pub repo_name: String,
    pub event: String,
}

/// The commands to run after a worktree is created; none without a `post_create` entry.
pub fn post_create_commands(config: ProjectConfig) -> (r: Vec<String>)
    ensures
        match config.hooks.post_create {
            Some(HookCommands::Single(s)) => r@ == seq![s],
            Some(HookCommands::Multiple(v)) => r@ == v@,
            None => r@.len() == 0,
        },
{
    match config.hooks.post_create {
        Some(cmds) => cmds.into_vec(),
        None => Vec::new(),
    }
}

/// The environment a hook runs with: `ARBOR_WORKTREE`, `ARBOR_BRANCH`,
/// `ARBOR_REPO` and `ARBOR_EVENT`.
pub fn hook_env(ctx: &HookContext) -> (r: Vec<(String, String)>)
    ensures
        r@.map_values(|kv: (String, String)| (kv.0@, kv.1@)) == seq![
            ("ARBOR_WORKTREE"@, ctx.worktree_path@),
            ("ARBOR_BRANCH"@, ctx.branch@),
            ("ARBOR_REPO"@, ctx.repo_name@),
            ("ARBOR_EVENT"@, ctx.event@),
        ],
{
    let r = vec![
        (owned("ARBOR_WORKTREE"), ctx.worktree_path.clone()),
        (owned("ARBOR_BRANCH"), ctx.branch.clone()),
        (owned("ARBOR_REPO"), ctx.repo_name.clone()),
        (owned("ARBOR_EVENT"), ctx.event.clone()),
    ];
    assert(r@.map_values(|kv: (String, String)| (kv.0@, kv.1@)) =~= seq![
        ("ARBOR_WORKTREE"@, ctx.worktree_path@),
        ("ARBOR_BRANCH"@, ctx.branch@),
        ("ARBOR_REPO"@, ctx.repo_name@),
        ("ARBOR_EVENT"@, ctx.event@),
    ]);
    r
}

/// The note shown before a hook runs.
pub fn hook_note(cmd: &str) -> (r: String)
    ensures
        r@ == "Running hook: "@ + cmd@,
{
    concat("Running hook: ", cmd)
}

/// The error shown when a hook exits unsuccessfully.
pub fn hook_failure_message(cmd: &str, status: &str) -> (r: String)
    ensures
        r@ == "Hook failed: "@ + cmd@ + " ("@ + status@ + ")"@,
{
    let mut r = concat("Hook failed: ", cmd);
    push_str(&mut r, " (");
    push_str(&mut r, status);
    push_str(&mut r, ")");
    r
}

/// Where a `worktree_dir` setting points: absolute paths as they are, `~`
/// paths under the home directory, anything else under the repository root.
pub open spec fn worktree_dir_location(raw: Seq<char>, repo_root: Seq<char>, home: Seq<char>) -> Seq<char> {
    if is_absolute(raw) {
        raw
    } else if starts_with(raw, seq!['~']) {
        tilde_expanded(raw, home)
    } else {
        joined(repo_root, raw)
    }
}

/// Resolves a `worktree_dir` setting against the repository root and the
/// home directory (`None` when unknown).
pub fn resolve_worktree_dir_with(raw: &str, repo_root: &str, home: Option<&str>) -> (r: Result<String, ConfigError>)
    ensures
        match home {
            Some(h) => r matches Ok(t) && t@ == worktree_dir_location(raw@, repo_root@, h@),
            None => if !is_absolute(raw@) && starts_with(raw@, seq!['~']) {
                r == Err::<String, ConfigError>(ConfigError::NoHomeDirectory)
            } else {
                r matches Ok(t) && t@ == worktree_dir_location(raw@, repo_root@, seq![])
            },
        },
{
    let v = crate::text::chars_of(raw);
    if v.len() > 0 && v[0] == '/' {
        Ok(owned(raw))
    } else if v.len() > 0 && v[0] == '~' {
        assert(raw@.subrange(0, 1) =~= seq!['~']);
        crate::config::expand_tilde_with(raw, home)
    } else {
        assert(!starts_with(raw@, seq!['~'])) by {
            if raw@.len() > 0 {
                assert(raw@.subrange(0, 1)[0] == raw@[0]);
            }
        }
        Ok(join(repo_root, raw))
    }
}

/// Resolves a `worktree_dir` setting against the repository root and the
/// user's home directory.
pub fn resolve_worktree_dir(raw: &str, repo_root: &str) -> (r: Result<String, ConfigError>)
    ensures
        !starts_with(raw@, seq!['~']) || is_absolute(raw@) ==> (r matches Ok(t) && t@
            == worktree_dir_location(raw@, repo_root@, seq![])),
        r matches Ok(t) ==> exists|h: Seq<char>| t@ == #[trigger] worktree_dir_location(raw@, repo_root@, h),
{
    let v = crate::text::chars_of(raw);
    if v.len() > 0 && v[0] == '/' {
        assert(raw@ == worktree_dir_location(raw@, repo_root@, seq![]));
        Ok(owned(raw))
    } else if v.len() > 0 && v[0] == '~' {
        assert(raw@.subrange(0, 1) =~= seq!['~']);
        match expand_tilde(raw) {
            Ok(t) => {
                let ghost h = choose|h: Seq<char>| t@ == #[trigger] tilde_expanded(raw@, h);
                assert(t@ == worktree_dir_location(raw@, repo_root@, h));
                Ok(t)
            },
            Err(e) => Err(e),
        }
    } else {
        assert(!starts_with(raw@, seq!['~'])) by {
            if raw@.len() > 0 {
                assert(raw@.subrange(0, 1)[0] == raw@[0]);
            }
        }
        let t = join(repo_root, raw);
        assert(t@ == worktree_dir_location(raw@, repo_root@, seq![]));
        Ok(t)
    }
}

} // verus!
