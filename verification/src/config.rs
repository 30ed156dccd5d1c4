//! The global configuration: where bare repositories and worktrees live.

use vstd::prelude::*;

use crate::git::types::{sanitize_branch, sanitized};
use crate::paths::{home_dir, join, joined};
use crate::text::{owned, starts_with, strip_prefix, strip_prefix_spec};

verus! {

/// The configuration read from `~/.arbor/config.toml`.
pub struct Config {
    pub repos_dir: String,
    pub worktree_dir: String,
}

/// Why the configuration could not be completed.
#[derive(Debug, PartialEq, Eq, Structural)]
pub enum ConfigError {
    /// A `~` path was given and the home directory is unknown.
    NoHomeDirectory,
}

impl ConfigError {
    /// The message shown for this error.
    pub fn message(&self) -> (r: String)
        ensures
            r@ == "Could not determine home directory"@,
    {
        owned("Could not determine home directory")
    }
}

/// The configuration written on first run: bare repositories under
/// `~/.arbor/repos`, worktrees under `~/.arbor/worktrees`.
pub fn default_config() -> (c: Config)
    ensures
        c.repos_dir@ == "~/.arbor/repos"@,
        c.worktree_dir@ == "~/.arbor/worktrees"@,
{
    Config { repos_dir: owned("~/.arbor/repos"), worktree_dir: owned("~/.arbor/worktrees") }
}

/// The text of the configuration file written on first run: the two
/// settings of `default_config`, one per line.
pub fn default_config_text() -> (r: &'static str)
    ensures
        r@ == "repos_dir = \"~/.arbor/repos\"\nworktree_dir = \"~/.arbor/worktrees\"\n"@,
{
    "repos_dir = \"~/.arbor/repos\"\nworktree_dir = \"~/.arbor/worktrees\"\n"
}

/// Where the worktree of `branch` of repository `repo_name` goes under `worktree_dir`.
pub open spec fn worktree_location(worktree_dir: Seq<char>, repo_name: Seq<char>, branch: Seq<char>) -> Seq<char> {
    joined(joined(worktree_dir, repo_name), sanitized(branch))
}

impl Config {
    /// `<worktree_dir>/<repo_name>/<branch with slashes turned into dashes>`.
    pub fn worktree_path(&self, repo_name: &str, branch: &str) -> (r: String)
        ensures
            r@ == worktree_location(self.worktree_dir@, repo_name@, branch@),
    {
        let dir = join(self.worktree_dir.as_str(), repo_name);
        let leaf = sanitize_branch(branch);
        join(dir.as_str(), leaf.as_str())
    }

    /// The configuration with `~` expanded in both directories against the
    /// given home directory (`None` when unknown, which fails only when a
    /// directory starts with `~`).
    pub fn expanded_with(self, home: Option<&str>) -> (r: Result<Config, ConfigError>)
        ensures
            match home {
                Some(h) => r matches Ok(c) && c.worktree_dir@ == tilde_expanded(self.worktree_dir@, h@)
                    && c.repos_dir@ == tilde_expanded(self.repos_dir@, h@),
                None => if starts_with(self.worktree_dir@, seq!['~']) || starts_with(
                    self.repos_dir@,
                    seq!['~'],
                ) {
                    r == Err::<Config, ConfigError>(ConfigError::NoHomeDirectory)
                } else {
                    r matches Ok(c) && c.worktree_dir@ == self.worktree_dir@ && c.repos_dir@
                        == self.repos_dir@
                },
            },
    {
        proof {
            lemma_tilde_expanded_plain(self.worktree_dir@);
            lemma_tilde_expanded_plain(self.repos_dir@);
        }
        let worktree_dir = expand_tilde_with(self.worktree_dir.as_str(), home)?;
        let repos_dir = expand_tilde_with(self.repos_dir.as_str(), home)?;
        Ok(Config { repos_dir, worktree_dir })
    }

    /// The configuration with `~` expanded in both directories: the home
    /// directory is read once, when a directory starts with `~`, and both
    /// are expanded against it.
    pub fn expanded(self) -> (r: Result<Config, ConfigError>)
        ensures
            !starts_with(self.repos_dir@, seq!['~']) && !starts_with(self.worktree_dir@, seq!['~'])
                ==> (r matches Ok(c) && c.repos_dir@ == self.repos_dir@ && c.worktree_dir@
                == self.worktree_dir@),
            r matches Ok(c) ==> exists|h: Seq<char>|
                c.worktree_dir@ == #[trigger] tilde_expanded(self.worktree_dir@, h) && c.repos_dir@
                    == tilde_expanded(self.repos_dir@, h),
    {
        let needs_home = crate::text::has_prefix(self.worktree_dir.as_str(), "~")
            || crate::text::has_prefix(self.repos_dir.as_str(), "~");
        proof {
            reveal_strlit("~");
            assert("~"@ =~= seq!['~']);
            lemma_tilde_expanded_plain(self.worktree_dir@);
            lemma_tilde_expanded_plain(self.repos_dir@);
        }
        if needs_home {
            let home = home_dir();
            match &home {
                Some(h) => {
                    let ghost hv = h@;
                    let r = self.expanded_with(Some(h.as_str()));
                    proof {
                        if let Ok(c) = &r {
                            assert(c.worktree_dir@ == tilde_expanded(self.worktree_dir@, hv));
                        }
                    }
                    r
                },
                None => self.expanded_with(None),
            }
        } else {
            let r = self.expanded_with(None);
            proof {
                if let Ok(c) = &r {
                    assert(c.worktree_dir@ == tilde_expanded(self.worktree_dir@, seq![]));
                }
            }
            r
        }
    }
}

/// A path without a leading `~` is its own expansion, whatever the home.
pub proof fn lemma_tilde_expanded_plain(path: Seq<char>)
    ensures
        !starts_with(path, seq!['~']) ==> forall|h: Seq<char>| #[trigger] tilde_expanded(path, h) == path,
{
}

/// `path` with a leading `~` replaced by `home`: what follows the `~` (less
/// one `/`) is joined onto `home`. Paths without a leading `~` are unchanged.
pub open spec fn tilde_expanded(path: Seq<char>, home: Seq<char>) -> Seq<char> {
    match strip_prefix_spec(path, seq!['~']) {
        Some(rest) => joined(
            home,
            match strip_prefix_spec(rest, seq!['/']) {
                Some(t) => t,
                None => rest,
            },
        ),
        None => path,
    }
}

/// `path` with a leading `~` expanded against the given home directory.
pub fn expand_tilde_with(path: &str, home: Option<&str>) -> (r: Result<String, ConfigError>)
    ensures
        !starts_with(path@, seq!['~']) ==> (r matches Ok(t) && t@ == path@),
        starts_with(path@, seq!['~']) ==> match home {
            Some(h) => (r matches Ok(t) && t@ == tilde_expanded(path@, h@)),
            None => r == Err::<String, ConfigError>(ConfigError::NoHomeDirectory),
        },
{
    proof {
        reveal_strlit("~");
        reveal_strlit("/");
        assert("~"@ =~= seq!['~']);
        assert("/"@ =~= seq!['/']);
    }
    match strip_prefix(path, "~") {
        Some(rest) => {
            match home {
                Some(h) => {
                    let tail = match strip_prefix(rest.as_str(), "/") {
                        Some(t) => t,
                        None => rest,
                    };
                    Ok(join(h, tail.as_str()))
                },
                None => Err(ConfigError::NoHomeDirectory),
            }
        },
        None => Ok(owned(path)),
    }
}

/// `path` with a leading `~` expanded against the user's home directory.
pub fn expand_tilde(path: &str) -> (r: Result<String, ConfigError>)
    ensures
        !starts_with(path@, seq!['~']) ==> (r matches Ok(t) && t@ == path@),
        r matches Ok(t) ==> exists|h: Seq<char>| t@ == #[trigger] tilde_expanded(path@, h),
{
    let starts = crate::text::has_prefix(path, "~");
    proof {
        reveal_strlit("~");
        assert("~"@ =~= seq!['~']);
        assert(tilde_expanded(path@, seq![]) == path@ || starts);
    }
    if starts {
        let home = home_dir();
        match home {
            Some(h) => {
                let r = expand_tilde_with(path, Some(h.as_str()));
                match r {
                    Ok(t) => {
                        assert(t@ == tilde_expanded(path@, h@));
                        Ok(t)
                    },
                    Err(e) => Err(e),
                }
            },
            None => Err(ConfigError::NoHomeDirectory),
        }
    } else {
        Ok(owned(path))
    }
}

} // verus!
