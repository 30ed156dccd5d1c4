//! The git operations the commands rely on.
//!
//! An operation whose outcome is only success or failure is given by the
//! [`GitCommand`] that performs it. An operation that reads git's answer has
//! a `…_command` function for the invocation and a function named after the
//! operation that reads the captured (already trimmed) output.

use vstd::prelude::*;

use super::runner::{concat, opt_view, owned_opt, GitCommand, OutputMode};
use super::types::{
    entry_views, parse_worktree_list, porcelain_entries, sanitize_branch, sanitized,
    strip_git_suffix, without_git_suffix, ParsedWorktree, WorktreeEntry, WorktreeInfo,
};
use crate::paths::{file_name, final_component};
use crate::text::{lines, owned, split_lines, split_words, strip_prefix, strip_prefix_spec, views, words, parse_usize, parse_usize_spec, str_eq};

verus! {

/// Why a git answer could not be read.
#[derive(Debug, PartialEq, Eq)]
pub enum GitError {
    /// The worktree listing was empty.
    EmptyWorktreeList,
    /// The first line of the worktree listing did not name a worktree.
    UnexpectedWorktreeListFormat,
    /// The repository path has no final component to name it by.
    NoFinalComponent,
    /// No worktree has the requested branch, under its own or its sanitized name.
    NoWorktreeForBranch { branch: String },
}

impl GitError {
    /// The message shown for this error.
    pub fn message(&self) -> (r: String)
        ensures
            self matches GitError::EmptyWorktreeList ==> r@ == "Empty worktree list output"@,
            self matches GitError::UnexpectedWorktreeListFormat ==> r@
                == "Unexpected worktree list format"@,
            self matches GitError::NoFinalComponent ==> r@
                == "Repository path has no final component"@,
            self matches GitError::NoWorktreeForBranch { branch } ==> r@
                == "No worktree found for branch '"@ + branch@ + "'"@,
    {
        match self {
            GitError::EmptyWorktreeList => owned("Empty worktree list output"),
            GitError::UnexpectedWorktreeListFormat => owned("Unexpected worktree list format"),
            GitError::NoFinalComponent => owned("Repository path has no final component"),
            GitError::NoWorktreeForBranch { branch } => {
                let mut r = concat("No worktree found for branch '", branch.as_str());
                crate::text::push_str(&mut r, "'");
                r
            },
        }
    }
}

/// A captured invocation of git with the given arguments.
pub open spec fn captured(c: GitCommand, args: Seq<Seq<char>>, cwd: Option<Seq<char>>) -> bool {
    c.arg_views() == args && c.cwd_view() == cwd && c.mode == OutputMode::Captured
}

/// An inherited invocation of git with the given arguments.
pub open spec fn inherited(c: GitCommand, args: Seq<Seq<char>>, cwd: Option<Seq<char>>) -> bool {
    c.arg_views() == args && c.cwd_view() == cwd && c.mode == OutputMode::Inherited
}

/// `git worktree list --porcelain`, whose first entry is the main worktree.
pub fn repo_toplevel_command() -> (r: GitCommand)
    ensures
        captured(r, seq!["worktree"@, "list"@, "--porcelain"@], None),
{
    worktree_list_porcelain(None)
}

/// The main worktree's path: the first line of the porcelain listing.
pub open spec fn toplevel_of(porcelain: Seq<char>) -> Result<Seq<char>, GitError> {
    let ls = lines(porcelain);
    if ls.len() == 0 {
        Err(GitError::EmptyWorktreeList)
    } else {
        match strip_prefix_spec(ls[0], "worktree "@) {
            Some(path) => Ok(path),
            None => Err(GitError::UnexpectedWorktreeListFormat),
        }
    }
}

/// Reads the main worktree's path from the porcelain listing.
pub fn repo_toplevel(porcelain: &str) -> (r: Result<String, GitError>)
    ensures
        match (r, toplevel_of(porcelain@)) {
            (Ok(t), Ok(u)) => t@ == u,
            (Err(e), Err(f)) => e == f,
            _ => false,
        },
{
    let ls = split_lines(porcelain);
    if ls.len() == 0 {
        return Err(GitError::EmptyWorktreeList);
    }
    assert(views(ls@)[0] == ls@[0]@);
    match strip_prefix(ls[0].as_str(), "worktree ") {
        Some(path) => Ok(path),
        None => Err(GitError::UnexpectedWorktreeListFormat),
    }
}

/// The repository's name: the last component of its path, without `.git`.
pub open spec fn repo_name_of(toplevel: Seq<char>) -> Option<Seq<char>> {
    match file_name(toplevel) {
        Some(n) => Some(without_git_suffix(n)),
        None => None,
    }
}

/// Names the repository whose main worktree is at `toplevel`.
pub fn repo_name(toplevel: &str) -> (r: Result<String, GitError>)
    ensures
        match repo_name_of(toplevel@) {
            Some(n) => r matches Ok(t) && t@ == n,
            None => r == Err::<String, GitError>(GitError::NoFinalComponent),
        },
{
    match final_component(toplevel) {
        Some(name) => Ok(strip_git_suffix(name.as_str())),
        None => Err(GitError::NoFinalComponent),
    }
}

/// The repository's name from the listing, or `unknown` when git failed
/// (`porcelain` is `None`) or the listing names no repository.
pub open spec fn repo_name_or_unknown_of(porcelain: Option<Seq<char>>) -> Seq<char> {
    match porcelain {
        Some(p) => match toplevel_of(p) {
            Ok(t) => match repo_name_of(t) {
                Some(n) => n,
                None => "unknown"@,
            },
            Err(_) => "unknown"@,
        },
        None => "unknown"@,
    }
}

/// The repository's name for display, falling back to `unknown`.
pub fn repo_name_or_unknown(porcelain: Option<&str>) -> (r: String)
    ensures
        r@ == repo_name_or_unknown_of(opt_view(porcelain)),
{
    match porcelain {
        Some(p) => match repo_toplevel(p) {
            Ok(t) => match repo_name(t.as_str()) {
                Ok(n) => n,
                Err(_) => owned("unknown"),
            },
            Err(_) => owned("unknown"),
        },
        None => owned("unknown"),
    }
}

/// `git show-ref --verify --quiet refs/heads/<branch>`: succeeds when the local branch exists.
pub fn local_branch_exists(branch: &str, cwd: Option<&str>) -> (r: GitCommand)
    ensures
        captured(
            r,
            seq!["show-ref"@, "--verify"@, "--quiet"@, "refs/heads/"@ + branch@],
            opt_view(cwd),
        ),
{
    let args = vec![
        owned("show-ref"),
        owned("--verify"),
        owned("--quiet"),
        concat("refs/heads/", branch),
    ];
    let r = GitCommand { args, cwd: owned_opt(cwd), mode: OutputMode::Captured };
    assert(r.arg_views() =~= seq!["show-ref"@, "--verify"@, "--quiet"@, "refs/heads/"@ + branch@]);
    r
}

/// Builds a command from its parts, stating its arguments.
fn command(args: Vec<String>, cwd: Option<String>, mode: OutputMode) -> (r: GitCommand)
    ensures
        r.args == args,
        r.cwd == cwd,
        r.mode == mode,
{
    GitCommand { args, cwd, mode }
}

/// `git show-ref --verify --quiet refs/remotes/origin/<branch>`: succeeds when
/// `origin` has the branch.
pub fn remote_branch_exists(branch: &str, cwd: Option<&str>) -> (r: GitCommand)
    ensures
        captured(
            r,
            seq!["show-ref"@, "--verify"@, "--quiet"@, "refs/remotes/origin/"@ + branch@],
            opt_view(cwd),
        ),
{
    let args = vec![
        owned("show-ref"),
        owned("--verify"),
        owned("--quiet"),
        concat("refs/remotes/origin/", branch),
    ];
    let r = command(args, owned_opt(cwd), OutputMode::Captured);
    assert(r.arg_views() =~= seq![
        "show-ref"@,
        "--verify"@,
        "--quiet"@,
        "refs/remotes/origin/"@ + branch@,
    ]);
    r
}

/// `git worktree add <path> <branch>`: checks out an existing branch at `path`.
pub fn worktree_add_existing(path: &str, branch: &str, cwd: Option<&str>) -> (r: GitCommand)
    ensures
        captured(r, seq!["worktree"@, "add"@, path@, branch@], opt_view(cwd)),
{
    let args = vec![owned("worktree"), owned("add"), owned(path), owned(branch)];
    let r = command(args, owned_opt(cwd), OutputMode::Captured);
    assert(r.arg_views() =~= seq!["worktree"@, "add"@, path@, branch@]);
    r
}

/// `git worktree add -b <branch> <path> [<base>]`: creates `branch` (from
/// `base` when given, else from HEAD) and checks it out at `path`.
pub fn worktree_add_new_branch(path: &str, branch: &str, base: Option<&str>, cwd: Option<&str>) -> (r: GitCommand)
    ensures
        captured(
            r,
            match base {
                Some(b) => seq!["worktree"@, "add"@, "-b"@, branch@, path@, b@],
                None => seq!["worktree"@, "add"@, "-b"@, branch@, path@],
            },
            opt_view(cwd),
        ),
{
    let mut args = vec![owned("worktree"), owned("add"), owned("-b"), owned(branch), owned(path)];
    let ghost first = views(args@);
    match base {
        Some(b) => {
            args.push(owned(b));
        },
        None => {},
    }
    let r = command(args, owned_opt(cwd), OutputMode::Captured);
    match base {
        Some(b) => {
            assert(r.arg_views() =~= seq!["worktree"@, "add"@, "-b"@, branch@, path@, b@]);
        },
        None => {
            assert(r.arg_views() =~= seq!["worktree"@, "add"@, "-b"@, branch@, path@]);
        },
    }
    r
}

/// `git branch --track <branch> origin/<branch>`: a local branch following the remote one.
pub fn create_tracking_branch(branch: &str, cwd: Option<&str>) -> (r: GitCommand)
    ensures
        captured(r, seq!["branch"@, "--track"@, branch@, "origin/"@ + branch@], opt_view(cwd)),
{
    let args = vec![owned("branch"), owned("--track"), owned(branch), concat("origin/", branch)];
    let r = command(args, owned_opt(cwd), OutputMode::Captured);
    assert(r.arg_views() =~= seq!["branch"@, "--track"@, branch@, "origin/"@ + branch@]);
    r
}

/// `git worktree list --porcelain`.
pub fn worktree_list_porcelain(cwd: Option<&str>) -> (r: GitCommand)
    ensures
        captured(r, seq!["worktree"@, "list"@, "--porcelain"@], opt_view(cwd)),
{
    let args = vec![owned("worktree"), owned("list"), owned("--porcelain")];
    let r = command(args, owned_opt(cwd), OutputMode::Captured);
    assert(r.arg_views() =~= seq!["worktree"@, "list"@, "--porcelain"@]);
    r
}

/// `git worktree remove [--force] <path>`, with git's output on the terminal.
pub fn worktree_remove(path: &str, force: bool) -> (r: GitCommand)
    ensures
        inherited(
            r,
            if force {
                seq!["worktree"@, "remove"@, "--force"@, path@]
            } else {
                seq!["worktree"@, "remove"@, path@]
            },
            None,
        ),
{
    if force {
        let args = vec![owned("worktree"), owned("remove"), owned("--force"), owned(path)];
        let r = command(args, None, OutputMode::Inherited);
        assert(r.arg_views() =~= seq!["worktree"@, "remove"@, "--force"@, path@]);
        r
    } else {
        let args = vec![owned("worktree"), owned("remove"), owned(path)];
        let r = command(args, None, OutputMode::Inherited);
        assert(r.arg_views() =~= seq!["worktree"@, "remove"@, path@]);
        r
    }
}

/// `git worktree prune --verbose`; git reports what it pruned on stderr.
pub fn worktree_prune_command() -> (r: GitCommand)
    ensures
        captured(r, seq!["worktree"@, "prune"@, "--verbose"@], None),
{
    let args = vec![owned("worktree"), owned("prune"), owned("--verbose")];
    let r = command(args, None, OutputMode::Captured);
    assert(r.arg_views() =~= seq!["worktree"@, "prune"@, "--verbose"@]);
    r
}

/// What `git worktree prune --verbose` reported: its stderr, trimmed.
pub fn worktree_prune(stderr: &str) -> (r: String)
    ensures
        r@ == crate::text::trim(stderr@),
{
    crate::text::trimmed(stderr)
}

/// `git clone --bare <url> <dest>`, with git's progress on the terminal.
pub fn clone_bare(url: &str, dest: &str) -> (r: GitCommand)
    ensures
        inherited(r, seq!["clone"@, "--bare"@, url@, dest@], None),
{
    let args = vec![owned("clone"), owned("--bare"), owned(url), owned(dest)];
    let r = command(args, None, OutputMode::Inherited);
    assert(r.arg_views() =~= seq!["clone"@, "--bare"@, url@, dest@]);
    r
}

/// `git config remote.origin.fetch +refs/heads/*:refs/remotes/origin/*` in
/// `repo_path`: bare clones have no fetch refspec, so `git fetch` would not
/// bring the remote branches without it.
pub fn configure_bare_fetch(repo_path: &str) -> (r: GitCommand)
    ensures
        captured(
            r,
            seq!["config"@, "remote.origin.fetch"@, "+refs/heads/*:refs/remotes/origin/*"@],
            Some(repo_path@),
        ),
{
    let args = vec![
        owned("config"),
        owned("remote.origin.fetch"),
        owned("+refs/heads/*:refs/remotes/origin/*"),
    ];
    let r = command(args, Some(owned(repo_path)), OutputMode::Captured);
    assert(r.arg_views() =~= seq![
        "config"@,
        "remote.origin.fetch"@,
        "+refs/heads/*:refs/remotes/origin/*"@,
    ]);
    r
}

/// `git fetch origin` in `repo_path`, with git's progress on the terminal.
pub fn fetch_origin(repo_path: &str) -> (r: GitCommand)
    ensures
        inherited(r, seq!["fetch"@, "origin"@], Some(repo_path@)),
{
    let args = vec![owned("fetch"), owned("origin")];
    let r = command(args, Some(owned(repo_path)), OutputMode::Inherited);
    assert(r.arg_views() =~= seq!["fetch"@, "origin"@]);
    r
}

/// `git status --porcelain` in `cwd`: empty output means a clean worktree.
pub fn status_porcelain(cwd: &str) -> (r: GitCommand)
    ensures
        captured(r, seq!["status"@, "--porcelain"@], Some(cwd@)),
{
    let args = vec![owned("status"), owned("--porcelain")];
    let r = command(args, Some(owned(cwd)), OutputMode::Captured);
    assert(r.arg_views() =~= seq!["status"@, "--porcelain"@]);
    r
}

/// `git rev-list --left-right --count @{upstream}...HEAD` in `cwd`: prints
/// the commits only upstream, then those only in HEAD.
pub fn ahead_behind_command(cwd: &str) -> (r: GitCommand)
    ensures
        captured(
            r,
            seq!["rev-list"@, "--left-right"@, "--count"@, "@{upstream}...HEAD"@],
            Some(cwd@),
        ),
{
    let args = vec![
        owned("rev-list"),
        owned("--left-right"),
        owned("--count"),
        owned("@{upstream}...HEAD"),
    ];
    let r = command(args, Some(owned(cwd)), OutputMode::Captured);
    assert(r.arg_views() =~= seq![
        "rev-list"@,
        "--left-right"@,
        "--count"@,
        "@{upstream}...HEAD"@,
    ]);
    r
}

/// `(ahead, behind)` from the rev-list counts: exactly two numbers, behind first.
pub open spec fn ahead_behind_of(output: Seq<char>) -> Option<(usize, usize)> {
    let ws = words(output);
    if ws.len() == 2 {
        match (parse_usize_spec(ws[0]), parse_usize_spec(ws[1])) {
            (Some(behind), Some(ahead)) => Some((ahead, behind)),
            _ => None,
        }
    } else {
        None
    }
}

/// Reads `(ahead, behind)` from the rev-list counts; `None` when they are malformed.
pub fn ahead_behind(output: &str) -> (r: Option<(usize, usize)>)
    ensures
        r == ahead_behind_of(output@),
{
    let ws = split_words(output);
    if ws.len() == 2 {
        assert(views(ws@)[0] == ws@[0]@ && views(ws@)[1] == ws@[1]@);
        let behind = parse_usize(ws[0].as_str());
        let ahead = parse_usize(ws[1].as_str());
        match (behind, ahead) {
            (Some(b), Some(a)) => Some((a, b)),
            _ => None,
        }
    } else {
        None
    }
}

/// `git symbolic-ref HEAD` in `repo_path`: the reference HEAD points to.
pub fn head_branch_command(repo_path: &str) -> (r: GitCommand)
    ensures
        captured(r, seq!["symbolic-ref"@, "HEAD"@], Some(repo_path@)),
{
    let args = vec![owned("symbolic-ref"), owned("HEAD")];
    let r = command(args, Some(owned(repo_path)), OutputMode::Captured);
    assert(r.arg_views() =~= seq!["symbolic-ref"@, "HEAD"@]);
    r
}

/// The branch HEAD points to, from the symbolic-ref output.
pub fn head_branch(output: &str) -> (r: String)
    ensures
        r@ == super::types::branch_name(output@),
{
    match strip_prefix(output, "refs/heads/") {
        Some(t) => t,
        None => owned(output),
    }
}

/// `git branch -d <branch>`, or `-D` when forced.
pub fn delete_branch(branch: &str, force: bool, cwd: Option<&str>) -> (r: GitCommand)
    ensures
        captured(
            r,
            seq!["branch"@, if force { "-D"@ } else { "-d"@ }, branch@],
            opt_view(cwd),
        ),
{
    let flag = if force {
        owned("-D")
    } else {
        owned("-d")
    };
    let args = vec![owned("branch"), flag, owned(branch)];
    let r = command(args, owned_opt(cwd), OutputMode::Captured);
    assert(r.arg_views() =~= seq!["branch"@, if force { "-D"@ } else { "-d"@ }, branch@]);
    r
}

/// A worktree is dirty when `git status --porcelain` succeeded (`Some`) and
/// printed anything; a failed status counts as clean.
pub fn is_worktree_dirty(status: Option<&str>) -> (r: bool)
    ensures
        r == match status {
            Some(s) => s@.len() > 0,
            None => false,
        },
{
    match status {
        Some(s) => !s.is_empty(),
        None => false,
    }
}

/// A copy of a parsed worktree.
pub fn copy_worktree(p: &ParsedWorktree) -> (r: ParsedWorktree)
    ensures
        r@ == p@,
{
    let branch = match &p.branch {
        Some(b) => Some(b.clone()),
        None => None,
    };
    ParsedWorktree { path: p.path.clone(), branch, bare: p.bare }
}

/// The linked worktrees: every listed entry but the bare repository itself.
pub open spec fn linked_entries(porcelain: Seq<char>) -> Seq<WorktreeEntry> {
    porcelain_entries(porcelain).filter(|e: WorktreeEntry| !e.bare)
}

/// The non-bare worktrees of a porcelain listing, in order.
pub fn linked_worktrees(porcelain: &str) -> (r: Vec<ParsedWorktree>)
    ensures
        entry_views(r@) == linked_entries(porcelain@),
{
    let all = parse_worktree_list(porcelain);
    let ghost es = entry_views(all@);
    let mut out: Vec<ParsedWorktree> = Vec::new();
    let mut i: usize = 0;
    while i < all.len()
        invariant
            es == entry_views(all@),
            i <= all.len(),
            entry_views(out@) == es.take(i as int).filter(|e: WorktreeEntry| !e.bare),
        decreases all.len() - i,
    {
        assert(es.take(i + 1) =~= es.take(i as int).push(es[i as int]));
        proof {
            es.take(i as int).lemma_filter_push(es[i as int], |e: WorktreeEntry| !e.bare);
        }
        if !all[i].bare {
            let ghost before = out@;
            out.push(copy_worktree(&all[i]));
            assert(entry_views(out@) =~= entry_views(before).push(es[i as int]));
        }
        i = i + 1;
    }
    assert(es.take(all.len() as int) =~= es);
    out
}

/// What is known of a worktree's state.
pub struct WorktreeState {
    pub path: Seq<char>,
    pub branch: Option<Seq<char>>,
    pub dirty: bool,
    pub tracking: Option<(usize, usize)>,
}

impl View for WorktreeInfo {
    type V = WorktreeState;

    open spec fn view(&self) -> WorktreeState {
        WorktreeState {
            path: self.path@,
            branch: self.branch.deep_view(),
            dirty: self.dirty,
            tracking: self.tracking,
        }
    }
}

/// The views of a sequence of worktree states.
pub open spec fn state_views(v: Seq<WorktreeInfo>) -> Seq<WorktreeState> {
    v.map_values(|w: WorktreeInfo| w@)
}

/// The state of each linked worktree, from what was probed of it:
/// `probes[i]` holds the upstream distance and the dirtiness of `linked[i]`.
pub fn worktree_infos(linked: &Vec<ParsedWorktree>, probes: &Vec<(Option<(usize, usize)>, bool)>) -> (r: Vec<WorktreeInfo>)
    requires
        linked.len() == probes.len(),
    ensures
        r.len() == linked.len(),
        forall|i: int|
            0 <= i < r.len() ==> #[trigger] r@[i]@ == (WorktreeState {
                path: linked@[i].path@,
                branch: linked@[i].branch.deep_view(),
                dirty: probes@[i].1,
                tracking: probes@[i].0,
            }),
{
    let mut out: Vec<WorktreeInfo> = Vec::new();
    let mut i: usize = 0;
    while i < linked.len()
        invariant
            linked.len() == probes.len(),
            i <= linked.len(),
            out.len() == i,
            forall|j: int|
                0 <= j < i ==> #[trigger] out@[j]@ == (WorktreeState {
                    path: linked@[j].path@,
                    branch: linked@[j].branch.deep_view(),
                    dirty: probes@[j].1,
                    tracking: probes@[j].0,
                }),
        decreases linked.len() - i,
    {
        let p = copy_worktree(&linked[i]);
        let (tracking, dirty) = probes[i];
        out.push(WorktreeInfo { path: p.path, branch: p.branch, dirty, tracking });
        i = i + 1;
    }
    out
}

/// The first entry at or after `i` whose branch is exactly `branch`, or `-1`.
pub open spec fn first_exact(es: Seq<WorktreeEntry>, branch: Seq<char>, i: int) -> int
    decreases es.len() - i,
{
    if i < 0 || i >= es.len() {
        -1
    } else if es[i].branch == Some(branch) {
        i
    } else {
        first_exact(es, branch, i + 1)
    }
}

/// Two branch names name the same worktree directory.
pub open spec fn same_directory(a: Seq<char>, b: Seq<char>) -> bool {
    sanitized(a) == sanitized(b)
}

/// The first entry at or after `i` whose branch names the same directory as `branch`, or `-1`.
pub open spec fn first_similar(es: Seq<WorktreeEntry>, branch: Seq<char>, i: int) -> int
    decreases es.len() - i,
{
    if i < 0 || i >= es.len() {
        -1
    } else if es[i].branch matches Some(b) && same_directory(b, branch) {
        i
    } else {
        first_similar(es, branch, i + 1)
    }
}

/// The worktree a branch argument designates, with its actual branch name:
/// the first worktree on exactly that branch; failing that, the first whose
/// branch sanitizes to the same directory name.
pub open spec fn resolved(es: Seq<WorktreeEntry>, branch: Seq<char>) -> Option<(Seq<char>, Seq<char>)> {
    let e = first_exact(es, branch, 0);
    let s = first_similar(es, branch, 0);
    if 0 <= e < es.len() {
        Some((es[e].path, branch))
    } else if 0 <= s < es.len() {
        Some((es[s].path, es[s].branch.unwrap()))
    } else {
        None
    }
}

pub proof fn lemma_first_exact_at(es: Seq<WorktreeEntry>, branch: Seq<char>, i: int, k: int)
    requires
        0 <= i <= k < es.len(),
        es[k].branch == Some(branch),
        forall|j: int| i <= j < k ==> es[j].branch != Some(branch),
    ensures
        first_exact(es, branch, i) == k,
    decreases k - i,
{
    if i < k {
        lemma_first_exact_at(es, branch, i + 1, k);
    }
}

pub proof fn lemma_first_exact_none(es: Seq<WorktreeEntry>, branch: Seq<char>, i: int)
    requires
        0 <= i,
        forall|j: int| i <= j < es.len() ==> es[j].branch != Some(branch),
    ensures
        first_exact(es, branch, i) == -1,
    decreases es.len() - i,
{
    if i < es.len() {
        lemma_first_exact_none(es, branch, i + 1);
    }
}

/// The entry at `k` is similar to `branch`.
pub open spec fn similar_at(es: Seq<WorktreeEntry>, branch: Seq<char>, k: int) -> bool {
    es[k].branch matches Some(b) && same_directory(b, branch)
}

pub proof fn lemma_first_similar_at(es: Seq<WorktreeEntry>, branch: Seq<char>, i: int, k: int)
    requires
        0 <= i <= k < es.len(),
        similar_at(es, branch, k),
        forall|j: int| i <= j < k ==> !similar_at(es, branch, j),
    ensures
        first_similar(es, branch, i) == k,
    decreases k - i,
{
    if i < k {
        assert(!similar_at(es, branch, i));
        lemma_first_similar_at(es, branch, i + 1, k);
    }
}

pub proof fn lemma_first_similar_none(es: Seq<WorktreeEntry>, branch: Seq<char>, i: int)
    requires
        0 <= i,
        forall|j: int| i <= j < es.len() ==> !similar_at(es, branch, j),
    ensures
        first_similar(es, branch, i) == -1,
    decreases es.len() - i,
{
    if i < es.len() {
        assert(!similar_at(es, branch, i));
        lemma_first_similar_none(es, branch, i + 1);
    }
}

/// Finds the worktree for `branch` in a porcelain listing: returns its path
/// and its actual branch name. `feature/auth` and `feature-auth` both find
/// the worktree of `feature/auth`; an exact match wins over a sanitized one.
pub fn resolve_worktree_branch(branch: &str, porcelain: &str) -> (r: Result<(String, String), GitError>)
    ensures
        match resolved(porcelain_entries(porcelain@), branch@) {
            Some((path, actual)) => r matches Ok((p, a)) && p@ == path && a@ == actual,
            None => r matches Err(GitError::NoWorktreeForBranch { branch: b }) && b@ == branch@,
        },
{
    let worktrees = parse_worktree_list(porcelain);
    let ghost es = entry_views(worktrees@);
    let sanitized_input = sanitize_branch(branch);
    let mut similar: Option<(String, String)> = None;
    let ghost mut similar_index: int = -1;
    let mut i: usize = 0;
    while i < worktrees.len()
        invariant
            es == entry_views(worktrees@),
            es == porcelain_entries(porcelain@),
            sanitized_input@ == sanitized(branch@),
            i <= worktrees.len(),
            forall|j: int| 0 <= j < i ==> es[j].branch != Some(branch@),
            similar is None ==> forall|j: int| 0 <= j < i ==> !similar_at(es, branch@, j),
            similar matches Some((p, a)) ==> {
                &&& 0 <= similar_index < i
                &&& similar_at(es, branch@, similar_index)
                &&& forall|j: int| 0 <= j < similar_index ==> !similar_at(es, branch@, j)
                &&& p@ == es[similar_index].path
                &&& Some(a@) == es[similar_index].branch
            },
        decreases worktrees.len() - i,
    {
        let wt = &worktrees[i];
        assert(es[i as int] == wt@);
        match &wt.branch {
            Some(b) => {
                assert(wt@.branch == Some(b@));
                if str_eq(b.as_str(), branch) {
                    proof {
                        lemma_first_exact_at(es, branch@, 0, i as int);
                    }
                    return Ok((wt.path.clone(), owned(branch)));
                }
                if similar.is_none() {
                    let sb = sanitize_branch(b.as_str());
                    if str_eq(sb.as_str(), sanitized_input.as_str()) {
                        similar = Some((wt.path.clone(), b.clone()));
                        proof {
                            similar_index = i as int;
                        }
                    }
                }
            },
            None => {},
        }
        i = i + 1;
    }
    proof {
        lemma_first_exact_none(es, branch@, 0);
    }
    match similar {
        Some(found) => {
            proof {
                lemma_first_similar_at(es, branch@, 0, similar_index);
            }
            Ok(found)
        },
        None => {
            proof {
                lemma_first_similar_none(es, branch@, 0);
            }
            Err(GitError::NoWorktreeForBranch { branch: owned(branch) })
        },
    }
}

pub proof fn lemma_first_exact_found(es: Seq<WorktreeEntry>, branch: Seq<char>, j: int, i: int)
    requires
        0 <= j <= i < es.len(),
        es[i].branch == Some(branch),
    ensures
        j <= first_exact(es, branch, j) <= i,
        es[first_exact(es, branch, j)].branch == Some(branch),
    decreases i - j,
{
    if es[j].branch != Some(branch) {
        lemma_first_exact_found(es, branch, j + 1, i);
    }
}

pub proof fn lemma_first_similar_found(es: Seq<WorktreeEntry>, branch: Seq<char>, j: int, i: int)
    requires
        0 <= j <= i < es.len(),
        similar_at(es, branch, i),
    ensures
        j <= first_similar(es, branch, j) <= i,
        similar_at(es, branch, first_similar(es, branch, j)),
    decreases i - j,
{
    if !similar_at(es, branch, j) {
        lemma_first_similar_found(es, branch, j + 1, i);
    }
}

pub proof fn lemma_first_exact_bounds(es: Seq<WorktreeEntry>, branch: Seq<char>, j: int)
    requires
        0 <= j,
    ensures
        first_exact(es, branch, j) == -1 || (j <= first_exact(es, branch, j) < es.len()
            && es[first_exact(es, branch, j)].branch == Some(branch)),
    decreases es.len() - j,
{
    if j < es.len() && es[j].branch != Some(branch) {
        lemma_first_exact_bounds(es, branch, j + 1);
    }
}

pub proof fn lemma_first_similar_bounds(es: Seq<WorktreeEntry>, branch: Seq<char>, j: int)
    requires
        0 <= j,
    ensures
        first_similar(es, branch, j) == -1 || (j <= first_similar(es, branch, j) < es.len()
            && similar_at(es, branch, first_similar(es, branch, j))),
    decreases es.len() - j,
{
    if j < es.len() && !similar_at(es, branch, j) {
        lemma_first_similar_bounds(es, branch, j + 1);
    }
}

/// A branch that some worktree is on resolves to the first worktree on it.
pub proof fn law_resolve_finds_listed_branch(es: Seq<WorktreeEntry>, i: int, branch: Seq<char>)
    requires
        0 <= i < es.len(),
        es[i].branch == Some(branch),
    ensures
        resolved(es, branch) == Some((es[first_exact(es, branch, 0)].path, branch)),
        first_exact(es, branch, 0) <= i,
{
    lemma_first_exact_found(es, branch, 0, i);
}

/// The sanitized name of a listed branch resolves too: `feature-auth` finds
/// the worktree of `feature/auth`.
pub proof fn law_resolve_accepts_sanitized_name(es: Seq<WorktreeEntry>, i: int, branch: Seq<char>)
    requires
        0 <= i < es.len(),
        es[i].branch == Some(branch),
    ensures
        resolved(es, sanitized(branch)) is Some,
{
    super::types::law_sanitize_idempotent(branch);
    assert(similar_at(es, sanitized(branch), i));
    lemma_first_similar_found(es, sanitized(branch), 0, i);
    lemma_first_exact_bounds(es, sanitized(branch), 0);
}

/// What resolution returns is a listed worktree, on a branch that names the
/// same directory as the argument.
pub proof fn law_resolved_worktree_is_listed(es: Seq<WorktreeEntry>, branch: Seq<char>)
    requires
        resolved(es, branch) is Some,
    ensures
        exists|i: int|
            0 <= i < es.len() && es[i].path == resolved(es, branch).unwrap().0 && #[trigger] es[i].branch
                == Some(resolved(es, branch).unwrap().1),
        same_directory(resolved(es, branch).unwrap().1, branch),
{
    lemma_first_exact_bounds(es, branch, 0);
    lemma_first_similar_bounds(es, branch, 0);
    let e = first_exact(es, branch, 0);
    let s = first_similar(es, branch, 0);
    if 0 <= e < es.len() {
        assert(es[e].branch == Some(branch));
    } else {
        assert(es[s].branch == Some(resolved(es, branch).unwrap().1));
    }
}

} // verus!
