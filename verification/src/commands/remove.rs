//! `arbor remove`: refusing dirty worktrees, and reporting deleted branches.

use vstd::prelude::*;

use crate::git::commands::copy_worktree;
use crate::git::runner::concat;
use crate::git::types::{entry_views, parse_worktree_list, porcelain_entries, ParsedWorktree, WorktreeEntry};
use crate::paths::{is_inside, path_starts_with};
use crate::text::{chars_of, find_from, occurs_at, owned, push_str, string_from_range};

verus! {

/// The first position at or after `i` where `needle` occurs in `s`, or `-1`.
pub open spec fn first_occurrence(s: Seq<char>, needle: Seq<char>, i: int) -> int
    decreases s.len() + 1 - i,
{
    if i < 0 || i > s.len() {
        -1
    } else if occurs_at(s, needle, i) {
        i
    } else {
        first_occurrence(s, needle, i + 1)
    }
}

pub proof fn lemma_first_occurrence_at(s: Seq<char>, needle: Seq<char>, i: int, k: int)
    requires
        0 <= i <= k <= s.len(),
        occurs_at(s, needle, k),
        forall|j: int| i <= j < k ==> !occurs_at(s, needle, j),
    ensures
        first_occurrence(s, needle, i) == k,
    decreases k - i,
{
    if i < k {
        lemma_first_occurrence_at(s, needle, i + 1, k);
    }
}

pub proof fn lemma_first_occurrence_none(s: Seq<char>, needle: Seq<char>, i: int)
    requires
        0 <= i,
        forall|j: int| i <= j ==> !occurs_at(s, needle, j),
    ensures
        first_occurrence(s, needle, i) == -1,
    decreases s.len() + 1 - i,
{
    if i <= s.len() {
        lemma_first_occurrence_none(s, needle, i + 1);
    }
}

/// The commit in git's `Deleted branch x (was abc1234).`: the text between
/// the first `(was ` and the next `)`.
pub open spec fn was_hash(output: Seq<char>) -> Option<Seq<char>> {
    let i = first_occurrence(output, "(was "@, 0);
    if i < 0 {
        None
    } else {
        let start = i + "(was "@.len();
        let end = find_from(output, ')', start);
        if end < 0 {
            None
        } else {
            Some(output.subrange(start, end))
        }
    }
}

/// Reads the commit a deleted branch pointed to from `git branch -d` output.
pub fn parse_was_hash(output: &str) -> (r: Option<String>)
    ensures
        r.deep_view() == was_hash(output@),
{
    let v = chars_of(output);
    let needle = chars_of("(was ");
    match crate::text::find_seq_from(&v, &needle, 0) {
        Some(i) => {
            proof {
                lemma_first_occurrence_at(output@, "(was "@, 0, i as int);
            }
            assert(occurs_at(v@, needle@, i as int));
            assert(i + needle@.len() <= v@.len());
            let nlen = needle.len();
            assert(i + nlen <= v.len());
            let start = i + nlen;
            let mut end = start;
            while end < v.len() && v[end] != ')'
                invariant
                    v@ == output@,
                    start <= end <= v.len(),
                    forall|j: int| start <= j < end ==> v@[j] != ')',
                decreases v.len() - end,
            {
                end = end + 1;
            }
            if end < v.len() {
                proof {
                    crate::text::lemma_find_from_at(output@, ')', start as int, end as int);
                }
                Some(string_from_range(&v, start, end))
            } else {
                proof {
                    crate::text::lemma_find_from_none(output@, ')', start as int);
                }
                None
            }
        },
        None => {
            proof {
                lemma_first_occurrence_none(output@, "(was "@, 0);
            }
            None
        },
    }
}

/// `Deleted branch '<branch>'`, followed by ` (was <hash>)` when git named the commit.
pub fn deleted_branch_message(branch: &str, output: &str) -> (r: String)
    ensures
        r@ == "Deleted branch '"@ + branch@ + "'"@ + match was_hash(output@) {
            Some(h) => " (was "@ + h + ")"@,
            None => ""@,
        },
{
    let mut r = concat("Deleted branch '", branch);
    push_str(&mut r, "'");
    match parse_was_hash(output) {
        Some(h) => {
            push_str(&mut r, " (was ");
            push_str(&mut r, h.as_str());
            push_str(&mut r, ")");
        },
        None => {
            push_str(&mut r, "");
        },
    }
    r
}

/// The hint given when no worktree matches a branch argument.
pub fn no_worktree_hint(branch: &str) -> (r: String)
    ensures
        r@ == "No worktree found for branch '"@ + branch@ + "'. Did you mean `arbor add "@ + branch@
            + "`?"@,
{
    let mut r = concat("No worktree found for branch '", branch);
    push_str(&mut r, "'. Did you mean `arbor add ");
    push_str(&mut r, branch);
    push_str(&mut r, "`?");
    r
}

/// Why a worktree is not removed.
#[derive(Debug, PartialEq, Eq, Structural)]
pub enum RemoveError {
    /// The worktree has uncommitted changes and removal was not forced.
    UncommittedChanges,
    /// `.` was given, but the current directory is in no linked worktree.
    NotInsideWorktree,
}

impl RemoveError {
    /// The message shown for this error.
    pub fn message(&self) -> (r: String)
        ensures
            *self == RemoveError::UncommittedChanges ==> r@
                == "Worktree has uncommitted changes. Use --force to remove anyway."@,
            *self == RemoveError::NotInsideWorktree ==> r@ == "Not inside a worktree"@,
    {
        match self {
            RemoveError::UncommittedChanges => owned(
                "Worktree has uncommitted changes. Use --force to remove anyway.",
            ),
            RemoveError::NotInsideWorktree => owned("Not inside a worktree"),
        }
    }
}

/// A dirty worktree is removed only when forced.
pub fn check_removable(dirty: bool, force: bool) -> (r: Result<(), RemoveError>)
    ensures
        dirty && !force ==> r == Err::<(), RemoveError>(RemoveError::UncommittedChanges),
        !(dirty && !force) ==> r == Ok::<(), RemoveError>(()),
{
    if !force && dirty {
        Err(RemoveError::UncommittedChanges)
    } else {
        Ok(())
    }
}

/// The worktree `cwd` lies in: a linked (non-bare) entry whose path
/// contains it, the first such in listing order.
pub open spec fn holds_cwd(e: WorktreeEntry, cwd: Seq<char>) -> bool {
    !e.bare && path_starts_with(cwd, e.path)
}

/// The position of the first entry holding `cwd`, or `None` when none does.
pub fn worktree_containing(entries: &Vec<ParsedWorktree>, cwd: &str) -> (r: Option<usize>)
    ensures
        match r {
            Some(i) => i < entries.len() && holds_cwd(entries@[i as int]@, cwd@) && forall|j: int|
                0 <= j < i ==> !holds_cwd(#[trigger] entries@[j]@, cwd@),
            None => forall|j: int| 0 <= j < entries.len() ==> !holds_cwd(#[trigger] entries@[j]@, cwd@),
        },
{
    let mut i: usize = 0;
    while i < entries.len()
        invariant
            i <= entries.len(),
            forall|j: int| 0 <= j < i ==> !holds_cwd(#[trigger] entries@[j]@, cwd@),
        decreases entries.len() - i,
    {
        if !entries[i].bare && is_inside(cwd, entries[i].path.as_str()) {
            return Some(i);
        }
        i = i + 1;
    }
    None
}

/// Whether the directory `cwd` is the worktree `dir` or lies inside it, in
/// which case the worktree cannot be removed from there.
pub fn cwd_inside(cwd: &str, dir: &str) -> (r: bool)
    ensures
        r == path_starts_with(cwd@, dir@),
{
    is_inside(cwd, dir)
}

/// `arbor remove .`: the worktree the current directory `cwd` lies in, with
/// its branch, read from the porcelain listing.
pub fn resolve_dot(porcelain: &str, cwd: &str) -> (r: Result<(String, Option<String>), RemoveError>)
    ensures
        match r {
            Ok((path, branch)) => exists|i: int|
                0 <= i < porcelain_entries(porcelain@).len() && holds_cwd(
                    #[trigger] porcelain_entries(porcelain@)[i],
                    cwd@,
                ) && (forall|j: int| 0 <= j < i ==> !holds_cwd(#[trigger] porcelain_entries(porcelain@)[j], cwd@))
                    && path@ == porcelain_entries(porcelain@)[i].path && branch.deep_view()
                    == porcelain_entries(porcelain@)[i].branch,
            Err(e) => e == RemoveError::NotInsideWorktree && forall|j: int|
                0 <= j < porcelain_entries(porcelain@).len() ==> !holds_cwd(
                    #[trigger] porcelain_entries(porcelain@)[j],
                    cwd@,
                ),
        },
{
    let entries = parse_worktree_list(porcelain);
    assert(entry_views(entries@) == porcelain_entries(porcelain@));
    assert(forall|j: int| 0 <= j < entries.len() ==> entries@[j]@ == #[trigger] porcelain_entries(porcelain@)[j]);
    match worktree_containing(&entries, cwd) {
        Some(i) => {
            let w = copy_worktree(&entries[i]);
            assert(w@ == porcelain_entries(porcelain@)[i as int]);
            Ok((w.path, w.branch))
        },
        None => Err(RemoveError::NotInsideWorktree),
    }
}

} // verus!
