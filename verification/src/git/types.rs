//! Branch-name handling and the reading of `git worktree list --porcelain`.

use vstd::prelude::*;

use crate::text::{lines, split_lines, strip_prefix, strip_prefix_spec, strip_suffix, strip_suffix_spec, str_eq};

verus! {

/// `branch` with each `/` turned into `-`: the directory name of its worktree.
pub open spec fn sanitized(branch: Seq<char>) -> Seq<char> {
    branch.map_values(|c: char| if c == '/' { '-' } else { c })
}

/// Slashes in a branch name become dashes, so that the name is one path component.
pub fn sanitize_branch(branch: &str) -> (r: String)
    ensures
        r@ == sanitized(branch@),
{
    let v = crate::text::chars_of(branch);
    let mut r = String::new();
    let mut i: usize = 0;
    while i < v.len()
        invariant
            v@ == branch@,
            i <= v.len(),
            r@ == sanitized(branch@).take(i as int),
        decreases v.len() - i,
    {
        let c = if v[i] == '/' {
            '-'
        } else {
            v[i]
        };
        crate::text::push_char(&mut r, c);
        assert(sanitized(branch@).take(i + 1) =~= sanitized(branch@).take(i as int).push(c));
        i = i + 1;
    }
    assert(sanitized(branch@).take(v@.len() as int) =~= sanitized(branch@));
    r
}

/// `name` without a final `.git`, when it has one.
pub open spec fn without_git_suffix(name: Seq<char>) -> Seq<char> {
    match strip_suffix_spec(name, ".git"@) {
        Some(t) => t,
        None => name,
    }
}

/// The display name of a repository directory: bare clones end in `.git`.
pub fn strip_git_suffix(name: &str) -> (r: String)
    ensures
        r@ == without_git_suffix(name@),
{
    match strip_suffix(name, ".git") {
        Some(t) => t,
        None => crate::text::owned(name),
    }
}

/// What one worktree entry of the porcelain listing says.
pub struct WorktreeEntry {
    pub path: Seq<char>,
    pub branch: Option<Seq<char>>,
    pub bare: bool,
}

/// One worktree as the porcelain listing reports it.
pub struct ParsedWorktree {
    pub path: String,
    /// `None` for a detached HEAD or a bare entry.
    pub branch: Option<String>,
    pub bare: bool,
}

impl View for ParsedWorktree {
    type V = WorktreeEntry;

    open spec fn view(&self) -> WorktreeEntry {
        WorktreeEntry { path: self.path@, branch: self.branch.deep_view(), bare: self.bare }
    }
}

/// The views of a sequence of parsed worktrees.
pub open spec fn entry_views(v: Seq<ParsedWorktree>) -> Seq<WorktreeEntry> {
    v.map_values(|p: ParsedWorktree| p@)
}

/// The short name of a branch reference: `refs/heads/main` is `main`.
pub open spec fn branch_name(reference: Seq<char>) -> Seq<char> {
    match strip_prefix_spec(reference, "refs/heads/"@) {
        Some(t) => t,
        None => reference,
    }
}

/// The effect of one porcelain line: `worktree <path>` opens a new entry;
/// `branch <ref>` and `bare` annotate the entry opened last; every other
/// line, and any line before the first entry, changes nothing.
pub open spec fn read_porcelain_line(entries: Seq<WorktreeEntry>, line: Seq<char>) -> Seq<
    WorktreeEntry,
> {
    match strip_prefix_spec(line, "worktree "@) {
        Some(path) => entries.push(WorktreeEntry { path: path, branch: None, bare: false }),
        None => {
            if entries.len() == 0 {
                entries
            } else {
                let last = entries.last();
                match strip_prefix_spec(line, "branch "@) {
                    Some(reference) => entries.update(
                        entries.len() - 1,
                        WorktreeEntry { branch: Some(branch_name(reference)), ..last },
                    ),
                    None => {
                        if line == "bare"@ {
                            entries.update(entries.len() - 1, WorktreeEntry { bare: true, ..last })
                        } else {
                            entries
                        }
                    },
                }
            }
        },
    }
}

/// The entries described by a sequence of porcelain lines, read in order.
pub open spec fn read_porcelain_lines(ls: Seq<Seq<char>>) -> Seq<WorktreeEntry>
    decreases ls.len(),
{
    if ls.len() == 0 {
        seq![]
    } else {
        read_porcelain_line(read_porcelain_lines(ls.drop_last()), ls.last())
    }
}

/// The entries of a `git worktree list --porcelain` listing.
pub open spec fn porcelain_entries(porcelain: Seq<char>) -> Seq<WorktreeEntry> {
    read_porcelain_lines(lines(porcelain))
}

/// The entries seen so far: those completed, then the one still open.
pub open spec fn entries_so_far(done: Seq<ParsedWorktree>, open: Option<ParsedWorktree>) -> Seq<
    WorktreeEntry,
> {
    match open {
        Some(p) => entry_views(done).push(p@),
        None => entry_views(done),
    }
}

/// Reads a `git worktree list --porcelain` listing into its worktrees, in order.
pub fn parse_worktree_list(porcelain: &str) -> (r: Vec<ParsedWorktree>)
    ensures
        entry_views(r@) == porcelain_entries(porcelain@),
{
    let ls = split_lines(porcelain);
    let ghost lv = lines(porcelain@);
    let mut done: Vec<ParsedWorktree> = Vec::new();
    let mut open: Option<ParsedWorktree> = None;
    let mut i: usize = 0;
    while i < ls.len()
        invariant
            crate::text::views(ls@) == lv,
            i <= ls.len(),
            open is None ==> done@.len() == 0,
            entries_so_far(done@, open) == read_porcelain_lines(lv.take(i as int)),
        decreases ls.len() - i,
    {
        let line = &ls[i];
        let ghost before = entries_so_far(done@, open);
        assert(lv[i as int] == line@);
        assert(lv.take(i + 1).drop_last() =~= lv.take(i as int));
        match strip_prefix(line.as_str(), "worktree ") {
            Some(path) => {
                let ghost done_before = done@;
                match open.take() {
                    Some(p) => {
                        done.push(p);
                        assert(entry_views(done@) =~= entry_views(done_before).push(p@));
                    },
                    None => {},
                }
                open = Some(ParsedWorktree { path, branch: None, bare: false });
                assert(entries_so_far(done@, open) =~= before.push(
                    WorktreeEntry { path: path@, branch: None, bare: false },
                ));
            },
            None => {
                match open.take() {
                    Some(mut p) => {
                        match strip_prefix(line.as_str(), "branch ") {
                            Some(reference) => {
                                let name = match strip_prefix(reference.as_str(), "refs/heads/") {
                                    Some(t) => t,
                                    None => reference,
                                };
                                p.branch = Some(name);
                            },
                            None => {
                                if str_eq(line.as_str(), "bare") {
                                    p.bare = true;
                                }
                            },
                        }
                        open = Some(p);
                        assert(entries_so_far(done@, open) =~= read_porcelain_line(
                            before,
                            line@,
                        ));
                    },
                    None => {},
                }
            },
        }
        i = i + 1;
    }
    match open {
        Some(p) => {
            let ghost done_before = done@;
            done.push(p);
            assert(entry_views(done@) =~= entry_views(done_before).push(p@));
        },
        None => {},
    }
    assert(lv.take(ls.len() as int) =~= lv);
    done
}

/// A worktree together with its state: uncommitted changes and upstream distance.
pub struct WorktreeInfo {
    pub path: String,
    pub branch: Option<String>,
    pub dirty: bool,
    /// `(ahead, behind)` relative to the upstream; `None` when none is configured.
    pub tracking: Option<(usize, usize)>,
}

/// Sanitizing a name twice is sanitizing it once.
pub proof fn law_sanitize_idempotent(branch: Seq<char>)
    ensures
        sanitized(sanitized(branch)) == sanitized(branch),
{
    assert(sanitized(sanitized(branch)) =~= sanitized(branch));
}

/// A sanitized name has the same length, no `/`, and keeps every other character.
pub proof fn law_sanitized_has_no_slash(branch: Seq<char>)
    ensures
        sanitized(branch).len() == branch.len(),
        !sanitized(branch).contains('/'),
        forall|i: int| 0 <= i < branch.len() && branch[i] != '/' ==> sanitized(branch)[i] == branch[i],
{
}

/// Stripping `.git` from `name.git` gives back `name`.
pub proof fn law_strip_git_suffix_of_bare_name(name: Seq<char>)
    ensures
        without_git_suffix(name + ".git"@) == name,
{
    let full = name + ".git"@;
    assert(full.subrange(full.len() - ".git"@.len(), full.len() as int) =~= ".git"@);
    assert(full.take(full.len() - ".git"@.len()) =~= name);
}

/// The number of lines that open an entry.
pub open spec fn worktree_line_count(ls: Seq<Seq<char>>) -> nat
    decreases ls.len(),
{
    if ls.len() == 0 {
        0
    } else {
        worktree_line_count(ls.drop_last()) + if strip_prefix_spec(ls.last(), "worktree "@) is Some {
            1nat
        } else {
            0nat
        }
    }
}

/// The listing has one entry per `worktree` line, and nothing else makes one.
pub proof fn law_one_entry_per_worktree_line(ls: Seq<Seq<char>>)
    ensures
        read_porcelain_lines(ls).len() == worktree_line_count(ls),
    decreases ls.len(),
{
    if ls.len() > 0 {
        law_one_entry_per_worktree_line(ls.drop_last());
    }
}

} // verus!
