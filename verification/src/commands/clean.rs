//! `arbor clean`: which worktrees to offer for removal, and how to remove them.

use vstd::prelude::*;

use crate::display::WorktreeSummary;
use crate::git::commands::{captured, delete_branch, inherited, state_views, worktree_remove, WorktreeState};
use crate::git::runner::{concat, GitCommand};
use crate::git::types::WorktreeInfo;
use crate::paths::{is_inside, path_starts_with};
use crate::text::{decimal, decimal_string, owned, push_str, str_eq, views};

verus! {

/// A worktree nobody seems to use: detached, clean, and without an upstream.
pub open spec fn abandoned(w: WorktreeState) -> bool {
    w.branch is None && !w.dirty && w.tracking is None
}

/// Whether a worktree is preselected for removal.
pub fn is_abandoned(wt: &WorktreeInfo) -> (r: bool)
    ensures
        r == abandoned(wt@),
{
    wt.branch.is_none() && !wt.dirty && wt.tracking.is_none()
}

/// Whether there is anything to clean: the main worktree alone never is.
pub fn offers_cleaning(worktrees: &[WorktreeInfo]) -> (r: bool)
    ensures
        r == (worktrees.len() > 1),
{
    worktrees.len() > 1
}

/// The worktrees to remove from what the user chose: nothing when the
/// prompt was cancelled (`None`) or nothing was selected.
pub fn chosen_removals(selection: Option<Vec<usize>>) -> (r: Option<Vec<usize>>)
    ensures
        match selection {
            Some(s) => if s.len() > 0 {
                r == Some(s)
            } else {
                r is None
            },
            None => r is None,
        },
{
    match selection {
        Some(s) => if s.len() > 0 {
            Some(s)
        } else {
            None
        },
        None => None,
    }
}

/// The preselection of each worktree, in order.
pub fn abandoned_defaults(worktrees: &[WorktreeInfo]) -> (r: Vec<bool>)
    ensures
        r.len() == worktrees.len(),
        forall|i: int| 0 <= i < r.len() ==> r@[i] == abandoned(#[trigger] state_views(worktrees@)[i]),
{
    let mut r: Vec<bool> = Vec::new();
    let mut i: usize = 0;
    while i < worktrees.len()
        invariant
            i <= worktrees.len(),
            r.len() == i,
            forall|j: int| 0 <= j < i ==> r@[j] == abandoned(#[trigger] state_views(worktrees@)[j]),
        decreases worktrees.len() - i,
    {
        assert(state_views(worktrees@)[i as int] == worktrees@[i as int]@);
        r.push(is_abandoned(&worktrees[i]));
        i = i + 1;
    }
    r
}

/// Removing a selected worktree: forced exactly when it has uncommitted changes.
pub fn removal_command(wt: &WorktreeInfo) -> (r: GitCommand)
    ensures
        inherited(
            r,
            if wt.dirty {
                seq!["worktree"@, "remove"@, "--force"@, wt.path@]
            } else {
                seq!["worktree"@, "remove"@, wt.path@]
            },
            None,
        ),
{
    worktree_remove(wt.path.as_str(), wt.dirty)
}

/// After a removal, the branch to delete when asked to: never forced, and
/// only when the worktree was on a branch.
pub fn branch_deletion(wt: &WorktreeInfo, delete: bool) -> (r: Option<GitCommand>)
    ensures
        match (delete, wt@.branch) {
            (true, Some(b)) => r matches Some(c) && captured(c, seq!["branch"@, "-d"@, b], None),
            _ => r is None,
        },
{
    if delete {
        match &wt.branch {
            Some(b) => Some(delete_branch(b.as_str(), false, None)),
            None => None,
        }
    } else {
        None
    }
}

/// `worktree` or `worktrees`, `branch` or `branches`, after a count.
pub open spec fn clean_summary_text(removed: nat, deleted: nat) -> Seq<char> {
    let head = "Cleaned "@ + decimal(removed) + " worktree"@ + if removed == 1 {
        ""@
    } else {
        "s"@
    };
    if deleted > 0 {
        head + ", deleted "@ + decimal(deleted) + " branch"@ + if deleted == 1 {
            ""@
        } else {
            "es"@
        }
    } else {
        head
    }
}

/// Deleted branches are always reported: with any deleted branch, the
/// closing line is the line for the removals alone followed by
/// `, deleted <n> branch` (`branches` for more than one), whatever the
/// number of removals; the line for the removals alone starts with
/// `Cleaned <n> worktree`.
pub proof fn law_clean_summary_reports_deletions(removed: nat, deleted: nat)
    ensures
        deleted > 0 ==> clean_summary_text(removed, deleted) == clean_summary_text(removed, 0)
            + ", deleted "@ + decimal(deleted) + " branch"@ + if deleted == 1 {
            ""@
        } else {
            "es"@
        },
        clean_summary_text(removed, 0) == "Cleaned "@ + decimal(removed) + " worktree"@ + if removed
            == 1 {
            ""@
        } else {
            "s"@
        },
{
}

/// The closing line of a clean: `None` when nothing was removed.
pub fn clean_summary(removed: usize, deleted: usize) -> (r: Option<String>)
    ensures
        removed == 0 ==> r is None,
        removed > 0 ==> (r matches Some(t) && t@ == clean_summary_text(removed as nat, deleted as nat)),
{
    if removed == 0 {
        return None;
    }
    let n = decimal_string(removed);
    let mut t = crate::git::runner::concat("Cleaned ", n.as_str());
    push_str(&mut t, " worktree");
    if removed != 1 {
        push_str(&mut t, "s");
    } else {
        push_str(&mut t, "");
    }
    if deleted > 0 {
        let d = decimal_string(deleted);
        push_str(&mut t, ", deleted ");
        push_str(&mut t, d.as_str());
        push_str(&mut t, " branch");
        if deleted != 1 {
            push_str(&mut t, "es");
        } else {
            push_str(&mut t, "");
        }
    }
    Some(t)
}

/// Whether the worktree selected `k`-th holds the directory `cwd`.
pub open spec fn selected_holds(worktrees: Seq<WorktreeInfo>, selections: Seq<usize>, k: int, cwd: Seq<char>) -> bool {
    path_starts_with(cwd, worktrees[selections[k] as int]@.path)
}

/// The selected worktree that holds the current directory `cwd`, the first
/// in selection order: its position among `worktrees`.
pub fn selected_containing(worktrees: &[WorktreeInfo], selections: &[usize], cwd: &str) -> (r: Option<usize>)
    requires
        forall|k: int| 0 <= k < selections.len() ==> #[trigger] selections@[k] < worktrees.len(),
    ensures
        match r {
            Some(idx) => exists|k: int|
                0 <= k < selections.len() && selections@[k] == idx && #[trigger] selected_holds(
                    worktrees@,
                    selections@,
                    k,
                    cwd@,
                ) && forall|m: int| 0 <= m < k ==> !#[trigger] selected_holds(worktrees@, selections@, m, cwd@),
            None => forall|k: int|
                0 <= k < selections.len() ==> !#[trigger] selected_holds(worktrees@, selections@, k, cwd@),
        },
{
    let mut k: usize = 0;
    while k < selections.len()
        invariant
            k <= selections.len(),
            forall|j: int| 0 <= j < selections.len() ==> #[trigger] selections@[j] < worktrees.len(),
            forall|m: int| 0 <= m < k ==> !#[trigger] selected_holds(worktrees@, selections@, m, cwd@),
        decreases selections.len() - k,
    {
        let idx = selections[k];
        assert(selections@[k as int] < worktrees.len());
        if is_inside(cwd, worktrees[idx].path.as_str()) {
            assert(selected_holds(worktrees@, selections@, k as int, cwd@));
            return Some(idx);
        }
        k = k + 1;
    }
    None
}

/// What a clean has done so far: the paths of the worktrees removed, in
/// order, and how many of their branches were deleted.
pub struct CleanProgress {
    removed: Vec<String>,
    branches_deleted: usize,
}

impl CleanProgress {
    /// A branch is only deleted after its worktree was removed.
    #[verifier::type_invariant]
    spec fn wf(self) -> bool {
        self.branches_deleted <= self.removed.len()
    }

    /// The paths removed, in order.
    pub closed spec fn removed_paths(self) -> Seq<Seq<char>> {
        views(self.removed@)
    }

    /// The number of branches deleted.
    pub closed spec fn deleted_count(self) -> nat {
        self.branches_deleted as nat
    }

    /// Nothing done yet.
    pub fn new() -> (p: CleanProgress)
        ensures
            p.removed_paths() == Seq::<Seq<char>>::empty(),
            p.deleted_count() == 0,
    {
        let p = CleanProgress { removed: Vec::new(), branches_deleted: 0 };
        assert(views(p.removed@) =~= Seq::<Seq<char>>::empty());
        p
    }

    /// The worktree `wt` was removed: its path is recorded, and the branch
    /// deletion to run next is returned, when asked for and `wt` was on a
    /// branch.
    pub fn worktree_removed(&mut self, wt: &WorktreeInfo, delete_branch: bool) -> (r: Option<GitCommand>)
        ensures
            final(self).removed_paths() == old(self).removed_paths().push(wt.path@),
            final(self).deleted_count() == old(self).deleted_count(),
            final(self).deleted_count() < final(self).removed_paths().len(),
            match (delete_branch, wt@.branch) {
                (true, Some(b)) => r matches Some(c) && captured(c, seq!["branch"@, "-d"@, b], None),
                _ => r is None,
            },
    {
        proof {
            use_type_invariant(&*self);
        }
        let mut taken = CleanProgress { removed: Vec::new(), branches_deleted: 0 };
        std::mem::swap(&mut taken, self);
        let CleanProgress { mut removed, branches_deleted } = taken;
        let ghost before = removed@;
        removed.push(wt.path.clone());
        assert(views(removed@) =~= views(before).push(wt.path@));
        *self = CleanProgress { removed, branches_deleted };
        branch_deletion(wt, delete_branch)
    }

    /// One step of a clean, after git tried to remove `wt` (shown as
    /// `short_path`): on success the removal is recorded, reported, and the
    /// branch deletion to run next is returned as `worktree_removed` gives
    /// it; on failure nothing is recorded and the failure is reported.
    pub fn after_removal(
        &mut self,
        wt: &WorktreeInfo,
        delete_branch: bool,
        short_path: &str,
        outcome: Result<(), &str>,
    ) -> (r: (String, Option<GitCommand>))
        ensures
            match outcome {
                Ok(()) => {
                    &&& final(self).removed_paths() == old(self).removed_paths().push(wt.path@)
                    &&& final(self).deleted_count() == old(self).deleted_count()
                    &&& final(self).deleted_count() < final(self).removed_paths().len()
                    &&& r.0@ == "Removed "@ + short_path@
                    &&& match (delete_branch, wt@.branch) {
                        (true, Some(b)) => r.1 matches Some(c) && captured(c, seq!["branch"@, "-d"@, b], None),
                        _ => r.1 is None,
                    }
                },
                Err(e) => {
                    &&& final(self).removed_paths() == old(self).removed_paths()
                    &&& final(self).deleted_count() == old(self).deleted_count()
                    &&& r.0@ == "Failed to remove worktree for '"@ + match wt@.branch {
                        Some(b) => b,
                        None => short_path@,
                    } + "': "@ + e@
                    &&& r.1 is None
                },
            },
    {
        match outcome {
            Ok(()) => {
                let next = self.worktree_removed(wt, delete_branch);
                (concat("Removed ", short_path), next)
            },
            Err(e) => (removal_failure_message(wt, short_path, e), None),
        }
    }

    /// After git tried to delete `branch`, the branch of the worktree removed
    /// last: on success the deletion is counted and reported; on failure
    /// nothing is counted and the failure is reported.
    pub fn after_deletion(&mut self, branch: &str, outcome: Result<(), &str>) -> (r: String)
        requires
            old(self).deleted_count() < old(self).removed_paths().len(),
        ensures
            final(self).removed_paths() == old(self).removed_paths(),
            final(self).deleted_count() <= final(self).removed_paths().len(),
            match outcome {
                Ok(()) => final(self).deleted_count() == old(self).deleted_count() + 1 && r@
                    == "Deleted branch '"@ + branch@ + "'"@,
                Err(e) => final(self).deleted_count() == old(self).deleted_count() && r@
                    == "Could not delete branch '"@ + branch@ + "': "@ + e@,
            },
    {
        match outcome {
            Ok(()) => {
                self.branch_deleted();
                let mut r = concat("Deleted branch '", branch);
                push_str(&mut r, "'");
                r
            },
            Err(e) => {
                proof {
                    use_type_invariant(&*self);
                }
                branch_failure_message(branch, e)
            },
        }
    }

    /// A branch deletion asked for by the last removal succeeded.
    pub fn branch_deleted(&mut self)
        requires
            old(self).deleted_count() < old(self).removed_paths().len(),
        ensures
            final(self).removed_paths() == old(self).removed_paths(),
            final(self).deleted_count() == old(self).deleted_count() + 1,
            final(self).deleted_count() <= final(self).removed_paths().len(),
    {
        proof {
            use_type_invariant(&*self);
        }
        self.branches_deleted = self.branches_deleted + 1;
    }

    /// How many worktrees were removed.
    pub fn removed_count(&self) -> (r: usize)
        ensures
            r == self.removed_paths().len(),
    {
        self.removed.len()
    }

    /// How many branches were deleted.
    pub fn branches_deleted(&self) -> (r: usize)
        ensures
            r == self.deleted_count(),
            r <= self.removed_paths().len(),
    {
        proof {
            use_type_invariant(self);
        }
        self.branches_deleted
    }

    /// Whether `path` is among the removed worktrees.
    pub fn was_removed(&self, path: &str) -> (r: bool)
        ensures
            r == self.removed_paths().contains(path@),
    {
        let mut i: usize = 0;
        while i < self.removed.len()
            invariant
                i <= self.removed.len(),
                forall|j: int| 0 <= j < i ==> #[trigger] self.removed@[j]@ != path@,
            decreases self.removed.len() - i,
        {
            if str_eq(self.removed[i].as_str(), path) {
                assert(self.removed_paths()[i as int] == path@);
                return true;
            }
            i = i + 1;
        }
        proof {
            if self.removed_paths().contains(path@) {
                let j = choose|j: int| 0 <= j < self.removed_paths().len() && self.removed_paths()[j] == path@;
                assert(self.removed@[j]@ == path@);
            }
        }
        false
    }

    /// The closing line: `None` when no worktree was removed.
    pub fn summary(&self) -> (r: Option<String>)
        ensures
            self.removed_paths().len() == 0 ==> r is None,
            self.removed_paths().len() > 0 ==> (r matches Some(t) && t@ == clean_summary_text(
                self.removed_paths().len(),
                self.deleted_count(),
            )),
    {
        clean_summary(self.removed_count(), self.branches_deleted())
    }
}

/// Reported when a worktree could not be removed: it is named by its branch,
/// or by its path when detached.
pub fn removal_failure_message(wt: &WorktreeInfo, short_path: &str, error: &str) -> (r: String)
    ensures
        r@ == "Failed to remove worktree for '"@ + match wt@.branch {
            Some(b) => b,
            None => short_path@,
        } + "': "@ + error@,
{
    let mut r = match &wt.branch {
        Some(b) => concat("Failed to remove worktree for '", b.as_str()),
        None => concat("Failed to remove worktree for '", short_path),
    };
    push_str(&mut r, "': ");
    push_str(&mut r, error);
    r
}

/// Reported when a branch could not be deleted after its worktree was removed.
pub fn branch_failure_message(branch: &str, error: &str) -> (r: String)
    ensures
        r@ == "Could not delete branch '"@ + branch@ + "': "@ + error@,
{
    let mut r = concat("Could not delete branch '", branch);
    push_str(&mut r, "': ");
    push_str(&mut r, error);
    r
}

} // verus!
