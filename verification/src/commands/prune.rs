//! `arbor prune`: reading what `git worktree prune --verbose` removed.

use vstd::prelude::*;

use crate::git::runner::concat;
use crate::text::{decimal, decimal_string, lines, owned, push_str, split_lines, strip_prefix, strip_prefix_spec, views};

verus! {

/// A stale worktree that git pruned.
pub struct PrunedWorktree {
    pub name: String,
    pub reason: String,
}

/// git reports each pruned worktree as `Removing worktrees/<name>: <reason>`.
pub open spec fn pruned_entry(line: Seq<char>) -> Option<(Seq<char>, Seq<char>)> {
    match strip_prefix_spec(line, "Removing worktrees/"@) {
        Some(rest) => {
            let k = crate::commands::remove::first_occurrence(rest, ": "@, 0);
            if k < 0 {
                None
            } else {
                Some((rest.take(k), rest.skip(k + 2)))
            }
        },
        None => None,
    }
}

/// Reads one report line.
pub fn parse_pruned_line(line: &str) -> (r: Option<PrunedWorktree>)
    ensures
        match pruned_entry(line@) {
            Some((n, why)) => r matches Some(p) && p.name@ == n && p.reason@ == why,
            None => r is None,
        },
{
    match strip_prefix(line, "Removing worktrees/") {
        Some(rest) => {
            let v = crate::text::chars_of(rest.as_str());
            let sep = crate::text::chars_of(": ");
            proof {
                reveal_strlit(": ");
            }
            match crate::text::find_seq_from(&v, &sep, 0) {
                Some(k) => {
                    proof {
                        crate::commands::remove::lemma_first_occurrence_at(rest@, ": "@, 0, k as int);
                    }
                    assert(k + 2 <= v.len());
                    let name = crate::text::string_from_range(&v, 0, k);
                    let reason = crate::text::string_from_range(&v, k + 2, v.len());
                    assert(name@ =~= rest@.take(k as int));
                    assert(reason@ =~= rest@.skip(k + 2));
                    Some(PrunedWorktree { name, reason })
                },
                None => {
                    proof {
                        crate::commands::remove::lemma_first_occurrence_none(rest@, ": "@, 0);
                    }
                    None
                },
            }
        },
        None => None,
    }
}

/// The note for one pruned worktree: `Pruned '<name>' (<reason>)`.
pub fn pruned_note(p: &PrunedWorktree) -> (r: String)
    ensures
        r@ == "Pruned '"@ + p.name@ + "' ("@ + p.reason@ + ")"@,
{
    let mut r = concat("Pruned '", p.name.as_str());
    push_str(&mut r, "' (");
    push_str(&mut r, p.reason.as_str());
    push_str(&mut r, ")");
    r
}

/// The closing line: `Pruned n stale worktree(s)`.
pub fn prune_summary(n: usize) -> (r: String)
    ensures
        r@ == "Pruned "@ + decimal(n as nat) + " stale "@ + if n == 1 {
            "worktree"@
        } else {
            "worktrees"@
        },
{
    let d = decimal_string(n);
    let mut r = concat("Pruned ", d.as_str());
    push_str(&mut r, " stale ");
    if n == 1 {
        push_str(&mut r, "worktree");
    } else {
        push_str(&mut r, "worktrees");
    }
    r
}

/// The pruned worktrees a report lists, in order; other lines are skipped.
pub open spec fn pruned_entries(ls: Seq<Seq<char>>) -> Seq<(Seq<char>, Seq<char>)>
    decreases ls.len(),
{
    if ls.len() == 0 {
        seq![]
    } else {
        let prev = pruned_entries(ls.drop_last());
        match pruned_entry(ls.last()) {
            Some(e) => prev.push(e),
            None => prev,
        }
    }
}

/// The views of pruned worktrees.
pub open spec fn pruned_views(v: Seq<PrunedWorktree>) -> Seq<(Seq<char>, Seq<char>)> {
    v.map_values(|p: PrunedWorktree| (p.name@, p.reason@))
}

/// The worktrees that `git worktree prune --verbose` reported removing.
pub fn pruned_worktrees(report: &str) -> (r: Vec<PrunedWorktree>)
    ensures
        pruned_views(r@) == pruned_entries(lines(report@)),
{
    let ls = split_lines(report);
    let ghost lv = lines(report@);
    let mut out: Vec<PrunedWorktree> = Vec::new();
    let mut i: usize = 0;
    while i < ls.len()
        invariant
            views(ls@) == lv,
            i <= ls.len(),
            pruned_views(out@) == pruned_entries(lv.take(i as int)),
        decreases ls.len() - i,
    {
        assert(lv[i as int] == ls@[i as int]@);
        assert(lv.take(i + 1).drop_last() =~= lv.take(i as int));
        match parse_pruned_line(ls[i].as_str()) {
            Some(p) => {
                let ghost before = out@;
                out.push(p);
                assert(pruned_views(out@) =~= pruned_views(before).push((p.name@, p.reason@)));
            },
            None => {},
        }
        i = i + 1;
    }
    assert(lv.take(ls.len() as int) =~= lv);
    out
}

} // verus!
