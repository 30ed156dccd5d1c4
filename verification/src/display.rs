//! What the user sees: worktree rows, summaries and path abbreviations.

use vstd::prelude::*;

use crate::git::commands::{state_views, WorktreeState};
use crate::git::runner::{concat, join_strings, join_with, opt_view};
use crate::git::types::WorktreeInfo;
use crate::paths::home_dir;
use crate::style::{paint, painted, plain_text, Paint};
use crate::text::{decimal, decimal_string, owned, push_str, views};

verus! {

/// The number of worktrees that satisfy `pred`.
pub open spec fn count(ws: Seq<WorktreeState>, pred: spec_fn(WorktreeState) -> bool) -> nat {
    ws.filter(pred).len()
}

/// A worktree with uncommitted changes.
pub open spec fn dirty_pred() -> spec_fn(WorktreeState) -> bool {
    |w: WorktreeState| w.dirty
}

/// A worktree with commits its upstream lacks.
pub open spec fn ahead_pred() -> spec_fn(WorktreeState) -> bool {
    |w: WorktreeState| w.tracking matches Some((a, b)) && a > 0
}

/// A worktree lacking commits of its upstream.
pub open spec fn behind_pred() -> spec_fn(WorktreeState) -> bool {
    |w: WorktreeState| w.tracking matches Some((a, b)) && b > 0
}

/// A worktree on a detached HEAD.
pub open spec fn detached_pred() -> spec_fn(WorktreeState) -> bool {
    |w: WorktreeState| w.branch is None
}

/// Counts over a set of worktrees.
#[derive(Debug, Clone, Copy, PartialEq, Eq, Structural)]
pub struct WorktreeSummary {
    pub total: usize,
    pub dirty: usize,
    pub ahead: usize,
    pub behind: usize,
    pub detached: usize,
}

/// `s` holds the counts of `ws`.
pub open spec fn summarizes(s: WorktreeSummary, ws: Seq<WorktreeState>) -> bool {
    &&& s.total == ws.len()
    &&& s.dirty == count(ws, dirty_pred())
    &&& s.ahead == count(ws, ahead_pred())
    &&& s.behind == count(ws, behind_pred())
    &&& s.detached == count(ws, detached_pred())
}

pub proof fn lemma_count_push(ws: Seq<WorktreeState>, w: WorktreeState, pred: spec_fn(WorktreeState) -> bool)
    ensures
        count(ws.push(w), pred) == count(ws, pred) + if pred(w) {
            1nat
        } else {
            0nat
        },
        count(ws, pred) <= ws.len(),
{
    broadcast use vstd::seq_lib::group_filter_ensures;

    ws.lemma_filter_push(w, pred);
}

/// Counts the worktrees that are dirty, ahead, behind and detached.
pub fn summarize(worktrees: &[WorktreeInfo]) -> (r: WorktreeSummary)
    ensures
        summarizes(r, state_views(worktrees@)),
{
    let ghost ws = state_views(worktrees@);
    let mut dirty: usize = 0;
    let mut ahead: usize = 0;
    let mut behind: usize = 0;
    let mut detached: usize = 0;
    let mut i: usize = 0;
    while i < worktrees.len()
        invariant
            ws == state_views(worktrees@),
            i <= worktrees.len(),
            dirty == count(ws.take(i as int), dirty_pred()),
            ahead == count(ws.take(i as int), ahead_pred()),
            behind == count(ws.take(i as int), behind_pred()),
            detached == count(ws.take(i as int), detached_pred()),
            dirty <= i && ahead <= i && behind <= i && detached <= i,
        decreases worktrees.len() - i,
    {
        let wt = &worktrees[i];
        let ghost w = ws[i as int];
        assert(w == wt@);
        assert(ws.take(i + 1) =~= ws.take(i as int).push(w));
        proof {
            lemma_count_push(ws.take(i as int), w, dirty_pred());
            lemma_count_push(ws.take(i as int), w, ahead_pred());
            lemma_count_push(ws.take(i as int), w, behind_pred());
            lemma_count_push(ws.take(i as int), w, detached_pred());
        }
        if wt.dirty {
            dirty = dirty + 1;
        }
        match wt.tracking {
            Some((a, b)) => {
                if a > 0 {
                    ahead = ahead + 1;
                }
                if b > 0 {
                    behind = behind + 1;
                }
            },
            None => {},
        }
        if wt.branch.is_none() {
            detached = detached + 1;
        }
        i = i + 1;
    }
    assert(ws.take(worktrees.len() as int) =~= ws);
    WorktreeSummary { total: worktrees.len(), dirty, ahead, behind, detached }
}

/// The labelled counts a summary lists, in order: only the non-zero ones.
pub open spec fn summary_parts(s: WorktreeSummary) -> Seq<(Seq<char>, Paint)> {
    let d = if s.dirty > 0 {
        seq![(decimal(s.dirty as nat) + " dirty"@, Paint::Yellow)]
    } else {
        seq![]
    };
    let a = if s.ahead > 0 {
        seq![(decimal(s.ahead as nat) + " ahead"@, Paint::Cyan)]
    } else {
        seq![]
    };
    let b = if s.behind > 0 {
        seq![(decimal(s.behind as nat) + " behind"@, Paint::Magenta)]
    } else {
        seq![]
    };
    let t = if s.detached > 0 {
        seq![(decimal(s.detached as nat) + " detached"@, Paint::Yellow)]
    } else {
        seq![]
    };
    d + a + b + t
}

/// `pieces` are the parts, each shown in its style.
pub open spec fn paints_parts(pieces: Seq<Seq<char>>, parts: Seq<(Seq<char>, Paint)>) -> bool {
    &&& pieces.len() == parts.len()
    &&& forall|i: int| 0 <= i < parts.len() ==> painted(#[trigger] pieces[i], parts[i].0, parts[i].1)
}

/// The details of a summary line: the parts joined by `, `, or `all clean`.
pub open spec fn summary_details(details: Seq<char>, s: WorktreeSummary) -> bool {
    if summary_parts(s).len() == 0 {
        painted(details, "all clean"@, Paint::Green)
    } else {
        exists|pieces: Seq<Seq<char>>|
            #[trigger] paints_parts(pieces, summary_parts(s)) && details == join_with(pieces, ", "@)
    }
}

/// The layout of a summary line around its painted pieces.
pub open spec fn summary_line(label: Seq<char>, dash: Seq<char>, total: usize, details: Seq<char>) -> Seq<char> {
    label + " "@ + dash + " "@ + decimal(total as nat) + " worktrees ("@ + details + ")"@
}

/// `out` is the summary line of `s` under `label`.
pub open spec fn is_summary_line(out: Seq<char>, label: Seq<char>, s: WorktreeSummary) -> bool {
    exists|l: Seq<char>, d: Seq<char>, det: Seq<char>|
        #[trigger] summary_line(l, d, s.total, det) == out && (plain_text(label) ==> painted(
            l,
            label,
            Paint::Bold,
        )) && painted(d, "\u{2014}"@, Paint::Dimmed) && summary_details(det, s)
}

/// The texts of the non-zero counts, with their styles.
pub fn summary_part_texts(s: &WorktreeSummary) -> (r: Vec<(String, Paint)>)
    ensures
        r@.map_values(|p: (String, Paint)| (p.0@, p.1)) == summary_parts(*s),
{
    let mut r: Vec<(String, Paint)> = Vec::new();
    let ghost spec_parts = summary_parts(*s);
    if s.dirty > 0 {
        let mut t = decimal_string(s.dirty);
        push_str(&mut t, " dirty");
        r.push((t, Paint::Yellow));
    }
    if s.ahead > 0 {
        let mut t = decimal_string(s.ahead);
        push_str(&mut t, " ahead");
        r.push((t, Paint::Cyan));
    }
    if s.behind > 0 {
        let mut t = decimal_string(s.behind);
        push_str(&mut t, " behind");
        r.push((t, Paint::Magenta));
    }
    if s.detached > 0 {
        let mut t = decimal_string(s.detached);
        push_str(&mut t, " detached");
        r.push((t, Paint::Yellow));
    }
    assert(r@.map_values(|p: (String, Paint)| (p.0@, p.1)) =~= spec_parts);
    r
}

/// `"{label} — {total} worktrees ({details})"`, with the label bold, the
/// dash dimmed, and each non-zero count colored (`all clean` when none is).
pub fn format_summary(label: &str, summary: &WorktreeSummary) -> (r: String)
    ensures
        is_summary_line(r@, label@, *summary),
{
    let parts = summary_part_texts(summary);
    let ghost spec_parts = summary_parts(*summary);
    let mut pieces: Vec<String> = Vec::new();
    let mut i: usize = 0;
    while i < parts.len()
        invariant
            parts@.map_values(|p: (String, Paint)| (p.0@, p.1)) == spec_parts,
            spec_parts == summary_parts(*summary),
            parts@.len() == spec_parts.len(),
            i <= parts.len(),
            paints_parts(views(pieces@), spec_parts.take(i as int)),
        decreases parts.len() - i,
    {
        assert(spec_parts[i as int] == (parts@[i as int].0@, parts@[i as int].1));
        proof {
            lemma_no_escape_in_part(*summary, i as int);
        }
        let piece = paint(parts[i].0.as_str(), parts[i].1);
        let ghost before = views(pieces@);
        pieces.push(piece);
        assert(views(pieces@) =~= before.push(piece@));
        assert(painted(piece@, spec_parts[i as int].0, spec_parts[i as int].1));
        assert(spec_parts.take(i + 1)[i as int] == spec_parts[i as int]);
        assert forall|j: int| 0 <= j < i + 1 implies painted(
            #[trigger] views(pieces@)[j],
            spec_parts.take(i + 1)[j].0,
            spec_parts.take(i + 1)[j].1,
        ) by {
            if j < i {
                assert(before[j] == views(pieces@)[j]);
                assert(spec_parts.take(i as int)[j] == spec_parts.take(i + 1)[j]);
            }
        }
        i = i + 1;
    }
    assert(spec_parts.take(parts.len() as int) =~= spec_parts);
    let details = if pieces.len() == 0 {
        proof {
            reveal_strlit("all clean");
            lemma_plain_literal_all_clean();
        }
        paint("all clean", Paint::Green)
    } else {
        let d = join_strings(&pieces, ", ");
        assert(paints_parts(views(pieces@), spec_parts) && d@ == join_with(views(pieces@), ", "@));
        d
    };
    let l = paint(label, Paint::Bold);
    proof {
        lemma_plain_literal_dash();
    }
    let dash = paint("\u{2014}", Paint::Dimmed);
    let mut r = l.clone();
    push_str(&mut r, " ");
    push_str(&mut r, dash.as_str());
    push_str(&mut r, " ");
    let total = decimal_string(summary.total);
    push_str(&mut r, total.as_str());
    push_str(&mut r, " worktrees (");
    push_str(&mut r, details.as_str());
    push_str(&mut r, ")");
    assert(summary_line(l@, dash@, summary.total, details@) =~= r@);
    assert(summary_details(details@, *summary));
    r
}

/// A text without the escape character has no reset sequence in it.
pub proof fn lemma_plain_if_no_escape(text: Seq<char>)
    requires
        !text.contains('\u{1b}'),
    ensures
        plain_text(text),
{
    if crate::text::contains_seq(text, crate::style::reset_sequence()) {
        let i = choose|i: int| crate::text::occurs_at(text, crate::style::reset_sequence(), i);
        assert(text.subrange(i, i + 4)[0] == text[i]);
    }
}

proof fn lemma_plain_literal_all_clean()
    ensures
        plain_text("all clean"@),
{
    reveal_strlit("all clean");
    lemma_plain_if_no_escape("all clean"@);
}

proof fn lemma_plain_literal_dash()
    ensures
        plain_text("\u{2014}"@),
{
    reveal_strlit("\u{2014}");
    lemma_plain_if_no_escape("\u{2014}"@);
}

/// Decimal digits contain no escape character.
pub proof fn lemma_decimal_no_escape(n: nat)
    ensures
        !decimal(n).contains('\u{1b}'),
    decreases n,
{
    if n >= 10 {
        lemma_decimal_no_escape(n / 10);
        let d = decimal(n / 10);
        assert(decimal(n) == d.push(crate::text::digit_char(n % 10)));
        assert forall|i: int| 0 <= i < decimal(n).len() implies decimal(n)[i] != '\u{1b}' by {
            if i < d.len() {
                assert(decimal(n)[i] == d[i]);
            }
        }
    }
}

/// The count texts of a summary are plain.
pub proof fn lemma_no_escape_in_part(s: WorktreeSummary, i: int)
    requires
        0 <= i < summary_parts(s).len(),
    ensures
        plain_text(summary_parts(s)[i].0),
{
    let t = summary_parts(s)[i].0;
    reveal_strlit(" dirty");
    reveal_strlit(" ahead");
    reveal_strlit(" behind");
    reveal_strlit(" detached");
    lemma_decimal_no_escape(s.dirty as nat);
    lemma_decimal_no_escape(s.ahead as nat);
    lemma_decimal_no_escape(s.behind as nat);
    lemma_decimal_no_escape(s.detached as nat);
    assert forall|k: int| 0 <= k < t.len() implies t[k] != '\u{1b}' by {}
    lemma_plain_if_no_escape(t);
}

/// The text and style of a cell.
pub type Cell = (Seq<char>, Paint);

/// `out` shows the cell: its text in its style (when the text is plain).
pub open spec fn shows_cell(out: Seq<char>, cell: Cell) -> bool {
    plain_text(cell.0) ==> painted(out, cell.0, cell.1)
}

/// The branch column: the name in bold, or a yellow `(detached)`.
pub open spec fn branch_cell(branch: Option<Seq<char>>) -> Cell {
    match branch {
        Some(name) => (name, Paint::Bold),
        None => ("(detached)"@, Paint::Yellow),
    }
}

/// The state column: a yellow cross for a dirty worktree, a green check otherwise.
pub open spec fn state_cell(dirty: bool) -> Cell {
    if dirty {
        ("\u{2717}"@, Paint::Yellow)
    } else {
        ("\u{2713}"@, Paint::Green)
    }
}

/// The tracking column: `=` when even with the upstream, `↑n` ahead, `↓n`
/// behind, both when diverged, and a dimmed dash without an upstream.
pub open spec fn tracking_cell(tracking: Option<(usize, usize)>) -> Cell {
    match tracking {
        Some((ahead, behind)) => {
            if ahead == 0 && behind == 0 {
                ("="@, Paint::Green)
            } else if behind == 0 {
                ("\u{2191}"@ + decimal(ahead as nat), Paint::Cyan)
            } else if ahead == 0 {
                ("\u{2193}"@ + decimal(behind as nat), Paint::Magenta)
            } else {
                (
                    "\u{2191}"@ + decimal(ahead as nat) + " \u{2193}"@ + decimal(behind as nat),
                    Paint::Magenta,
                )
            }
        },
        None => ("\u{2014}"@, Paint::Dimmed),
    }
}

/// The branch column of a worktree.
pub fn colored_branch(entry: &WorktreeInfo) -> (r: String)
    ensures
        shows_cell(r@, branch_cell(entry.branch.deep_view())),
{
    match &entry.branch {
        Some(name) => paint(name.as_str(), Paint::Bold),
        None => paint("(detached)", Paint::Yellow),
    }
}

/// The state column of a worktree.
pub fn colored_state(entry: &WorktreeInfo) -> (r: String)
    ensures
        shows_cell(r@, state_cell(entry.dirty)),
{
    if entry.dirty {
        paint("\u{2717}", Paint::Yellow)
    } else {
        paint("\u{2713}", Paint::Green)
    }
}

/// The text of the tracking column.
pub fn tracking_text(tracking: Option<(usize, usize)>) -> (r: (String, Paint))
    ensures
        (r.0@, r.1) == tracking_cell(tracking),
{
    match tracking {
        Some((ahead, behind)) => {
            if ahead == 0 && behind == 0 {
                (owned("="), Paint::Green)
            } else if behind == 0 {
                let n = decimal_string(ahead);
                (concat("\u{2191}", n.as_str()), Paint::Cyan)
            } else if ahead == 0 {
                let n = decimal_string(behind);
                (concat("\u{2193}", n.as_str()), Paint::Magenta)
            } else {
                let a = decimal_string(ahead);
                let b = decimal_string(behind);
                let mut t = concat("\u{2191}", a.as_str());
                push_str(&mut t, " \u{2193}");
                push_str(&mut t, b.as_str());
                (t, Paint::Magenta)
            }
        },
        None => (owned("\u{2014}"), Paint::Dimmed),
    }
}

/// The tracking column of a worktree.
pub fn colored_tracking(entry: &WorktreeInfo) -> (r: String)
    ensures
        shows_cell(r@, tracking_cell(entry.tracking)),
{
    let (t, p) = tracking_text(entry.tracking);
    paint(t.as_str(), p)
}

/// The relative path that `Path::strip_prefix` leaves of `path` below `base`
/// (component-wise), displayed; `None` when `path` is not below `base`.
pub uninterp spec fn path_below(path: Seq<char>, base: Seq<char>) -> Option<Seq<char>>;

/// Trusted: `std::path::Path::strip_prefix` on `path` and `base`, displayed.
#[verifier::external_body]
fn relative_path(path: &str, base: &str) -> (r: Option<String>)
    ensures
        r.deep_view() == path_below(path@, base@),
{
    std::path::Path::new(path).strip_prefix(base).ok().map(|p| p.display().to_string())
}

/// `path` with the home directory `home` written as `~`: `~/` and the part
/// of `path` below `home`; `path` itself when it is not below `home` or the
/// home directory is unknown (`None`).
pub open spec fn shortened(path: Seq<char>, home: Option<Seq<char>>) -> Seq<char> {
    match home {
        Some(h) => match path_below(path, h) {
            Some(t) => "~/"@ + t,
            None => path,
        },
        None => path,
    }
}

/// `short` is `path` shortened against some home directory (or none).
pub open spec fn abbreviates(short: Seq<char>, path: Seq<char>) -> bool {
    exists|home: Option<Seq<char>>| #[trigger] shortened(path, home) == short
}

/// The abbreviation of `path`, given its part below the home directory.
pub fn shorten_path_with(path: &str, below_home: Option<&str>) -> (r: String)
    ensures
        r@ == match below_home {
            Some(rel) => "~/"@ + rel@,
            None => path@,
        },
{
    match below_home {
        Some(rel) => concat("~/", rel),
        None => owned(path),
    }
}

/// `path` with the given home directory (`None` when unknown) written as `~`.
pub fn shorten_path_in(path: &str, home: Option<&str>) -> (r: String)
    ensures
        r@ == shortened(path@, opt_view(home)),
{
    match home {
        Some(h) => {
            let rel = relative_path(path, h);
            match rel {
                Some(t) => {
                    assert(path_below(path@, h@) == Some(t@));
                    shorten_path_with(path, Some(t.as_str()))
                },
                None => shorten_path_with(path, None),
            }
        },
        None => shorten_path_with(path, None),
    }
}

/// `path` with the user's home directory written as `~`: `shorten_path_in`
/// applied to what `home_dir` reads from the environment.
pub fn shorten_path(path: &str) -> (r: String)
    ensures
        abbreviates(r@, path@),
{
    let home = home_dir();
    let r = match &home {
        Some(h) => shorten_path_in(path, Some(h.as_str())),
        None => shorten_path_in(path, None),
    };
    assert(shortened(path@, home.deep_view()) == r@);
    r
}

/// The hint for changing into `path`, given the home directory: `cd ` and
/// the path, shortened.
pub fn cd_hint_in(path: &str, home: Option<&str>) -> (r: String)
    ensures
        r@ == "cd "@ + shortened(path@, opt_view(home)),
{
    let short = shorten_path_in(path, home);
    concat("cd ", short.as_str())
}

/// The hint for changing into `path`: `cd_hint_in` with the user's home
/// directory as `home_dir` reads it.
pub fn cd_hint(path: &str) -> (r: String)
    ensures
        exists|home: Option<Seq<char>>| r@ == "cd "@ + #[trigger] shortened(path@, home),
{
    let home = home_dir();
    let r = match &home {
        Some(h) => cd_hint_in(path, Some(h.as_str())),
        None => cd_hint_in(path, None),
    };
    assert(r@ == "cd "@ + shortened(path@, home.deep_view()));
    r
}

/// The layout of a worktree item: four columns separated by two spaces.
pub open spec fn item_line(b: Seq<char>, st: Seq<char>, tr: Seq<char>, p: Seq<char>) -> Seq<char> {
    b + "  "@ + st + "  "@ + tr + "  "@ + p
}

/// `item` shows worktree `e` as a selection item, its path shortened
/// against `home`.
pub open spec fn shows_item(item: Seq<char>, e: WorktreeState, home: Option<Seq<char>>) -> bool {
    exists|b: Seq<char>, st: Seq<char>, tr: Seq<char>, p: Seq<char>|
        #[trigger] item_line(b, st, tr, p) == item && shows_cell(b, branch_cell(e.branch))
            && shows_cell(st, state_cell(e.dirty)) && shows_cell(tr, tracking_cell(e.tracking))
            && shows_cell(p, (shortened(e.path, home), Paint::Dimmed))
}

/// One worktree as a selection item, given the home directory: branch,
/// state, tracking and the dimmed, shortened path.
pub fn format_worktree_item_in(entry: &WorktreeInfo, home: Option<&str>) -> (r: String)
    ensures
        shows_item(r@, entry@, opt_view(home)),
{
    let b = colored_branch(entry);
    let st = colored_state(entry);
    let tr = colored_tracking(entry);
    let short = shorten_path_in(entry.path.as_str(), home);
    let p = paint(short.as_str(), Paint::Dimmed);
    let mut r = b.clone();
    push_str(&mut r, "  ");
    push_str(&mut r, st.as_str());
    push_str(&mut r, "  ");
    push_str(&mut r, tr.as_str());
    push_str(&mut r, "  ");
    push_str(&mut r, p.as_str());
    assert(item_line(b@, st@, tr@, p@) =~= r@);
    assert(shows_cell(p@, (short@, Paint::Dimmed)));
    r
}

/// One worktree as a selection item: `format_worktree_item_in` with the
/// user's home directory as `home_dir` reads it.
pub fn format_worktree_item(entry: &WorktreeInfo) -> (r: String)
    ensures
        exists|home: Option<Seq<char>>| #[trigger] shows_item(r@, entry@, home),
{
    let home = home_dir();
    let r = match &home {
        Some(h) => format_worktree_item_in(entry, Some(h.as_str())),
        None => format_worktree_item_in(entry, None),
    };
    assert(shows_item(r@, entry@, home.deep_view()));
    r
}

/// The column titles of the worktree table, dimmed; `Path` only when paths are shown.
pub fn table_header(show_paths: bool) -> (r: Vec<String>)
    ensures
        r.len() == if show_paths { 4int } else { 3int },
        shows_cell(r@[0]@, ("Branch"@, Paint::Dimmed)),
        shows_cell(r@[1]@, ("State"@, Paint::Dimmed)),
        shows_cell(r@[2]@, ("Tracking"@, Paint::Dimmed)),
        show_paths ==> shows_cell(r@[3]@, ("Path"@, Paint::Dimmed)),
{
    let mut r = vec![
        paint("Branch", Paint::Dimmed),
        paint("State", Paint::Dimmed),
        paint("Tracking", Paint::Dimmed),
    ];
    if show_paths {
        r.push(paint("Path", Paint::Dimmed));
    }
    r
}

/// `row` shows worktree `e` as a table row, its path (when shown)
/// shortened against `home`.
pub open spec fn shows_row(row: Seq<Seq<char>>, e: WorktreeState, show_paths: bool, home: Option<Seq<char>>) -> bool {
    &&& row.len() == if show_paths { 4int } else { 3int }
    &&& shows_cell(row[0], branch_cell(e.branch))
    &&& shows_cell(row[1], state_cell(e.dirty))
    &&& shows_cell(row[2], tracking_cell(e.tracking))
    &&& show_paths ==> shows_cell(row[3], (shortened(e.path, home), Paint::Dimmed))
}

/// One row of the worktree table, given the home directory.
pub fn table_row_in(entry: &WorktreeInfo, show_paths: bool, home: Option<&str>) -> (r: Vec<String>)
    ensures
        shows_row(views(r@), entry@, show_paths, opt_view(home)),
{
    let mut r = vec![colored_branch(entry), colored_state(entry), colored_tracking(entry)];
    if show_paths {
        let short = shorten_path_in(entry.path.as_str(), home);
        let p = paint(short.as_str(), Paint::Dimmed);
        r.push(p);
        assert(shows_cell(r@[3]@, (short@, Paint::Dimmed)));
    }
    assert(views(r@)[0] == r@[0]@ && views(r@)[1] == r@[1]@ && views(r@)[2] == r@[2]@);
    assert(show_paths ==> views(r@)[3] == r@[3]@);
    r
}

/// One row of the worktree table: `table_row_in` with the user's home
/// directory as `home_dir` reads it.
pub fn table_row(entry: &WorktreeInfo, show_paths: bool) -> (r: Vec<String>)
    ensures
        exists|home: Option<Seq<char>>| #[trigger] shows_row(views(r@), entry@, show_paths, home),
{
    let home = home_dir();
    let r = match &home {
        Some(h) => table_row_in(entry, show_paths, Some(h.as_str())),
        None => table_row_in(entry, show_paths, None),
    };
    assert(shows_row(views(r@), entry@, show_paths, home.deep_view()));
    r
}

/// `"{▸} Fetched {success}/{total} repositories ({failed} failed)"` when some
/// failed, else `"{▸} Fetched {total} repository"` (or `repositories`).
pub open spec fn fetch_summary_line(marker: Seq<char>, failed_p: Seq<char>, success: nat, failed: nat) -> Seq<char> {
    let total = success + failed;
    if failed > 0 {
        marker + " Fetched "@ + decimal(success) + "/"@ + decimal(total) + " repositories ("@ + failed_p
            + " failed)"@
    } else {
        marker + " Fetched "@ + decimal(total) + if total == 1 {
            " repository"@
        } else {
            " repositories"@
        }
    }
}

/// The line closing a fetch across repositories.
pub fn fetch_summary(success: usize, failed: usize) -> (r: String)
    requires
        success + failed <= usize::MAX,
    ensures
        exists|m: Seq<char>, f: Seq<char>|
            #[trigger] fetch_summary_line(m, f, success as nat, failed as nat) == r@ && painted(
                m,
                "\u{25b8}"@,
                Paint::Dimmed,
            ) && (failed > 0 ==> painted(f, decimal(failed as nat), Paint::Red)),
{
    let total = success + failed;
    proof {
        reveal_strlit("\u{25b8}");
        lemma_plain_if_no_escape("\u{25b8}"@);
    }
    let marker = paint("\u{25b8}", Paint::Dimmed);
    let mut r = marker.clone();
    push_str(&mut r, " Fetched ");
    if failed > 0 {
        let s = decimal_string(success);
        let t = decimal_string(total);
        let fd = decimal_string(failed);
        proof {
            lemma_decimal_no_escape(failed as nat);
            lemma_plain_if_no_escape(fd@);
        }
        let f = paint(fd.as_str(), Paint::Red);
        push_str(&mut r, s.as_str());
        push_str(&mut r, "/");
        push_str(&mut r, t.as_str());
        push_str(&mut r, " repositories (");
        push_str(&mut r, f.as_str());
        push_str(&mut r, " failed)");
        assert(fetch_summary_line(marker@, f@, success as nat, failed as nat) =~= r@);
    } else {
        let t = decimal_string(total);
        push_str(&mut r, t.as_str());
        if total == 1 {
            push_str(&mut r, " repository");
        } else {
            push_str(&mut r, " repositories");
        }
        assert(fetch_summary_line(marker@, marker@, success as nat, failed as nat) =~= r@);
    }
    r
}

/// The sum of one count over several summaries.
pub open spec fn sum_of(ss: Seq<WorktreeSummary>, field: spec_fn(WorktreeSummary) -> usize) -> nat
    decreases ss.len(),
{
    if ss.len() == 0 {
        0
    } else {
        sum_of(ss.drop_last(), field) + field(ss.last()) as nat
    }
}

pub open spec fn total_of() -> spec_fn(WorktreeSummary) -> usize {
    |s: WorktreeSummary| s.total
}

pub open spec fn dirty_of() -> spec_fn(WorktreeSummary) -> usize {
    |s: WorktreeSummary| s.dirty
}

pub open spec fn ahead_of() -> spec_fn(WorktreeSummary) -> usize {
    |s: WorktreeSummary| s.ahead
}

pub open spec fn behind_of() -> spec_fn(WorktreeSummary) -> usize {
    |s: WorktreeSummary| s.behind
}

pub open spec fn detached_of() -> spec_fn(WorktreeSummary) -> usize {
    |s: WorktreeSummary| s.detached
}

/// Every aggregate count of `ss` fits in a `usize`.
pub open spec fn sums_fit(ss: Seq<WorktreeSummary>) -> bool {
    &&& sum_of(ss, total_of()) <= usize::MAX
    &&& sum_of(ss, dirty_of()) <= usize::MAX
    &&& sum_of(ss, ahead_of()) <= usize::MAX
    &&& sum_of(ss, behind_of()) <= usize::MAX
    &&& sum_of(ss, detached_of()) <= usize::MAX
}

/// A prefix's sum is at most the whole sum.
pub proof fn lemma_sum_prefix(ss: Seq<WorktreeSummary>, field: spec_fn(WorktreeSummary) -> usize, k: int)
    requires
        0 <= k <= ss.len(),
    ensures
        sum_of(ss.take(k), field) <= sum_of(ss, field),
    decreases ss.len() - k,
{
    if k < ss.len() {
        lemma_sum_prefix(ss, field, k + 1);
        assert(ss.take(k + 1).drop_last() =~= ss.take(k));
    } else {
        assert(ss.take(k) =~= ss);
    }
}

/// The summaries of several repositories added up.
pub fn aggregate(summaries: &[WorktreeSummary]) -> (r: WorktreeSummary)
    requires
        sums_fit(summaries@),
    ensures
        r.total == sum_of(summaries@, total_of()),
        r.dirty == sum_of(summaries@, dirty_of()),
        r.ahead == sum_of(summaries@, ahead_of()),
        r.behind == sum_of(summaries@, behind_of()),
        r.detached == sum_of(summaries@, detached_of()),
{
    let ghost ss = summaries@;
    let mut acc = WorktreeSummary { total: 0, dirty: 0, ahead: 0, behind: 0, detached: 0 };
    let mut i: usize = 0;
    while i < summaries.len()
        invariant
            ss == summaries@,
            sums_fit(ss),
            i <= summaries.len(),
            acc.total == sum_of(ss.take(i as int), total_of()),
            acc.dirty == sum_of(ss.take(i as int), dirty_of()),
            acc.ahead == sum_of(ss.take(i as int), ahead_of()),
            acc.behind == sum_of(ss.take(i as int), behind_of()),
            acc.detached == sum_of(ss.take(i as int), detached_of()),
        decreases summaries.len() - i,
    {
        let s = summaries[i];
        assert(ss.take(i + 1).drop_last() =~= ss.take(i as int));
        proof {
            lemma_sum_prefix(ss, total_of(), i + 1);
            lemma_sum_prefix(ss, dirty_of(), i + 1);
            lemma_sum_prefix(ss, ahead_of(), i + 1);
            lemma_sum_prefix(ss, behind_of(), i + 1);
            lemma_sum_prefix(ss, detached_of(), i + 1);
        }
        acc = WorktreeSummary {
            total: acc.total + s.total,
            dirty: acc.dirty + s.dirty,
            ahead: acc.ahead + s.ahead,
            behind: acc.behind + s.behind,
            detached: acc.detached + s.detached,
        };
        i = i + 1;
    }
    assert(ss.take(summaries.len() as int) =~= ss);
    acc
}

/// `Total (n repo)` or `Total (n repos)`.
pub open spec fn batch_label_text(repos: nat) -> Seq<char> {
    "Total ("@ + decimal(repos) + if repos == 1 {
        " repo)"@
    } else {
        " repos)"@
    }
}

/// The label of the aggregate line.
pub fn batch_label(repos: usize) -> (r: String)
    ensures
        r@ == batch_label_text(repos as nat),
{
    let n = decimal_string(repos);
    let mut r = concat("Total (", n.as_str());
    if repos == 1 {
        push_str(&mut r, " repo)");
    } else {
        push_str(&mut r, " repos)");
    }
    r
}

/// The aggregate summary line over several repositories.
pub fn batch_summary(summaries: &[WorktreeSummary]) -> (r: String)
    requires
        sums_fit(summaries@),
    ensures
        exists|agg: WorktreeSummary|
            agg.total == sum_of(summaries@, total_of()) && agg.dirty == sum_of(summaries@, dirty_of())
                && agg.ahead == sum_of(summaries@, ahead_of()) && agg.behind == sum_of(
                summaries@,
                behind_of(),
            ) && agg.detached == sum_of(summaries@, detached_of()) && #[trigger] is_summary_line(
                r@,
                batch_label_text(summaries@.len()),
                agg,
            ),
{
    let agg = aggregate(summaries);
    let label = batch_label(summaries.len());
    let r = format_summary(label.as_str(), &agg);
    assert(is_summary_line(r@, label@, agg));
    r
}

/// No count exceeds the number of worktrees.
pub proof fn law_summary_counts_bounded(s: WorktreeSummary, ws: Seq<WorktreeState>)
    requires
        summarizes(s, ws),
    ensures
        s.dirty <= s.total,
        s.ahead <= s.total,
        s.behind <= s.total,
        s.detached <= s.total,
{
    broadcast use vstd::seq_lib::group_filter_ensures;

    let _ = ws.filter(dirty_pred());
    let _ = ws.filter(ahead_pred());
    let _ = ws.filter(behind_pred());
    let _ = ws.filter(detached_pred());
}

/// Adding one worktree to those summarized adds one to each count that it
/// meets, and nothing to the others: it counts as dirty when it has
/// uncommitted changes, as ahead when it has an upstream and is ahead of it
/// (however far behind it also is), as behind when it has an upstream and is
/// behind it (however far ahead), and as detached when it is on no branch.
/// No worktrees give all counts zero.
pub proof fn law_summary_counts_each_worktree(
    ws: Seq<WorktreeState>,
    w: WorktreeState,
    before: WorktreeSummary,
    after: WorktreeSummary,
)
    requires
        summarizes(before, ws),
        summarizes(after, ws.push(w)),
    ensures
        after.total == before.total + 1,
        after.dirty == before.dirty + if w.dirty { 1int } else { 0int },
        after.ahead == before.ahead + match w.tracking {
            Some((a, _)) => if a > 0 { 1int } else { 0int },
            None => 0int,
        },
        after.behind == before.behind + match w.tracking {
            Some((_, b)) => if b > 0 { 1int } else { 0int },
            None => 0int,
        },
        after.detached == before.detached + if w.branch is None { 1int } else { 0int },
        ws.len() == 0 ==> before.total == 0 && before.dirty == 0 && before.ahead == 0
            && before.behind == 0 && before.detached == 0,
{
    broadcast use vstd::seq_lib::group_filter_ensures;

    lemma_count_push(ws, w, dirty_pred());
    lemma_count_push(ws, w, ahead_pred());
    lemma_count_push(ws, w, behind_pred());
    lemma_count_push(ws, w, detached_pred());
    if ws.len() == 0 {
        let _ = ws.filter(dirty_pred());
        let _ = ws.filter(ahead_pred());
        let _ = ws.filter(behind_pred());
        let _ = ws.filter(detached_pred());
    }
}

/// Every non-zero count of a summary is listed, as its decimal value and
/// its label, in the summary's color for it; nothing is listed exactly when
/// all four counts are zero, and then the details read `all clean`.
pub proof fn law_summary_lists_every_count(s: WorktreeSummary, details: Seq<char>)
    ensures
        s.dirty > 0 ==> summary_parts(s).contains((decimal(s.dirty as nat) + " dirty"@, Paint::Yellow)),
        s.ahead > 0 ==> summary_parts(s).contains((decimal(s.ahead as nat) + " ahead"@, Paint::Cyan)),
        s.behind > 0 ==> summary_parts(s).contains(
            (decimal(s.behind as nat) + " behind"@, Paint::Magenta),
        ),
        s.detached > 0 ==> summary_parts(s).contains(
            (decimal(s.detached as nat) + " detached"@, Paint::Yellow),
        ),
        (summary_parts(s).len() == 0) <==> (s.dirty == 0 && s.ahead == 0 && s.behind == 0
            && s.detached == 0),
        summary_details(details, s) && s.dirty == 0 && s.ahead == 0 && s.behind == 0 && s.detached
            == 0 ==> painted(details, "all clean"@, Paint::Green),
{
    let d = if s.dirty > 0 { seq![(decimal(s.dirty as nat) + " dirty"@, Paint::Yellow)] } else { seq![] };
    let a = if s.ahead > 0 { seq![(decimal(s.ahead as nat) + " ahead"@, Paint::Cyan)] } else { seq![] };
    let b = if s.behind > 0 { seq![(decimal(s.behind as nat) + " behind"@, Paint::Magenta)] } else { seq![] };
    let t = if s.detached > 0 { seq![(decimal(s.detached as nat) + " detached"@, Paint::Yellow)] } else { seq![] };
    let parts = summary_parts(s);
    assert(parts == d + a + b + t);
    if s.dirty > 0 {
        assert(parts[0] == d[0]);
    }
    if s.ahead > 0 {
        assert(parts[d.len() as int] == a[0]);
    }
    if s.behind > 0 {
        assert(parts[(d.len() + a.len()) as int] == b[0]);
    }
    if s.detached > 0 {
        assert(parts[(d.len() + a.len() + b.len()) as int] == t[0]);
    }
}

/// The tracking column reads `=` exactly when the worktree is even with its
/// upstream. Ahead only, it reads `↑` and the count in cyan; behind only,
/// `↓` and the count in magenta; both ahead and behind, `↑a ↓b` in magenta;
/// without an upstream, a dimmed dash.
pub proof fn law_tracking_cell_shows_both_counts(a: usize, b: usize)
    ensures
        (tracking_cell(Some((a, b))).0 == "="@) <==> (a == 0 && b == 0),
        a == 0 && b == 0 ==> tracking_cell(Some((a, b))) == ("="@, Paint::Green),
        a > 0 && b == 0 ==> tracking_cell(Some((a, b))) == ("\u{2191}"@ + decimal(a as nat), Paint::Cyan),
        a == 0 && b > 0 ==> tracking_cell(Some((a, b))) == ("\u{2193}"@ + decimal(b as nat), Paint::Magenta),
        a > 0 && b > 0 ==> tracking_cell(Some((a, b))) == (
            "\u{2191}"@ + decimal(a as nat) + " \u{2193}"@ + decimal(b as nat),
            Paint::Magenta,
        ),
        tracking_cell(None) == ("\u{2014}"@, Paint::Dimmed),
{
    reveal_strlit("=");
    reveal_strlit("\u{2191}");
    reveal_strlit("\u{2193}");
    reveal_strlit(" \u{2193}");
    let t = tracking_cell(Some((a, b))).0;
    if !(a == 0 && b == 0) {
        assert(t[0] != '=');
    }
}

/// Counting is additive over concatenation.
pub proof fn lemma_count_add(a: Seq<WorktreeState>, b: Seq<WorktreeState>, pred: spec_fn(WorktreeState) -> bool)
    ensures
        count(a + b, pred) == count(a, pred) + count(b, pred),
{
    Seq::filter_distributes_over_add(a, b, pred);
}

/// The aggregate over several repositories counts exactly what one summary
/// of all their worktrees together would.
pub proof fn law_batch_counts_add_up(groups: Seq<Seq<WorktreeState>>, ss: Seq<WorktreeSummary>)
    requires
        ss.len() == groups.len(),
        forall|i: int| 0 <= i < ss.len() ==> summarizes(#[trigger] ss[i], groups[i]),
    ensures
        sum_of(ss, total_of()) == groups.flatten().len(),
        sum_of(ss, dirty_of()) == count(groups.flatten(), dirty_pred()),
        sum_of(ss, ahead_of()) == count(groups.flatten(), ahead_pred()),
        sum_of(ss, behind_of()) == count(groups.flatten(), behind_pred()),
        sum_of(ss, detached_of()) == count(groups.flatten(), detached_pred()),
    decreases ss.len(),
{
    if ss.len() == 0 {
        assert(groups.flatten() =~= Seq::<WorktreeState>::empty());
        assert(Seq::<WorktreeState>::empty().filter(dirty_pred()) =~= Seq::<WorktreeState>::empty());
        assert(Seq::<WorktreeState>::empty().filter(ahead_pred()) =~= Seq::<WorktreeState>::empty());
        assert(Seq::<WorktreeState>::empty().filter(behind_pred()) =~= Seq::<WorktreeState>::empty());
        assert(Seq::<WorktreeState>::empty().filter(detached_pred())
            =~= Seq::<WorktreeState>::empty());
    } else {
        let n = ss.len() - 1;
        assert forall|i: int| 0 <= i < ss.drop_last().len() implies summarizes(
            #[trigger] ss.drop_last()[i],
            groups.drop_last()[i],
        ) by {
            assert(ss.drop_last()[i] == ss[i]);
            assert(summarizes(ss[i], groups[i]));
        }
        law_batch_counts_add_up(groups.drop_last(), ss.drop_last());
        assert(groups.drop_last().push(groups.last()) =~= groups);
        groups.drop_last().lemma_flatten_push(groups.last());
        assert(summarizes(ss[n], groups[n]));
        lemma_count_add(groups.drop_last().flatten(), groups.last(), dirty_pred());
        lemma_count_add(groups.drop_last().flatten(), groups.last(), ahead_pred());
        lemma_count_add(groups.drop_last().flatten(), groups.last(), behind_pred());
        lemma_count_add(groups.drop_last().flatten(), groups.last(), detached_pred());
    }
}

} // verus!
