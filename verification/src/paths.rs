//! File-system paths as strings, with the meaning `std::path` gives them on Unix.

use vstd::prelude::*;

use crate::text::{chars_of, owned, push_char, push_str, starts_with, string_from_range};

verus! {

/// A path is absolute when it starts at the root.
pub open spec fn is_absolute(p: Seq<char>) -> bool {
    p.len() > 0 && p[0] == '/'
}

/// `base` joined with `p`, as `Path::join` does: an absolute `p` replaces
/// `base`; otherwise a `/` separates them unless `base` is empty or already
/// ends in one.
pub open spec fn joined(base: Seq<char>, p: Seq<char>) -> Seq<char> {
    if is_absolute(p) {
        p
    } else if base.len() == 0 || base.last() == '/' {
        base + p
    } else {
        base + seq!['/'] + p
    }
}

/// `base` joined with `p`.
pub fn join(base: &str, p: &str) -> (r: String)
    ensures
        r@ == joined(base@, p@),
{
    let pv = chars_of(p);
    if pv.len() > 0 && pv[0] == '/' {
        return owned(p);
    }
    let bv = chars_of(base);
    let mut r = owned(base);
    if !(bv.len() == 0 || bv[bv.len() - 1] == '/') {
        push_char(&mut r, '/');
    }
    push_str(&mut r, p);
    r
}

/// The position of the last `c` in `s`, or `-1`.
pub open spec fn rfind(s: Seq<char>, c: char) -> int
    decreases s.len(),
{
    if s.len() == 0 {
        -1
    } else if s.last() == c {
        s.len() - 1
    } else {
        rfind(s.drop_last(), c)
    }
}

pub proof fn lemma_rfind_bounds(s: Seq<char>, c: char)
    ensures
        -1 <= rfind(s, c) < s.len(),
        rfind(s, c) >= 0 ==> s[rfind(s, c)] == c,
        forall|j: int| rfind(s, c) < j < s.len() ==> s[j] != c,
    decreases s.len(),
{
    if s.len() > 0 && s.last() != c {
        lemma_rfind_bounds(s.drop_last(), c);
        assert forall|j: int| rfind(s, c) < j < s.len() implies s[j] != c by {
            if j < s.len() - 1 {
                assert(s.drop_last()[j] == s[j]);
            }
        }
    }
}

/// The final component of a path, as `Path::file_name` gives it: the last
/// segment between slashes that is neither empty nor `.`; `None` when there
/// is none or when it is `..`.
pub open spec fn file_name(p: Seq<char>) -> Option<Seq<char>>
    decreases p.len(),
{
    let k = rfind(p, '/');
    let seg = p.skip(k + 1);
    if seg.len() > 0 && seg != seq!['.'] {
        if seg == seq!['.', '.'] {
            None
        } else {
            Some(seg)
        }
    } else if k < 0 {
        None
    } else {
        proof {
            lemma_rfind_bounds(p, '/');
        }
        file_name(p.take(k))
    }
}

/// The final component of a path.
pub fn final_component(p: &str) -> (r: Option<String>)
    ensures
        r.deep_view() == file_name(p@),
{
    let v = chars_of(p);
    let mut end = v.len();
    assert(v@.take(end as int) =~= v@);
    loop
        invariant
            v@ == p@,
            end <= v.len(),
            file_name(v@.take(end as int)) == file_name(p@),
        decreases end,
    {
        let ghost cur = v@.take(end as int);
        let mut k = end;
        while k > 0 && v[k - 1] != '/'
            invariant
                k <= end <= v.len(),
                forall|j: int| k <= j < end ==> v@[j] != '/',
            decreases k,
        {
            k = k - 1;
        }
        proof {
            lemma_rfind_bounds(cur, '/');
            if k > 0 {
                assert(cur[k - 1] == '/');
                lemma_rfind_is(cur, '/', k - 1);
            } else {
                lemma_rfind_none(cur, '/');
            }
        }
        let seg_len = end - k;
        let is_dot = seg_len == 1 && v[k] == '.';
        let ghost seg = cur.skip(k as int);
        assert(seg =~= v@.subrange(k as int, end as int));
        if seg_len > 0 && !is_dot {
            if seg_len == 1 {
                assert(seg[0] == v@[k as int]);
                assert(seg != seq!['.']);
            }
            if seg_len == 2 && v[k] == '.' && v[k + 1] == '.' {
                assert(seg =~= seq!['.', '.']);
                return None;
            }
            let name = string_from_range(&v, k, end);
            if seg_len == 2 {
                assert(seg[0] == v@[k as int] && seg[1] == v@[k + 1]);
                assert(seg != seq!['.', '.']);
            }
            return Some(name);
        }
        if seg_len == 1 {
            assert(seg =~= seq!['.']);
        }
        if k == 0 {
            return None;
        }
        assert(cur.take(k - 1) =~= v@.take(k - 1));
        end = k - 1;
    }
}

pub proof fn lemma_rfind_is(s: Seq<char>, c: char, k: int)
    requires
        0 <= k < s.len(),
        s[k] == c,
        forall|j: int| k < j < s.len() ==> s[j] != c,
    ensures
        rfind(s, c) == k,
    decreases s.len(),
{
    if s.len() - 1 != k {
        lemma_rfind_is(s.drop_last(), c, k);
    }
}

pub proof fn lemma_rfind_none(s: Seq<char>, c: char)
    requires
        forall|j: int| 0 <= j < s.len() ==> s[j] != c,
    ensures
        rfind(s, c) == -1,
    decreases s.len(),
{
    if s.len() > 0 {
        lemma_rfind_none(s.drop_last(), c);
    }
}

/// A single component (no `/`, and neither `.` nor `..`) joined onto any
/// path is that path's final component.
pub proof fn law_file_name_of_joined(base: Seq<char>, seg: Seq<char>)
    requires
        seg.len() > 0,
        !seg.contains('/'),
        seg != seq!['.'],
        seg != seq!['.', '.'],
    ensures
        file_name(joined(base, seg)) == Some(seg),
{
    assert(seg[0] != '/');
    let p = joined(base, seg);
    let k = p.len() - seg.len() - 1;
    assert(p.skip(k + 1) =~= seg);
    assert forall|j: int| k < j < p.len() implies p[j] != '/' by {
        assert(p[j] == seg[j - k - 1]);
    }
    if k >= 0 {
        assert(p[k] == '/');
        lemma_rfind_is(p, '/', k);
    } else {
        lemma_rfind_none(p, '/');
    }
}

/// Whether `path` lies at or below `base`, comparing whole components as
/// `Path::starts_with` does (so `/a/bc` is not below `/a/b`).
pub uninterp spec fn path_starts_with(path: Seq<char>, base: Seq<char>) -> bool;

/// Whether `path` is `base` or lies below it.
///
/// Trusted: `std::path::Path::starts_with`, a function of the two paths
/// alone; its result is named `path_starts_with`, of which nothing more is
/// stated.
#[verifier::external_body]
pub(crate) fn is_inside(path: &str, base: &str) -> (r: bool)
    ensures
        r == path_starts_with(path@, base@),
{
    std::path::Path::new(path).starts_with(base)
}

/// The current user's home directory.
///
/// Trusted: `dirs::home_dir`, which reads `$HOME` (or the password database)
/// and so depends on the environment; nothing is stated of its result.
#[verifier::external_body]
pub fn home_dir() -> (r: Option<String>) {
    dirs::home_dir().map(|p| p.to_string_lossy().into_owned())
}

} // verus!
