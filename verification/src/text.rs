//! Character-level helpers on strings, each stated over the `Seq<char>` view.
//!
//! The spec functions here give the meaning of the string operations the
//! rest of the crate relies on: line splitting, whitespace trimming, word
//! splitting, prefixes and suffixes, and decimal rendering of numbers.

use vstd::prelude::*;

verus! {

/// The views of a sequence of strings.
pub open spec fn views(v: Seq<String>) -> Seq<Seq<char>> {
    v.map_values(|s: String| s@)
}

/// `p` is a prefix of `s`.
pub open spec fn starts_with(s: Seq<char>, p: Seq<char>) -> bool {
    p.len() <= s.len() && s.subrange(0, p.len() as int) == p
}

/// `p` is a suffix of `s`.
pub open spec fn ends_with(s: Seq<char>, p: Seq<char>) -> bool {
    p.len() <= s.len() && s.subrange(s.len() - p.len(), s.len() as int) == p
}

/// `needle` occurs in `s` starting at position `i`.
pub open spec fn occurs_at(s: Seq<char>, needle: Seq<char>, i: int) -> bool {
    0 <= i && i + needle.len() <= s.len() && s.subrange(i, i + needle.len()) == needle
}

/// `needle` occurs somewhere in `s`.
pub open spec fn contains_seq(s: Seq<char>, needle: Seq<char>) -> bool {
    exists|i: int| occurs_at(s, needle, i)
}

/// `s` with its prefix `p` removed, when `s` starts with `p`.
pub open spec fn strip_prefix_spec(s: Seq<char>, p: Seq<char>) -> Option<Seq<char>> {
    if starts_with(s, p) {
        Some(s.skip(p.len() as int))
    } else {
        None
    }
}

/// `s` with its suffix `p` removed, when `s` ends with `p`.
pub open spec fn strip_suffix_spec(s: Seq<char>, p: Seq<char>) -> Option<Seq<char>> {
    if ends_with(s, p) {
        Some(s.take(s.len() - p.len()))
    } else {
        None
    }
}

/// The characters that `char::is_whitespace` accepts: Unicode `White_Space`.
pub open spec fn is_space(c: char) -> bool {
    ||| c == '\t'
    ||| c == '\n'
    ||| c == '\u{0B}'
    ||| c == '\u{0C}'
    ||| c == '\r'
    ||| c == ' '
    ||| c == '\u{85}'
    ||| c == '\u{A0}'
    ||| c == '\u{1680}'
    ||| ('\u{2000}' <= c && c <= '\u{200A}')
    ||| c == '\u{2028}'
    ||| c == '\u{2029}'
    ||| c == '\u{202F}'
    ||| c == '\u{205F}'
    ||| c == '\u{3000}'
}

/// `s` without its leading whitespace.
pub open spec fn trim_start(s: Seq<char>) -> Seq<char>
    decreases s.len(),
{
    if s.len() > 0 && is_space(s[0]) {
        trim_start(s.drop_first())
    } else {
        s
    }
}

/// `s` without its trailing whitespace.
pub open spec fn trim_end(s: Seq<char>) -> Seq<char>
    decreases s.len(),
{
    if s.len() > 0 && is_space(s.last()) {
        trim_end(s.drop_last())
    } else {
        s
    }
}

/// `s` without leading and trailing whitespace, as `str::trim` gives it.
pub open spec fn trim(s: Seq<char>) -> Seq<char> {
    trim_end(trim_start(s))
}

/// The position of the first `c` in `s` at or after `i`, or `-1` when none.
pub open spec fn find_from(s: Seq<char>, c: char, i: int) -> int
    decreases s.len() - i,
{
    if i < 0 || i >= s.len() {
        -1
    } else if s[i] == c {
        i
    } else {
        find_from(s, c, i + 1)
    }
}

/// A line's text without the `\r` of a `\r\n` ending.
pub open spec fn chomp_cr(line: Seq<char>) -> Seq<char> {
    if line.len() > 0 && line.last() == '\r' {
        line.drop_last()
    } else {
        line
    }
}

/// The lines of `s` as `str::lines` yields them: split after each `\n`,
/// a `\r` just before the `\n` dropped, and no empty line after a final `\n`.
pub open spec fn lines(s: Seq<char>) -> Seq<Seq<char>>
    decreases s.len(),
{
    if s.len() == 0 {
        seq![]
    } else {
        let k = find_from(s, '\n', 0);
        if k < 0 {
            seq![s]
        } else {
            proof {
                lemma_find_from_bounds(s, '\n', 0);
            }
            seq![chomp_cr(s.take(k))] + lines(s.skip(k + 1))
        }
    }
}

/// The words of `s` as `str::split_whitespace` yields them.
pub open spec fn words(s: Seq<char>) -> Seq<Seq<char>>
    decreases s.len(),
{
    if s.len() == 0 {
        seq![]
    } else if is_space(s[0]) {
        words(s.drop_first())
    } else {
        let k = first_space(s, 0);
        proof {
            lemma_first_space_bounds(s, 0);
        }
        seq![s.take(k)] + words(s.skip(k))
    }
}

/// The position of the first whitespace character at or after `i`, or `s.len()`.
pub open spec fn first_space(s: Seq<char>, i: int) -> int
    decreases s.len() - i,
{
    if i < 0 || i >= s.len() {
        s.len() as int
    } else if is_space(s[i]) {
        i
    } else {
        first_space(s, i + 1)
    }
}

pub proof fn lemma_find_from_bounds(s: Seq<char>, c: char, i: int)
    requires
        0 <= i,
    ensures
        find_from(s, c, i) == -1 || (i <= find_from(s, c, i) < s.len() && s[find_from(s, c, i)]
            == c),
        find_from(s, c, i) == -1 ==> forall|j: int| i <= j < s.len() ==> s[j] != c,
        find_from(s, c, i) != -1 ==> forall|j: int| i <= j < find_from(s, c, i) ==> s[j] != c,
    decreases s.len() - i,
{
    if i < 0 || i >= s.len() {
    } else if s[i] == c {
    } else {
        lemma_find_from_bounds(s, c, i + 1);
    }
}

pub proof fn lemma_first_space_bounds(s: Seq<char>, i: int)
    requires
        0 <= i <= s.len(),
    ensures
        i <= first_space(s, i) <= s.len(),
        first_space(s, i) < s.len() ==> is_space(s[first_space(s, i)]),
        forall|j: int| i <= j < first_space(s, i) ==> !is_space(s[j]),
    decreases s.len() - i,
{
    if i >= s.len() {
    } else if is_space(s[i]) {
    } else {
        lemma_first_space_bounds(s, i + 1);
    }
}

/// When no `c` occurs in `s[i..k]` and `s[k] == c`, the search from `i` stops at `k`.
pub proof fn lemma_find_from_at(s: Seq<char>, c: char, i: int, k: int)
    requires
        0 <= i <= k < s.len(),
        s[k] == c,
        forall|j: int| i <= j < k ==> s[j] != c,
    ensures
        find_from(s, c, i) == k,
    decreases k - i,
{
    if i < k {
        lemma_find_from_at(s, c, i + 1, k);
    }
}

/// When no `c` occurs in `s[i..]`, the search from `i` finds nothing.
pub proof fn lemma_find_from_none(s: Seq<char>, c: char, i: int)
    requires
        0 <= i,
        forall|j: int| i <= j < s.len() ==> s[j] != c,
    ensures
        find_from(s, c, i) == -1,
    decreases s.len() - i,
{
    if i < s.len() {
        lemma_find_from_none(s, c, i + 1);
    }
}

/// Searching a suffix is searching the whole from the same place.
pub proof fn lemma_find_from_skip(s: Seq<char>, c: char, d: int, i: int)
    requires
        0 <= d <= s.len(),
        0 <= i,
    ensures
        find_from(s.skip(d), c, i) == if find_from(s, c, i + d) == -1 {
            -1
        } else {
            find_from(s, c, i + d) - d
        },
    decreases s.len() - d - i,
{
    if i >= s.len() - d {
    } else if s[i + d] == c {
    } else {
        lemma_find_from_skip(s, c, d, i + 1);
    }
}

/// A string built from the characters `v[lo..hi]`.
pub fn string_from_range(v: &Vec<char>, lo: usize, hi: usize) -> (r: String)
    requires
        lo <= hi <= v.len(),
    ensures
        r@ == v@.subrange(lo as int, hi as int),
{
    let mut r = String::new();
    let mut i = lo;
    while i < hi
        invariant
            lo <= i <= hi <= v.len(),
            r@ == v@.subrange(lo as int, i as int),
        decreases hi - i,
    {
        push_char(&mut r, v[i]);
        assert(v@.subrange(lo as int, i + 1) == v@.subrange(lo as int, i as int).push(v@[i as int]));
        i = i + 1;
    }
    r
}

/// Appends one character to a string.
///
/// Trusted: `String::push`, documented to append the character at the end.
#[verifier::external_body]
pub fn push_char(s: &mut String, c: char)
    ensures
        final(s)@ == old(s)@.push(c),
{
    s.push(c);
}

/// Appends a string slice to a string.
pub fn push_str(s: &mut String, t: &str)
    ensures
        final(s)@ == old(s)@ + t@,
{
    s.append(t);
}

/// An owned copy of a string slice.
pub fn owned(s: &str) -> (r: String)
    ensures
        r@ == s@,
{
    String::from_str(s)
}

/// The characters of a string, in order.
pub fn chars_of(s: &str) -> (v: Vec<char>)
    ensures
        v@ == s@,
{
    let mut v: Vec<char> = Vec::new();
    for c in it: s.chars()
        invariant
            v@ == it.seq().take(it.index() as int),
            it.seq() == s@,
    {
        v.push(c);
    }
    v
}

/// Whether two strings hold the same characters.
pub fn str_eq(a: &str, b: &str) -> (r: bool)
    ensures
        r == (a@ == b@),
{
    let va = chars_of(a);
    let vb = chars_of(b);
    if va.len() != vb.len() {
        return false;
    }
    let mut i: usize = 0;
    while i < va.len()
        invariant
            va@ == a@,
            vb@ == b@,
            va.len() == vb.len(),
            i <= va.len(),
            forall|j: int| 0 <= j < i ==> va@[j] == vb@[j],
        decreases va.len() - i,
    {
        if va[i] != vb[i] {
            return false;
        }
        i = i + 1;
    }
    assert(a@ =~= b@);
    true
}

/// Whether `v[at..]` starts with the characters of `p`.
pub fn chars_start_with_at(v: &Vec<char>, at: usize, p: &Vec<char>) -> (r: bool)
    requires
        at <= v.len(),
    ensures
        r == starts_with(v@.skip(at as int), p@),
{
    if p.len() > v.len() - at {
        return false;
    }
    let mut i: usize = 0;
    while i < p.len()
        invariant
            at + p.len() <= v.len(),
            i <= p.len(),
            forall|j: int| 0 <= j < i ==> v@[at + j] == p@[j],
        decreases p.len() - i,
    {
        if v[at + i] != p[i] {
            assert(v@.skip(at as int).subrange(0, p@.len() as int)[i as int] != p@[i as int]);
            return false;
        }
        i = i + 1;
    }
    assert(v@.skip(at as int).subrange(0, p@.len() as int) =~= p@);
    true
}

/// Whether `s` starts with `p`.
pub fn has_prefix(s: &str, p: &str) -> (r: bool)
    ensures
        r == starts_with(s@, p@),
{
    let v = chars_of(s);
    let pv = chars_of(p);
    let r = chars_start_with_at(&v, 0, &pv);
    assert(v@.skip(0) =~= v@);
    r
}

/// Whether `s` ends with `p`.
pub fn has_suffix(s: &str, p: &str) -> (r: bool)
    ensures
        r == ends_with(s@, p@),
{
    let v = chars_of(s);
    let pv = chars_of(p);
    if pv.len() > v.len() {
        return false;
    }
    let at = v.len() - pv.len();
    let r = chars_start_with_at(&v, at, &pv);
    assert(v@.skip(at as int).subrange(0, pv@.len() as int) =~= v@.subrange(
        v@.len() - pv@.len(),
        v@.len() as int,
    ));
    r
}

/// `s` without its prefix `p`, or `None` when `s` does not start with `p`.
pub fn strip_prefix(s: &str, p: &str) -> (r: Option<String>)
    ensures
        r matches Some(t) ==> strip_prefix_spec(s@, p@) == Some(t@),
        r is None ==> strip_prefix_spec(s@, p@) is None,
{
    let v = chars_of(s);
    let pv = chars_of(p);
    if chars_start_with_at(&v, 0, &pv) {
        assert(v@.skip(0) =~= v@);
        let t = string_from_range(&v, pv.len(), v.len());
        assert(t@ =~= s@.skip(p@.len() as int));
        Some(t)
    } else {
        assert(v@.skip(0) =~= v@);
        None
    }
}

/// `s` without its suffix `p`, or `None` when `s` does not end with `p`.
pub fn strip_suffix(s: &str, p: &str) -> (r: Option<String>)
    ensures
        r matches Some(t) ==> strip_suffix_spec(s@, p@) == Some(t@),
        r is None ==> strip_suffix_spec(s@, p@) is None,
{
    if has_suffix(s, p) {
        let v = chars_of(s);
        let n = p.unicode_len();
        let t = string_from_range(&v, 0, v.len() - n);
        assert(t@ =~= s@.take(s@.len() - p@.len()));
        Some(t)
    } else {
        None
    }
}

/// The first position at or after `from` where `needle` occurs in `v`.
pub fn find_seq_from(v: &Vec<char>, needle: &Vec<char>, from: usize) -> (r: Option<usize>)
    requires
        from <= v.len(),
    ensures
        r matches Some(i) ==> from <= i && occurs_at(v@, needle@, i as int) && forall|j: int|
            from <= j < i ==> !occurs_at(v@, needle@, j),
        r is None ==> forall|j: int| from <= j ==> !occurs_at(v@, needle@, j),
{
    if needle.len() == 0 {
        assert(v@.subrange(from as int, from as int) =~= needle@);
        return Some(from);
    }
    if needle.len() > v.len() {
        return None;
    }
    let mut i = from;
    while i <= v.len() - needle.len()
        invariant
            from <= i <= v.len(),
            1 <= needle.len() <= v.len(),
            forall|j: int| from <= j < i ==> !occurs_at(v@, needle@, j),
        decreases v.len() - i,
    {
        if chars_start_with_at(v, i, needle) {
            assert(v@.skip(i as int).subrange(0, needle@.len() as int) =~= v@.subrange(
                i as int,
                i + needle@.len(),
            ));
            return Some(i);
        }
        assert(v@.skip(i as int).subrange(0, needle@.len() as int) =~= v@.subrange(
            i as int,
            i + needle@.len(),
        ));
        i = i + 1;
    }
    None
}

/// Whether `needle` occurs in `s`.
pub fn contains(s: &str, needle: &str) -> (r: bool)
    ensures
        r == contains_seq(s@, needle@),
{
    let v = chars_of(s);
    let nv = chars_of(needle);
    match find_seq_from(&v, &nv, 0) {
        Some(_) => true,
        None => false,
    }
}

/// Whether the character `c` occurs in `s`.
pub fn contains_char(s: &str, c: char) -> (r: bool)
    ensures
        r == s@.contains(c),
{
    let v = chars_of(s);
    let mut i: usize = 0;
    while i < v.len()
        invariant
            v@ == s@,
            i <= v.len(),
            forall|j: int| 0 <= j < i ==> v@[j] != c,
        decreases v.len() - i,
    {
        if v[i] == c {
            return true;
        }
        i = i + 1;
    }
    false
}

/// One step of `lines`: a `\n` at `i`, with none in `s[start..i]`, ends the
/// next line, which is `s[start..i]` without a final `\r`.
pub proof fn lemma_lines_step(s: Seq<char>, start: int, i: int)
    requires
        0 <= start <= i < s.len(),
        s[i] == '\n',
        forall|j: int| start <= j < i ==> s[j] != '\n',
    ensures
        lines(s.skip(start)) == seq![chomp_cr(s.subrange(start, i))] + lines(s.skip(i + 1)),
{
    let t = s.skip(start);
    lemma_find_from_at(t, '\n', 0, i - start);
    assert(t.take(i - start) =~= s.subrange(start, i));
    assert(t.skip(i - start + 1) =~= s.skip(i + 1));
}

/// The end of `lines`: what is left after the last `\n` is the last line, if any.
pub proof fn lemma_lines_tail(s: Seq<char>, start: int)
    requires
        0 <= start <= s.len(),
        forall|j: int| start <= j < s.len() ==> s[j] != '\n',
    ensures
        lines(s.skip(start)) == if start == s.len() {
            Seq::<Seq<char>>::empty()
        } else {
            seq![s.skip(start)]
        },
{
    let t = s.skip(start);
    if start < s.len() {
        lemma_find_from_none(t, '\n', 0);
    } else {
        assert(t.len() == 0);
    }
}

/// The lines of `s`, as `str::lines` yields them.
pub fn split_lines(s: &str) -> (r: Vec<String>)
    ensures
        views(r@) == lines(s@),
{
    let v = chars_of(s);
    let mut out: Vec<String> = Vec::new();
    let mut start: usize = 0;
    let mut i: usize = 0;
    assert(v@.skip(0) =~= v@);
    while i < v.len()
        invariant
            v@ == s@,
            start <= i <= v.len(),
            forall|j: int| start <= j < i ==> v@[j] != '\n',
            views(out@) + lines(v@.skip(start as int)) == lines(v@),
        decreases v.len() - i,
    {
        if v[i] == '\n' {
            proof {
                lemma_lines_step(v@, start as int, i as int);
            }
            let end = if i > start && v[i - 1] == '\r' {
                i - 1
            } else {
                i
            };
            let line = string_from_range(&v, start, end);
            assert(line@ == chomp_cr(v@.subrange(start as int, i as int)));
            let ghost before = out@;
            out.push(line);
            assert(views(out@) =~= views(before).push(line@));
            assert(views(out@) + lines(v@.skip(i + 1)) =~= views(before) + (seq![line@] + lines(
                v@.skip(i + 1),
            )));
            start = i + 1;
        }
        i = i + 1;
    }
    proof {
        lemma_lines_tail(v@, start as int);
    }
    if start < v.len() {
        let line = string_from_range(&v, start, v.len());
        assert(line@ =~= v@.skip(start as int));
        let ghost before = out@;
        out.push(line);
        assert(views(out@) =~= views(before).push(line@));
        assert(views(out@) =~= views(before) + seq![line@]);
    } else {
        assert(views(out@) =~= views(out@) + Seq::<Seq<char>>::empty());
    }
    out
}

/// When `s[..a]` is all whitespace and `s[a]` is not (or `a` is the end),
/// trimming the start leaves `s[a..]`.
pub proof fn lemma_trim_start_at(s: Seq<char>, a: int)
    requires
        0 <= a <= s.len(),
        forall|j: int| 0 <= j < a ==> is_space(s[j]),
        a < s.len() ==> !is_space(s[a]),
    ensures
        trim_start(s) == s.skip(a),
    decreases a,
{
    if a == 0 {
        assert(s.skip(0) =~= s);
    } else {
        lemma_trim_start_at(s.drop_first(), a - 1);
        assert(s.drop_first().skip(a - 1) =~= s.skip(a));
    }
}

/// When `s[b..]` is all whitespace and `s[b - 1]` is not (or `b` is 0),
/// trimming the end leaves `s[..b]`.
pub proof fn lemma_trim_end_at(s: Seq<char>, b: int)
    requires
        0 <= b <= s.len(),
        forall|j: int| b <= j < s.len() ==> is_space(s[j]),
        b > 0 ==> !is_space(s[b - 1]),
    ensures
        trim_end(s) == s.take(b),
    decreases s.len() - b,
{
    if b == s.len() {
        assert(s.take(b) =~= s);
    } else {
        lemma_trim_end_at(s.drop_last(), b);
        assert(s.drop_last().take(b) =~= s.take(b));
    }
}

/// Whether `char::is_whitespace` holds of `c`.
pub fn is_whitespace(c: char) -> (r: bool)
    ensures
        r == is_space(c),
{
    c == '\t' || c == '\n' || c == '\u{0B}' || c == '\u{0C}' || c == '\r' || c == ' ' || c
        == '\u{85}' || c == '\u{A0}' || c == '\u{1680}' || ('\u{2000}' <= c && c <= '\u{200A}')
        || c == '\u{2028}' || c == '\u{2029}' || c == '\u{202F}' || c == '\u{205F}' || c
        == '\u{3000}'
}

/// `s` without leading and trailing whitespace.
pub fn trimmed(s: &str) -> (r: String)
    ensures
        r@ == trim(s@),
{
    let v = chars_of(s);
    let mut a: usize = 0;
    while a < v.len() && is_whitespace(v[a])
        invariant
            v@ == s@,
            a <= v.len(),
            forall|j: int| 0 <= j < a ==> is_space(v@[j]),
        decreases v.len() - a,
    {
        a = a + 1;
    }
    proof {
        lemma_trim_start_at(v@, a as int);
    }
    let mut b: usize = v.len();
    while b > a && is_whitespace(v[b - 1])
        invariant
            v@ == s@,
            a <= b <= v.len(),
            forall|j: int| b <= j < v.len() ==> is_space(v@[j]),
        decreases b - a,
    {
        b = b - 1;
    }
    let ghost t = v@.skip(a as int);
    proof {
        assert forall|j: int| (b - a) <= j < t.len() implies is_space(t[j]) by {
            assert(t[j] == v@[a + j]);
        }
        lemma_trim_end_at(t, b - a);
    }
    let r = string_from_range(&v, a, b);
    assert(r@ =~= t.take(b - a));
    r
}

/// `s` without leading whitespace.
pub fn trimmed_start(s: &str) -> (r: String)
    ensures
        r@ == trim_start(s@),
{
    let v = chars_of(s);
    let mut a: usize = 0;
    while a < v.len() && is_whitespace(v[a])
        invariant
            v@ == s@,
            a <= v.len(),
            forall|j: int| 0 <= j < a ==> is_space(v@[j]),
        decreases v.len() - a,
    {
        a = a + 1;
    }
    proof {
        lemma_trim_start_at(v@, a as int);
    }
    let r = string_from_range(&v, a, v.len());
    assert(r@ =~= v@.skip(a as int));
    r
}

/// Skipping leading whitespace does not change the words.
pub proof fn lemma_words_skip_space(s: Seq<char>, a: int)
    requires
        0 <= a <= s.len(),
        forall|j: int| 0 <= j < a ==> is_space(s[j]),
    ensures
        words(s) == words(s.skip(a)),
    decreases a,
{
    if a == 0 {
        assert(s.skip(0) =~= s);
    } else {
        lemma_words_skip_space(s.drop_first(), a - 1);
        assert(s.drop_first().skip(a - 1) =~= s.skip(a));
    }
}

/// One word of `s`: from `a`, not whitespace, to `b`, the next whitespace or the end.
pub proof fn lemma_words_step(s: Seq<char>, a: int, b: int)
    requires
        0 <= a < b <= s.len(),
        forall|j: int| a <= j < b ==> !is_space(s[j]),
        b < s.len() ==> is_space(s[b]),
    ensures
        words(s.skip(a)) == seq![s.subrange(a, b)] + words(s.skip(b)),
{
    let t = s.skip(a);
    lemma_first_space_at(t, 0, b - a);
    assert(t.take(b - a) =~= s.subrange(a, b));
    assert(t.skip(b - a) =~= s.skip(b));
}

pub proof fn lemma_first_space_at(s: Seq<char>, i: int, k: int)
    requires
        0 <= i <= k <= s.len(),
        forall|j: int| i <= j < k ==> !is_space(s[j]),
        k < s.len() ==> is_space(s[k]),
    ensures
        first_space(s, i) == k,
    decreases k - i,
{
    if i < k {
        lemma_first_space_at(s, i + 1, k);
    }
}

/// The words of `s`, as `str::split_whitespace` yields them.
pub fn split_words(s: &str) -> (r: Vec<String>)
    ensures
        views(r@) == words(s@),
{
    let v = chars_of(s);
    let mut out: Vec<String> = Vec::new();
    let mut i: usize = 0;
    assert(v@.skip(0) =~= v@);
    while i < v.len()
        invariant
            v@ == s@,
            i <= v.len(),
            views(out@) + words(v@.skip(i as int)) == words(v@),
        decreases v.len() - i,
    {
        if is_whitespace(v[i]) {
            proof {
                let t = v@.skip(i as int);
                assert(t.drop_first() =~= v@.skip(i + 1));
            }
            i = i + 1;
        } else {
            let mut j = i;
            while j < v.len() && !is_whitespace(v[j])
                invariant
                    v@ == s@,
                    i <= j <= v.len(),
                    forall|k: int| i <= k < j ==> !is_space(v@[k]),
                decreases v.len() - j,
            {
                j = j + 1;
            }
            proof {
                lemma_words_step(v@, i as int, j as int);
            }
            let w = string_from_range(&v, i, j);
            let ghost before = out@;
            out.push(w);
            assert(views(out@) =~= views(before).push(w@));
            assert(views(out@) + words(v@.skip(j as int)) =~= views(before) + (seq![w@] + words(
                v@.skip(j as int),
            )));
            i = j;
        }
    }
    assert(v@.skip(i as int) =~= Seq::<char>::empty());
    assert(views(out@) =~= views(out@) + Seq::<Seq<char>>::empty());
    out
}

/// The decimal digit for `d < 10`.
pub open spec fn digit_char(d: nat) -> char {
    if d == 0 {
        '0'
    } else if d == 1 {
        '1'
    } else if d == 2 {
        '2'
    } else if d == 3 {
        '3'
    } else if d == 4 {
        '4'
    } else if d == 5 {
        '5'
    } else if d == 6 {
        '6'
    } else if d == 7 {
        '7'
    } else if d == 8 {
        '8'
    } else {
        '9'
    }
}

/// The decimal rendering of `n`, without leading zeros.
pub open spec fn decimal(n: nat) -> Seq<char>
    decreases n,
{
    if n < 10 {
        seq![digit_char(n)]
    } else {
        decimal(n / 10).push(digit_char(n % 10))
    }
}

fn digit_of(d: usize) -> (c: char)
    requires
        d < 10,
    ensures
        c == digit_char(d as nat),
{
    if d == 0 {
        '0'
    } else if d == 1 {
        '1'
    } else if d == 2 {
        '2'
    } else if d == 3 {
        '3'
    } else if d == 4 {
        '4'
    } else if d == 5 {
        '5'
    } else if d == 6 {
        '6'
    } else if d == 7 {
        '7'
    } else if d == 8 {
        '8'
    } else {
        '9'
    }
}

/// The decimal rendering of `n`, as `n.to_string()` gives it.
pub fn decimal_string(n: usize) -> (r: String)
    ensures
        r@ == decimal(n as nat),
{
    let mut m = n;
    let mut rev: Vec<char> = Vec::new();
    while m >= 10
        invariant
            decimal(n as nat) == decimal(m as nat) + rev@.reverse(),
        decreases m,
    {
        let d = digit_of(m % 10);
        let ghost before = rev@;
        rev.push(d);
        assert(rev@.reverse() =~= seq![d] + before.reverse());
        assert(decimal(m as nat) == decimal((m / 10) as nat).push(d));
        assert(decimal(m as nat) + before.reverse() =~= decimal((m / 10) as nat) + rev@.reverse());
        m = m / 10;
    }
    let mut r = String::new();
    push_char(&mut r, digit_of(m));
    let mut k = rev.len();
    while k > 0
        invariant
            k <= rev.len(),
            decimal(n as nat) == decimal(m as nat) + rev@.reverse(),
            decimal(m as nat) == seq![digit_char(m as nat)],
            r@ == decimal(m as nat) + rev@.subrange(k as int, rev@.len() as int).reverse(),
        decreases k,
    {
        k = k - 1;
        let ghost before = r@;
        push_char(&mut r, rev[k]);
        assert(rev@.subrange(k as int, rev@.len() as int).reverse() =~= rev@.subrange(
            k + 1,
            rev@.len() as int,
        ).reverse().push(rev@[k as int]));
    }
    assert(rev@.subrange(0, rev@.len() as int) =~= rev@);
    r
}

/// `c` is an ASCII digit.
pub open spec fn is_digit(c: char) -> bool {
    '0' <= c && c <= '9'
}

/// The value of a run of ASCII digits.
pub open spec fn digits_value(s: Seq<char>) -> nat
    decreases s.len(),
{
    if s.len() == 0 {
        0
    } else {
        digits_value(s.drop_last()) * 10 + ((s.last() as int - '0' as int) as nat)
    }
}

/// The digits part of a number: `s` without one leading `+`.
pub open spec fn unsigned_digits(s: Seq<char>) -> Seq<char> {
    if s.len() > 0 && s[0] == '+' {
        s.drop_first()
    } else {
        s
    }
}

/// Every character of `d` is an ASCII digit.
pub open spec fn all_digits(d: Seq<char>) -> bool {
    forall|i: int| 0 <= i < d.len() ==> is_digit(#[trigger] d[i])
}

/// What `s.parse::<usize>()` accepts: an optional `+`, then one or more ASCII
/// digits whose value fits in `usize`.
pub open spec fn parse_usize_spec(s: Seq<char>) -> Option<usize> {
    let d = unsigned_digits(s);
    if d.len() > 0 && all_digits(d) && digits_value(d) <= usize::MAX {
        Some(digits_value(d) as usize)
    } else {
        None
    }
}

pub proof fn lemma_digits_value_monotone(s: Seq<char>, k: int)
    requires
        0 <= k <= s.len(),
        forall|i: int| 0 <= i < s.len() ==> is_digit(s[i]),
    ensures
        digits_value(s.take(k)) <= digits_value(s),
    decreases s.len() - k,
{
    if k < s.len() {
        lemma_digits_value_monotone(s, k + 1);
        assert(s.take(k + 1).drop_last() =~= s.take(k));
    } else {
        assert(s.take(k) =~= s);
    }
}

/// `s.parse::<usize>()`, with `None` for every error.
pub fn parse_usize(s: &str) -> (r: Option<usize>)
    ensures
        r == parse_usize_spec(s@),
{
    let v = chars_of(s);
    let start: usize = if v.len() > 0 && v[0] == '+' {
        1
    } else {
        0
    };
    let ghost d = unsigned_digits(s@);
    assert(d =~= v@.skip(start as int));
    if start >= v.len() {
        return None;
    }
    let mut value: usize = 0;
    let mut i = start;
    while i < v.len()
        invariant
            v@ == s@,
            start < v.len(),
            d == v@.skip(start as int),
            d == unsigned_digits(s@),
            start <= i <= v.len(),
            forall|j: int| start <= j < i ==> is_digit(v@[j]),
            value == digits_value(v@.subrange(start as int, i as int)),
        decreases v.len() - i,
    {
        let c = v[i];
        if !('0' <= c && c <= '9') {
            assert(!is_digit(d[i - start]));
            assert(!all_digits(d));
            return None;
        }
        let dv = (c as u32 - '0' as u32) as usize;
        assert(v@.subrange(start as int, i + 1).drop_last() =~= v@.subrange(
            start as int,
            i as int,
        ));
        if value > (usize::MAX - dv) / 10 {
            proof {
                let mx = usize::MAX as int;
                assert(value * 10 + dv > mx) by (nonlinear_arith)
                    requires
                        value > (mx - dv) / 10,
                        0 <= dv <= 9,
                        mx > 9,
                ;
                assert(d.take(i + 1 - start) =~= v@.subrange(start as int, i + 1));
                assert(digits_value(v@.subrange(start as int, i + 1)) == value * 10 + dv);
                lemma_all_digits_extend(d, i + 1 - start);
            }
            return None;
        }
        value = value * 10 + dv;
        i = i + 1;
    }
    assert(v@.subrange(start as int, v@.len() as int) =~= d);
    Some(value)
}

/// A helper for the overflow case: either `d` holds a non-digit, or it is all digits.
pub proof fn lemma_all_digits_extend(d: Seq<char>, k: int)
    requires
        0 <= k <= d.len(),
    ensures
        (forall|i: int| 0 <= i < d.len() ==> is_digit(d[i])) ==> digits_value(d.take(k))
            <= digits_value(d),
{
    if forall|i: int| 0 <= i < d.len() ==> is_digit(d[i]) {
        lemma_digits_value_monotone(d, k);
    }
}

} // verus!
