//! `arbor clone`: where a repository URL points and where its bare clone goes.

use vstd::prelude::*;

use crate::git::runner::concat;
use crate::git::types::{strip_git_suffix, without_git_suffix};
use crate::paths::{join, joined, rfind};
use crate::text::{chars_of, contains, contains_seq, owned, string_from_range};

verus! {

/// `s` is `owner/repo`: exactly one `/`, with text on both sides.
pub open spec fn is_owner_repo(s: Seq<char>) -> bool {
    exists|k: int|
        0 < k < s.len() - 1 && #[trigger] s[k] == '/' && forall|j: int|
            0 <= j < s.len() && j != k ==> s[j] != '/'
}

/// What a clone argument expands to: `owner/repo` becomes a GitHub HTTPS
/// URL; URLs (with `://`), SSH addresses (with `:`) and anything else stay.
pub open spec fn expanded_url(input: Seq<char>) -> Seq<char> {
    if contains_seq(input, "://"@) || input.contains(':') {
        input
    } else if is_owner_repo(input) {
        "https://github.com/"@ + input
    } else {
        input
    }
}

/// Expands a `user/repo` shorthand into a full GitHub HTTPS URL.
pub fn expand_shorthand(input: &str) -> (r: String)
    ensures
        r@ == expanded_url(input@),
{
    if contains(input, "://") || crate::text::contains_char(input, ':') {
        return owned(input);
    }
    let v = chars_of(input);
    let mut slashes: usize = 0;
    let mut at: usize = 0;
    let mut i: usize = 0;
    while i < v.len()
        invariant
            v@ == input@,
            i <= v.len(),
            slashes <= i,
            slashes == 0 ==> forall|j: int| 0 <= j < i ==> v@[j] != '/',
            slashes >= 1 ==> at < i && v@[at as int] == '/',
            slashes == 1 ==> forall|j: int| 0 <= j < i && j != at ==> v@[j] != '/',
            slashes >= 2 ==> exists|j: int| 0 <= j < i && j != at && v@[j] == '/',
        decreases v.len() - i,
    {
        if v[i] == '/' {
            if slashes == 0 {
                at = i;
            }
            slashes = slashes + 1;
        }
        i = i + 1;
    }
    if slashes == 1 && at > 0 && at + 1 < v.len() {
        assert(input@[at as int] == '/');
        concat("https://github.com/", input)
    } else {
        assert(!is_owner_repo(input@)) by {
            if is_owner_repo(input@) {
                let k = choose|k: int|
                    0 < k < input@.len() - 1 && #[trigger] input@[k] == '/' && forall|j: int|
                        0 <= j < input@.len() && j != k ==> input@[j] != '/';
                if slashes >= 2 {
                    let j = choose|j: int| 0 <= j < v@.len() && j != at && v@[j] == '/';
                    assert(j == k && at == k);
                }
            }
        }
        owned(input)
    }
}

/// The last segment of a URL: after its last `/`, or, without any `/`,
/// after its last `:`.
pub open spec fn last_url_segment(url: Seq<char>) -> Seq<char> {
    if url.contains('/') {
        url.skip(rfind(url, '/') + 1)
    } else {
        url.skip(rfind(url, ':') + 1)
    }
}

/// The repository name a URL designates: its last segment without `.git`.
pub open spec fn repo_name_in_url(url: Seq<char>) -> Seq<char> {
    without_git_suffix(last_url_segment(url))
}

/// Why a clone could not proceed.
#[derive(Debug, PartialEq, Eq)]
pub enum CloneError {
    /// The URL yields no repository name.
    NoRepositoryName,
}

/// The position just after the last `c` in `v`, or 0.
fn after_last(v: &Vec<char>, c: char) -> (r: usize)
    ensures
        r as int == rfind(v@, c) + 1,
        r <= v.len(),
{
    proof {
        crate::paths::lemma_rfind_bounds(v@, c);
    }
    let mut k = v.len();
    while k > 0 && v[k - 1] != c
        invariant
            k <= v.len(),
            forall|j: int| k <= j < v.len() ==> v@[j] != c,
        decreases k,
    {
        k = k - 1;
    }
    proof {
        if k > 0 {
            crate::paths::lemma_rfind_is(v@, c, k - 1);
        } else {
            crate::paths::lemma_rfind_none(v@, c);
        }
    }
    k
}

/// Extracts the repository name from a git URL:
/// `https://github.com/user/repo.git`, `git@github.com:user/repo.git` and
/// `https://github.com/user/repo` all name `repo`. Every URL yields a name.
pub fn repo_name_from_url(url: &str) -> (r: Result<String, CloneError>)
    ensures
        r matches Ok(n) && n@ == repo_name_in_url(url@),
{
    let v = chars_of(url);
    let start = if crate::text::contains_char(url, '/') {
        after_last(&v, '/')
    } else {
        after_last(&v, ':')
    };
    let segment = string_from_range(&v, start, v.len());
    assert(segment@ =~= last_url_segment(url@));
    Ok(strip_git_suffix(segment.as_str()))
}

/// Where the bare clone of repository `name` goes: `<repos_dir>/<name>.git`.
pub fn clone_destination(repos_dir: &str, name: &str) -> (r: String)
    ensures
        r@ == joined(repos_dir@, name@ + ".git"@),
{
    let bare = concat(name, ".git");
    join(repos_dir, bare.as_str())
}

/// Expanding an already expanded argument changes nothing.
pub proof fn law_expand_shorthand_idempotent(input: Seq<char>)
    ensures
        expanded_url(expanded_url(input)) == expanded_url(input),
{
    let e = expanded_url(input);
    if e != input {
        reveal_strlit("https://github.com/");
        reveal_strlit("://");
        assert(e.subrange(5, 8) =~= "://"@);
        assert(crate::text::occurs_at(e, "://"@, 5));
    }
}

/// `owner/repo` names the repository `repo` once expanded, whatever the
/// owner: the bare clone of `user/my-app` is `my-app.git`.
pub proof fn law_shorthand_names_repo(owner: Seq<char>, repo: Seq<char>)
    requires
        owner.len() > 0,
        repo.len() > 0,
        !owner.contains('/'),
        !repo.contains('/'),
    ensures
        repo_name_in_url(expanded_url(owner + seq!['/'] + repo)) == without_git_suffix(repo),
{
    let s = owner + seq!['/'] + repo;
    let k = owner.len() as int;
    assert(s[k] == '/');
    assert forall|j: int| 0 <= j < s.len() && j != k implies s[j] != '/' by {
        if j < k {
            assert(s[j] == owner[j]);
        } else {
            assert(s[j] == repo[j - k - 1]);
        }
    }
    assert(is_owner_repo(s));
    let url = expanded_url(s);
    let p = url.len() - s.len();
    if url == s {
        assert(p == 0);
    } else {
        assert(url == "https://github.com/"@ + s);
    }
    assert(url.skip(p) =~= s);
    assert(url[p + k] == '/');
    assert forall|j: int| p + k < j < url.len() implies url[j] != '/' by {
        assert(url[j] == s[j - p]);
    }
    crate::paths::lemma_rfind_is(url, '/', p + k);
    assert(url.contains('/'));
    assert(url.skip(p + k + 1) =~= repo);
}

/// A URL's repository name contains no `/`.
proof fn lemma_url_name_is_one_component(url: Seq<char>)
    ensures
        !repo_name_in_url(url).contains('/'),
{
    let seg = last_url_segment(url);
    let c = if url.contains('/') { '/' } else { ':' };
    crate::paths::lemma_rfind_bounds(url, c);
    assert forall|j: int| 0 <= j < seg.len() implies seg[j] != '/' by {
        assert(seg[j] == url[rfind(url, c) + 1 + j]);
        if !url.contains('/') {
            assert(url[rfind(url, c) + 1 + j] != '/');
        }
    }
    let n = repo_name_in_url(url);
    assert forall|j: int| 0 <= j < n.len() implies n[j] != '/' by {
        assert(n[j] == seg[j]);
    }
}

/// The bare clone of a URL is known by the name the URL gives: the
/// repository's name read back from the clone's path is the URL's
/// repository name.
pub proof fn law_clone_is_named_after_url(repos_dir: Seq<char>, url: Seq<char>)
    ensures
        crate::git::commands::repo_name_of(joined(repos_dir, repo_name_in_url(url) + ".git"@))
            == Some(repo_name_in_url(url)),
{
    let name = repo_name_in_url(url);
    let bare = name + ".git"@;
    reveal_strlit(".git");
    lemma_url_name_is_one_component(url);
    assert forall|j: int| 0 <= j < bare.len() implies bare[j] != '/' by {
        if j < name.len() {
            assert(bare[j] == name[j]);
        }
    }
    assert(bare.len() >= 4);
    crate::paths::law_file_name_of_joined(repos_dir, bare);
    assert(bare.subrange(bare.len() - 4, bare.len() as int) =~= ".git"@);
    assert(bare.take(bare.len() - 4) =~= name);
}

} // verus!
