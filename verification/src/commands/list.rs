//! `arbor list --all`: which entries of the repositories directory are
//! listed, and in what order.

use vstd::prelude::*;

use crate::text::{chars_of, views};

verus! {

/// `a` sorts strictly before `b`: characters are compared by code point and
/// a proper prefix comes first, which is the order of the names' UTF-8
/// bytes.
pub open spec fn name_lt(a: Seq<char>, b: Seq<char>) -> bool
    decreases a.len(),
{
    if a.len() == 0 {
        b.len() > 0
    } else if b.len() == 0 {
        false
    } else if a[0] != b[0] {
        a[0] < b[0]
    } else {
        name_lt(a.drop_first(), b.drop_first())
    }
}

/// `a` sorts no later than `b`.
pub open spec fn name_le(a: Seq<char>, b: Seq<char>) -> bool {
    !name_lt(b, a)
}

/// The names of `ns` appear in order.
pub open spec fn names_sorted(ns: Seq<Seq<char>>) -> bool {
    forall|i: int, j: int| 0 <= i < j < ns.len() ==> name_le(#[trigger] ns[i], #[trigger] ns[j])
}

/// No name sorts before itself.
pub proof fn lemma_name_lt_irreflexive(a: Seq<char>)
    ensures
        !name_lt(a, a),
    decreases a.len(),
{
    if a.len() > 0 {
        lemma_name_lt_irreflexive(a.drop_first());
    }
}

/// The order is transitive.
pub proof fn lemma_name_lt_transitive(a: Seq<char>, b: Seq<char>, c: Seq<char>)
    requires
        name_lt(a, b),
        name_lt(b, c),
    ensures
        name_lt(a, c),
    decreases a.len(),
{
    if a.len() > 0 && b.len() > 0 && c.len() > 0 && a[0] == b[0] && b[0] == c[0] {
        lemma_name_lt_transitive(a.drop_first(), b.drop_first(), c.drop_first());
    }
}

/// Of two different names, one sorts before the other.
pub proof fn law_name_order_total(a: Seq<char>, b: Seq<char>)
    ensures
        a =~= b || name_lt(a, b) || name_lt(b, a),
    decreases a.len(),
{
    if a.len() > 0 && b.len() > 0 && a[0] == b[0] {
        law_name_order_total(a.drop_first(), b.drop_first());
        if a.drop_first() =~= b.drop_first() {
            assert forall|i: int| 0 <= i < a.len() implies a[i] == b[i] by {
                if i > 0 {
                    assert(a[i] == a.drop_first()[i - 1]);
                    assert(b[i] == b.drop_first()[i - 1]);
                }
            }
        }
    }
}

/// Whether `a` sorts strictly before `b`.
pub fn name_less(a: &str, b: &str) -> (r: bool)
    ensures
        r == name_lt(a@, b@),
{
    let av = chars_of(a);
    let bv = chars_of(b);
    let mut i: usize = 0;
    assert(a@.skip(0) =~= a@ && b@.skip(0) =~= b@);
    while i < av.len() && i < bv.len() && av[i] == bv[i]
        invariant
            av@ == a@,
            bv@ == b@,
            i <= av.len(),
            i <= bv.len(),
            name_lt(a@, b@) == name_lt(a@.skip(i as int), b@.skip(i as int)),
        decreases av.len() - i,
    {
        let ghost sa = a@.skip(i as int);
        let ghost sb = b@.skip(i as int);
        assert(sa.drop_first() =~= a@.skip(i + 1));
        assert(sb.drop_first() =~= b@.skip(i + 1));
        i = i + 1;
    }
    let ghost sa = a@.skip(i as int);
    let ghost sb = b@.skip(i as int);
    if i == av.len() {
        assert(sa.len() == 0);
        i < bv.len()
    } else if i == bv.len() {
        assert(sb.len() == 0);
        false
    } else {
        assert(sa[0] == av@[i as int] && sb[0] == bv@[i as int]);
        av[i] < bv[i]
    }
}

/// `names` in order.
pub fn sort_names(names: Vec<String>) -> (r: Vec<String>)
    ensures
        views(r@).to_multiset() == views(names@).to_multiset(),
        names_sorted(views(r@)),
{
    broadcast use vstd::seq_lib::group_to_multiset_ensures;

    let ghost all = views(names@).to_multiset();
    let mut rest = names;
    let mut out: Vec<String> = Vec::new();
    assert(views(out@) =~= Seq::<Seq<char>>::empty());
    while rest.len() > 0
        invariant
            views(out@).to_multiset().add(views(rest@).to_multiset()) == all,
            names_sorted(views(out@)),
            forall|i: int, j: int|
                0 <= i < out.len() && 0 <= j < rest.len() ==> name_le(
                    #[trigger] views(out@)[i],
                    #[trigger] views(rest@)[j],
                ),
        decreases rest.len(),
    {
        let mut m: usize = 0;
        let mut k: usize = 1;
        proof {
            lemma_name_lt_irreflexive(rest@[0]@);
        }
        while k < rest.len()
            invariant
                0 <= m < k <= rest.len(),
                forall|j: int| 0 <= j < k ==> name_le(rest@[m as int]@, #[trigger] rest@[j]@),
            decreases rest.len() - k,
        {
            if name_less(rest[k].as_str(), rest[m].as_str()) {
                proof {
                    lemma_name_lt_irreflexive(rest@[k as int]@);
                    assert forall|j: int| 0 <= j < k + 1 implies name_le(rest@[k as int]@, #[trigger] rest@[j]@) by {
                        if j < k && name_lt(rest@[j]@, rest@[k as int]@) {
                            lemma_name_lt_transitive(rest@[j]@, rest@[k as int]@, rest@[m as int]@);
                        }
                    }
                }
                m = k;
            }
            k = k + 1;
        }
        let ghost before_rest = rest@;
        let ghost before_out = out@;
        assert(forall|j: int| 0 <= j < before_rest.len() ==> name_le(before_rest[m as int]@, #[trigger] views(before_rest)[j]));
        let x = rest.remove(m);
        out.push(x);
        proof {
            assert(views(rest@) =~= views(before_rest).remove(m as int));
            assert(views(out@) =~= views(before_out).push(x@));
            vstd::seq_lib::to_multiset_build(views(before_out), x@);
            vstd::seq_lib::to_multiset_remove(views(before_rest), m as int);
            assert(views(before_out).push(x@).to_multiset() =~= views(before_out).to_multiset().insert(x@));
            assert(views(before_rest).remove(m as int).to_multiset() =~= views(before_rest).to_multiset().remove(
                views(before_rest)[m as int],
            ));
            assert(views(before_rest).to_multiset().count(x@) > 0) by {
                views(before_rest).to_multiset_ensures();
                assert(views(before_rest)[m as int] == x@);
                assert(views(before_rest).contains(x@));
            }
            assert(views(out@).to_multiset().add(views(rest@).to_multiset()) =~= all);
            assert forall|i: int, j: int| 0 <= i < j < out.len() implies name_le(
                #[trigger] views(out@)[i],
                #[trigger] views(out@)[j],
            ) by {
                if j < out.len() - 1 {
                    assert(views(out@)[i] == views(before_out)[i]);
                    assert(views(out@)[j] == views(before_out)[j]);
                } else {
                    assert(views(out@)[i] == views(before_out)[i]);
                    assert(views(before_rest)[m as int] == x@);
                }
            }
            assert forall|i: int, j: int| 0 <= i < out.len() && 0 <= j < rest.len() implies name_le(
                #[trigger] views(out@)[i],
                #[trigger] views(rest@)[j],
            ) by {
                let jj = if j < m { j } else { j + 1 };
                assert(views(rest@)[j] == views(before_rest)[jj]);
                if i < out.len() - 1 {
                    assert(views(out@)[i] == views(before_out)[i]);
                } else {
                    assert(views(out@)[i] == before_rest[m as int]@);
                }
            }
        }
    }
    assert(views(rest@) =~= Seq::<Seq<char>>::empty());
    assert(views(out@).to_multiset() =~= all);
    out
}

/// The names of the entries that are directories, in listing order.
pub open spec fn dir_names(entries: Seq<(String, bool)>) -> Seq<Seq<char>>
    decreases entries.len(),
{
    if entries.len() == 0 {
        seq![]
    } else {
        let rest = dir_names(entries.drop_last());
        if entries.last().1 {
            rest.push(entries.last().0@)
        } else {
            rest
        }
    }
}

/// The repositories to list from the entries of the repositories directory
/// (each a name and whether it is a directory): the directories, ordered
/// by name.
pub fn repo_dirs(entries: &Vec<(String, bool)>) -> (r: Vec<String>)
    ensures
        views(r@).to_multiset() == dir_names(entries@).to_multiset(),
        names_sorted(views(r@)),
{
    let mut dirs: Vec<String> = Vec::new();
    let mut i: usize = 0;
    while i < entries.len()
        invariant
            i <= entries.len(),
            views(dirs@) == dir_names(entries@.take(i as int)),
        decreases entries.len() - i,
    {
        assert(entries@.take(i + 1).drop_last() =~= entries@.take(i as int));
        if entries[i].1 {
            let ghost before = dirs@;
            dirs.push(entries[i].0.clone());
            assert(views(dirs@) =~= views(before).push(entries@[i as int].0@));
        }
        i = i + 1;
    }
    assert(entries@.take(entries.len() as int) =~= entries@);
    sort_names(dirs)
}

} // verus!
