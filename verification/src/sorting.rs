//! Stable insertion order: what a stable sort by a strict order produces.

use vstd::prelude::*;

verus! {

/// `x` placed in front of the first element of `s` that it sorts strictly
/// before, or at the end.
pub open spec fn insert_by<A>(s: Seq<A>, x: A, less: spec_fn(A, A) -> bool) -> Seq<A>
    decreases s.len(),
{
    if s.len() == 0 {
        seq![x]
    } else if less(x, s[0]) {
        seq![x] + s
    } else {
        seq![s[0]] + insert_by(s.drop_first(), x, less)
    }
}

/// The stable sort of `s` by `less`: each element in input order is placed
/// behind everything it does not sort strictly before.
pub open spec fn sort_by<A>(s: Seq<A>, less: spec_fn(A, A) -> bool) -> Seq<A>
    decreases s.len(),
{
    if s.len() == 0 {
        s
    } else {
        insert_by(sort_by(s.drop_last(), less), s.last(), less)
    }
}

/// No element sorts strictly before one that comes earlier.
pub open spec fn sorted_by<A>(s: Seq<A>, less: spec_fn(A, A) -> bool) -> bool {
    forall|i: int, j: int| 0 <= i < j < s.len() ==> !less(#[trigger] s[j], #[trigger] s[i])
}

/// `less` is irreflexive and transitive.
pub open spec fn strict_order<A>(less: spec_fn(A, A) -> bool) -> bool {
    &&& forall|a: A| !#[trigger] less(a, a)
    &&& forall|a: A, b: A, c: A| #[trigger] less(a, b) && #[trigger] less(b, c) ==> less(a, c)
}

/// Placing `x` at `p`, where everything before does not sort after it and the
/// element at `p` does, is what `insert_by` does.
pub proof fn lemma_insert_at<A>(s: Seq<A>, x: A, less: spec_fn(A, A) -> bool, p: int)
    requires
        0 <= p <= s.len(),
        forall|j: int| 0 <= j < p ==> !less(x, #[trigger] s[j]),
        p < s.len() ==> less(x, s[p]),
    ensures
        insert_by(s, x, less) == s.insert(p, x),
    decreases s.len(),
{
    if s.len() == 0 {
        assert(s.insert(p, x) =~= seq![x]);
    } else if p == 0 {
        assert(s.insert(0, x) =~= seq![x] + s);
    } else {
        let t = s.drop_first();
        assert forall|j: int| 0 <= j < p - 1 implies !less(x, #[trigger] t[j]) by {
            assert(t[j] == s[j + 1]);
        }
        lemma_insert_at(t, x, less, p - 1);
        assert(s.insert(p, x) =~= seq![s[0]] + t.insert(p - 1, x));
    }
}

/// `insert_by` puts `x` somewhere in `s` and keeps the rest in order.
pub proof fn lemma_insert_somewhere<A>(s: Seq<A>, x: A, less: spec_fn(A, A) -> bool) -> (p: int)
    ensures
        0 <= p <= s.len(),
        insert_by(s, x, less) == s.insert(p, x),
    decreases s.len(),
{
    if s.len() == 0 {
        assert(s.insert(0, x) =~= seq![x]);
        0
    } else if less(x, s[0]) {
        assert(s.insert(0, x) =~= seq![x] + s);
        0
    } else {
        let t = s.drop_first();
        let q = lemma_insert_somewhere(t, x, less);
        assert(s.insert(q + 1, x) =~= seq![s[0]] + t.insert(q, x));
        q + 1
    }
}

/// Inserting into a sorted sequence keeps it sorted.
pub proof fn lemma_insert_sorted<A>(s: Seq<A>, x: A, less: spec_fn(A, A) -> bool)
    requires
        strict_order(less),
        sorted_by(s, less),
    ensures
        sorted_by(insert_by(s, x, less), less),
    decreases s.len(),
{
    if s.len() == 0 {
    } else if less(x, s[0]) {
        let r = seq![x] + s;
        assert forall|i: int, j: int| 0 <= i < j < r.len() implies !less(
            #[trigger] r[j],
            #[trigger] r[i],
        ) by {
            if i == 0 {
                if less(r[j], x) {
                    if j - 1 > 0 {
                        assert(!less(s[j - 1], s[0]));
                    }
                }
            } else {
                assert(r[i] == s[i - 1] && r[j] == s[j - 1]);
            }
        }
    } else {
        let t = s.drop_first();
        assert(sorted_by(t, less)) by {
            assert forall|i: int, j: int| 0 <= i < j < t.len() implies !less(
                #[trigger] t[j],
                #[trigger] t[i],
            ) by {
                assert(t[i] == s[i + 1] && t[j] == s[j + 1]);
            }
        }
        lemma_insert_sorted(t, x, less);
        let it = insert_by(t, x, less);
        let q = lemma_insert_somewhere(t, x, less);
        let r = seq![s[0]] + it;
        assert forall|i: int, j: int| 0 <= i < j < r.len() implies !less(
            #[trigger] r[j],
            #[trigger] r[i],
        ) by {
            if i == 0 {
                let k = j - 1;
                if k < q {
                    assert(r[j] == t[k] && t[k] == s[k + 1]);
                } else if k == q {
                    assert(r[j] == x);
                } else {
                    assert(r[j] == t[k - 1] && t[k - 1] == s[k]);
                }
            } else {
                assert(r[i] == it[i - 1] && r[j] == it[j - 1]);
            }
        }
    }
}

/// A stable sort is sorted, and holds exactly the elements it was given.
pub proof fn lemma_sort_by<A>(s: Seq<A>, less: spec_fn(A, A) -> bool)
    requires
        strict_order(less),
    ensures
        sorted_by(sort_by(s, less), less),
        sort_by(s, less).to_multiset() == s.to_multiset(),
        sort_by(s, less).len() == s.len(),
    decreases s.len(),
{
    broadcast use vstd::seq_lib::to_multiset_insert, vstd::seq_lib::to_multiset_build;

    if s.len() > 0 {
        let rest = s.drop_last();
        lemma_sort_by(rest, less);
        lemma_insert_sorted(sort_by(rest, less), s.last(), less);
        let p = lemma_insert_somewhere(sort_by(rest, less), s.last(), less);
        assert(rest.push(s.last()) =~= s);
    }
}

} // verus!
