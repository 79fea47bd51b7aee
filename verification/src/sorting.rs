//! Sorting of names.
//!
//! `sorted` says what the sorted arrangement of a list of names is; the
//! executable `sorted_copy` computes it by a merge sort and leaves its input
//! untouched.
use crate::text::{
    lemma_lex_le_total, lemma_lex_le_transitive, lemma_lex_order_total, lex_le, lex_order, str_le,
};
use vstd::prelude::*;
use vstd::relations::sorted_by;
use vstd::seq_lib::{lemma_multiset_commutative, lemma_sorted_unique, to_multiset_build};

verus! {

/// No name stands before one that the order puts ahead of it.
pub open spec fn ascending(names: Seq<Seq<char>>) -> bool {
    forall|i: int, j: int|
        0 <= i < j < names.len() ==> lex_le(#[trigger] names[i], #[trigger] names[j])
}

/// The names of `names`, each as often as it occurs there, in ascending order.
pub open spec fn sorted(names: Seq<Seq<char>>) -> Seq<Seq<char>> {
    names.sort_by(lex_order())
}

/// The sorted arrangement is ascending and holds exactly the names it was made from.
pub proof fn lemma_sorted_is_ascending_permutation(names: Seq<Seq<char>>)
    ensures
        ascending(sorted(names)),
        sorted(names).to_multiset() == names.to_multiset(),
        sorted(names).len() == names.len(),
{
    lemma_lex_order_total();
    names.lemma_sort_by_ensures(lex_order());
    names.to_multiset_ensures();
    sorted(names).to_multiset_ensures();
    let out = sorted(names);
    assert forall|i: int, j: int| 0 <= i < j < out.len() implies lex_le(
        #[trigger] out[i],
        #[trigger] out[j],
    ) by {
        assert(lex_order()(out[i], out[j]));
    }
}

/// An ascending arrangement of the same names is the sorted arrangement: there is only one.
pub proof fn lemma_ascending_permutation_is_sorted(out: Seq<Seq<char>>, names: Seq<Seq<char>>)
    requires
        ascending(out),
        out.to_multiset() == names.to_multiset(),
    ensures
        out == sorted(names),
{
    lemma_lex_order_total();
    names.lemma_sort_by_ensures(lex_order());
    assert(sorted_by(out, lex_order()));
    lemma_sorted_unique(out, sorted(names), lex_order());
}

/// Merges two ascending lists into one.
fn merge(left: &Vec<String>, right: &Vec<String>) -> (out: Vec<String>)
    requires
        ascending(left.deep_view()),
        ascending(right.deep_view()),
    ensures
        ascending(out.deep_view()),
        out.deep_view().to_multiset() == left.deep_view().to_multiset().add(
            right.deep_view().to_multiset(),
        ),
{
    let ghost l = left.deep_view();
    let ghost r = right.deep_view();
    let mut out: Vec<String> = Vec::new();
    let mut i: usize = 0;
    let mut j: usize = 0;
    assert(out.deep_view() =~= Seq::empty());
    assert(l.take(0) =~= Seq::empty());
    assert(r.take(0) =~= Seq::empty());
    assert(Seq::<Seq<char>>::empty().to_multiset() =~= Seq::<Seq<char>>::empty().to_multiset().add(
        Seq::<Seq<char>>::empty().to_multiset(),
    )) by {
        lemma_multiset_commutative(Seq::<Seq<char>>::empty(), Seq::<Seq<char>>::empty());
    }
    while i < left.len() || j < right.len()
        invariant
            l == left.deep_view(),
            r == right.deep_view(),
            i <= left.len(),
            j <= right.len(),
            ascending(l),
            ascending(r),
            ascending(out.deep_view()),
            out.deep_view().to_multiset() == l.take(i as int).to_multiset().add(
                r.take(j as int).to_multiset(),
            ),
            forall|k: int, m: int|
                0 <= k < out.len() && i <= m < l.len() ==> lex_le(
                    #[trigger] out.deep_view()[k],
                    #[trigger] l[m],
                ),
            forall|k: int, m: int|
                0 <= k < out.len() && j <= m < r.len() ==> lex_le(
                    #[trigger] out.deep_view()[k],
                    #[trigger] r[m],
                ),
        decreases left.len() - i + right.len() - j,
    {
        let ghost before = out.deep_view();
        let from_left = if i == left.len() {
            false
        } else if j == right.len() {
            true
        } else {
            str_le(left[i].as_str(), right[j].as_str())
        };
        if from_left {
            out.push(left[i].clone());
            proof {
                let x = l[i as int];
                assert(out.deep_view() =~= before.push(x));
                assert(l.take(i + 1) =~= l.take(i as int).push(x));
                to_multiset_build(before, x);
                to_multiset_build(l.take(i as int), x);
                assert forall|m: int| j <= m < r.len() implies lex_le(x, #[trigger] r[m]) by {
                    if m > j {
                        lemma_lex_le_transitive(x, r[j as int], r[m]);
                    }
                }
            }
            i += 1;
        } else {
            out.push(right[j].clone());
            proof {
                let x = r[j as int];
                assert(out.deep_view() =~= before.push(x));
                assert(r.take(j + 1) =~= r.take(j as int).push(x));
                to_multiset_build(before, x);
                to_multiset_build(r.take(j as int), x);
                assert forall|m: int| i <= m < l.len() implies lex_le(x, #[trigger] l[m]) by {
                    lemma_lex_le_total(l[i as int], x);
                    if m > i {
                        lemma_lex_le_transitive(x, l[i as int], l[m]);
                    }
                }
            }
            j += 1;
        }
    }
    assert(l.take(i as int) =~= l);
    assert(r.take(j as int) =~= r);
    out
}

/// A sorted copy of the part of `items` from `lo` up to `hi`.
fn sorted_range(items: &Vec<String>, lo: usize, hi: usize) -> (out: Vec<String>)
    requires
        lo <= hi <= items.len(),
    ensures
        ascending(out.deep_view()),
        out.deep_view().to_multiset() == items.deep_view().subrange(
            lo as int,
            hi as int,
        ).to_multiset(),
    decreases hi - lo,
{
    let ghost all = items.deep_view();
    if hi - lo <= 1 {
        let mut out: Vec<String> = Vec::new();
        if lo < hi {
            out.push(items[lo].clone());
        }
        assert(out.deep_view() =~= all.subrange(lo as int, hi as int));
        out
    } else {
        let mid = lo + (hi - lo) / 2;
        let left = sorted_range(items, lo, mid);
        let right = sorted_range(items, mid, hi);
        proof {
            assert(all.subrange(lo as int, hi as int) =~= all.subrange(lo as int, mid as int)
                + all.subrange(mid as int, hi as int));
            lemma_multiset_commutative(
                all.subrange(lo as int, mid as int),
                all.subrange(mid as int, hi as int),
            );
        }
        merge(&left, &right)
    }
}

/// The names of `items` in ascending order; `items` itself is left as it is.
pub fn sorted_copy(items: &Vec<String>) -> (out: Vec<String>)
    ensures
        out.deep_view() == sorted(items.deep_view()),
{
    let out = sorted_range(items, 0, items.len());
    proof {
        assert(items.deep_view().subrange(0, items.len() as int) =~= items.deep_view());
        lemma_ascending_permutation_is_sorted(out.deep_view(), items.deep_view());
    }
    out
}

} // verus!
