//! Functions and types that work for many types at once.
use vstd::prelude::*;
use vstd::std_specs::cmp::{PartialOrdIs, PartialOrdSpec};

verus! {

/// Whether comparisons of `T` give what the specification of its order says.
pub open spec fn comparable<T: PartialOrd>() -> bool {
    T::obeys_partial_cmp_spec()
}

/// The item that a walk through `list` ends up holding if it starts with the
/// first item and swaps it for each later one that is greater than the one held.
pub open spec fn largest_of<T: PartialOrd>(list: Seq<T>) -> T
    decreases list.len(),
{
    if list.len() <= 1 {
        list[0]
    } else {
        let held = largest_of(list.drop_last());
        if list.last().is_gt(&held) {
            list.last()
        } else {
            held
        }
    }
}

/// Among numbers, the item that `largest_of` picks is the greatest: it is in
/// the list, and no number of the list is above it.
pub proof fn lemma_largest_number_is_greatest(list: Seq<i32>)
    requires
        list.len() > 0,
    ensures
        list.contains(largest_of(list)),
        forall|i: int| 0 <= i < list.len() ==> list[i] <= largest_of(list),
    decreases list.len(),
{
    if list.len() > 1 {
        let earlier = list.drop_last();
        lemma_largest_number_is_greatest(earlier);
        assert forall|i: int| 0 <= i < list.len() implies list[i] <= largest_of(list) by {
            if i < earlier.len() {
                assert(earlier[i] == list[i]);
            }
        }
    }
}

/// The largest item of a list that has one.
pub fn largest<T: PartialOrd>(list: &[T]) -> (greatest: &T)
    requires
        list.len() > 0,
    ensures
        list@.contains(*greatest),
        comparable::<T>() ==> *greatest == largest_of(list@),
{
    let mut largest = &list[0];
    for i in 0..list.len()
        invariant
            list.len() > 0,
            list@.contains(*largest),
            i == 0 ==> *largest == list[0],
            i > 0 && comparable::<T>() ==> *largest == largest_of(list@.take(i as int)),
    {
        let item = &list[i];
        if *item > *largest {
            largest = item;
        }
        proof {
            let seen = list@.take(i + 1);
            assert(seen.drop_last() =~= list@.take(i as int));
        }
    }
    assert(list@.take(list.len() as int) =~= list@);
    largest
}

/// A point in the plane, with coordinates of whatever types.
#[derive(Debug, Clone, Copy, PartialEq)]
pub struct Point<T, U> {
    pub x: T,
    pub y: U,
}

impl<T, U> Point<T, U> {
    /// The first coordinate.
    pub fn x(&self) -> (x: &T)
        ensures
            *x == self.x,
    {
        &self.x
    }

    /// The point with the first coordinate of this one and the second of `other`.
    pub fn mixup<V, W>(self, other: Point<V, W>) -> (mixed: Point<T, W>)
        ensures
            mixed.x == self.x,
            mixed.y == other.y,
    {
        Point { x: self.x, y: other.y }
    }
}

/// Two values of one type.
#[derive(Debug, Clone, Copy, PartialEq)]
pub struct Pair<T> {
    pub first: T,
    pub second: T,
}

impl<T> Pair<T> {
    /// The pair of `first` and `second`.
    pub fn new(first: T, second: T) -> (pair: Self)
        ensures
            pair.first == first,
            pair.second == second,
    {
        Self { first, second }
    }
}

impl<T: PartialOrd> Pair<T> {
    /// The larger of the two values: the first unless the second is above it.
    pub fn larger(&self) -> (larger: &T)
        ensures
            *larger == self.first || *larger == self.second,
            comparable::<T>() ==> *larger == (if self.first.is_ge(&self.second) {
                self.first
            } else {
                self.second
            }),
    {
        if self.first >= self.second {
            &self.first
        } else {
            &self.second
        }
    }
}

/// The items of `items` against which `kept` holds `true`, in their order.
pub open spec fn selected<T>(items: Seq<T>, kept: Seq<bool>) -> Seq<T>
    decreases items.len(),
{
    if items.len() == 0 {
        Seq::empty()
    } else if kept.last() {
        selected(items.drop_last(), kept.drop_last()).push(items.last())
    } else {
        selected(items.drop_last(), kept.drop_last())
    }
}

/// Copies of the items of `slice` for which `predicate` holds, in their order.
///
/// The predicate is asked once for each item, from the first to the last, and
/// what comes back holds copies of just those items for which it said yes.
pub fn filter<T, F>(slice: &[T], predicate: F) -> (result: Vec<T>) where
    T: Clone,
    F: Fn(&T) -> bool,

    requires
        forall|i: int|
            0 <= i < slice.len() ==> call_requires(predicate, (&#[trigger] slice[i],)),
    ensures
        exists|kept: Seq<bool>|
            {
                &&& kept.len() == slice.len()
                &&& forall|i: int|
                    0 <= i < slice.len() ==> call_ensures(
                        predicate,
                        (&slice[i],),
                        #[trigger] kept[i],
                    )
                &&& result.len() == selected(slice@, kept).len()
                &&& forall|k: int|
                    0 <= k < result.len() ==> cloned::<T>(
                        selected(slice@, kept)[k],
                        #[trigger] result[k],
                    )
            },
{
    let mut result: Vec<T> = Vec::new();
    let ghost mut kept: Seq<bool> = Seq::empty();
    for i in 0..slice.len()
        invariant
            forall|i: int|
                0 <= i < slice.len() ==> call_requires(predicate, (&#[trigger] slice[i],)),
            kept.len() == i,
            forall|j: int| 0 <= j < i ==> call_ensures(predicate, (&slice[j],), #[trigger] kept[j]),
            result.len() == selected(slice@.take(i as int), kept).len(),
            forall|k: int|
                0 <= k < result.len() ==> cloned::<T>(
                    selected(slice@.take(i as int), kept)[k],
                    #[trigger] result[k],
                ),
    {
        let item = &slice[i];
        let keep = predicate(item);
        proof {
            let seen = slice@.take(i + 1);
            assert(seen.drop_last() =~= slice@.take(i as int));
            assert(kept.push(keep).drop_last() =~= kept);
            kept = kept.push(keep);
        }
        if keep {
            result.push(item.clone());
        }
    }
    assert(slice@.take(slice.len() as int) =~= slice@);
    result
}

} // verus!
