//! Lists of numbers: their median and their mode.
use std::collections::HashMap;
use vstd::prelude::*;
use vstd::relations::{sorted_by, total_ordering};
use vstd::seq_lib::{lemma_sorted_unique, to_multiset_build, to_multiset_insert};

verus! {

broadcast use {vstd::std_specs::hash::group_hash_axioms, vstd::multiset::group_multiset_axioms};

/// The usual order of numbers, as a relation.
pub open spec fn at_most() -> spec_fn(i32, i32) -> bool {
    |a: i32, b: i32| a <= b
}

/// The numbers of `numbers`, each as often as it occurs there, from the least to the greatest.
pub open spec fn in_order(numbers: Seq<i32>) -> Seq<i32> {
    numbers.sort_by(at_most())
}

/// Where the middle of a list of numbers lies.
#[derive(Debug, Clone, Copy, PartialEq, Eq)]
pub enum Median {
    /// The list has an odd number of entries: the median is the middle one.
    Middle(i32),
    /// The list has an even number of entries: the median lies midway
    /// between the two in the middle, given here the lesser first.
    Between(i32, i32),
}

/// The median of `numbers`, if there are any.
pub open spec fn median_of(numbers: Seq<i32>) -> Option<Median> {
    let ordered = in_order(numbers);
    let mid = numbers.len() / 2;
    if numbers.len() == 0 {
        None
    } else if numbers.len() % 2 == 0 {
        Some(Median::Between(ordered[mid - 1], ordered[mid as int]))
    } else {
        Some(Median::Middle(ordered[mid as int]))
    }
}

/// How often `x` occurs in `numbers`.
pub open spec fn occurrences(numbers: Seq<i32>, x: i32) -> nat {
    numbers.to_multiset().count(x)
}

/// `mode` occurs in `numbers`, and nothing occurs there more often.
pub open spec fn is_mode(numbers: Seq<i32>, mode: i32) -> bool {
    &&& numbers.contains(mode)
    &&& forall|x: i32| occurrences(numbers, x) <= occurrences(numbers, mode)
}

/// `mode` is the first mode of `numbers`: whatever stands before its first
/// occurrence occurs less often.
pub open spec fn is_first_mode(numbers: Seq<i32>, mode: i32) -> bool {
    &&& is_mode(numbers, mode)
    &&& exists|i: int|
        {
            &&& 0 <= i < numbers.len()
            &&& #[trigger] numbers[i] == mode
            &&& forall|k: int|
                0 <= k < i ==> occurrences(numbers, #[trigger] numbers[k]) < occurrences(
                    numbers,
                    mode,
                )
        }
}

/// A copy of `numbers` from the least to the greatest.
pub fn sorted_numbers(numbers: &[i32]) -> (ordered: Vec<i32>)
    ensures
        ordered@ == in_order(numbers@),
{
    let mut ordered: Vec<i32> = Vec::new();
    assert(numbers@.take(0) =~= ordered@);
    for i in 0..numbers.len()
        invariant
            ordered@.to_multiset() == numbers@.take(i as int).to_multiset(),
            forall|a: int, b: int| 0 <= a < b < ordered.len() ==> ordered[a] <= ordered[b],
    {
        let x = numbers[i];
        let mut place: usize = 0;
        while place < ordered.len() && ordered[place] <= x
            invariant
                place <= ordered.len(),
                forall|a: int| 0 <= a < place ==> ordered[a] <= x,
            decreases ordered.len() - place,
        {
            place += 1;
        }
        proof {
            to_multiset_insert(ordered@, place as int, x);
            to_multiset_build(numbers@.take(i as int), x);
            assert(numbers@.take(i + 1) =~= numbers@.take(i as int).push(x));
        }
        ordered.insert(place, x);
    }
    proof {
        assert(numbers@.take(numbers.len() as int) =~= numbers@);
        assert(total_ordering(at_most()));
        assert(sorted_by(ordered@, at_most()));
        numbers@.lemma_sort_by_ensures(at_most());
        lemma_sorted_unique(ordered@, in_order(numbers@), at_most());
    }
    ordered
}

/// The median of `numbers`: none if the list is empty.
pub fn calculate_median(numbers: &[i32]) -> (median: Option<Median>)
    ensures
        median == median_of(numbers@),
{
    if numbers.len() == 0 {
        return None;
    }
    let ordered = sorted_numbers(numbers);
    proof {
        numbers@.lemma_sort_by_ensures(at_most());
        numbers@.to_multiset_ensures();
        ordered@.to_multiset_ensures();
    }
    let len = ordered.len();
    let mid_index = len / 2;
    if len % 2 == 0 {
        Some(Median::Between(ordered[mid_index - 1], ordered[mid_index]))
    } else {
        Some(Median::Middle(ordered[mid_index]))
    }
}

/// The number that occurs most often in `numbers`: none if the list is
/// empty. Where several numbers tie, it is the one among them that comes
/// first in the list.
pub fn calculate_mode(numbers: &[i32]) -> (mode: Option<i32>)
    ensures
        match mode {
            Some(m) => is_first_mode(numbers@, m),
            None => numbers.len() == 0,
        },
{
    if numbers.len() == 0 {
        return None;
    }
    let mut counts: HashMap<i32, usize> = HashMap::new();
    assert(numbers@.take(0).to_multiset() =~= vstd::multiset::Multiset::empty()) by {
        numbers@.take(0).to_multiset_ensures();
    }
    let mut i: usize = 0;
    while i < numbers.len()
        invariant
            i <= numbers.len(),
            forall|x: i32| counts@.contains_key(x) <==> occurrences(numbers@.take(i as int), x) > 0,
            forall|x: i32| #[trigger]
                counts@.contains_key(x) ==> counts@[x] == occurrences(numbers@.take(i as int), x),
            forall|x: i32| occurrences(numbers@.take(i as int), x) <= i,
        decreases numbers.len() - i,
    {
        let num = numbers[i];
        proof {
            to_multiset_build(numbers@.take(i as int), num);
            assert(numbers@.take(i + 1) =~= numbers@.take(i as int).push(num));
        }
        let ghost earlier = numbers@.take(i as int);
        let ghost later = numbers@.take(i + 1);
        assert forall|x: i32| #[trigger]
            occurrences(later, x) == occurrences(earlier, x) + (if x == num {
                1nat
            } else {
                0nat
            }) by {}
        assert forall|x: i32| #[trigger] occurrences(later, x) <= i + 1 by {
            assert(occurrences(earlier, x) <= i);
        }
        let count = counts.entry(num).or_insert(0);
        *count += 1;
        i += 1;
    }
    assert(numbers@.take(numbers.len() as int) =~= numbers@);
    let mut best = numbers[0];
    let mut best_count: usize = 0;
    let ghost mut found: int = 0;
    proof {
        numbers@.to_multiset_ensures();
    }
    for i in 0..numbers.len()
        invariant
            numbers.len() > 0,
            forall|x: i32| counts@.contains_key(x) <==> occurrences(numbers@, x) > 0,
            forall|x: i32| #[trigger]
                counts@.contains_key(x) ==> counts@[x] == occurrences(numbers@, x),
            forall|x: i32| numbers@.contains(x) <==> occurrences(numbers@, x) > 0,
            0 <= found < numbers.len(),
            found <= i,
            numbers[found] == best,
            i == 0 ==> best_count == 0,
            i > 0 ==> best_count == occurrences(numbers@, best),
            forall|k: int|
                0 <= k < i ==> occurrences(numbers@, #[trigger] numbers[k]) <= best_count,
            forall|k: int|
                0 <= k < found ==> occurrences(numbers@, #[trigger] numbers[k]) < best_count,
    {
        let num = numbers[i];
        assert(numbers@.contains(num));
        let count = *counts.get(&num).unwrap();
        if count > best_count {
            best = num;
            best_count = count;
            proof {
                found = i as int;
            }
        }
    }
    assert forall|x: i32| occurrences(numbers@, x) <= occurrences(numbers@, best) by {
        if numbers@.contains(x) {
            let k = choose|k: int| 0 <= k < numbers.len() && numbers[k] == x;
            assert(occurrences(numbers@, numbers[k]) <= best_count);
        }
    }
    Some(best)
}

} // verus!
