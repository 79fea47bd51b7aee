//! Rosters as the outcome of additions.
//!
//! A roster only ever changes by additions, so what it holds is settled by
//! the additions made so far. This module says how, and states what follows
//! for the queries: what they show does not depend on the order in which the
//! employees were added, nothing is lost when a name is added twice, and a
//! department to which nobody was added is not found.
use crate::roster::{is_listing, roster_add, roster_list, staffed, RosterError};
use crate::sorting::{
    ascending, lemma_ascending_permutation_is_sorted, lemma_sorted_is_ascending_permutation, sorted,
};
use crate::text::{lemma_lex_order_total, lex_le, lex_lt, lex_order};
use vstd::prelude::*;
use vstd::seq_lib::{lemma_sorted_unique, to_multiset_build};

verus! {

/// The roster that a sequence of additions makes of the empty roster. An
/// addition names the employee first and the department second.
pub open spec fn roster_of(additions: Seq<(Seq<char>, Seq<char>)>) -> Map<
    Seq<char>,
    Seq<Seq<char>>,
>
    decreases additions.len(),
{
    if additions.len() == 0 {
        Map::empty()
    } else {
        roster_add(
            roster_of(additions.drop_last()),
            additions.last().0,
            additions.last().1,
        )
    }
}

/// The employees that `additions` add to `department`, in the order of the additions.
pub open spec fn added_to(additions: Seq<(Seq<char>, Seq<char>)>, department: Seq<char>) -> Seq<
    Seq<char>,
>
    decreases additions.len(),
{
    if additions.len() == 0 {
        Seq::empty()
    } else if additions.last().1 == department {
        added_to(additions.drop_last(), department).push(additions.last().0)
    } else {
        added_to(additions.drop_last(), department)
    }
}

/// The names of the departments of a listing, in its order.
pub open spec fn listed_names(listing: Seq<(Seq<char>, Seq<Seq<char>>)>) -> Seq<Seq<char>> {
    Seq::new(listing.len(), |i: int| listing[i].0)
}

/// After a sequence of additions the roster has exactly the departments to
/// which somebody was added, and each holds the employees added to it, in
/// the order in which they came.
pub proof fn lemma_roster_holds_what_was_added(
    additions: Seq<(Seq<char>, Seq<char>)>,
    department: Seq<char>,
)
    ensures
        roster_of(additions).contains_key(department) <==> added_to(additions, department).len()
            > 0,
        roster_of(additions).contains_key(department) ==> roster_of(additions)[department]
            == added_to(additions, department),
    decreases additions.len(),
{
    if additions.len() > 0 {
        lemma_roster_holds_what_was_added(additions.drop_last(), department);
    }
}

/// Whatever was added, no department of the roster is left without an employee.
pub proof fn lemma_roster_is_staffed(additions: Seq<(Seq<char>, Seq<char>)>)
    ensures
        staffed(roster_of(additions)),
{
    let roster = roster_of(additions);
    assert forall|department: Seq<char>| #[trigger]
        roster.contains_key(department) implies roster[department].len() > 0 by {
        lemma_roster_holds_what_was_added(additions, department);
    }
}

/// A query for a department that no addition has named finds no department.
pub proof fn lemma_unnamed_department_is_not_found(
    additions: Seq<(Seq<char>, Seq<char>)>,
    department: Seq<char>,
)
    requires
        forall|i: int| 0 <= i < additions.len() ==> (#[trigger] additions[i]).1 != department,
    ensures
        roster_list(roster_of(additions), department) == Err::<Seq<Seq<char>>, _>(
            RosterError::DepartmentNotFound,
        ),
    decreases additions.len(),
{
    if additions.len() > 0 {
        let earlier = additions.drop_last();
        assert forall|i: int| 0 <= i < earlier.len() implies (#[trigger] earlier[i]).1
            != department by {}
        lemma_unnamed_department_is_not_found(earlier, department);
    }
}

/// Adding an employee twice to a department puts the name twice on its list:
/// nothing is taken for a duplicate, in the roster or in what a query shows.
pub proof fn lemma_adding_twice_keeps_both(
    roster: Map<Seq<char>, Seq<Seq<char>>>,
    employee: Seq<char>,
    department: Seq<char>,
)
    ensures
        ({
            let staff = if roster.contains_key(department) {
                roster[department]
            } else {
                Seq::empty()
            };
            let twice = roster_add(roster_add(roster, employee, department), employee, department);
            &&& twice[department] == staff.push(employee).push(employee)
            &&& roster_list(twice, department) is Ok
            &&& roster_list(twice, department)->Ok_0.len() == staff.len() + 2
            &&& roster_list(twice, department)->Ok_0.to_multiset().count(employee)
                == staff.to_multiset().count(employee) + 2
        }),
{
    let staff = if roster.contains_key(department) {
        roster[department]
    } else {
        Seq::empty()
    };
    let both = staff.push(employee).push(employee);
    lemma_sorted_is_ascending_permutation(both);
    to_multiset_build(staff, employee);
    to_multiset_build(staff.push(employee), employee);
}

/// What a listing shows is in order: the departments ascend by name, no
/// department comes twice, and the employees of each are the department's
/// own, each as often as it was added, in ascending order.
pub proof fn lemma_listing_is_sorted(
    listing: Seq<(Seq<char>, Seq<Seq<char>>)>,
    roster: Map<Seq<char>, Seq<Seq<char>>>,
)
    requires
        is_listing(listing, roster),
    ensures
        ascending(listed_names(listing)),
        listed_names(listing).no_duplicates(),
        forall|i: int|
            0 <= i < listing.len() ==> {
                &&& ascending((#[trigger] listing[i]).1)
                &&& listing[i].1.to_multiset() == roster[listing[i].0].to_multiset()
            },
{
    let names = listed_names(listing);
    assert forall|i: int, j: int| 0 <= i < j < names.len() implies lex_le(
        #[trigger] names[i],
        #[trigger] names[j],
    ) by {
        assert(lex_lt(listing[i].0, listing[j].0));
    }
    assert forall|i: int, j: int| 0 <= i < j < names.len() implies names[i] != names[j] by {
        assert(lex_lt(listing[i].0, listing[j].0));
    }
    assert forall|i: int| 0 <= i < listing.len() implies {
        &&& ascending((#[trigger] listing[i]).1)
        &&& listing[i].1.to_multiset() == roster[listing[i].0].to_multiset()
    } by {
        lemma_sorted_is_ascending_permutation(roster[listing[i].0]);
    }
}

/// Two rosters with the same departments, whose lists differ at most in the
/// order of their employees, have the same listing.
pub proof fn lemma_listing_settled_by_sorted_lists(
    first: Seq<(Seq<char>, Seq<Seq<char>>)>,
    first_roster: Map<Seq<char>, Seq<Seq<char>>>,
    second: Seq<(Seq<char>, Seq<Seq<char>>)>,
    second_roster: Map<Seq<char>, Seq<Seq<char>>>,
)
    requires
        is_listing(first, first_roster),
        is_listing(second, second_roster),
        forall|department: Seq<char>|
            first_roster.contains_key(department) <==> second_roster.contains_key(department),
        forall|department: Seq<char>| #[trigger]
            first_roster.contains_key(department) ==> sorted(first_roster[department]) == sorted(
                second_roster[department],
            ),
    ensures
        first == second,
{
    let a = listed_names(first);
    let b = listed_names(second);
    lemma_listing_is_sorted(first, first_roster);
    lemma_listing_is_sorted(second, second_roster);
    a.lemma_multiset_has_no_duplicates();
    b.lemma_multiset_has_no_duplicates();
    a.to_multiset_ensures();
    b.to_multiset_ensures();
    assert forall|name: Seq<char>| a.to_multiset().count(name) == b.to_multiset().count(name) by {
        if a.contains(name) {
            let i = choose|i: int| 0 <= i < a.len() && a[i] == name;
            assert(first_roster.contains_key(first[i].0));
            let j = choose|j: int| 0 <= j < second.len() && (#[trigger] second[j]).0 == name;
            assert(b[j] == name);
        }
        if b.contains(name) {
            let j = choose|j: int| 0 <= j < b.len() && b[j] == name;
            assert(second_roster.contains_key(second[j].0));
            let i = choose|i: int| 0 <= i < first.len() && (#[trigger] first[i]).0 == name;
            assert(a[i] == name);
        }
    }
    assert(a.to_multiset() =~= b.to_multiset());
    lemma_lex_order_total();
    assert forall|i: int, j: int| 0 <= i < j < a.len() implies #[trigger] lex_order()(
        a[i],
        a[j],
    ) by {}
    assert forall|i: int, j: int| 0 <= i < j < b.len() implies #[trigger] lex_order()(
        b[i],
        b[j],
    ) by {}
    lemma_sorted_unique(a, b, lex_order());
    assert forall|i: int| 0 <= i < first.len() implies first[i] == second[i] by {
        assert(a[i] == b[i]);
    }
}

/// Asked twice of the same roster, `list_all` shows the same: a roster has one listing.
pub proof fn lemma_listing_unique(
    roster: Map<Seq<char>, Seq<Seq<char>>>,
    first: Seq<(Seq<char>, Seq<Seq<char>>)>,
    second: Seq<(Seq<char>, Seq<Seq<char>>)>,
)
    requires
        is_listing(first, roster),
        is_listing(second, roster),
    ensures
        first == second,
{
    lemma_listing_settled_by_sorted_lists(first, roster, second, roster);
}

/// Asked twice of the same roster, `list` answers the same.
pub proof fn lemma_list_repeatable(
    roster: Map<Seq<char>, Seq<Seq<char>>>,
    department: Seq<char>,
    first: Result<Seq<Seq<char>>, RosterError>,
    second: Result<Seq<Seq<char>>, RosterError>,
)
    requires
        first == roster_list(roster, department),
        second == roster_list(roster, department),
    ensures
        first == second,
{
}

/// An employee is on the list that the additions give a department as often
/// as the additions name the two together.
pub proof fn lemma_added_as_often_as_named(
    additions: Seq<(Seq<char>, Seq<char>)>,
    employee: Seq<char>,
    department: Seq<char>,
)
    ensures
        added_to(additions, department).to_multiset().count(employee)
            == additions.to_multiset().count((employee, department)),
    decreases additions.len(),
{
    if additions.len() == 0 {
        additions.to_multiset_ensures();
        added_to(additions, department).to_multiset_ensures();
    } else {
        let earlier = additions.drop_last();
        let last = additions.last();
        lemma_added_as_often_as_named(earlier, employee, department);
        assert(additions =~= earlier.push(last));
        to_multiset_build(earlier, last);
        if last.1 == department {
            to_multiset_build(added_to(earlier, department), last.0);
        }
    }
}

/// The order of the additions does not show: two sequences of the same
/// additions, in whatever order, give rosters with the same listing and the
/// same answer to every query for a department.
pub proof fn lemma_queries_ignore_order_of_additions(
    first: Seq<(Seq<char>, Seq<char>)>,
    second: Seq<(Seq<char>, Seq<char>)>,
)
    requires
        first.to_multiset() == second.to_multiset(),
    ensures
        forall|department: Seq<char>|
            roster_list(roster_of(first), department) == roster_list(
                roster_of(second),
                department,
            ),
        forall|
            shown_first: Seq<(Seq<char>, Seq<Seq<char>>)>,
            shown_second: Seq<(Seq<char>, Seq<Seq<char>>)>,
        |
            is_listing(shown_first, roster_of(first)) && is_listing(shown_second, roster_of(second))
                ==> shown_first == shown_second,
{
    let one = roster_of(first);
    let other = roster_of(second);
    assert forall|department: Seq<char>|
        (one.contains_key(department) <==> other.contains_key(department)) && (one.contains_key(
            department,
        ) ==> sorted(one[department]) == sorted(other[department])) by {
        let x = added_to(first, department);
        let y = added_to(second, department);
        lemma_roster_holds_what_was_added(first, department);
        lemma_roster_holds_what_was_added(second, department);
        assert forall|employee: Seq<char>| x.to_multiset().count(employee) == y.to_multiset().count(
            employee,
        ) by {
            lemma_added_as_often_as_named(first, employee, department);
            lemma_added_as_often_as_named(second, employee, department);
        }
        assert(x.to_multiset() =~= y.to_multiset());
        x.to_multiset_ensures();
        y.to_multiset_ensures();
        lemma_sorted_is_ascending_permutation(x);
        lemma_ascending_permutation_is_sorted(sorted(x), y);
    }
    assert forall|
        shown_first: Seq<(Seq<char>, Seq<Seq<char>>)>,
        shown_second: Seq<(Seq<char>, Seq<Seq<char>>)>,
    |
        is_listing(shown_first, one) && is_listing(shown_second, other) implies shown_first
        == shown_second by {
        lemma_listing_settled_by_sorted_lists(shown_first, one, shown_second, other);
    }
}

} // verus!
