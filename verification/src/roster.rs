//! The roster: which employees each department has.
//!
//! A `RosterStore` is seen as a map from a department's name to its employees
//! in the order in which they were added. Departments come into being with
//! their first employee and are never removed.
use crate::sorting::{lemma_sorted_is_ascending_permutation, sorted, sorted_copy};
use crate::text::{lex_le, lex_lt};
use vstd::hash_map::StringHashMap;
use vstd::prelude::*;

verus! {

/// The roster after `employee` has been added to `department`: the department
/// is created if it was missing, and the employee goes to the end of its list,
/// whether or not the name is already on it.
pub open spec fn roster_add(
    roster: Map<Seq<char>, Seq<Seq<char>>>,
    employee: Seq<char>,
    department: Seq<char>,
) -> Map<Seq<char>, Seq<Seq<char>>> {
    let staff = if roster.contains_key(department) {
        roster[department]
    } else {
        Seq::empty()
    };
    roster.insert(department, staff.push(employee))
}

/// Every department of `roster` has at least one employee.
pub open spec fn staffed(roster: Map<Seq<char>, Seq<Seq<char>>>) -> bool {
    forall|department: Seq<char>| #[trigger]
        roster.contains_key(department) ==> roster[department].len() > 0
}

/// What a query for `department` gives: its employees, sorted, or the news
/// that the roster has no such department.
pub open spec fn roster_list(
    roster: Map<Seq<char>, Seq<Seq<char>>>,
    department: Seq<char>,
) -> Result<Seq<Seq<char>>, RosterError> {
    if roster.contains_key(department) {
        Ok(sorted(roster[department]))
    } else {
        Err(RosterError::DepartmentNotFound)
    }
}

/// `listing` shows `roster` in full and in order: each department once, the
/// departments ascending by name, and with each its employees sorted.
pub open spec fn is_listing(
    listing: Seq<(Seq<char>, Seq<Seq<char>>)>,
    roster: Map<Seq<char>, Seq<Seq<char>>>,
) -> bool {
    &&& forall|i: int, j: int|
        0 <= i < j < listing.len() ==> lex_lt((#[trigger] listing[i]).0, (#[trigger] listing[j]).0)
    &&& forall|i: int|
        0 <= i < listing.len() ==> {
            &&& roster.contains_key((#[trigger] listing[i]).0)
            &&& listing[i].1 == sorted(roster[listing[i].0])
        }
    &&& forall|department: Seq<char>| #[trigger]
        roster.contains_key(department) ==> exists|i: int|
            0 <= i < listing.len() && (#[trigger] listing[i]).0 == department
}

/// Why a query could not be answered.
#[derive(Debug, Clone, Copy, PartialEq, Eq)]
pub enum RosterError {
    /// The roster has no department of the name asked for.
    DepartmentNotFound,
}

/// One department: its name and its employees in the order of their arrival.
struct Department {
    name: String,
    employees: Vec<String>,
}

/// The departments of a company with their employees.
pub struct RosterStore {
    /// For each department's name, its place in `departments`.
    index: StringHashMap<usize>,
    departments: Vec<Department>,
}

impl View for RosterStore {
    type V = Map<Seq<char>, Seq<Seq<char>>>;

    closed spec fn view(&self) -> Self::V {
        Map::new(
            |name: Seq<char>| self.index@.contains_key(name),
            |name: Seq<char>| self.departments[self.index@[name] as int].employees.deep_view(),
        )
    }
}

impl RosterStore {
    /// The index and the list of departments describe the same departments,
    /// and each department has an employee.
    #[verifier::type_invariant]
    spec fn well_formed(&self) -> bool {
        &&& forall|i: int|
            0 <= i < self.departments.len() ==> {
                &&& self.index@.contains_key(#[trigger] self.departments[i].name@)
                &&& self.index@[self.departments[i].name@] == i
                &&& self.departments[i].employees.len() > 0
            }
        &&& forall|name: Seq<char>| #[trigger]
            self.index@.contains_key(name) ==> {
                &&& self.index@[name] < self.departments.len()
                &&& self.departments[self.index@[name] as int].name@ == name
            }
    }

    /// A well-formed store has an employee in each department.
    proof fn lemma_staffed(&self)
        requires
            self.well_formed(),
        ensures
            staffed(self@),
    {
        assert forall|department: Seq<char>| #[trigger]
            self@.contains_key(department) implies self@[department].len() > 0 by {
            let place = self.index@[department] as int;
            assert(self.departments[place].name@ == department);
        }
    }

    /// A roster without departments.
    pub fn new() -> (store: Self)
        ensures
            store@ == Map::<Seq<char>, Seq<Seq<char>>>::empty(),
            staffed(store@),
    {
        let store = RosterStore { index: StringHashMap::new(), departments: Vec::new() };
        store
    }

    /// Adds `employee` to `department`, creating the department if need be.
    pub fn add(&mut self, employee: String, department: String)
        ensures
            final(self)@ == roster_add(old(self)@, employee@, department@),
            staffed(final(self)@),
    {
        proof {
            use_type_invariant(&*self);
        }
        let mut taken = RosterStore::new();
        std::mem::swap(self, &mut taken);
        let RosterStore { mut index, mut departments } = taken;
        let ghost old_departments = departments@;
        let found = match index.get(department.as_str()) {
            Some(place) => Some(*place),
            None => None,
        };
        match found {
            Some(place) => {
                departments[place].employees.push(employee);
                proof {
                    assert forall|i: int| 0 <= i < departments@.len() implies
                        (#[trigger] departments@[i]).name == old_departments[i].name by {}
                    assert forall|i: int| 0 <= i < departments@.len() && i != place implies
                        (#[trigger] departments@[i]).employees == old_departments[i].employees by {}
                }
            },
            None => {
                let place = departments.len();
                let mut employees: Vec<String> = Vec::new();
                employees.push(employee);
                departments.push(Department { name: department.clone(), employees });
                index.insert(department, place);
                proof {
                    assert forall|i: int| 0 <= i < old_departments.len() implies
                        (#[trigger] departments@[i]) == old_departments[i] by {}
                }
            },
        }
        proof {
            assert forall|i: int| 0 <= i < departments@.len() implies {
                &&& index@.contains_key(#[trigger] departments@[i].name@)
                &&& index@[departments@[i].name@] == i
                &&& departments@[i].employees.len() > 0
            } by {}
            assert forall|name: Seq<char>| #[trigger] index@.contains_key(name) implies {
                &&& index@[name] < departments@.len()
                &&& departments@[index@[name] as int].name@ == name
            } by {}
        }
        *self = RosterStore { index, departments };
        proof {
            let expected = roster_add(old(self)@, employee@, department@);
            assert forall|name: Seq<char>| #[trigger]
                self@.contains_key(name) implies self@[name] == expected[name] by {}
            self.lemma_staffed();
        }
    }

    /// The employees of `department`, sorted; the roster itself stays as it is.
    pub fn list(&self, department: &str) -> (result: Result<Vec<String>, RosterError>)
        ensures
            match result {
                Ok(employees) => roster_list(self@, department@) == Ok::<_, RosterError>(
                    employees.deep_view(),
                ),
                Err(error) => roster_list(self@, department@) == Err::<Seq<Seq<char>>, _>(error),
            },
            staffed(self@),
    {
        proof {
            use_type_invariant(self);
            self.lemma_staffed();
        }
        match self.index.get(department) {
            Some(place) => Ok(sorted_copy(&self.departments[*place].employees)),
            None => Err(RosterError::DepartmentNotFound),
        }
    }

    /// The names of the departments, in the order in which they were created.
    fn department_names(&self) -> (names: Vec<String>)
        ensures
            names.len() == self.departments.len(),
            forall|i: int|
                0 <= i < names.len() ==> (#[trigger] names[i])@ == self.departments[i].name@,
    {
        let mut names: Vec<String> = Vec::new();
        for i in 0..self.departments.len()
            invariant
                names.len() == i,
                forall|k: int| 0 <= k < i ==> (#[trigger] names[k])@ == self.departments[k].name@,
        {
            names.push(self.departments[i].name.clone());
        }
        names
    }

    /// Every department with its employees: the departments ascending by
    /// name, the employees of each sorted.
    pub fn list_all(&self) -> (listing: Vec<(String, Vec<String>)>)
        ensures
            is_listing(listing.deep_view(), self@),
            staffed(self@),
    {
        proof {
            use_type_invariant(self);
            self.lemma_staffed();
        }
        let names = self.department_names();
        let ordered = sorted_copy(&names);
        let ghost created = names.deep_view();
        let ghost wanted = ordered.deep_view();
        proof {
            lemma_sorted_is_ascending_permutation(created);
            created.to_multiset_ensures();
            wanted.to_multiset_ensures();
            assert(created.no_duplicates()) by {
                assert forall|i: int, j: int|
                    0 <= i < created.len() && 0 <= j < created.len() && i != j implies created[i]
                    != created[j] by {
                    assert(self.index@[self.departments[i].name@] == i);
                    assert(self.index@[self.departments[j].name@] == j);
                }
            }
            created.lemma_multiset_has_no_duplicates();
            wanted.lemma_multiset_has_no_duplicates_conv();
            assert forall|m: int| 0 <= m < wanted.len() implies self.index@.contains_key(
                #[trigger] wanted[m],
            ) by {
                assert(created.to_multiset().count(wanted[m]) > 0);
                let i = choose|i: int| 0 <= i < created.len() && created[i] == wanted[m];
                assert(self.departments[i].name@ == wanted[m]);
            }
        }
        let mut listing: Vec<(String, Vec<String>)> = Vec::new();
        for k in 0..ordered.len()
            invariant
                wanted == ordered.deep_view(),
                listing.len() == k,
                forall|m: int|
                    0 <= m < wanted.len() ==> self.index@.contains_key(#[trigger] wanted[m]),
                forall|m: int|
                    0 <= m < k ==> {
                        &&& (#[trigger] listing.deep_view()[m]).0 == wanted[m]
                        &&& listing.deep_view()[m].1 == sorted(self@[wanted[m]])
                    },
        {
            proof {
                use_type_invariant(self);
            }
            let name = &ordered[k];
            assert(name@ == wanted[k as int]);
            let place = *self.index.get(name.as_str()).unwrap();
            let ghost before = listing.deep_view();
            listing.push((name.clone(), sorted_copy(&self.departments[place].employees)));
            assert(listing.deep_view() =~= before.push(
                (wanted[k as int], sorted(self@[wanted[k as int]])),
            ));
        }
        proof {
            let shown = listing.deep_view();
            assert forall|i: int, j: int| 0 <= i < j < shown.len() implies lex_lt(
                (#[trigger] shown[i]).0,
                (#[trigger] shown[j]).0,
            ) by {
                assert(lex_le(wanted[i], wanted[j]));
                assert(wanted[i] != wanted[j]);
            }
            assert forall|department: Seq<char>| #[trigger]
                self@.contains_key(department) implies exists|i: int|
                0 <= i < shown.len() && (#[trigger] shown[i]).0 == department by {
                let place = self.index@[department] as int;
                assert(created[place] == department);
                assert(wanted.to_multiset().count(department) > 0);
                let i = choose|i: int| 0 <= i < wanted.len() && wanted[i] == department;
                assert(shown[i].0 == department);
            }
        }
        listing
    }
}

} // verus!
