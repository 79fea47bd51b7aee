//! Values that change hands.
use vstd::prelude::*;
use vstd::string::StringExecFns;

verus! {

/// Makes a text and hands it to the caller.
pub fn gives_ownership() -> (some_string: String)
    ensures
        some_string@ == "yours"@,
{
    let some_string = String::from_str("yours");
    some_string
}

/// Takes a text and hands the same text back.
pub fn takes_and_gives_back(a_string: String) -> (same: String)
    ensures
        same == a_string,
{
    a_string
}

} // verus!
