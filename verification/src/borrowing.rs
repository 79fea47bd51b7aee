//! Values that are lent out: read through a reference, or changed through one.
use crate::lifetimes::byte_length;
use vstd::prelude::*;
use vstd::string::StringExecFns;

verus! {

/// The length of `s`, in bytes.
pub fn calculate_length(s: &String) -> (length: usize)
    ensures
        length == byte_length(s@),
{
    s.as_str().as_bytes().len()
}

/// Adds `, world` at the end of `some_string`.
pub fn change(some_string: &mut String)
    ensures
        final(some_string)@ == old(some_string)@ + ", world"@,
{
    some_string.append(", world");
}

/// Adds an exclamation mark at the end of `s`, and lends the text out again for reading.
pub fn add_suffix(s: &mut String) -> (same: &String)
    ensures
        final(s)@ == old(s)@ + "!"@,
        same@ == final(s)@,
{
    s.append("!");
    s
}

} // verus!
