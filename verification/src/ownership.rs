//! Small helpers for moving, borrowing and measuring owned strings.

use vstd::prelude::*;
use vstd::string::StringExecFns;
use vstd::utf8::encode_utf8;

verus! {

/// Builds a fresh owned string and moves it out to the caller.
pub fn gives_ownership() -> (some_string: String)
    ensures
        some_string@ == "yours"@,
{
    let some_string: String = String::from_str("yours");
    some_string
}

/// Hands its argument straight back, moving ownership through the call.
pub fn takes_and_gives_back(a_string: String) -> (r: String)
    ensures
        r == a_string,
{
    a_string
}

/// Measures the byte length of a string and returns the string together
/// with that length, moving ownership back to the caller.
pub fn calculate_length(some_string: String) -> (r: (String, usize))
    ensures
        r.0 == some_string,
        r.1 == encode_utf8(some_string@).len(),
{
    let length: usize = some_string.as_str().as_bytes().len();
    (some_string, length)
}

/// Measures the byte length of a borrowed string without taking ownership.
pub fn calculate_length_ref(s: &String) -> (length: usize)
    ensures
        length == encode_utf8(s@).len(),
{
    s.as_str().as_bytes().len()
}

/// Appends a fixed greeting tail to a mutably borrowed string.
pub fn change(some_string: &mut String)
    ensures
        final(some_string)@ == old(some_string)@ + ", world"@,
{
    some_string.append(", world");
}

/// Builds an owned string inside the call and returns it, so the caller
/// receives ownership rather than a reference into a dropped value.
pub fn no_dangle() -> (s: String)
    ensures
        s@ == "hello"@,
{
    let s: String = String::from_str("hello");
    s
}

} // verus!
