//! Small introductory helpers: integer addition, string lengths, and
//! checked element access.

use vstd::prelude::*;

verus! {

/// Sum of two machine integers; the caller guarantees the sum fits.
pub fn add_numbers(a: i32, b: i32) -> (r: i32)
    requires
        i32::MIN <= a + b <= i32::MAX,
    ensures
        r == a + b,
{
    a + b
}

/// Byte length of a string whose ownership the function takes.
pub fn calculate_length_take_ownership(s: String) -> (r: usize)
    ensures
        r == vstd::utf8::encode_utf8(s@).len() as usize,
{
    s.as_str().len()
}

/// Byte length of a string, handing the string itself back as well.
pub fn calculate_length_and_return(s: String) -> (r: (String, usize))
    ensures
        r.0 == s,
        r.1 == vstd::utf8::encode_utf8(s@).len() as usize,
{
    let length = s.as_str().len();
    (s, length)
}

/// The element at `index`, or `None` when the index is out of range.
pub fn get_element(vec: &Vec<i32>, index: usize) -> (r: Option<&i32>)
    ensures
        index < vec@.len() ==> (r matches Some(v) && *v == vec@[index as int]),
        index >= vec@.len() ==> r is None,
{
    if index < vec.len() {
        Some(&vec[index])
    } else {
        None
    }
}

} // verus!
