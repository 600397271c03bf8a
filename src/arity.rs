use vstd::prelude::*;
use crate::text::{decimal, decimal_of};

verus! {

/// The complaint about two grouped values of different lengths.
pub open spec fn arity_message(expected: nat, got: nat) -> Seq<char> {
    "expected "@ + decimal_of(expected) + " element(s), got "@ + decimal_of(got)
}

/// Compares the lengths of two grouped values joined by `=`: the first is the
/// reference, the second must have as many elements.
pub fn check_arity(a_len: usize, b_len: usize) -> (r: Result<(), String>)
    ensures
        r is Ok <==> a_len == b_len,
        r matches Err(m) ==> m@ == arity_message(a_len as nat, b_len as nat),
{
    if a_len == b_len {
        return Ok(());
    }
    let mut m = "expected ".to_string();
    m.append(decimal(a_len).as_str());
    m.append(" element(s), got ");
    m.append(decimal(b_len).as_str());
    Err(m)
}

} // verus!
