//! Checks on values given on the command line.
use crate::parse::{parse_usize, usize_of};
use vstd::prelude::*;

verus! {

/// Accepts a table size that is a decimal number above 0 fitting a `usize`;
/// else says what is wrong with it.
pub fn validate_table_size(size: String) -> (r: Result<(), String>)
    ensures
        usize_of(size@) is None ==> r is Err && r->Err_0@ == "Please give a number"@,
        usize_of(size@) == Some(0usize) ==> r is Err && r->Err_0@ == "Please give a number over 0"@,
        usize_of(size@) is Some && usize_of(size@)->0 > 0 ==> r is Ok,
{
    broadcast use vstd::string::to_string_from_display_ensures_for_str;

    match parse_usize(size.as_str()) {
        Some(parsed) => if parsed == 0 {
            Err("Please give a number over 0".to_string())
        } else {
            Ok(())
        },
        None => Err("Please give a number".to_string()),
    }
}

} // verus!
