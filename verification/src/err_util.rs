//! Errors that the library itself reports.

use vstd::prelude::*;

verus! {

/// An error found by the library, told by its message alone.
#[derive(Debug)]
pub struct Error {
    pub message: String,
}

/// Makes an error out of a message.
pub fn generic_err(debug_message: &str) -> (e: Error)
    ensures
        e.message@ == debug_message@,
{
    Error { message: debug_message.to_owned() }
}

} // verus!
