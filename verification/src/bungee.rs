//! Error texts of the Bungee adapter.

use vstd::prelude::*;
use crate::text::append_str;

verus! {

/// An error message with the place it arose in front: the context, a colon
/// and a space, then the error.
pub fn log_error(context: &str, error_msg: &str) -> (full: String)
    ensures
        full@ == context@ + ": "@ + error_msg@,
{
    let head = append_str(context, ": ");
    append_str(head.as_str(), error_msg)
}

} // verus!
