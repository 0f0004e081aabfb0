//! The typed error for socket syscalls and the uniform return-code
//! translation.
//!
//! Every raw syscall returns a signed integer: a non-negative value is a
//! success, a negative value is the negated errno of the failure. A failure
//! is surfaced as an [`Error`] carrying the raw negative return value
//! unchanged (the negated errno, not its magnitude).

use vstd::prelude::*;

verus! {

/// A failed syscall, carrying the raw negative return value.
#[derive(Clone, Copy, Debug, PartialEq, Eq, Structural)]
pub struct Error(pub i32);

/// Translates a raw syscall return code into a typed result: a non-negative
/// code is the success value, a negative code is an [`Error`] carrying that
/// code.
pub fn to_result(code: i32) -> (r: Result<i32, Error>)
    ensures
        r == (if code >= 0 {
            Ok::<i32, Error>(code)
        } else {
            Err::<i32, Error>(Error(code))
        }),
{
    if code >= 0 {
        Ok(code)
    } else {
        Err(Error(code))
    }
}

} // verus!
