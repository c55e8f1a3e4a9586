//! What a request guard decides about a request.

use vstd::prelude::*;

verus! {

/// The decision of a request guard: the request goes on with a value, is
/// refused with an HTTP status code, or is handed to the next route.
pub enum GuardOutcome<T> {
    Success(T),
    Failure(u16),
    Forward,
}

/// HTTP status of a request that lacks valid credentials.
pub const UNAUTHORIZED: u16 = 401;

/// HTTP status of a request whose credentials cannot be read.
pub const BAD_REQUEST: u16 = 400;

} // verus!
