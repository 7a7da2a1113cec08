use vstd::prelude::*;

use crate::error::Error;

verus! {

/// The liveness probe behind `GET /`: it answers `200 OK` with the
/// plain body `ok`, for any caller, with no input, no side effect and
/// no failure mode.
pub fn health() -> (r: (u16, &'static str))
    ensures
        r.0 == 200,
        r.1@ == "ok"@,
{
    (200, "ok")
}

/// The fallback for a request whose path matches no route: a
/// `NotFound` error, rendered exactly as every other error is.
pub fn not_found_handler() -> (e: Error)
    ensures
        e is NotFound,
{
    Error::NotFound
}

} // verus!
