//! The status code of a problem: `http::StatusCode`, carried as it is.
//!
//! Nothing in this file is proved: the contracts below say what is taken on
//! trust about `http`.

use http::StatusCode;
use vstd::prelude::*;

verus! {

/// `http::StatusCode`, carried through the library without being inspected.
#[verifier::external_type_specification]
#[verifier::external_body]
pub struct ExStatusCode(http::StatusCode);

/// The number of a status code, such as 404, as `StatusCode::as_u16` gives
/// it.
pub uninterp spec fn status_number(code: StatusCode) -> u16;

/// Reads the constant `StatusCode::INTERNAL_SERVER_ERROR`. Taken on trust:
/// its number is 500.
#[verifier::external_body]
pub(crate) fn internal_server_error() -> (code: StatusCode)
    ensures
        status_number(code) == 500,
{
    StatusCode::INTERNAL_SERVER_ERROR
}

/// Calls `StatusCode::as_u16`. Taken on trust: the result is the number of
/// the status code, the same for equal codes.
#[verifier::external_body]
pub(crate) fn status_as_u16(code: StatusCode) -> (number: u16)
    ensures
        number == status_number(code),
{
    code.as_u16()
}

} // verus!
