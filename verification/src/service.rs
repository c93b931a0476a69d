//! The error taxonomy of the four operations and its uniform mapping to
//! transport status codes, together with the small decisions a transport
//! binding needs.
use vstd::prelude::*;

verus! {

/// How an operation fails: rejected input, a missing record, or a storage
/// failure.
#[derive(Clone, Copy, PartialEq, Eq, Structural, Debug)]
pub enum ServiceError {
    /// The client-supplied title is empty after trimming.
    BadInput,
    /// No record carries the requested id.
    NotFound,
    /// The storage layer failed for any other reason.
    Internal,
}

pub const STATUS_OK: u16 = 200;

pub const STATUS_CREATED: u16 = 201;

pub const STATUS_NO_CONTENT: u16 = 204;

pub const STATUS_BAD_INPUT: u16 = 400;

pub const STATUS_NOT_FOUND: u16 = 404;

pub const STATUS_INTERNAL: u16 = 500;

/// The status code each error maps to.
pub open spec fn spec_error_status(e: ServiceError) -> u16 {
    match e {
        ServiceError::BadInput => 400,
        ServiceError::NotFound => 404,
        ServiceError::Internal => 500,
    }
}

/// Maps an error to its transport status: 400 for rejected input, 404 for
/// a missing record, 500 for a storage failure.
pub fn error_status(e: ServiceError) -> (s: u16)
    ensures
        s == spec_error_status(e),
{
    match e {
        ServiceError::BadInput => STATUS_BAD_INPUT,
        ServiceError::NotFound => STATUS_NOT_FOUND,
        ServiceError::Internal => STATUS_INTERNAL,
    }
}

/// Decides the outcome of a delete statement from the store's affected-row
/// count: zero rows removed is `NotFound`, never a silent success.
pub fn delete_outcome(rows_affected: u64) -> (r: Result<u16, ServiceError>)
    ensures
        rows_affected == 0 ==> r matches Err(ServiceError::NotFound),
        rows_affected > 0 ==> (r matches Ok(s) && s == STATUS_NO_CONTENT),
{
    if rows_affected == 0 {
        Err(ServiceError::NotFound)
    } else {
        Ok(STATUS_NO_CONTENT)
    }
}

/// The greeting served at the root path.
pub fn home_message() -> (r: &'static str)
    ensures
        r@ == "Welcome to Bookshelf API"@,
{
    "Welcome to Bookshelf API"
}

} // verus!
