//! Translation of storage-layer failures into the library's error taxonomy.
//! A store-backed repository in the embedding application reports, for each
//! failed statement, whether the failure was "no matching row" and the
//! store's diagnostic text; the functions here decide what the caller sees:
//! absence is an empty option on a fetch and a distinct `NotFound` on a
//! single-row mutation, and every other fault is an opaque storage error,
//! never silently swallowed.

use vstd::prelude::*;

use crate::contact::{Contact, ContactId};
use crate::errors::Error;

verus! {

/// The outcome of a single-row fetch that did not return a row: absence is
/// not an error, any other storage fault is.
pub fn fetch_failure_outcome(row_not_found: bool, message: String) -> (r: Result<
    Option<Contact>,
    Error,
>)
    ensures
        row_not_found ==> r == Ok::<Option<Contact>, Error>(None),
        !row_not_found ==> r == Err::<Option<Contact>, Error>(Error::Db(message)),
{
    if row_not_found {
        Ok(None)
    } else {
        Err(Error::Db(message))
    }
}

/// The error for a single-row mutation that failed: a missing row is the
/// distinct `NotFound` signal carrying the identifier, any other storage
/// fault is opaque.
pub fn mutation_failure_error(row_not_found: bool, message: String, id: ContactId) -> (e: Error)
    ensures
        row_not_found ==> e == (Error::NotFound { id: id.0 }),
        !row_not_found ==> e == Error::Db(message),
{
    if row_not_found {
        Error::NotFound { id: id.0 }
    } else {
        Error::Db(message)
    }
}

} // verus!
