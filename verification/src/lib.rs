//! Single-table data-access layer for vehicle fee tracking.
//!
//! The library models the physical table of a key-value store with
//! composite keys, the key-design scheme that overlays user lookup,
//! token reverse lookup, per-fee-type due-date scans, vehicle listing,
//! plate search and audit history onto that one table, and the
//! transactional fee-payment protocol that updates a vehicle's due
//! date and appends an audit record atomically.

use vstd::prelude::*;

pub mod access;
pub mod attr;
pub mod dates;
pub mod history;
pub mod keys;
pub mod store;
pub mod session;
pub mod user;
pub mod vehicle;

verus! {

/// Failure taxonomy of every data-access operation.
#[derive(Clone, Copy, Debug, PartialEq, Eq, Structural)]
pub enum Error {
    /// Missing, invalid, or expired session token.
    Unauthorized,
    /// Malformed input: unparsable date, or an update with no fields set.
    Validation,
    /// Uniqueness violation on create: the user or vehicle already exists.
    Conflict,
    /// The referenced vehicle, session or history record does not exist.
    NotFound,
    /// Transport-level or transactional failure from the backing store.
    StoreFailure,
}

impl Error {
    /// Human-readable message, for the request-handling layer.
    pub fn message(&self) -> (r: String)
        ensures
            *self == Error::Unauthorized ==> r@ == "You don't have access!!"@,
            *self == Error::Validation ==> r@ == "No updated fee date is provided"@,
            *self == Error::Conflict ==> r@ == "Already exists!!"@,
            *self == Error::NotFound ==> r@ == "Not found!!"@,
            *self == Error::StoreFailure ==> r@ == "Something went wrong"@,
    {
        match self {
            Error::Unauthorized => "You don't have access!!".to_owned(),
            Error::Validation => "No updated fee date is provided".to_owned(),
            Error::Conflict => "Already exists!!".to_owned(),
            Error::NotFound => "Not found!!".to_owned(),
            Error::StoreFailure => "Something went wrong".to_owned(),
        }
    }
}

} // verus!
