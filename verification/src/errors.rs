//! Error taxonomy of the catalog store.
//!
//! `NotFound` stands for an empty result where a row was required,
//! `Backend` for an engine-level failure (also produced when the store has
//! been broken for testing), and `Other` wraps everything else.

use vstd::prelude::*;

verus! {

/// Error returned by catalog operations.
#[derive(Debug)]
pub enum DBError {
    /// A required row was absent.
    NotFound,
    /// The storage engine failed; the payload describes the failure.
    Backend(String),
    /// Any other failure.
    Other(String),
}

impl DBError {
    /// Human-readable tag of the error class, for logs and messages.
    pub fn kind(&self) -> (r: String)
        ensures
            r@ == (match self {
                DBError::NotFound => "not found"@,
                DBError::Backend(_) => "backend error"@,
                DBError::Other(_) => "error"@,
            }),
    {
        match self {
            DBError::NotFound => String::from_str("not found"),
            DBError::Backend(_) => String::from_str("backend error"),
            DBError::Other(_) => String::from_str("error"),
        }
    }
}

pub type DBResult<T> = Result<T, DBError>;

pub type EmptyDBResult = Result<(), DBError>;

} // verus!
