//! The failures a store operation can report, and the HTTP status that
//! belongs to each.

use vstd::prelude::*;

verus! {

/// Why an operation on the store did not go through.
#[derive(Clone, Copy, Debug, PartialEq, Eq, Structural)]
pub enum StoreError {
    /// A lookup by id, username or email matched no row.
    NotFound,
    /// An email or username is already in use.
    UniqueConstraintViolation,
    /// The password does not match the stored credential.
    InvalidCredential,
    /// No database connection could be had.
    ConnectionUnavailable,
    /// A row would break a key constraint, such as a second follow of the
    /// same pair.
    ConstraintViolation,
    /// A collaborator failed in a way the caller cannot mend.
    Unexpected,
}

impl StoreError {
    /// The HTTP status a handler answers with.
    pub open spec fn spec_status_code(self) -> u16 {
        match self {
            StoreError::NotFound => 404,
            StoreError::UniqueConstraintViolation => 409,
            StoreError::ConstraintViolation => 409,
            StoreError::InvalidCredential => 401,
            StoreError::ConnectionUnavailable => 500,
            StoreError::Unexpected => 500,
        }
    }

    /// The HTTP status a handler answers with.
    pub fn status_code(&self) -> (code: u16)
        ensures
            code == self.spec_status_code(),
    {
        match self {
            StoreError::NotFound => 404,
            StoreError::UniqueConstraintViolation => 409,
            StoreError::ConstraintViolation => 409,
            StoreError::InvalidCredential => 401,
            StoreError::ConnectionUnavailable => 500,
            StoreError::Unexpected => 500,
        }
    }
}

} // verus!
