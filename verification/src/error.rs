//! The error taxonomy of the library.
//!
//! `EntityNotFound` and `UnprocessableEntiry` are client-correctable
//! precondition failures; `NoRowAffectedError` is the defensive guard for a
//! write that touched nothing where one row was expected; the remaining
//! store-side variants are unexpected-error categories that a transport
//! layer maps to a generic server failure.

use vstd::prelude::*;

verus! {

/// Everything an operation of this library can fail with.
#[derive(Debug)]
pub enum AppError {
    /// A precondition on the request was violated (for the ledger: the book
    /// is already checked out, or a return does not match the active loan).
    UnprocessableEntiry(String),
    /// The referenced entity does not exist.
    EntityNotFound(String),
    /// A request field failed validation.
    ValidationError(String),
    /// A transaction could not begin, commit, or set its isolation level.
    TransactionError(String),
    /// A statement failed inside the store.
    SpecificOperationError(String),
    /// A write affected zero rows where one was expected.
    NoRowAffectedError(String),
    /// The key-value store failed.
    KeyValueStoreError(String),
    /// Password hashing failed.
    BcriptError(String),
    /// An identifier could not be parsed.
    ConvertToUuidError(String),
    /// Login failed.
    UnauthenticatedError,
    /// The presented authorization is wrong.
    UnauthorizedError,
    /// The caller is not allowed to perform the operation.
    ForbiddenOperation,
    /// A stored row could not be converted to a domain value.
    ConversionEntityError(String),
}

impl AppError {
    /// The HTTP status code this error maps to at the boundary.
    pub fn status_code(&self) -> (code: u16)
        ensures
            code == self.spec_status_code(),
    {
        match self {
            AppError::UnprocessableEntiry(_) => 422,
            AppError::EntityNotFound(_) => 404,
            AppError::ValidationError(_) | AppError::ConvertToUuidError(_) => 400,
            AppError::UnauthenticatedError | AppError::ForbiddenOperation => 403,
            AppError::UnauthorizedError => 401,
            AppError::TransactionError(_)
            | AppError::SpecificOperationError(_)
            | AppError::NoRowAffectedError(_)
            | AppError::KeyValueStoreError(_)
            | AppError::BcriptError(_)
            | AppError::ConversionEntityError(_) => 500,
        }
    }

    /// The status code, as a spec-level function of the variant.
    pub open spec fn spec_status_code(&self) -> u16 {
        match self {
            AppError::UnprocessableEntiry(_) => 422,
            AppError::EntityNotFound(_) => 404,
            AppError::ValidationError(_) | AppError::ConvertToUuidError(_) => 400,
            AppError::UnauthenticatedError | AppError::ForbiddenOperation => 403,
            AppError::UnauthorizedError => 401,
            AppError::TransactionError(_)
            | AppError::SpecificOperationError(_)
            | AppError::NoRowAffectedError(_)
            | AppError::KeyValueStoreError(_)
            | AppError::BcriptError(_)
            | AppError::ConversionEntityError(_) => 500,
        }
    }

}

/// The result type of every fallible operation of the library.
pub type AppResult<T> = Result<T, AppError>;

} // verus!
