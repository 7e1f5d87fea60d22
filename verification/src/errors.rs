//! The ways in which a ledger operation fails.

use vstd::prelude::*;

verus! {

/// Why an operation on the ledger was refused. Nothing is changed by an
/// operation that ends in one of these.
#[derive(Clone, Copy, Debug, PartialEq, Eq, Structural)]
pub enum LedgerError {
    /// The account does not exist.
    NotFound,
    /// The request is malformed: an unknown kind, a missing, empty or
    /// over-long description, or an amount that is not positive.
    InvalidOperation,
    /// The balance would fall below what the credit limit allows.
    LimitExceeded,
    /// The storage could not carry the unit through.
    InternalFailure,
}

impl LedgerError {
    /// The HTTP status that reports this error.
    pub open spec fn spec_status_code(self) -> u16 {
        match self {
            LedgerError::NotFound => 404,
            LedgerError::InvalidOperation => 422,
            LedgerError::LimitExceeded => 422,
            LedgerError::InternalFailure => 500,
        }
    }

    /// The HTTP status that reports this error: 404 for an unknown account,
    /// 422 for a malformed request or an exceeded limit, 500 for a storage
    /// failure.
    #[verifier::when_used_as_spec(spec_status_code)]
    pub fn status_code(self) -> (code: u16)
        ensures
            code == self.spec_status_code(),
    {
        match self {
            LedgerError::NotFound => 404,
            LedgerError::InvalidOperation => 422,
            LedgerError::LimitExceeded => 422,
            LedgerError::InternalFailure => 500,
        }
    }
}

} // verus!
