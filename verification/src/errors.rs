//! The registry's error taxonomy. Every failure aborts the whole operation
//! with no state change; the variant says why the operation was refused.

use vstd::prelude::*;

verus! {

/// Why an operation on the registry was refused.
#[derive(Clone, Copy, Debug, PartialEq, Eq, Structural)]
pub enum ErrorCode {
    /// A record for this content hash has already been allocated; allocation
    /// is the sole duplicate-prevention gate.
    AlreadyExists,
    /// No address can be derived for this content hash, so no record can be
    /// materialized or located there. An environment-level failure.
    AddressUnavailable,
    /// No record exists for this content hash.
    RecordNotFound,
    /// The record is not listed as available for rent.
    ModelNotAvailable,
    /// The renter does not hold the listed price.
    InsufficientFunds,
    /// A counter or a balance would exceed its representable range.
    MathOverflow,
}

impl ErrorCode {
    /// A human-readable description of the error.
    pub fn message(&self) -> (r: &'static str)
        ensures
            r@ == match self {
                ErrorCode::AlreadyExists => "Model record already exists"@,
                ErrorCode::AddressUnavailable => "No record address available for this hash"@,
                ErrorCode::RecordNotFound => "Model record not found"@,
                ErrorCode::ModelNotAvailable => "Model is not available for rent"@,
                ErrorCode::InsufficientFunds => "Insufficient funds to pay the rental price"@,
                ErrorCode::MathOverflow => "Math overflow"@,
            },
    {
        match self {
            ErrorCode::AlreadyExists => "Model record already exists",
            ErrorCode::AddressUnavailable => "No record address available for this hash",
            ErrorCode::RecordNotFound => "Model record not found",
            ErrorCode::ModelNotAvailable => "Model is not available for rent",
            ErrorCode::InsufficientFunds => "Insufficient funds to pay the rental price",
            ErrorCode::MathOverflow => "Math overflow",
        }
    }
}

} // verus!
