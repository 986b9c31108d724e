//! The ways an escrow operation can be refused.

use vstd::prelude::*;

verus! {

/// Why an operation was rejected.  Every rejection leaves the ledger as it
/// was, with the one documented exception of a failed transfer during
/// `release` (see [`crate::machine::KaziEscrow::release`]).
#[derive(Clone, Copy, Debug, PartialEq, Eq)]
pub enum ErrorKind {
    /// No record exists for the job identifier.
    NotFound,
    /// The capability check failed, or the caller is not the stored employer.
    Unauthorized,
    /// A deposit of a non-positive amount.
    InvalidAmount,
    /// A release attempted before a beneficiary was assigned.
    BeneficiaryUnset,
    /// A release attempted while the balance is zero.
    NothingToRelease,
    /// The external asset transfer was rejected.
    TransferFailed,
}

/// A rejection, carrying its kind and the job identifier it concerns.
#[derive(Clone, Copy, Debug, PartialEq, Eq)]
pub struct EscrowError {
    pub kind: ErrorKind,
    pub escrow_id: u64,
}

} // verus!
