//! Error taxonomy of the ledger.
//!
//! Every synchronous precondition failure aborts the whole call with one of
//! these values and no state change; asynchronous receiver outcomes are never
//! surfaced as errors, they drive the rollback branch of the resolution step.

use vstd::prelude::*;

verus! {

/// Why a ledger operation was refused.
#[derive(Debug, Clone, Copy, PartialEq, Eq, Structural)]
pub enum NftError {
    /// A mint named a token identifier that is already live.
    AlreadyExists,
    /// The named token identifier is not in the ledger.
    NotFound,
    /// The caller is neither the owner nor a delegate with a live approval.
    Unauthorized,
    /// The supplied approval id does not match the stored one.
    ApprovalMismatch,
    /// A transfer named the current owner as the new owner.
    SameOwnerTransfer,
    /// The attached deposit does not cover the storage the mutation consumes.
    InsufficientDeposit,
    /// The state-changing call did not attach the required deposit signature.
    DepositRequired,
    /// An internal bookkeeping assumption failed (never reachable through the
    /// public entry points of a well-formed ledger).
    InvariantViolation,
}

} // verus!
