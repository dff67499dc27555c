//! The host-supplied call environment, and the plain values the ledger hands
//! back for the host to act on.
//!
//! Every mutating entry point receives a [`CallContext`] describing the call
//! (who is calling, what deposit is attached) and returns any payouts it owes
//! as [`Refund`] values; an adapter around the library performs the actual
//! transfers and asynchronous calls.

use vstd::prelude::*;
use crate::account::AccountId;

verus! {

/// Host-supplied price of one byte of persisted storage, in the smallest
/// currency unit.
pub const STORAGE_PRICE_PER_BYTE: u128 = 10_000_000_000_000_000_000;

/// The minimal transferable currency unit, attached to state-changing calls
/// as an authorization signature rather than as payment.
pub const ONE_YOCTO: u128 = 1;

/// Budget reserved for the deferred resolution continuation of a notifying
/// transfer.
pub const GAS_FOR_RESOLVE_TRANSFER: u64 = 10_000_000_000_000;

/// Budget granted to the receiver hook of a notifying transfer.
pub const GAS_FOR_NFT_ON_TRANSFER: u64 = 25_000_000_000_000;

/// The environment of one serialized, metered call.
pub struct CallContext {
    /// The account on whose behalf the call executes.
    pub predecessor_account_id: AccountId,
    /// The deposit the caller attached to the call.
    pub attached_deposit: u128,
}

impl CallContext {
    /// The caller's identifier satisfies the account grammar.
    pub open spec fn wf(&self) -> bool {
        self.predecessor_account_id.wf()
    }
}

/// A payout the ledger owes; the host adapter performs the transfer.
pub struct Refund {
    /// The account the amount is owed to.
    pub beneficiary: AccountId,
    /// The amount owed, in the smallest currency unit.
    pub amount: u128,
}

} // verus!
