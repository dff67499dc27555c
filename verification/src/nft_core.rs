//! The transfer protocol: the direct transfer, the notifying transfer with
//! its deferred resolution, and the joined read view.
//!
//! A notifying transfer changes ownership synchronously and returns a
//! [`PendingTransfer`] record; the host adapter calls the receiver hook and
//! later hands the record, together with the hook's raw outcome, to
//! [`Contract::nft_resolve_transfer`], the only code path that reads that
//! outcome. Resolution always terminates in a definite kept-or-rolled-back
//! answer and never fails outward.

use vstd::prelude::*;
use crate::account::AccountId;
use crate::context::{CallContext, Refund};
use crate::error::NftError;
use crate::internal::{
    approval_keys_valid, check_one_yocto, refund_approved_account_ids, spec_approval_bytes,
    spec_storage_cost,
};
use crate::metadata::{token_metadata_matches, JsonToken, TokenId};
use crate::store::StrMap;
use crate::Contract;

verus! {

/// The raw outcome of the scheduled receiver-hook call, as the host delivers
/// it to the resolution continuation.
pub enum PromiseOutcome {
    /// The hook settled and returned these bytes.
    Successful(Vec<u8>),
    /// The hook failed at the call-system level (panic, out of budget, or
    /// abandoned by the host).
    Failed,
}

/// The in-flight record of a notifying transfer. Ownership has already
/// moved; the host adapter owes the listed refund, calls the receiver hook
/// with `(sender, previous owner, token, msg)`, and then hands this record
/// with the hook's outcome to the resolution continuation.
pub struct PendingTransfer {
    /// The account that initiated the transfer.
    pub sender_id: AccountId,
    /// The owner the token moved away from.
    pub previous_owner_id: AccountId,
    /// The owner the token moved to, whose hook is notified.
    pub receiver_id: AccountId,
    /// The token that moved.
    pub token_id: TokenId,
    /// The payload handed to the receiver hook.
    pub msg: String,
    /// The approvals the transfer cleared, carried to the resolution step.
    pub approvals_snapshot: StrMap<u64>,
    /// The cleared approvals' storage refund, owed to the previous owner.
    pub refund: Refund,
}

/// The definite outcome of a resolved notifying transfer, with the storage
/// refunds the resolution owes.
pub struct Resolution {
    /// True when the receiver kept the token (or a rollback had become
    /// impossible); false when ownership was rolled back.
    pub kept: bool,
    /// The storage refunds owed after resolution.
    pub refunds: Vec<Refund>,
}

/// The whitespace bytes the receiver's payload format allows around a value.
pub open spec fn is_json_ws(b: u8) -> bool {
    b == 32 || b == 9 || b == 10 || b == 13
}

/// The payload bytes spelling `true`.
pub open spec fn spec_true_bytes() -> Seq<u8> {
    seq![116u8, 114u8, 117u8, 101u8]
}

/// The payload bytes spelling `false`.
pub open spec fn spec_false_bytes() -> Seq<u8> {
    seq![102u8, 97u8, 108u8, 115u8, 101u8]
}

/// Drops leading whitespace.
pub open spec fn spec_trim_front(s: Seq<u8>) -> Seq<u8>
    decreases s.len(),
{
    if s.len() > 0 && is_json_ws(s[0]) {
        spec_trim_front(s.drop_first())
    } else {
        s
    }
}

/// Drops trailing whitespace.
pub open spec fn spec_trim_back(s: Seq<u8>) -> Seq<u8>
    decreases s.len(),
{
    if s.len() > 0 && is_json_ws(s[s.len() - 1]) {
        spec_trim_back(s.drop_last())
    } else {
        s
    }
}

/// The boolean a receiver-hook payload decodes to: optional whitespace
/// around exactly `true` or `false`; anything else fails to decode.
pub open spec fn spec_json_bool(s: Seq<u8>) -> Option<bool> {
    let t = spec_trim_back(spec_trim_front(s));
    if t == spec_true_bytes() {
        Some(true)
    } else if t == spec_false_bytes() {
        Some(false)
    } else {
        None
    }
}

/// Whether the receiver's outcome demands returning the token: a
/// call-system failure, an explicit `true`, or an undecodable payload all
/// do; only a well-formed `false` keeps the transfer.
pub open spec fn spec_rollback_requested(outcome: &PromiseOutcome) -> bool {
    match outcome {
        PromiseOutcome::Failed => true,
        PromiseOutcome::Successful(bytes) => spec_json_bool(bytes@) != Some(false),
    }
}

/// Decodes a receiver-hook payload as a boolean.
pub fn parse_json_bool(bytes: &Vec<u8>) -> (r: Option<bool>)
    ensures
        r == spec_json_bool(bytes@),
{
    let n = bytes.len();
    proof {
        assert(bytes@.subrange(0, n as int) =~= bytes@);
    }
    let mut lo: usize = 0;
    while lo < n && (bytes[lo] == 32 || bytes[lo] == 9 || bytes[lo] == 10 || bytes[lo] == 13)
        invariant
            0 <= lo <= n,
            n == bytes@.len(),
            spec_trim_front(bytes@) == spec_trim_front(bytes@.subrange(lo as int, n as int)),
        decreases n - lo,
    {
        proof {
            assert(bytes@.subrange(lo as int, n as int).drop_first() =~= bytes@.subrange(
                lo + 1 as int,
                n as int,
            ));
        }
        lo = lo + 1;
    }
    proof {
        assert(spec_trim_front(bytes@) == bytes@.subrange(lo as int, n as int));
    }
    let mut hi: usize = n;
    while hi > lo && (bytes[hi - 1] == 32 || bytes[hi - 1] == 9 || bytes[hi - 1] == 10 || bytes[hi
        - 1] == 13)
        invariant
            lo <= hi <= n,
            n == bytes@.len(),
            spec_trim_back(bytes@.subrange(lo as int, n as int)) == spec_trim_back(
                bytes@.subrange(lo as int, hi as int),
            ),
            spec_trim_front(bytes@) == bytes@.subrange(lo as int, n as int),
        decreases hi,
    {
        proof {
            assert(bytes@.subrange(lo as int, hi as int).drop_last() =~= bytes@.subrange(
                lo as int,
                hi - 1 as int,
            ));
        }
        hi = hi - 1;
    }
    let ghost t = bytes@.subrange(lo as int, hi as int);
    proof {
        assert(spec_trim_back(spec_trim_front(bytes@)) == t);
    }
    let len = hi - lo;
    let is_true = len == 4 && bytes[lo] == 116 && bytes[lo + 1] == 114 && bytes[lo + 2] == 117
        && bytes[lo + 3] == 101;
    if is_true {
        proof {
            assert(t =~= spec_true_bytes());
        }
        return Some(true);
    }
    let is_false = len == 5 && bytes[lo] == 102 && bytes[lo + 1] == 97 && bytes[lo + 2] == 108
        && bytes[lo + 3] == 115 && bytes[lo + 4] == 101;
    if is_false {
        proof {
            assert(t =~= spec_false_bytes());
        }
        return Some(false);
    }
    proof {
        assert(t != spec_true_bytes()) by {
            if t == spec_true_bytes() {
                assert(t.len() == 4);
                assert(t[0] == 116 && t[1] == 114 && t[2] == 117 && t[3] == 101);
                assert(bytes@[lo as int] == 116 && bytes@[lo + 1] == 114 && bytes@[lo + 2] == 117
                    && bytes@[lo + 3] == 101);
            }
        }
        assert(t != spec_false_bytes()) by {
            if t == spec_false_bytes() {
                assert(t.len() == 5);
                assert(t[0] == 102 && t[1] == 97 && t[2] == 108 && t[3] == 115 && t[4] == 101);
                assert(bytes@[lo as int] == 102 && bytes@[lo + 1] == 97 && bytes@[lo + 2] == 108
                    && bytes@[lo + 3] == 115 && bytes@[lo + 4] == 101);
            }
        }
    }
    None
}

/// The transfer entry points and the joined read view of the ledger.
pub trait NonFungibleTokenCore {
    /// The ledger invariant the entry points demand and maintain.
    spec fn ledger_wf(&self) -> bool;

    /// Transfers a token to `receiver_id` after checking the deposit
    /// signature and the caller's authorization.
    fn nft_transfer(
        &mut self,
        ctx: &CallContext,
        receiver_id: AccountId,
        token_id: TokenId,
        approval_id: Option<u64>,
        memo: Option<String>,
    ) -> (r: Result<Refund, NftError>)
        requires
            old(self).ledger_wf(),
            ctx.wf(),
            receiver_id.wf(),
        ensures
            final(self).ledger_wf(),
    ;

    /// Transfers a token and schedules the receiver's notification hook and
    /// the deferred resolution continuation.
    fn nft_transfer_call(
        &mut self,
        ctx: &CallContext,
        receiver_id: AccountId,
        token_id: TokenId,
        approval_id: Option<u64>,
        memo: Option<String>,
        msg: String,
    ) -> (r: Result<PendingTransfer, NftError>)
        requires
            old(self).ledger_wf(),
            ctx.wf(),
            receiver_id.wf(),
        ensures
            final(self).ledger_wf(),
    ;

    /// The joined presentation view of one token.
    fn nft_token(&self, token_id: TokenId) -> (r: Option<JsonToken>)
        requires
            self.ledger_wf(),
    ;
}

impl NonFungibleTokenCore for Contract {
    open spec fn ledger_wf(&self) -> bool {
        self.wf()
    }

    /// The direct transfer: demands the exact one-unit deposit signature,
    /// moves the token through the authorization chokepoint, and owes the
    /// previous owner the cleared approvals' storage refund.
    fn nft_transfer(
        &mut self,
        ctx: &CallContext,
        receiver_id: AccountId,
        token_id: TokenId,
        approval_id: Option<u64>,
        memo: Option<String>,
    ) -> (r: Result<Refund, NftError>)
        ensures
            final(self).owner_id == old(self).owner_id,
            final(self).metadata == old(self).metadata,
            final(self).token_metadata_by_id == old(self).token_metadata_by_id,
            (match r {
                Err(e) => *final(self) == *old(self) && (if ctx.attached_deposit != 1 {
                    e == NftError::DepositRequired
                } else {
                    Err::<(), NftError>(e) == old(self).spec_transfer_check(
                        ctx.predecessor_account_id@,
                        receiver_id@,
                        token_id@,
                        approval_id,
                    )
                }),
                Ok(refund) => {
                    &&& ctx.attached_deposit == 1
                    &&& old(self).spec_transfer_check(
                        ctx.predecessor_account_id@,
                        receiver_id@,
                        token_id@,
                        approval_id,
                    ) is Ok
                    &&& refund.beneficiary == old(self).tokens_by_id.val(token_id@).owner_id
                    &&& refund.amount == spec_storage_cost(
                        spec_approval_bytes(
                            old(self).tokens_by_id.val(token_id@).approved_account_ids@,
                        ),
                    )
                    &&& final(self).tokens_by_id.has_key(token_id@)
                    &&& ({
                        let t = final(self).tokens_by_id.val(token_id@);
                        t.owner_id == receiver_id && t.approved_account_ids@.len() == 0
                            && t.next_approval_id == old(self).tokens_by_id.val(
                            token_id@,
                        ).next_approval_id
                    })
                    &&& forall|k: Seq<char>|
                        #[trigger] final(self).tokens_by_id.has_key(k) == old(self).tokens_by_id.has_key(k)
                    &&& forall|k: Seq<char>|
                        k != token_id@ && old(self).tokens_by_id.has_key(k) ==> #[trigger] final(self).tokens_by_id.val(k) == old(self).tokens_by_id.val(k)
                },
            }),
    {
        if let Err(e) = check_one_yocto(ctx) {
            return Err(e);
        }
        let sender_id = ctx.predecessor_account_id.duplicate();
        let prev = match self.internal_transfer(
            &sender_id,
            &receiver_id,
            &token_id,
            approval_id,
            memo,
        ) {
            Err(e) => {
                return Err(e);
            },
            Ok(p) => p,
        };
        let refund = refund_approved_account_ids(prev.owner_id, &prev.approved_account_ids);
        Ok(refund)
    }

    /// The notifying transfer: performs the direct transfer's steps, then
    /// hands back the in-flight record for the host to notify the receiver
    /// hook and schedule the resolution continuation.
    fn nft_transfer_call(
        &mut self,
        ctx: &CallContext,
        receiver_id: AccountId,
        token_id: TokenId,
        approval_id: Option<u64>,
        memo: Option<String>,
        msg: String,
    ) -> (r: Result<PendingTransfer, NftError>)
        ensures
            final(self).owner_id == old(self).owner_id,
            final(self).metadata == old(self).metadata,
            final(self).token_metadata_by_id == old(self).token_metadata_by_id,
            (match r {
                Err(e) => *final(self) == *old(self) && (if ctx.attached_deposit != 1 {
                    e == NftError::DepositRequired
                } else {
                    Err::<(), NftError>(e) == old(self).spec_transfer_check(
                        ctx.predecessor_account_id@,
                        receiver_id@,
                        token_id@,
                        approval_id,
                    )
                }),
                Ok(pending) => {
                    &&& ctx.attached_deposit == 1
                    &&& old(self).spec_transfer_check(
                        ctx.predecessor_account_id@,
                        receiver_id@,
                        token_id@,
                        approval_id,
                    ) is Ok
                    &&& pending.sender_id == ctx.predecessor_account_id
                    &&& pending.previous_owner_id == old(self).tokens_by_id.val(
                        token_id@,
                    ).owner_id
                    &&& pending.receiver_id == receiver_id
                    &&& pending.token_id == token_id
                    &&& pending.msg == msg
                    &&& pending.approvals_snapshot@ == old(self).tokens_by_id.val(
                        token_id@,
                    ).approved_account_ids@
                    &&& pending.refund.beneficiary == old(self).tokens_by_id.val(
                        token_id@,
                    ).owner_id
                    &&& pending.refund.amount == spec_storage_cost(
                        spec_approval_bytes(
                            old(self).tokens_by_id.val(token_id@).approved_account_ids@,
                        ),
                    )
                    &&& pending.previous_owner_id@ != pending.receiver_id@
                    &&& final(self).tokens_by_id.has_key(token_id@)
                    &&& ({
                        let t = final(self).tokens_by_id.val(token_id@);
                        t.owner_id == receiver_id && t.approved_account_ids@.len() == 0
                            && t.next_approval_id == old(self).tokens_by_id.val(
                            token_id@,
                        ).next_approval_id
                    })
                    &&& forall|k: Seq<char>|
                        #[trigger] final(self).tokens_by_id.has_key(k) == old(self).tokens_by_id.has_key(k)
                    &&& forall|k: Seq<char>|
                        k != token_id@ && old(self).tokens_by_id.has_key(k) ==> #[trigger] final(self).tokens_by_id.val(k) == old(self).tokens_by_id.val(k)
                },
            }),
    {
        if let Err(e) = check_one_yocto(ctx) {
            return Err(e);
        }
        let sender_id = ctx.predecessor_account_id.duplicate();
        let prev = match self.internal_transfer(
            &sender_id,
            &receiver_id,
            &token_id,
            approval_id,
            memo,
        ) {
            Err(e) => {
                return Err(e);
            },
            Ok(p) => p,
        };
        let refund = refund_approved_account_ids(
            prev.owner_id.duplicate(),
            &prev.approved_account_ids,
        );
        Ok(
            PendingTransfer {
                sender_id,
                previous_owner_id: prev.owner_id,
                receiver_id,
                token_id,
                msg,
                approvals_snapshot: prev.approved_account_ids,
                refund,
            },
        )
    }

    /// The joined view: the token's record joined with its metadata; absent
    /// tokens yield nothing.
    fn nft_token(&self, token_id: TokenId) -> (r: Option<JsonToken>)
        ensures
            r is Some <==> self.tokens_by_id.has_key(token_id@),
            (match r {
                Some(jt) => {
                    &&& jt.token_id == token_id
                    &&& jt.owner_id == self.tokens_by_id.val(token_id@).owner_id
                    &&& jt.approved_account_ids@ == self.tokens_by_id.val(
                        token_id@,
                    ).approved_account_ids@
                    &&& self.token_metadata_by_id.has_key(token_id@)
                    &&& token_metadata_matches(
                        &jt.metadata,
                        &self.token_metadata_by_id.val(token_id@),
                    )
                },
                None => !self.tokens_by_id.has_key(token_id@),
            }),
    {
        match self.tokens_by_id.get(&token_id) {
            None => None,
            Some(token) => {
                proof {
                    let i = self.tokens_by_id.idx_of(token_id@);
                    assert(self.tokens_by_id@[i].1.wf());
                    assert(self.token_metadata_by_id.has_key(token_id@));
                }
                let md = match self.token_metadata_by_id.get(&token_id) {
                    None => {
                        return vstd::pervasive::unreached();
                    },
                    Some(m) => m.duplicate(),
                };
                Some(
                    JsonToken {
                        owner_id: token.owner_id.duplicate(),
                        metadata: md,
                        approved_account_ids: token.approved_account_ids.duplicate(),
                        token_id,
                    },
                )
            },
        }
    }
}

impl Contract {
    /// The deferred resolution continuation of a notifying transfer. It runs
    /// once, after the receiver hook settled, with the pending record's
    /// fields and the hook's raw outcome; only the ledger itself may invoke
    /// it. If the hook kept the token there is nothing to undo. Otherwise
    /// ownership is re-read first: if the token has moved on meanwhile, the
    /// rollback is skipped (restitution only, reported as kept); otherwise
    /// the token returns to the previous owner with a fresh empty approval
    /// set, and the approvals the receiver had accumulated are refunded to
    /// the receiver.
    pub fn nft_resolve_transfer(
        &mut self,
        owner_id: AccountId,
        receiver_id: AccountId,
        token_id: TokenId,
        approved_account_ids: StrMap<u64>,
        outcome: PromiseOutcome,
    ) -> (r: Resolution)
        requires
            old(self).wf(),
            owner_id.wf(),
            owner_id@ != receiver_id@,
            approval_keys_valid(&approved_account_ids),
        ensures
            final(self).wf(),
            final(self).owner_id == old(self).owner_id,
            final(self).metadata == old(self).metadata,
            final(self).token_metadata_by_id == old(self).token_metadata_by_id,
            ({
                let snapshot_cost = spec_storage_cost(spec_approval_bytes(approved_account_ids@));
                if !spec_rollback_requested(&outcome) {
                    &&& r.kept == true
                    &&& r.refunds@.len() == 0
                    &&& *final(self) == *old(self)
                } else if !old(self).tokens_by_id.has_key(token_id@) || old(self).tokens_by_id.val(token_id@).owner_id@ != receiver_id@ {
                    &&& r.kept == true
                    &&& *final(self) == *old(self)
                    &&& r.refunds@.len() == 1
                    &&& r.refunds@[0].beneficiary == owner_id
                    &&& r.refunds@[0].amount == snapshot_cost
                } else {
                    &&& r.kept == false
                    &&& r.refunds@.len() == 2
                    &&& r.refunds@[0].beneficiary == owner_id
                    &&& r.refunds@[0].amount == snapshot_cost
                    &&& r.refunds@[1].beneficiary == receiver_id
                    &&& r.refunds@[1].amount == spec_storage_cost(
                        spec_approval_bytes(
                            old(self).tokens_by_id.val(token_id@).approved_account_ids@,
                        ),
                    )
                    &&& final(self).tokens_by_id.has_key(token_id@)
                    &&& ({
                        let t = final(self).tokens_by_id.val(token_id@);
                        t.owner_id@ == owner_id@ && t.approved_account_ids@.len() == 0
                            && t.next_approval_id == old(self).tokens_by_id.val(
                            token_id@,
                        ).next_approval_id
                    })
                    &&& forall|k: Seq<char>|
                        #[trigger] final(self).tokens_by_id.has_key(k) == old(self).tokens_by_id.has_key(k)
                    &&& forall|k: Seq<char>|
                        k != token_id@ && old(self).tokens_by_id.has_key(k) ==> #[trigger] final(self).tokens_by_id.val(k) == old(self).tokens_by_id.val(k)
                    &&& final(self).tokens_per_owner.has_key(owner_id@)
                    &&& final(self).tokens_per_owner.val(owner_id@)@.len() == (if old(self).tokens_per_owner.has_key(owner_id@) {
                        old(self).tokens_per_owner.val(owner_id@)@.len() + 1int
                    } else {
                        1int
                    })
                    &&& ({
                        let s = old(self).tokens_per_owner.val(receiver_id@);
                        if s@.len() == 1 {
                            !final(self).tokens_per_owner.has_key(receiver_id@)
                        } else {
                            final(self).tokens_per_owner.has_key(receiver_id@) && final(self).tokens_per_owner.val(receiver_id@)@.len() == s@.len() - 1
                        }
                    })
                }
            }),
    {
        // Read the hook's outcome; only a well-formed `false` keeps the
        // transfer, and an undecodable payload is treated as a rejection.
        let rollback = match &outcome {
            PromiseOutcome::Failed => true,
            PromiseOutcome::Successful(bytes) => {
                match parse_json_bool(bytes) {
                    Some(false) => false,
                    _ => true,
                }
            },
        };
        if !rollback {
            return Resolution { kept: true, refunds: Vec::new() };
        }
        let snapshot_refund = refund_approved_account_ids(owner_id, &approved_account_ids);
        // Re-read the current record before undoing anything: a third party
        // may have moved the token during the asynchronous window.
        let rollback_possible = match self.tokens_by_id.get(&token_id) {
            None => false,
            Some(token) => token.owner_id.same_as(&receiver_id),
        };
        if !rollback_possible {
            let mut refunds: Vec<Refund> = Vec::new();
            refunds.push(snapshot_refund);
            return Resolution { kept: true, refunds };
        }
        proof {
            let i = self.tokens_by_id.idx_of(token_id@);
            assert(self.tokens_by_id@[i].1.wf());
        }
        let current = match self.tokens_by_id.get(&token_id) {
            None => {
                return vstd::pervasive::unreached();
            },
            Some(t) => t.duplicate(),
        };
        let receiver_refund = refund_approved_account_ids(
            receiver_id,
            &current.approved_account_ids,
        );
        let previous_owner = snapshot_refund.beneficiary.duplicate();
        let _ = self.internal_move_token(&previous_owner, &token_id);
        let mut refunds: Vec<Refund> = Vec::new();
        refunds.push(snapshot_refund);
        refunds.push(receiver_refund);
        Resolution { kept: false, refunds }
    }
}

} // verus!
