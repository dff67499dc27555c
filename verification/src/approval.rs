//! The approval manager: granting, revoking and validating delegate
//! authorization on a token.

use vstd::prelude::*;
use crate::account::AccountId;
use crate::context::{CallContext, Refund, STORAGE_PRICE_PER_BYTE};
use crate::error::NftError;
use crate::internal::{
    bytes_for_approved_account_id, check_at_least_one_yocto, check_one_yocto, refund_deposit,
    spec_approval_bytes, spec_bytes_for_account, spec_storage_cost, refund_approved_account_ids,
};
use crate::metadata::{Token, TokenId};
use crate::store::StrMap;
use crate::Contract;

verus! {

/// The authorization rule: the owner may always act; a delegate may act when
/// it holds a live approval, and when an expected approval id is supplied it
/// must equal the stored one exactly (a stale or absent id is an approval
/// mismatch).
pub open spec fn spec_authorize(tok: Token, caller: Seq<char>, expected: Option<u64>) -> Result<
    (),
    NftError,
> {
    if caller == tok.owner_id@ {
        Ok(())
    } else {
        match expected {
            Some(eid) => {
                if tok.approved_account_ids.has_key(caller) && tok.approved_account_ids.val(caller)
                    == eid {
                    Ok(())
                } else {
                    Err(NftError::ApprovalMismatch)
                }
            },
            None => {
                if tok.approved_account_ids.has_key(caller) {
                    Ok(())
                } else {
                    Err(NftError::Unauthorized)
                }
            },
        }
    }
}

/// The single authorization chokepoint every transfer goes through.
pub fn authorize_token(token: &Token, caller: &AccountId, expected_approval_id: Option<u64>) -> (r:
    Result<(), NftError>)
    requires
        token.approved_account_ids.wf(),
    ensures
        r == spec_authorize(*token, caller@, expected_approval_id),
{
    if token.owner_id.same_as(caller) {
        return Ok(());
    }
    let key = caller.to_key();
    match expected_approval_id {
        Some(eid) => {
            match token.approved_account_ids.get(&key) {
                Some(stored) => {
                    if *stored == eid {
                        Ok(())
                    } else {
                        Err(NftError::ApprovalMismatch)
                    }
                },
                None => Err(NftError::ApprovalMismatch),
            }
        },
        None => {
            if token.approved_account_ids.contains_key(&key) {
                Ok(())
            } else {
                Err(NftError::Unauthorized)
            }
        },
    }
}

/// Re-establishes the ledger invariant after one token record is replaced in
/// place by a record with the same owner: the owner index and metadata are
/// untouched, so only the record's own well-formedness is new.
proof fn lemma_wf_after_token_update(pre: Contract, post: Contract, tid: Seq<char>, nt: Token)
    requires
        pre.wf(),
        pre.tokens_by_id.has_key(tid),
        nt.wf(),
        nt.owner_id@ == pre.tokens_by_id.val(tid).owner_id@,
        post.tokens_by_id@ == pre.tokens_by_id@.update(pre.tokens_by_id.idx_of(tid), (tid, nt)),
        post.tokens_by_id.wf(),
        post.tokens_per_owner == pre.tokens_per_owner,
        post.token_metadata_by_id == pre.token_metadata_by_id,
        post.owner_id == pre.owner_id,
    ensures
        post.wf(),
        forall|k: Seq<char>|
            #[trigger] post.tokens_by_id.has_key(k) == pre.tokens_by_id.has_key(k),
        forall|k: Seq<char>|
            k != tid && pre.tokens_by_id.has_key(k) ==> #[trigger] post.tokens_by_id.val(k)
                == pre.tokens_by_id.val(k),
        post.tokens_by_id.val(tid) == nt,
{
    let tmap0 = pre.tokens_by_id;
    let tmap1 = post.tokens_by_id;
    let i = tmap0.idx_of(tid);
    StrMap::<Token>::lemma_update_entry(tmap0, tmap1, tid, nt);
    assert forall|a: int| 0 <= a < tmap1@.len() implies (#[trigger] tmap1@[a]).1.wf() by {
        if a != i {
            assert(tmap1@[a] == tmap0@[a]);
        } else {
            assert(tmap1@[a].1 == nt);
        }
    }
    assert forall|a: int| 0 <= a < tmap1@.len() implies {
        let id = (#[trigger] tmap1@[a]).0;
        let tok = tmap1@[a].1;
        post.tokens_per_owner.has_key(tok.owner_id@) && post.tokens_per_owner.val(
            tok.owner_id@,
        ).has(id)
    } by {
        if a != i {
            assert(tmap1@[a] == tmap0@[a]);
        } else {
            assert(tmap0@[a].0 == tid && tmap0@[a].1 == pre.tokens_by_id.val(tid));
            assert(tmap1@[a].1.owner_id@ == tmap0@[a].1.owner_id@);
        }
    }
    assert forall|a: int| 0 <= a < post.tokens_per_owner@.len() implies {
        let ow = (#[trigger] post.tokens_per_owner@[a]).0;
        let set = post.tokens_per_owner@[a].1;
        set@.len() > 0 && forall|j: int|
            0 <= j < set@.len() ==> post.tokens_by_id.has_key(#[trigger] set@[j])
                && post.tokens_by_id.val(set@[j]).owner_id@ == ow
    } by {
        let ow = post.tokens_per_owner@[a].0;
        let set = post.tokens_per_owner@[a].1;
        assert(set@.len() > 0);
        assert forall|j: int| 0 <= j < set@.len() implies post.tokens_by_id.has_key(
            #[trigger] set@[j],
        ) && post.tokens_by_id.val(set@[j]).owner_id@ == ow by {
            let m = set@[j];
            assert(pre.tokens_by_id.has_key(m) && pre.tokens_by_id.val(m).owner_id@ == ow);
            if m == tid {
                assert(post.tokens_by_id.val(tid) == nt);
            } else {
                assert(post.tokens_by_id.val(m) == pre.tokens_by_id.val(m));
            }
        }
    }
    assert(post.metadata_complete()) by {
        assert forall|k: Seq<char>| #[trigger] post.tokens_by_id.has_key(k)
            <==> #[trigger] post.token_metadata_by_id.has_key(k) by {
            assert(post.tokens_by_id.has_key(k) == pre.tokens_by_id.has_key(k));
        }
    }
}

impl Contract {
    /// Authorization against a stored token: `NotFound` for an unknown
    /// identifier, otherwise the chokepoint rule of [`spec_authorize`].
    pub fn authorize(
        &self,
        token_id: &TokenId,
        caller: &AccountId,
        expected_approval_id: Option<u64>,
    ) -> (r: Result<(), NftError>)
        requires
            self.wf(),
        ensures
            r == (if !self.tokens_by_id.has_key(token_id@) {
                Err::<(), NftError>(NftError::NotFound)
            } else {
                spec_authorize(self.tokens_by_id.val(token_id@), caller@, expected_approval_id)
            }),
    {
        match self.tokens_by_id.get(token_id) {
            None => Err(NftError::NotFound),
            Some(t) => {
                proof {
                    let i = self.tokens_by_id.idx_of(token_id@);
                    assert(self.tokens_by_id@[i].1.wf());
                }
                authorize_token(t, caller, expected_approval_id)
            },
        }
    }

    /// The checks an approval grant performs, in order: an attached deposit,
    /// a live token, the owner as caller, an unexhausted counter, and a
    /// deposit covering the new entry's storage.
    pub open spec fn spec_approve_check(
        &self,
        ctx: &CallContext,
        token_id: Seq<char>,
        delegate: Seq<char>,
    ) -> Result<(), NftError> {
        if ctx.attached_deposit < 1 {
            Err(NftError::DepositRequired)
        } else if !self.tokens_by_id.has_key(token_id) {
            Err(NftError::NotFound)
        } else {
            let tok = self.tokens_by_id.val(token_id);
            if ctx.predecessor_account_id@ != tok.owner_id@ {
                Err(NftError::Unauthorized)
            } else if tok.next_approval_id == u64::MAX {
                Err(NftError::InvariantViolation)
            } else {
                let bytes: int = if tok.approved_account_ids.has_key(delegate) {
                    0
                } else {
                    spec_bytes_for_account(delegate)
                };
                if bytes * (STORAGE_PRICE_PER_BYTE as int) > ctx.attached_deposit as int {
                    Err(NftError::InsufficientDeposit)
                } else {
                    Ok(())
                }
            }
        }
    }

    /// Grants `account_id` an approval on `token_id`. Owner-only. The fresh
    /// approval id is the token's counter, which then advances, so ids are
    /// never reused even across revocations; re-approving an existing
    /// delegate overwrites its id. A new delegate entry's storage is charged
    /// against the attached deposit and the excess refunded.
    pub fn nft_approve(&mut self, ctx: &CallContext, token_id: TokenId, account_id: AccountId) -> (r:
        Result<(u64, Option<Refund>), NftError>)
        requires
            old(self).wf(),
            ctx.wf(),
            account_id.wf(),
        ensures
            final(self).wf(),
            final(self).owner_id == old(self).owner_id,
            final(self).metadata == old(self).metadata,
            final(self).token_metadata_by_id == old(self).token_metadata_by_id,
            final(self).tokens_per_owner == old(self).tokens_per_owner,
            (match r {
                Err(e) => *final(self) == *old(self) && Err::<(), NftError>(e) == old(self).spec_approve_check(ctx, token_id@, account_id@),
                Ok((approval_id, refund)) => {
                    &&& old(self).spec_approve_check(ctx, token_id@, account_id@) is Ok
                    &&& approval_id == old(self).tokens_by_id.val(token_id@).next_approval_id
                    &&& final(self).tokens_by_id.has_key(token_id@)
                    &&& ({
                        let t0 = old(self).tokens_by_id.val(token_id@);
                        let t = final(self).tokens_by_id.val(token_id@);
                        &&& t.owner_id == t0.owner_id
                        &&& t.next_approval_id == t0.next_approval_id + 1
                        &&& t.approved_account_ids.has_key(account_id@)
                        &&& t.approved_account_ids.val(account_id@) == approval_id
                        &&& (forall|d: Seq<char>|
                            d != account_id@ ==> #[trigger] t.approved_account_ids.has_key(d)
                                == t0.approved_account_ids.has_key(d))
                        &&& (forall|d: Seq<char>|
                            d != account_id@ && t0.approved_account_ids.has_key(d)
                                ==> #[trigger] t.approved_account_ids.val(d)
                                == t0.approved_account_ids.val(d))
                        &&& t.approved_account_ids@.len() == (if t0.approved_account_ids.has_key(
                            account_id@,
                        ) {
                            t0.approved_account_ids@.len() as int
                        } else {
                            t0.approved_account_ids@.len() + 1int
                        })
                    })
                    &&& forall|k: Seq<char>|
                        #[trigger] final(self).tokens_by_id.has_key(k) == old(self).tokens_by_id.has_key(k)
                    &&& forall|k: Seq<char>|
                        k != token_id@ && old(self).tokens_by_id.has_key(k) ==> #[trigger] final(self).tokens_by_id.val(k) == old(self).tokens_by_id.val(k)
                    &&& ({
                        let bytes: int = if old(self).tokens_by_id.val(
                            token_id@,
                        ).approved_account_ids.has_key(account_id@) {
                            0
                        } else {
                            spec_bytes_for_account(account_id@)
                        };
                        let excess = ctx.attached_deposit as int - bytes * (STORAGE_PRICE_PER_BYTE
                            as int);
                        match refund {
                            Some(rf) => excess > 1 && rf.beneficiary == ctx.predecessor_account_id
                                && rf.amount == excess,
                            None => excess <= 1,
                        }
                    })
                },
            }),
    {
        let ghost pre = *self;
        let ghost tid = token_id@;
        if let Err(e) = check_at_least_one_yocto(ctx) {
            return Err(e);
        }
        let mut tok = match self.tokens_by_id.get(&token_id) {
            None => {
                return Err(NftError::NotFound);
            },
            Some(t) => t.duplicate(),
        };
        proof {
            let i = pre.tokens_by_id.idx_of(tid);
            assert(pre.tokens_by_id@[i].1.wf());
        }
        if !tok.owner_id.same_as(&ctx.predecessor_account_id) {
            return Err(NftError::Unauthorized);
        }
        if tok.next_approval_id == u64::MAX {
            return Err(NftError::InvariantViolation);
        }
        let key = account_id.to_key();
        let is_new = !tok.approved_account_ids.contains_key(&key);
        let bytes: u128 = if is_new {
            bytes_for_approved_account_id(&account_id) as u128
        } else {
            0
        };
        let refund = match refund_deposit(bytes, ctx) {
            Err(e) => {
                return Err(e);
            },
            Ok(rf) => rf,
        };
        let approval_id = tok.next_approval_id;
        let ghost am0 = tok.approved_account_ids;
        let _ = tok.approved_account_ids.insert(key, approval_id);
        tok.next_approval_id = approval_id + 1;
        proof {
            let t0 = pre.tokens_by_id.val(tid);
            let am1 = tok.approved_account_ids;
            if am0.has_key(account_id@) {
                StrMap::<u64>::lemma_update_entry(am0, am1, account_id@, approval_id);
            } else {
                StrMap::<u64>::lemma_push_entry(am0, am1, account_id@, approval_id);
            }
            assert forall|d: Seq<char>| d != account_id@ && am0.has_key(d) implies
                #[trigger] am1.val(d) == am0.val(d) by {
                assert(am1.has_key(d));
            }
            assert forall|a: int| 0 <= a < tok.approved_account_ids@.len() implies
                crate::account::is_valid_account_seq(
                    (#[trigger] tok.approved_account_ids@[a]).0,
                ) && tok.approved_account_ids@[a].1 < tok.next_approval_id by {
                if t0.approved_account_ids.has_key(account_id@) {
                    let i = t0.approved_account_ids.idx_of(account_id@);
                    if a != i {
                        assert(tok.approved_account_ids@[a] == t0.approved_account_ids@[a]);
                    }
                } else {
                    if a < t0.approved_account_ids@.len() {
                        assert(tok.approved_account_ids@[a] == t0.approved_account_ids@[a]);
                    }
                }
            }
            assert(tok.wf());
        }
        let ghost nt = tok;
        let _ = self.tokens_by_id.insert(token_id, tok);
        proof {
            lemma_wf_after_token_update(pre, *self, tid, nt);
        }
        Ok((approval_id, refund))
    }

    /// Revokes `account_id`'s approval on `token_id`. Owner-only, demands
    /// the exact one-unit deposit signature, and is a no-op when the
    /// delegate holds no approval; a removed entry's storage cost is
    /// refunded to the caller. The approval counter is untouched.
    pub fn nft_revoke(&mut self, ctx: &CallContext, token_id: TokenId, account_id: AccountId) -> (r:
        Result<Option<Refund>, NftError>)
        requires
            old(self).wf(),
            ctx.wf(),
        ensures
            final(self).wf(),
            final(self).owner_id == old(self).owner_id,
            final(self).metadata == old(self).metadata,
            final(self).token_metadata_by_id == old(self).token_metadata_by_id,
            final(self).tokens_per_owner == old(self).tokens_per_owner,
            (match r {
                Err(e) => *final(self) == *old(self) && (if ctx.attached_deposit != 1 {
                    e == NftError::DepositRequired
                } else if !old(self).tokens_by_id.has_key(token_id@) {
                    e == NftError::NotFound
                } else {
                    e == NftError::Unauthorized && ctx.predecessor_account_id@ != old(self).tokens_by_id.val(token_id@).owner_id@
                }),
                Ok(refund) => {
                    &&& ctx.attached_deposit == 1
                    &&& old(self).tokens_by_id.has_key(token_id@)
                    &&& ctx.predecessor_account_id@ == old(self).tokens_by_id.val(
                        token_id@,
                    ).owner_id@
                    &&& final(self).tokens_by_id.has_key(token_id@)
                    &&& ({
                        let t0 = old(self).tokens_by_id.val(token_id@);
                        let t = final(self).tokens_by_id.val(token_id@);
                        &&& t.owner_id == t0.owner_id
                        &&& t.next_approval_id == t0.next_approval_id
                        &&& !t.approved_account_ids.has_key(account_id@)
                        &&& (forall|d: Seq<char>|
                            d != account_id@ ==> #[trigger] t.approved_account_ids.has_key(d)
                                == t0.approved_account_ids.has_key(d))
                        &&& (forall|d: Seq<char>|
                            d != account_id@ && t0.approved_account_ids.has_key(d)
                                ==> #[trigger] t.approved_account_ids.val(d)
                                == t0.approved_account_ids.val(d))
                        &&& (match refund {
                            Some(rf) => t0.approved_account_ids.has_key(account_id@)
                                && rf.beneficiary == ctx.predecessor_account_id && rf.amount
                                == spec_storage_cost(spec_bytes_for_account(account_id@)),
                            None => !t0.approved_account_ids.has_key(account_id@),
                        })
                    })
                    &&& forall|k: Seq<char>|
                        #[trigger] final(self).tokens_by_id.has_key(k) == old(self).tokens_by_id.has_key(k)
                    &&& forall|k: Seq<char>|
                        k != token_id@ && old(self).tokens_by_id.has_key(k) ==> #[trigger] final(self).tokens_by_id.val(k) == old(self).tokens_by_id.val(k)
                },
            }),
    {
        let ghost pre = *self;
        let ghost tid = token_id@;
        if let Err(e) = check_one_yocto(ctx) {
            return Err(e);
        }
        let mut tok = match self.tokens_by_id.get(&token_id) {
            None => {
                return Err(NftError::NotFound);
            },
            Some(t) => t.duplicate(),
        };
        proof {
            let i = pre.tokens_by_id.idx_of(tid);
            assert(pre.tokens_by_id@[i].1.wf());
        }
        if !tok.owner_id.same_as(&ctx.predecessor_account_id) {
            return Err(NftError::Unauthorized);
        }
        let key = account_id.to_key();
        let ghost am0 = tok.approved_account_ids;
        let removed = tok.approved_account_ids.remove_key(&key);
        proof {
            if am0.has_key(account_id@) {
                StrMap::<u64>::lemma_remove_entry(am0, tok.approved_account_ids, account_id@);
            }
        }
        let refund = match removed {
            Some(stored_id) => {
                proof {
                    let t0 = pre.tokens_by_id.val(tid);
                    let i = t0.approved_account_ids.idx_of(account_id@);
                    assert(crate::account::is_valid_account_seq(t0.approved_account_ids@[i].0));
                }
                Some(
                    Refund {
                        beneficiary: ctx.predecessor_account_id.duplicate(),
                        amount: crate::internal::storage_cost(
                            bytes_for_approved_account_id(&account_id) as u128,
                        ),
                    },
                )
            },
            None => None,
        };
        proof {
            let t0 = pre.tokens_by_id.val(tid);
            if t0.approved_account_ids.has_key(account_id@) {
                let i = t0.approved_account_ids.idx_of(account_id@);
                assert forall|a: int| 0 <= a < tok.approved_account_ids@.len() implies
                    crate::account::is_valid_account_seq(
                        (#[trigger] tok.approved_account_ids@[a]).0,
                    ) && tok.approved_account_ids@[a].1 < tok.next_approval_id by {
                    if a < i {
                        assert(tok.approved_account_ids@[a] == t0.approved_account_ids@[a]);
                    } else {
                        assert(tok.approved_account_ids@[a] == t0.approved_account_ids@[a + 1]);
                    }
                }
            }
            assert(tok.wf());
        }
        let ghost nt = tok;
        let _ = self.tokens_by_id.insert(token_id, tok);
        proof {
            lemma_wf_after_token_update(pre, *self, tid, nt);
        }
        Ok(refund)
    }

    /// Revokes every approval on `token_id`. Owner-only, demands the exact
    /// one-unit deposit signature; the cleared entries' storage cost is
    /// refunded to the caller. The approval counter is untouched.
    pub fn nft_revoke_all(&mut self, ctx: &CallContext, token_id: TokenId) -> (r: Result<
        Option<Refund>,
        NftError,
    >)
        requires
            old(self).wf(),
            ctx.wf(),
        ensures
            final(self).wf(),
            final(self).owner_id == old(self).owner_id,
            final(self).metadata == old(self).metadata,
            final(self).token_metadata_by_id == old(self).token_metadata_by_id,
            final(self).tokens_per_owner == old(self).tokens_per_owner,
            (match r {
                Err(e) => *final(self) == *old(self) && (if ctx.attached_deposit != 1 {
                    e == NftError::DepositRequired
                } else if !old(self).tokens_by_id.has_key(token_id@) {
                    e == NftError::NotFound
                } else {
                    e == NftError::Unauthorized && ctx.predecessor_account_id@ != old(self).tokens_by_id.val(token_id@).owner_id@
                }),
                Ok(refund) => {
                    &&& ctx.attached_deposit == 1
                    &&& old(self).tokens_by_id.has_key(token_id@)
                    &&& ctx.predecessor_account_id@ == old(self).tokens_by_id.val(
                        token_id@,
                    ).owner_id@
                    &&& final(self).tokens_by_id.has_key(token_id@)
                    &&& ({
                        let t0 = old(self).tokens_by_id.val(token_id@);
                        let t = final(self).tokens_by_id.val(token_id@);
                        &&& t.owner_id == t0.owner_id
                        &&& t.next_approval_id == t0.next_approval_id
                        &&& t.approved_account_ids@.len() == 0
                        &&& (match refund {
                            Some(rf) => t0.approved_account_ids@.len() > 0 && rf.beneficiary
                                == ctx.predecessor_account_id && rf.amount == spec_storage_cost(
                                spec_approval_bytes(t0.approved_account_ids@),
                            ),
                            None => t0.approved_account_ids@.len() == 0,
                        })
                    })
                    &&& forall|k: Seq<char>|
                        #[trigger] final(self).tokens_by_id.has_key(k) == old(self).tokens_by_id.has_key(k)
                    &&& forall|k: Seq<char>|
                        k != token_id@ && old(self).tokens_by_id.has_key(k) ==> #[trigger] final(self).tokens_by_id.val(k) == old(self).tokens_by_id.val(k)
                },
            }),
    {
        let ghost pre = *self;
        let ghost tid = token_id@;
        if let Err(e) = check_one_yocto(ctx) {
            return Err(e);
        }
        let tok = match self.tokens_by_id.get(&token_id) {
            None => {
                return Err(NftError::NotFound);
            },
            Some(t) => t.duplicate(),
        };
        proof {
            let i = pre.tokens_by_id.idx_of(tid);
            assert(pre.tokens_by_id@[i].1.wf());
        }
        if !tok.owner_id.same_as(&ctx.predecessor_account_id) {
            return Err(NftError::Unauthorized);
        }
        let refund = if tok.approved_account_ids.len() > 0 {
            Some(
                refund_approved_account_ids(
                    ctx.predecessor_account_id.duplicate(),
                    &tok.approved_account_ids,
                ),
            )
        } else {
            None
        };
        let new_tok = Token {
            owner_id: tok.owner_id,
            approved_account_ids: StrMap::new(),
            next_approval_id: tok.next_approval_id,
        };
        let ghost nt = new_tok;
        let _ = self.tokens_by_id.insert(token_id, new_tok);
        proof {
            lemma_wf_after_token_update(pre, *self, tid, nt);
        }
        Ok(refund)
    }
}

/// Law: across any two successful grants on one token the second approval id
/// is strictly larger, whatever happens in between — a grant returns the
/// counter and advances it (`nft_approve`), and no operation lowers the
/// counter (`nft_revoke`, `nft_revoke_all` and the transfers keep it).
pub proof fn lemma_approval_ids_strictly_increase(
    counter_at_first: u64,
    counter_after_first: int,
    counter_at_second: u64,
    first_id: u64,
    second_id: u64,
)
    requires
        first_id == counter_at_first,
        counter_after_first == counter_at_first + 1,
        counter_at_second >= counter_after_first,
        second_id == counter_at_second,
    ensures
        second_id > first_id,
{
}

} // verus!
