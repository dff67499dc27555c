//! Storage-fee accounting and the key deriver's fingerprint.
//!
//! Storage is paid for by the byte: a mutation's byte delta is priced at
//! [`STORAGE_PRICE_PER_BYTE`](crate::context::STORAGE_PRICE_PER_BYTE), the
//! attached deposit must cover it, and freed bytes are refunded to the party
//! that paid for them.

use vstd::prelude::*;
use vstd::utf8::encode_utf8;
use sha2::Digest;
use crate::account::{AccountId, is_valid_account_seq};
use crate::context::{CallContext, Refund, STORAGE_PRICE_PER_BYTE};
use crate::error::NftError;
use crate::approval::{authorize_token, spec_authorize};
use crate::metadata::{Token, TokenId};
use crate::store::{StrMap, StrSet};
use crate::{Contract, StorageKey, storage_key_prefix, total_owned};
use crate::{lemma_total_owned_push, lemma_total_owned_remove};

verus! {

/// Storage bytes one approval entry occupies: the delegate identifier's
/// characters plus fixed bookkeeping bytes (a 4-byte length header and the
/// 8-byte approval id).
pub open spec fn spec_bytes_for_account(id: Seq<char>) -> int {
    id.len() + 12int
}

/// Storage bytes occupied by a whole approval list, summed entry by entry.
pub open spec fn spec_approval_bytes(entries: Seq<(Seq<char>, u64)>) -> int
    decreases entries.len(),
{
    if entries.len() == 0 {
        0
    } else {
        spec_approval_bytes(entries.drop_last()) + spec_bytes_for_account(entries.last().0)
    }
}

/// Every key of an approval map satisfies the account grammar.
pub open spec fn approval_keys_valid(m: &StrMap<u64>) -> bool {
    forall|i: int|
        0 <= i < m@.len() ==> is_valid_account_seq((#[trigger] m@[i]).0)
}

/// The cost of `bytes` storage bytes, saturating at the largest
/// representable amount.
pub open spec fn spec_storage_cost(bytes: int) -> int {
    if bytes * (STORAGE_PRICE_PER_BYTE as int) > u128::MAX as int {
        u128::MAX as int
    } else {
        bytes * (STORAGE_PRICE_PER_BYTE as int)
    }
}

/// Storage bytes one approval entry occupies.
pub fn bytes_for_approved_account_id(account_id: &AccountId) -> (r: u64)
    requires
        account_id.wf(),
    ensures
        r == spec_bytes_for_account(account_id@),
{
    // The account grammar bounds the identifier at 64 characters.
    (account_id.char_len() as u64) + 4 + 8
}

/// Storage bytes occupied by the whole approval list.
pub fn approval_storage_bytes(approvals: &StrMap<u64>) -> (r: u128)
    requires
        approval_keys_valid(approvals),
    ensures
        r == spec_approval_bytes(approvals@),
        r <= 76 * approvals@.len(),
{
    let n = approvals.len();
    let mut acc: u128 = 0;
    let mut i: usize = 0;
    while i < n
        invariant
            0 <= i <= n,
            n == approvals@.len(),
            approval_keys_valid(approvals),
            acc == spec_approval_bytes(approvals@.take(i as int)),
            acc <= 76 * i,
        decreases n - i,
    {
        let p = approvals.at(i);
        let id_len = p.0.unicode_len();
        proof {
            assert(approvals@[i as int].0.len() <= 64);
            assert(approvals@.take(i + 1 as int).drop_last() =~= approvals@.take(i as int));
            assert(approvals@.take(i + 1 as int).last() == approvals@[i as int]);
        }
        acc = acc + (id_len as u128) + 12;
        i = i + 1;
    }
    proof {
        assert(approvals@.take(n as int) =~= approvals@);
    }
    acc
}

/// The cost of `bytes` storage bytes, saturating at the largest
/// representable amount.
pub fn storage_cost(bytes: u128) -> (r: u128)
    ensures
        r == spec_storage_cost(bytes as int),
{
    if bytes == 0 {
        0
    } else if STORAGE_PRICE_PER_BYTE > u128::MAX / bytes {
        proof {
            lemma_mul_exceeds(bytes as int, STORAGE_PRICE_PER_BYTE as int, u128::MAX as int);
        }
        u128::MAX
    } else {
        proof {
            lemma_mul_fits(bytes as int, STORAGE_PRICE_PER_BYTE as int, u128::MAX as int);
        }
        bytes * STORAGE_PRICE_PER_BYTE
    }
}

/// If `p` exceeds `max / b` then `b * p` exceeds `max`.
proof fn lemma_mul_exceeds(b: int, p: int, max: int)
    requires
        b > 0,
        max >= 0,
        p > max / b,
    ensures
        b * p > max,
{
    let d = max / b;
    vstd::arithmetic::div_mod::lemma_fundamental_div_mod(max, b);
    assert(max == b * d + max % b);
    vstd::arithmetic::div_mod::lemma_mod_bound(max, b);
    vstd::arithmetic::mul::lemma_mul_inequality(d + 1, p, b);
    assert(b * (d + 1) <= b * p) by {
        vstd::arithmetic::mul::lemma_mul_is_commutative(d + 1, b);
        vstd::arithmetic::mul::lemma_mul_is_commutative(p, b);
    }
    assert(b * (d + 1) == b * d + b) by {
        vstd::arithmetic::mul::lemma_mul_is_distributive_add(b, d, 1);
    }
}

/// If `p` is at most `max / b` then `b * p` is at most `max`.
proof fn lemma_mul_fits(b: int, p: int, max: int)
    requires
        b > 0,
        p >= 0,
        max >= 0,
        p <= max / b,
    ensures
        b * p <= max,
{
    let d = max / b;
    vstd::arithmetic::div_mod::lemma_fundamental_div_mod(max, b);
    vstd::arithmetic::div_mod::lemma_mod_bound(max, b);
    vstd::arithmetic::mul::lemma_mul_inequality(p, d, b);
    assert(b * p <= b * d) by {
        vstd::arithmetic::mul::lemma_mul_is_commutative(d, b);
        vstd::arithmetic::mul::lemma_mul_is_commutative(p, b);
    }
}

/// The storage refund owed to `account_id` for a cleared approval list.
pub fn refund_approved_account_ids(account_id: AccountId, approved_account_ids: &StrMap<u64>) -> (r:
    Refund)
    requires
        approval_keys_valid(approved_account_ids),
    ensures
        r.beneficiary == account_id,
        r.amount == spec_storage_cost(spec_approval_bytes(approved_account_ids@)),
{
    let bytes = approval_storage_bytes(approved_account_ids);
    Refund { beneficiary: account_id, amount: storage_cost(bytes) }
}

/// Settles a mutation's storage bill against the attached deposit. The
/// required cost is `storage_used * STORAGE_PRICE_PER_BYTE`; the call fails
/// when the deposit does not cover it, and the excess is refunded to the
/// caller when it exceeds the minimal transferable unit (smaller remainders
/// are retained to avoid uneconomical micro-refunds).
pub fn refund_deposit(storage_used: u128, ctx: &CallContext) -> (r: Result<Option<Refund>, NftError>)
    ensures
        (match r {
            Ok(refund) => {
                &&& (storage_used as int) * (STORAGE_PRICE_PER_BYTE as int)
                    <= ctx.attached_deposit as int
                &&& {
                    let excess = ctx.attached_deposit as int - (storage_used as int) * (
                    STORAGE_PRICE_PER_BYTE as int);
                    match refund {
                        Some(rf) => excess > 1 && rf.beneficiary == ctx.predecessor_account_id
                            && rf.amount == excess,
                        None => excess <= 1,
                    }
                }
            },
            Err(e) => {
                &&& (storage_used as int) * (STORAGE_PRICE_PER_BYTE as int)
                    > ctx.attached_deposit as int
                &&& e == NftError::InsufficientDeposit
            },
        }),
{
    if storage_used != 0 && STORAGE_PRICE_PER_BYTE > u128::MAX / storage_used {
        proof {
            lemma_mul_exceeds(storage_used as int, STORAGE_PRICE_PER_BYTE as int, u128::MAX as int);
        }
        return Err(NftError::InsufficientDeposit);
    }
    proof {
        if storage_used != 0 {
            lemma_mul_fits(storage_used as int, STORAGE_PRICE_PER_BYTE as int, u128::MAX as int);
        }
    }
    let required_cost: u128 = storage_used * STORAGE_PRICE_PER_BYTE;
    if required_cost > ctx.attached_deposit {
        return Err(NftError::InsufficientDeposit);
    }
    let excess = ctx.attached_deposit - required_cost;
    if excess > 1 {
        Ok(Some(Refund { beneficiary: ctx.predecessor_account_id.duplicate(), amount: excess }))
    } else {
        Ok(None)
    }
}

/// Demands the exact one-unit deposit signature on a state-changing call.
pub fn check_one_yocto(ctx: &CallContext) -> (r: Result<(), NftError>)
    ensures
        r is Ok <==> ctx.attached_deposit == 1,
        r is Err ==> r == Err::<(), NftError>(NftError::DepositRequired),
{
    if ctx.attached_deposit == 1 {
        Ok(())
    } else {
        Err(NftError::DepositRequired)
    }
}

/// Demands that at least one currency unit is attached.
pub fn check_at_least_one_yocto(ctx: &CallContext) -> (r: Result<(), NftError>)
    ensures
        r is Ok <==> ctx.attached_deposit >= 1,
        r is Err ==> r == Err::<(), NftError>(NftError::DepositRequired),
{
    if ctx.attached_deposit >= 1 {
        Ok(())
    } else {
        Err(NftError::DepositRequired)
    }
}

/// The SHA-256 digest of a byte string.
pub uninterp spec fn sha256_of(input: Seq<u8>) -> Seq<u8>;

/// Relies on `sha2::Sha256` through `Digest::digest`: the SHA-256 digest is a
/// function of the input bytes alone, and is 32 bytes long.
#[verifier::external_body]
fn sha256_bytes(input: &[u8]) -> (r: Vec<u8>)
    ensures
        r@ == sha256_of(input@),
        r@.len() == 32,
{
    sha2::Sha256::digest(input).to_vec()
}

/// The key deriver's fingerprint of an account: the SHA-256 digest of the
/// identifier's UTF-8 bytes, used to namespace per-owner collections.
pub fn hash_account_id(account_id: &AccountId) -> (r: Vec<u8>)
    ensures
        r@ == sha256_of(encode_utf8(account_id@)),
        r@.len() == 32,
{
    sha256_bytes(account_id.as_str().as_bytes())
}

impl Contract {
    /// The owner-index half of the ledger invariant, on its own: distinct
    /// owner keys and well-formed sets.
    pub open spec fn owner_index_wf(&self) -> bool {
        &&& self.tokens_per_owner.wf()
        &&& forall|i: int|
            0 <= i < self.tokens_per_owner@.len() ==> (#[trigger] self.tokens_per_owner@[i]).1.wf()
    }

    /// Adds `token_id` to `account_id`'s set in the owner index, creating
    /// the set under the account's derived namespace when absent. Idempotent.
    pub fn internal_add_token_to_owner(&mut self, account_id: &AccountId, token_id: &TokenId)
        requires
            old(self).owner_index_wf(),
        ensures
            final(self).owner_index_wf(),
            final(self).owner_id == old(self).owner_id,
            final(self).tokens_by_id == old(self).tokens_by_id,
            final(self).token_metadata_by_id == old(self).token_metadata_by_id,
            final(self).metadata == old(self).metadata,
            final(self).tokens_per_owner.has_key(account_id@),
            final(self).tokens_per_owner.val(account_id@).has(token_id@),
            forall|m: Seq<char>|
                #[trigger] final(self).tokens_per_owner.val(account_id@).has(m) == (m == token_id@
                    || (old(self).tokens_per_owner.has_key(account_id@) && old(
                    self).tokens_per_owner.val(account_id@).has(m))),
            ({
                let post = final(self).tokens_per_owner.val(account_id@);
                if old(self).tokens_per_owner.has_key(account_id@) {
                    let s = old(self).tokens_per_owner.val(account_id@);
                    post@ == if s.has(token_id@) {
                        s@
                    } else {
                        s@.push(token_id@)
                    }
                } else {
                    post@ == seq![token_id@]
                }
            }),
            forall|k: Seq<char>|
                k != account_id@ ==> #[trigger] final(self).tokens_per_owner.has_key(k) == old(self).tokens_per_owner.has_key(k),
            forall|k: Seq<char>|
                k != account_id@ && old(self).tokens_per_owner.has_key(k) ==> #[trigger] final(self).tokens_per_owner.val(k) == old(self).tokens_per_owner.val(k),
            total_owned(final(self).tokens_per_owner@) == total_owned(old(self).tokens_per_owner@)
                + (if old(self).tokens_per_owner.has_key(account_id@) && old(self).tokens_per_owner.val(account_id@).has(token_id@) {
                0int
            } else {
                1int
            }),
    {
        let ghost pre = self.tokens_per_owner;
        let key = account_id.to_key();
        let existing = self.tokens_per_owner.remove_key(&key);
        match existing {
            Some(mut set) => {
                let ghost mid = self.tokens_per_owner;
                let ghost set0 = set;
                proof {
                    assert(set == pre.val(account_id@));
                    lemma_total_owned_remove(pre@, pre.idx_of(account_id@));
                    StrMap::<StrSet>::lemma_remove_entry(pre, mid, account_id@);
                    assert(pre@[pre.idx_of(account_id@)].1 == set);
                    pre.lemma_key_at(pre.idx_of(account_id@));
                    assert(set.wf());
                }
                let grew = set.insert(token_id.clone());
                proof {
                    if grew {
                        StrSet::lemma_set_push(set0, set, token_id@);
                    }
                }
                let ghost set1 = set;
                self.tokens_per_owner.insert(key, set);
                proof {
                    let post = self.tokens_per_owner;
                    assert(post@ == mid@.push((account_id@, set1)));
                    StrMap::<StrSet>::lemma_push_entry(mid, post, account_id@, set1);
                    lemma_total_owned_push(mid@, (account_id@, set1));
                    assert forall|k: Seq<char>| k != account_id@ implies #[trigger] post.has_key(k)
                        == pre.has_key(k) by {}
                    assert forall|k: Seq<char>| k != account_id@ && pre.has_key(k) implies #[trigger] post.val(k) == pre.val(k) by {
                        assert(mid.has_key(k));
                        assert(mid.val(k) == pre.val(k));
                        assert(post.has_key(k));
                    }
                    if !grew {
                        assert(set1 == set0);
                    }
                    assert forall|m: Seq<char>| #[trigger] set1.has(m) == (m == token_id@
                        || set0.has(m)) by {
                        if !grew && m == token_id@ {
                            assert(set0.has(token_id@));
                        }
                    }
                }
            },
            None => {
                let ghost mid = self.tokens_per_owner;
                proof {
                    assert(mid == pre);
                }
                let mut set = StrSet::with_prefix(
                    storage_key_prefix(
                        &StorageKey::TokenPerOwnerInner {
                            account_id_hash: hash_account_id(account_id),
                        },
                    ),
                );
                set.insert(token_id.clone());
                let ghost set1 = set;
                self.tokens_per_owner.insert(key, set);
                proof {
                    let post = self.tokens_per_owner;
                    assert(set1@ =~= seq![token_id@]);
                    assert(post@ == pre@.push((account_id@, set1)));
                    StrMap::<StrSet>::lemma_push_entry(pre, post, account_id@, set1);
                    lemma_total_owned_push(pre@, (account_id@, set1));
                    assert forall|k: Seq<char>| k != account_id@ && pre.has_key(k) implies #[trigger] post.val(k) == pre.val(k) by {
                        assert(post.has_key(k));
                    }
                    assert forall|m: Seq<char>| #[trigger] set1.has(m) == (m == token_id@) by {
                        if set1.has(m) {
                            let j = choose|j: int| 0 <= j < set1@.len() && set1@[j] == m;
                            assert(j == 0);
                        }
                        if m == token_id@ {
                            assert(set1@[0] == m);
                        }
                    }
                }
            },
        }
    }

    /// Removes `token_id` from `account_id`'s set, dropping the set entirely
    /// once it becomes empty (storage for an empty set must return to zero).
    /// Fails when the account has no set at all.
    pub fn internal_remove_token_from_owner(
        &mut self,
        account_id: &AccountId,
        token_id: &TokenId,
    ) -> (r: Result<(), NftError>)
        requires
            old(self).owner_index_wf(),
        ensures
            final(self).owner_index_wf(),
            final(self).owner_id == old(self).owner_id,
            final(self).tokens_by_id == old(self).tokens_by_id,
            final(self).token_metadata_by_id == old(self).token_metadata_by_id,
            final(self).metadata == old(self).metadata,
            r is Err <==> !old(self).tokens_per_owner.has_key(account_id@),
            r is Err ==> r == Err::<(), NftError>(NftError::InvariantViolation) && *final(self)
                == *old(self),
            r is Ok ==> ({
                let s = old(self).tokens_per_owner.val(account_id@);
                let s2 = if s.has(token_id@) {
                    s@.remove(s.idx_of(token_id@))
                } else {
                    s@
                };
                &&& (if s2.len() == 0 {
                    !final(self).tokens_per_owner.has_key(account_id@)
                } else {
                    final(self).tokens_per_owner.has_key(account_id@) && final(self).tokens_per_owner.val(account_id@)@ == s2 && !final(self).tokens_per_owner.val(
                        account_id@,
                    ).has(token_id@) && (forall|m: Seq<char>|
                        m != token_id@ ==> #[trigger] final(self).tokens_per_owner.val(
                            account_id@,
                        ).has(m) == s.has(m))
                })
                &&& total_owned(final(self).tokens_per_owner@) == total_owned(
                    old(self).tokens_per_owner@,
                ) - (if s.has(token_id@) {
                    1int
                } else {
                    0int
                })
            }),
            forall|k: Seq<char>|
                k != account_id@ ==> #[trigger] final(self).tokens_per_owner.has_key(k) == old(self).tokens_per_owner.has_key(k),
            forall|k: Seq<char>|
                k != account_id@ && old(self).tokens_per_owner.has_key(k) ==> #[trigger] final(self).tokens_per_owner.val(k) == old(self).tokens_per_owner.val(k),
    {
        let ghost pre = self.tokens_per_owner;
        let key = account_id.to_key();
        let existing = self.tokens_per_owner.remove_key(&key);
        match existing {
            Some(mut set) => {
                let ghost mid = self.tokens_per_owner;
                let ghost set0 = set;
                proof {
                    assert(set == pre.val(account_id@));
                    lemma_total_owned_remove(pre@, pre.idx_of(account_id@));
                    StrMap::<StrSet>::lemma_remove_entry(pre, mid, account_id@);
                    pre.lemma_key_at(pre.idx_of(account_id@));
                    assert(set.wf());
                }
                let removed = set.remove(token_id);
                proof {
                    if removed {
                        StrSet::lemma_set_remove(set0, set, token_id@);
                    }
                }
                let ghost set1 = set;
                if set.is_empty() {
                    proof {
                        let post = self.tokens_per_owner;
                        assert(post == mid);
                    }
                } else {
                    self.tokens_per_owner.insert(key, set);
                    proof {
                        let post = self.tokens_per_owner;
                        assert(post@ == mid@.push((account_id@, set1)));
                        StrMap::<StrSet>::lemma_push_entry(mid, post, account_id@, set1);
                        lemma_total_owned_push(mid@, (account_id@, set1));
                        assert forall|k: Seq<char>| k != account_id@ && pre.has_key(k) implies #[trigger] post.val(k) == pre.val(k) by {
                            assert(mid.has_key(k));
                            assert(mid.val(k) == pre.val(k));
                            assert(post.has_key(k));
                        }
                        if !removed {
                            assert(set1 == set0);
                        }
                        assert forall|m: Seq<char>| m != token_id@ implies #[trigger] set1.has(m)
                            == set0.has(m) by {}
                    }
                }
                Ok(())
            },
            None => Err(NftError::InvariantViolation),
        }
    }

    /// The synchronous checks of a transfer, in order: the token must exist,
    /// the caller must be authorized, and the receiver must differ from the
    /// current owner.
    pub open spec fn spec_transfer_check(
        &self,
        sender: Seq<char>,
        receiver: Seq<char>,
        token_id: Seq<char>,
        approval_id: Option<u64>,
    ) -> Result<(), NftError> {
        if !self.tokens_by_id.has_key(token_id) {
            Err(NftError::NotFound)
        } else {
            let tok = self.tokens_by_id.val(token_id);
            match spec_authorize(tok, sender, approval_id) {
                Err(e) => Err(e),
                Ok(u) => if receiver == tok.owner_id@ {
                    Err(NftError::SameOwnerTransfer)
                } else {
                    Ok(())
                },
            }
        }
    }

    /// Re-points `token_id` at `receiver_id` as one atomic unit: removes it
    /// from its current owner's index entry, adds it to the receiver's, and
    /// writes a fresh record with an empty approval set (the approval
    /// counter persists). Returns the pre-move record, whose cleared
    /// approvals the caller settles storage refunds against.
    pub fn internal_move_token(&mut self, receiver_id: &AccountId, token_id: &TokenId) -> (r: Token)
        requires
            old(self).wf(),
            receiver_id.wf(),
            old(self).tokens_by_id.has_key(token_id@),
            old(self).tokens_by_id.val(token_id@).owner_id@ != receiver_id@,
        ensures
            final(self).wf(),
            final(self).owner_id == old(self).owner_id,
            final(self).metadata == old(self).metadata,
            final(self).token_metadata_by_id == old(self).token_metadata_by_id,
            ({
                    &&& r.owner_id == old(self).tokens_by_id.val(token_id@).owner_id
                    &&& r.approved_account_ids@ == old(self).tokens_by_id.val(
                        token_id@,
                    ).approved_account_ids@
                    &&& r.next_approval_id == old(self).tokens_by_id.val(
                        token_id@,
                    ).next_approval_id
                    &&& r.wf()
                    &&& final(self).tokens_by_id.has_key(token_id@)
                    &&& ({
                        let t = final(self).tokens_by_id.val(token_id@);
                        t.owner_id == *receiver_id && t.approved_account_ids@.len() == 0
                            && t.next_approval_id == r.next_approval_id
                    })
                    &&& forall|k: Seq<char>|
                        #[trigger] final(self).tokens_by_id.has_key(k) == old(
                            self).tokens_by_id.has_key(k)
                    &&& forall|k: Seq<char>|
                        k != token_id@ && old(self).tokens_by_id.has_key(k) ==> #[trigger] final(
                            self).tokens_by_id.val(k) == old(self).tokens_by_id.val(k)
                    &&& final(self).tokens_by_id@.len() == old(self).tokens_by_id@.len()
                    &&& final(self).tokens_per_owner.has_key(receiver_id@)
                    &&& final(self).tokens_per_owner.val(receiver_id@)@.len() == (if old(
                        self).tokens_per_owner.has_key(receiver_id@) {
                        old(self).tokens_per_owner.val(receiver_id@)@.len() + 1int
                    } else {
                        1int
                    })
                    &&& ({
                        let o = r.owner_id@;
                        let s = old(self).tokens_per_owner.val(o);
                        if s@.len() == 1 {
                            !final(self).tokens_per_owner.has_key(o)
                        } else {
                            final(self).tokens_per_owner.has_key(o) && final(
                                self).tokens_per_owner.val(o)@.len() == s@.len() - 1
                        }
                    })
                    &&& forall|k: Seq<char>|
                        k != receiver_id@ && k != r.owner_id@ ==> #[trigger] final(
                            self).tokens_per_owner.has_key(k) == old(
                            self).tokens_per_owner.has_key(k)
                    &&& forall|k: Seq<char>|
                        k != receiver_id@ && k != r.owner_id@ && old(
                            self).tokens_per_owner.has_key(k) ==> #[trigger] final(
                            self).tokens_per_owner.val(k) == old(self).tokens_per_owner.val(k)
            }),
    {
        let ghost pre = *self;
        let ghost tid = token_id@;
        let prev = match self.tokens_by_id.get(token_id) {
            None => {
                return vstd::pervasive::unreached();
            },
            Some(t) => t.duplicate(),
        };
        let ghost stored = pre.tokens_by_id.val(tid);
        proof {
            assert(prev.owner_id == stored.owner_id);
            assert(prev.approved_account_ids@ == stored.approved_account_ids@);
            let i = pre.tokens_by_id.idx_of(tid);
            assert(pre.tokens_by_id@[i].1.wf());
            assert(prev.wf());
        }
        let ghost o = stored.owner_id@;
        let ghost rcv = receiver_id@;
        let old_owner = prev.owner_id.duplicate();
        proof {
            // The owner index lists the token under its owner.
            let i = pre.tokens_by_id.idx_of(tid);
            assert(pre.tokens_by_id@[i].0 == tid && pre.tokens_by_id@[i].1 == stored);
            assert(pre.tokens_per_owner.has_key(o) && pre.tokens_per_owner.val(o).has(tid));
        }
        let remove_result = self.internal_remove_token_from_owner(&old_owner, token_id);
        match remove_result {
            Err(e) => {
                return vstd::pervasive::unreached();
            },
            Ok(u) => {},
        }
        let ghost s1 = *self;
        proof {
            // The receiver's set, if any, does not hold this token: the token
            // is owned by a different account.
            if pre.tokens_per_owner.has_key(rcv) {
                if pre.tokens_per_owner.val(rcv).has(tid) {
                    let j = pre.tokens_per_owner.idx_of(rcv);
                    assert(pre.tokens_per_owner@[j].0 == rcv && pre.tokens_per_owner@[j].1
                        == pre.tokens_per_owner.val(rcv));
                    assert(pre.tokens_by_id.val(tid).owner_id@ == rcv);
                }
                assert(!pre.tokens_per_owner.val(rcv).has(tid));
                assert(s1.tokens_per_owner.val(rcv) == pre.tokens_per_owner.val(rcv));
            }
            assert(s1.tokens_per_owner.has_key(rcv) ==> !s1.tokens_per_owner.val(rcv).has(tid));
        }
        self.internal_add_token_to_owner(receiver_id, token_id);
        let ghost s2 = *self;
        let new_token = Token {
            owner_id: receiver_id.duplicate(),
            approved_account_ids: StrMap::new(),
            next_approval_id: prev.next_approval_id,
        };
        let ghost nt = new_token;
        let _ = self.tokens_by_id.insert(token_id.clone(), new_token);
        proof {
            let post = *self;
            let tmap0 = pre.tokens_by_id;
            let tmap1 = post.tokens_by_id;
            let i = tmap0.idx_of(tid);
            assert(tmap1@ == tmap0@.update(i, (tid, nt)));
            StrMap::<Token>::lemma_update_entry(tmap0, tmap1, tid, nt);
            // Token records stay well-formed.
            assert forall|a: int| 0 <= a < tmap1@.len() implies (#[trigger] tmap1@[a]).1.wf() by {
                if a != i {
                    assert(tmap1@[a] == tmap0@[a]);
                } else {
                    assert(tmap1@[a].1 == nt);
                }
            }
            // Every live token is still indexed under its owner.
            assert forall|a: int| 0 <= a < tmap1@.len() implies {
                let id = (#[trigger] tmap1@[a]).0;
                let tok = tmap1@[a].1;
                post.tokens_per_owner.has_key(tok.owner_id@) && post.tokens_per_owner.val(
                    tok.owner_id@,
                ).has(id)
            } by {
                let id = tmap1@[a].0;
                let tok = tmap1@[a].1;
                if a == i {
                    assert(id == tid && tok == nt);
                    assert(post.tokens_per_owner.val(rcv).has(tid));
                } else {
                    assert(tmap1@[a] == tmap0@[a]);
                    tmap0.lemma_key_at(a);
                    assert(id != tid);
                    assert(pre.tokens_per_owner.has_key(tok.owner_id@) && pre.tokens_per_owner.val(
                        tok.owner_id@,
                    ).has(id));
                    let ow = tok.owner_id@;
                    if ow == o {
                        // The old owner's set kept every other member.
                        let s = pre.tokens_per_owner.val(o);
                        let s2v = s@.remove(s.idx_of(tid));
                        assert(s2v.len() > 0) by {
                            assert(s.has(id));
                            let jj = s.idx_of(id);
                            assert(s@[jj] == id);
                        }
                        assert(post.tokens_per_owner.has_key(o));
                        assert(post.tokens_per_owner.val(o).has(id));
                    } else if ow == rcv {
                        assert(s1.tokens_per_owner.has_key(rcv));
                        assert(post.tokens_per_owner.val(rcv).has(id));
                    } else {
                        assert(s1.tokens_per_owner.has_key(ow) == pre.tokens_per_owner.has_key(ow));
                        assert(s1.tokens_per_owner.val(ow) == pre.tokens_per_owner.val(ow));
                        assert(post.tokens_per_owner.has_key(ow));
                        assert(post.tokens_per_owner.val(ow) == s1.tokens_per_owner.val(ow));
                    }
                }
            }
            // Every indexed identifier still names a token owned by that
            // account, and no set is empty.
            assert forall|a: int| 0 <= a < post.tokens_per_owner@.len() implies {
                let ow = (#[trigger] post.tokens_per_owner@[a]).0;
                let set = post.tokens_per_owner@[a].1;
                set@.len() > 0 && forall|j: int|
                    0 <= j < set@.len() ==> post.tokens_by_id.has_key(#[trigger] set@[j])
                        && post.tokens_by_id.val(set@[j]).owner_id@ == ow
            } by {
                let ow = post.tokens_per_owner@[a].0;
                let set = post.tokens_per_owner@[a].1;
                post.tokens_per_owner.lemma_key_at(a);
                assert(set == post.tokens_per_owner.val(ow));
                if ow == rcv {
                    assert(set@.len() > 0) by {
                        assert(set.has(tid));
                        let jj = set.idx_of(tid);
                        assert(set@[jj] == tid);
                    }
                    assert forall|j: int| 0 <= j < set@.len() implies post.tokens_by_id.has_key(
                        #[trigger] set@[j],
                    ) && post.tokens_by_id.val(set@[j]).owner_id@ == ow by {
                        let m = set@[j];
                        set.lemma_member_at(j);
                        assert(set.has(m));
                        if m == tid {
                            assert(post.tokens_by_id.val(tid) == nt);
                        } else {
                            assert(pre.tokens_per_owner.has_key(rcv) && pre.tokens_per_owner.val(
                                rcv,
                            ).has(m));
                            let jp = pre.tokens_per_owner.idx_of(rcv);
                            assert(pre.tokens_per_owner@[jp].0 == rcv
                                && pre.tokens_per_owner@[jp].1 == pre.tokens_per_owner.val(rcv));
                            assert(pre.tokens_by_id.has_key(m) && pre.tokens_by_id.val(
                                m,
                            ).owner_id@ == rcv);
                            assert(m != tid);
                            assert(post.tokens_by_id.val(m) == pre.tokens_by_id.val(m));
                        }
                    }
                } else {
                    // This owner entry predates the transfer.
                    let s = pre.tokens_per_owner.val(o);
                    if ow == o {
                        assert(pre.tokens_per_owner.has_key(o));
                        assert(set@ == s@.remove(s.idx_of(tid)));
                        assert(set@.len() > 0);
                        assert forall|j: int| 0 <= j < set@.len() implies post.tokens_by_id.has_key(
                            #[trigger] set@[j],
                        ) && post.tokens_by_id.val(set@[j]).owner_id@ == ow by {
                            let m = set@[j];
                            set.lemma_member_at(j);
                            assert(set.has(m));
                            assert(m != tid);
                            assert(s.has(m));
                            let jp = pre.tokens_per_owner.idx_of(o);
                            assert(pre.tokens_per_owner@[jp].0 == o && pre.tokens_per_owner@[jp].1
                                == s);
                            assert(pre.tokens_by_id.has_key(m) && pre.tokens_by_id.val(
                                m,
                            ).owner_id@ == o);
                            assert(post.tokens_by_id.val(m) == pre.tokens_by_id.val(m));
                        }
                    } else {
                        assert(pre.tokens_per_owner.has_key(ow));
                        assert(set == pre.tokens_per_owner.val(ow));
                        let jp = pre.tokens_per_owner.idx_of(ow);
                        assert(pre.tokens_per_owner@[jp].0 == ow && pre.tokens_per_owner@[jp].1
                            == set);
                        assert(set@.len() > 0);
                        assert forall|j: int| 0 <= j < set@.len() implies post.tokens_by_id.has_key(
                            #[trigger] set@[j],
                        ) && post.tokens_by_id.val(set@[j]).owner_id@ == ow by {
                            let m = set@[j];
                            assert(pre.tokens_by_id.has_key(m) && pre.tokens_by_id.val(
                                m,
                            ).owner_id@ == ow);
                            assert(m != tid) by {
                                if m == tid {
                                    assert(pre.tokens_by_id.val(tid).owner_id@ == o);
                                }
                            }
                            assert(post.tokens_by_id.val(m) == pre.tokens_by_id.val(m));
                        }
                    }
                }
            }
            // Metadata still covers exactly the live tokens.
            assert(post.metadata_complete()) by {
                assert forall|k: Seq<char>| #[trigger] post.tokens_by_id.has_key(k)
                    <==> #[trigger] post.token_metadata_by_id.has_key(k) by {
                    assert(post.tokens_by_id.has_key(k) == pre.tokens_by_id.has_key(k));
                }
            }
            // The owner-index sizes still sum to the number of live tokens.
            assert(total_owned(post.tokens_per_owner@) == pre.tokens_by_id@.len());
        }
        prev
    }

    /// Transfers `token_id` from its current owner to `receiver_id` as one
    /// atomic unit: authorizes the sender through the single chokepoint,
    /// refuses a transfer to the current owner, re-indexes the token, and
    /// writes a fresh record with an empty approval set (the approval
    /// counter persists). Returns the pre-transfer record, whose cleared
    /// approvals the caller settles storage refunds against. The memo is
    /// descriptive only.
    pub fn internal_transfer(
        &mut self,
        sender_id: &AccountId,
        receiver_id: &AccountId,
        token_id: &TokenId,
        approval_id: Option<u64>,
        _memo: Option<String>,
    ) -> (r: Result<Token, NftError>)
        requires
            old(self).wf(),
            receiver_id.wf(),
        ensures
            final(self).wf(),
            final(self).owner_id == old(self).owner_id,
            final(self).metadata == old(self).metadata,
            final(self).token_metadata_by_id == old(self).token_metadata_by_id,
            (match r {
                Err(e) => Err::<(), NftError>(e) == old(self).spec_transfer_check(
                    sender_id@,
                    receiver_id@,
                    token_id@,
                    approval_id,
                ) && *final(self) == *old(self),
                Ok(prev) => {
                    &&& old(self).spec_transfer_check(
                        sender_id@,
                        receiver_id@,
                        token_id@,
                        approval_id,
                    ) is Ok
                    &&& prev.owner_id == old(self).tokens_by_id.val(token_id@).owner_id
                    &&& prev.approved_account_ids@ == old(self).tokens_by_id.val(
                        token_id@,
                    ).approved_account_ids@
                    &&& prev.next_approval_id == old(self).tokens_by_id.val(
                        token_id@,
                    ).next_approval_id
                    &&& prev.wf()
                    &&& final(self).tokens_by_id.has_key(token_id@)
                    &&& ({
                        let t = final(self).tokens_by_id.val(token_id@);
                        t.owner_id == *receiver_id && t.approved_account_ids@.len() == 0
                            && t.next_approval_id == prev.next_approval_id
                    })
                    &&& forall|k: Seq<char>|
                        #[trigger] final(self).tokens_by_id.has_key(k) == old(
                            self).tokens_by_id.has_key(k)
                    &&& forall|k: Seq<char>|
                        k != token_id@ && old(self).tokens_by_id.has_key(k) ==> #[trigger] final(
                            self).tokens_by_id.val(k) == old(self).tokens_by_id.val(k)
                    &&& final(self).tokens_by_id@.len() == old(self).tokens_by_id@.len()
                    &&& final(self).tokens_per_owner.has_key(receiver_id@)
                    &&& final(self).tokens_per_owner.val(receiver_id@)@.len() == (if old(
                        self).tokens_per_owner.has_key(receiver_id@) {
                        old(self).tokens_per_owner.val(receiver_id@)@.len() + 1int
                    } else {
                        1int
                    })
                    &&& ({
                        let o = prev.owner_id@;
                        let s = old(self).tokens_per_owner.val(o);
                        if s@.len() == 1 {
                            !final(self).tokens_per_owner.has_key(o)
                        } else {
                            final(self).tokens_per_owner.has_key(o) && final(
                                self).tokens_per_owner.val(o)@.len() == s@.len() - 1
                        }
                    })
                    &&& forall|k: Seq<char>|
                        k != receiver_id@ && k != prev.owner_id@ ==> #[trigger] final(
                            self).tokens_per_owner.has_key(k) == old(
                            self).tokens_per_owner.has_key(k)
                    &&& forall|k: Seq<char>|
                        k != receiver_id@ && k != prev.owner_id@ && old(
                            self).tokens_per_owner.has_key(k) ==> #[trigger] final(
                            self).tokens_per_owner.val(k) == old(self).tokens_per_owner.val(k)
                },
            }),
    {
        let ghost pre = *self;
        let ghost tid = token_id@;
        let prev = match self.tokens_by_id.get(token_id) {
            None => {
                return Err(NftError::NotFound);
            },
            Some(t) => t.duplicate(),
        };
        let ghost stored = pre.tokens_by_id.val(tid);
        proof {
            assert(prev.owner_id == stored.owner_id);
            assert(prev.approved_account_ids@ == stored.approved_account_ids@);
            let i = pre.tokens_by_id.idx_of(tid);
            assert(pre.tokens_by_id@[i].1.wf());
        }
        match authorize_token(&prev, sender_id, approval_id) {
            Err(e) => {
                proof {
                    assert(spec_authorize(prev, sender_id@, approval_id) == spec_authorize(
                        stored,
                        sender_id@,
                        approval_id,
                    ));
                }
                return Err(e);
            },
            Ok(u) => {},
        }
        proof {
            assert(spec_authorize(stored, sender_id@, approval_id) is Ok);
        }
        if prev.owner_id.same_as(receiver_id) {
            return Err(NftError::SameOwnerTransfer);
        }
        let moved = self.internal_move_token(receiver_id, token_id);
        Ok(moved)
    }
}

} // verus!
