//! The minting path: creating a token record, storing its metadata, and
//! charging the caller for the storage consumed.

use vstd::prelude::*;
use crate::account::AccountId;
use crate::context::{CallContext, Refund, STORAGE_PRICE_PER_BYTE};
use crate::error::NftError;
use crate::internal::refund_deposit;
use crate::metadata::{Token, TokenId, TokenMetadata};
use crate::store::StrMap;
use crate::Contract;

verus! {

/// Storage bytes of an optional string field: a presence byte plus the
/// characters.
pub open spec fn spec_opt_string_bytes(o: Option<String>) -> int {
    match o {
        Some(s) => 1int + s@.len(),
        None => 1int,
    }
}

/// Storage bytes of an optional byte-payload field: a presence byte plus the
/// payload.
pub open spec fn spec_opt_vec_bytes(o: Option<Vec<u8>>) -> int {
    match o {
        Some(v) => 1int + v@.len(),
        None => 1int,
    }
}

/// Storage bytes a token-metadata record occupies: each string field counts
/// its characters plus a 4-byte length header; optional fields add a
/// presence byte.
pub open spec fn spec_token_metadata_bytes(md: &TokenMetadata) -> int {
    (4 + md.streamer_name@.len()) + (4 + md.title@.len()) + (4 + md.serial_number@.len()) + (4
        + md.media@.len()) + spec_opt_vec_bytes(md.media_hash) + spec_opt_string_bytes(
        md.description,
    ) + (4 + md.issued_at@.len())
}

/// Storage bytes one mint consumes: the identifier is stored three times (in
/// the token record, the metadata record and the owner index), the owner
/// once, plus the 8-byte approval counter and the metadata payload.
pub open spec fn spec_mint_bytes(token_id: Seq<char>, md: &TokenMetadata, owner: Seq<char>) -> int {
    3 * (4 + token_id.len()) + (4 + owner.len()) + 8 + spec_token_metadata_bytes(md)
}

/// The character count of an optional string field, plus its presence byte.
fn opt_string_bytes(o: &Option<String>) -> (r: u128)
    ensures
        r == spec_opt_string_bytes(*o),
        r <= u64::MAX as u128 + 1,
{
    match o {
        Some(s) => 1 + (s.as_str().unicode_len() as u128),
        None => 1,
    }
}

/// The byte count of an optional payload field, plus its presence byte.
fn opt_vec_bytes(o: &Option<Vec<u8>>) -> (r: u128)
    ensures
        r == spec_opt_vec_bytes(*o),
        r <= u64::MAX as u128 + 1,
{
    match o {
        Some(v) => 1 + (v.len() as u128),
        None => 1,
    }
}

/// Measures the storage bytes a mint of this token would consume.
pub fn mint_storage_bytes(token_id: &TokenId, md: &TokenMetadata, owner: &AccountId) -> (r: u128)
    ensures
        r == spec_mint_bytes(token_id@, md, owner@),
{
    let id_len = token_id.as_str().unicode_len() as u128;
    let md_bytes: u128 = (4 + (md.streamer_name.as_str().unicode_len() as u128)) + (4
        + (md.title.as_str().unicode_len() as u128)) + (4 + (md.serial_number.as_str().unicode_len()
        as u128)) + (4 + (md.media.as_str().unicode_len() as u128)) + opt_vec_bytes(&md.media_hash)
        + opt_string_bytes(&md.description) + (4 + (md.issued_at.as_str().unicode_len() as u128));
    3 * (4 + id_len) + (4 + (owner.char_len() as u128)) + 8 + md_bytes
}

impl Contract {
    /// Creates a new token owned by `receiver_id`, stores its metadata, adds
    /// it to the owner index, and settles the storage bill against the
    /// attached deposit. Fails, leaving the ledger untouched, when the
    /// identifier is already live (`AlreadyExists`) or the deposit does not
    /// cover the bytes consumed (`InsufficientDeposit`).
    pub fn nft_mint(
        &mut self,
        ctx: &CallContext,
        token_id: TokenId,
        metadata: TokenMetadata,
        receiver_id: AccountId,
    ) -> (r: Result<Option<Refund>, NftError>)
        requires
            old(self).wf(),
            ctx.wf(),
            receiver_id.wf(),
        ensures
            final(self).wf(),
            final(self).owner_id == old(self).owner_id,
            final(self).metadata == old(self).metadata,
            (match r {
                Err(e) => *final(self) == *old(self) && (if old(self).tokens_by_id.has_key(
                    token_id@,
                ) {
                    e == NftError::AlreadyExists
                } else {
                    e == NftError::InsufficientDeposit && spec_mint_bytes(
                        token_id@,
                        &metadata,
                        receiver_id@,
                    ) * (STORAGE_PRICE_PER_BYTE as int) > ctx.attached_deposit as int
                }),
                Ok(refund) => {
                    &&& !old(self).tokens_by_id.has_key(token_id@)
                    &&& spec_mint_bytes(token_id@, &metadata, receiver_id@) * (
                    STORAGE_PRICE_PER_BYTE as int) <= ctx.attached_deposit as int
                    &&& final(self).tokens_by_id@.len() == old(self).tokens_by_id@.len() + 1
                    &&& final(self).tokens_by_id.has_key(token_id@)
                    &&& ({
                        let t = final(self).tokens_by_id.val(token_id@);
                        t.owner_id == receiver_id && t.approved_account_ids@.len() == 0
                            && t.next_approval_id == 0
                    })
                    &&& forall|k: Seq<char>|
                        k != token_id@ ==> #[trigger] final(self).tokens_by_id.has_key(k) == old(self).tokens_by_id.has_key(k)
                    &&& forall|k: Seq<char>|
                        k != token_id@ && old(self).tokens_by_id.has_key(k) ==> #[trigger] final(self).tokens_by_id.val(k) == old(self).tokens_by_id.val(k)
                    &&& final(self).token_metadata_by_id@.len() == old(self).token_metadata_by_id@.len() + 1
                    &&& final(self).token_metadata_by_id.has_key(token_id@)
                    &&& final(self).token_metadata_by_id.val(token_id@) == metadata
                    &&& final(self).token_metadata_by_id@ == old(self).token_metadata_by_id@.push(
                        (token_id@, metadata),
                    )
                    &&& final(self).tokens_per_owner.has_key(receiver_id@)
                    &&& final(self).tokens_per_owner.val(receiver_id@).has(token_id@)
                    &&& final(self).tokens_per_owner.val(receiver_id@)@.len() == (if old(self).tokens_per_owner.has_key(receiver_id@) {
                        old(self).tokens_per_owner.val(receiver_id@)@.len() + 1int
                    } else {
                        1int
                    })
                    &&& forall|k: Seq<char>|
                        k != receiver_id@ ==> #[trigger] final(self).tokens_per_owner.has_key(k)
                            == old(self).tokens_per_owner.has_key(k)
                    &&& forall|k: Seq<char>|
                        k != receiver_id@ && old(self).tokens_per_owner.has_key(k)
                            ==> #[trigger] final(self).tokens_per_owner.val(k) == old(self).tokens_per_owner.val(k)
                    &&& ({
                        let excess = ctx.attached_deposit as int - spec_mint_bytes(
                            token_id@,
                            &metadata,
                            receiver_id@,
                        ) * (STORAGE_PRICE_PER_BYTE as int);
                        match refund {
                            Some(rf) => excess > 1 && rf.beneficiary == ctx.predecessor_account_id
                                && rf.amount == excess,
                            None => excess <= 1,
                        }
                    })
                },
            }),
    {
        let ghost pre = *self;
        let ghost tid = token_id@;
        let ghost rcv = receiver_id@;
        if self.tokens_by_id.contains_key(&token_id) {
            return Err(NftError::AlreadyExists);
        }
        let bytes = mint_storage_bytes(&token_id, &metadata, &receiver_id);
        let refund = match refund_deposit(bytes, ctx) {
            Err(e) => {
                return Err(e);
            },
            Ok(rf) => rf,
        };
        proof {
            // A fresh identifier is in no owner's set.
            if pre.tokens_per_owner.has_key(rcv) {
                if pre.tokens_per_owner.val(rcv).has(tid) {
                    let j = pre.tokens_per_owner.idx_of(rcv);
                    assert(pre.tokens_per_owner@[j].0 == rcv && pre.tokens_per_owner@[j].1
                        == pre.tokens_per_owner.val(rcv));
                    assert(pre.tokens_by_id.has_key(tid));
                }
                assert(!pre.tokens_per_owner.val(rcv).has(tid));
            }
        }
        let ghost md = metadata;
        let token = Token {
            owner_id: receiver_id.duplicate(),
            approved_account_ids: StrMap::new(),
            next_approval_id: 0,
        };
        let ghost nt = token;
        let _ = self.tokens_by_id.insert(token_id.clone(), token);
        let _ = self.token_metadata_by_id.insert(token_id.clone(), metadata);
        self.internal_add_token_to_owner(&receiver_id, &token_id);
        proof {
            let post = *self;
            let tmap0 = pre.tokens_by_id;
            let tmap1 = post.tokens_by_id;
            assert(tmap1@ == tmap0@.push((tid, nt)));
            StrMap::<Token>::lemma_push_entry(tmap0, tmap1, tid, nt);
            assert forall|k: Seq<char>| k != tid && tmap0.has_key(k) implies #[trigger] tmap1.val(
                k,
            ) == tmap0.val(k) by {
                assert(tmap1.has_key(k));
            }
            let mmap0 = pre.token_metadata_by_id;
            let mmap1 = post.token_metadata_by_id;
            assert(mmap1@ == mmap0@.push((tid, md)));
            StrMap::<TokenMetadata>::lemma_push_entry(mmap0, mmap1, tid, md);
            assert(mmap1@ =~= mmap0@.push((tid, md)));
            let n = tmap0@.len() as int;
            // Token records stay well-formed.
            assert forall|a: int| 0 <= a < tmap1@.len() implies (#[trigger] tmap1@[a]).1.wf() by {
                if a < n {
                    assert(tmap1@[a] == tmap0@[a]);
                } else {
                    assert(tmap1@[a].1 == nt);
                }
            }
            // Every live token is indexed under its owner.
            assert forall|a: int| 0 <= a < tmap1@.len() implies {
                let id = (#[trigger] tmap1@[a]).0;
                let tok = tmap1@[a].1;
                post.tokens_per_owner.has_key(tok.owner_id@) && post.tokens_per_owner.val(
                    tok.owner_id@,
                ).has(id)
            } by {
                let id = tmap1@[a].0;
                let tok = tmap1@[a].1;
                if a < n {
                    assert(tmap1@[a] == tmap0@[a]);
                    tmap0.lemma_key_at(a);
                    assert(id != tid);
                    assert(pre.tokens_per_owner.has_key(tok.owner_id@) && pre.tokens_per_owner.val(
                        tok.owner_id@,
                    ).has(id));
                    if tok.owner_id@ == rcv {
                        assert(post.tokens_per_owner.val(rcv).has(id));
                    } else {
                        assert(post.tokens_per_owner.val(tok.owner_id@) == pre.tokens_per_owner.val(
                            tok.owner_id@,
                        ));
                    }
                } else {
                    assert(id == tid && tok == nt);
                    assert(post.tokens_per_owner.val(rcv).has(tid));
                }
            }
            // Every indexed identifier names a live token owned by that very
            // account, and no set is empty.
            assert forall|a: int| 0 <= a < post.tokens_per_owner@.len() implies {
                let ow = (#[trigger] post.tokens_per_owner@[a]).0;
                let set = post.tokens_per_owner@[a].1;
                set@.len() > 0 && forall|j: int|
                    0 <= j < set@.len() ==> post.tokens_by_id.has_key(#[trigger] set@[j])
                        && post.tokens_by_id.val(set@[j]).owner_id@ == ow
            } by {
                let ow = post.tokens_per_owner@[a].0;
                let set = post.tokens_per_owner@[a].1;
                post.tokens_per_owner.lemma_key_at(a);
                assert(set == post.tokens_per_owner.val(ow));
                if ow == rcv {
                    assert(set@.len() > 0) by {
                        assert(set.has(tid));
                        let jj = set.idx_of(tid);
                        assert(set@[jj] == tid);
                    }
                    assert forall|j: int| 0 <= j < set@.len() implies post.tokens_by_id.has_key(
                        #[trigger] set@[j],
                    ) && post.tokens_by_id.val(set@[j]).owner_id@ == ow by {
                        let m = set@[j];
                        set.lemma_member_at(j);
                        assert(set.has(m));
                        if m == tid {
                            assert(post.tokens_by_id.val(tid) == nt);
                        } else {
                            assert(pre.tokens_per_owner.has_key(rcv) && pre.tokens_per_owner.val(
                                rcv,
                            ).has(m));
                            let jp = pre.tokens_per_owner.idx_of(rcv);
                            assert(pre.tokens_per_owner@[jp].0 == rcv
                                && pre.tokens_per_owner@[jp].1 == pre.tokens_per_owner.val(rcv));
                            assert(pre.tokens_by_id.has_key(m) && pre.tokens_by_id.val(
                                m,
                            ).owner_id@ == rcv);
                            assert(post.tokens_by_id.has_key(m));
                            assert(post.tokens_by_id.val(m) == pre.tokens_by_id.val(m));
                        }
                    }
                } else {
                    assert(pre.tokens_per_owner.has_key(ow));
                    assert(set == pre.tokens_per_owner.val(ow));
                    let jp = pre.tokens_per_owner.idx_of(ow);
                    assert(pre.tokens_per_owner@[jp].0 == ow && pre.tokens_per_owner@[jp].1 == set);
                    assert(set@.len() > 0);
                    assert forall|j: int| 0 <= j < set@.len() implies post.tokens_by_id.has_key(
                        #[trigger] set@[j],
                    ) && post.tokens_by_id.val(set@[j]).owner_id@ == ow by {
                        let m = set@[j];
                        assert(pre.tokens_by_id.has_key(m) && pre.tokens_by_id.val(m).owner_id@
                            == ow);
                        assert(m != tid);
                        assert(post.tokens_by_id.has_key(m));
                        assert(post.tokens_by_id.val(m) == pre.tokens_by_id.val(m));
                    }
                }
            }
            // Metadata covers exactly the live tokens.
            assert(post.metadata_complete()) by {
                assert forall|k: Seq<char>| #[trigger] post.tokens_by_id.has_key(k)
                    <==> #[trigger] post.token_metadata_by_id.has_key(k) by {
                    if k != tid {
                        assert(post.tokens_by_id.has_key(k) == pre.tokens_by_id.has_key(k));
                        assert(post.token_metadata_by_id.has_key(k)
                            == pre.token_metadata_by_id.has_key(k));
                    }
                }
            }
            // The owner-index sizes sum to the number of live tokens.
            assert(crate::total_owned(post.tokens_per_owner@) == post.tokens_by_id@.len());
        }
        Ok(refund)
    }
}

} // verus!
