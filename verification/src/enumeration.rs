//! Read-only enumeration of the ledger: supply counts and paginated joined
//! views, in mint order.

use vstd::prelude::*;
use crate::account::AccountId;
use crate::metadata::{token_metadata_matches, JsonToken};
use crate::nft_core::NonFungibleTokenCore;
use crate::Contract;

verus! {

/// `jt` presents the token whose identifier is `id`: the record's owner and
/// approvals, joined with the stored metadata.
pub open spec fn spec_presents(s: &Contract, jt: JsonToken, id: Seq<char>) -> bool {
    &&& jt.token_id@ == id
    &&& s.tokens_by_id.has_key(id)
    &&& jt.owner_id == s.tokens_by_id.val(id).owner_id
    &&& jt.approved_account_ids@ == s.tokens_by_id.val(id).approved_account_ids@
    &&& s.token_metadata_by_id.has_key(id)
    &&& token_metadata_matches(&jt.metadata, &s.token_metadata_by_id.val(id))
}

/// The number of entries a page holds: from `start` (clamped to `n`) at most
/// `lim`.
pub open spec fn spec_page_len(n: int, start: int, lim: int) -> int {
    if start >= n {
        0
    } else if n - start < lim {
        n - start
    } else {
        lim
    }
}

impl Contract {
    /// The total number of live tokens.
    pub fn nft_total_supply(&self) -> (r: u128)
        ensures
            r == self.token_metadata_by_id@.len(),
    {
        self.token_metadata_by_id.len() as u128
    }

    /// The number of tokens `account_id` owns.
    pub fn nft_supply_for_owner(&self, account_id: AccountId) -> (r: u128)
        requires
            self.wf(),
        ensures
            r == (if self.tokens_per_owner.has_key(account_id@) {
                self.tokens_per_owner.val(account_id@)@.len() as int
            } else {
                0int
            }),
    {
        let key = account_id.to_key();
        match self.tokens_per_owner.get(&key) {
            Some(set) => set.len() as u128,
            None => 0,
        }
    }

    /// The joined views of all tokens, in mint order, starting at
    /// `from_index` (0 when absent), at most `limit` (50 when absent).
    pub fn nft_tokens(&self, from_index: Option<u128>, limit: Option<u64>) -> (r: Vec<JsonToken>)
        requires
            self.wf(),
        ensures
            ({
                let start = (match from_index {
                    Some(v) => v as int,
                    None => 0int,
                });
                let lim = (match limit {
                    Some(l) => l as int,
                    None => 50int,
                });
                &&& r@.len() == spec_page_len(
                    self.token_metadata_by_id@.len() as int,
                    start,
                    lim,
                )
                &&& forall|i: int|
                    0 <= i < r@.len() ==> spec_presents(
                        self,
                        #[trigger] r@[i],
                        self.token_metadata_by_id@[start + i].0,
                    )
            }),
    {
        let start_u: u128 = match from_index {
            Some(v) => v,
            None => 0,
        };
        let lim: u64 = match limit {
            Some(l) => l,
            None => 50,
        };
        let n = self.token_metadata_by_id.len();
        let mut out: Vec<JsonToken> = Vec::new();
        if start_u >= n as u128 {
            return out;
        }
        let start = start_u as usize;
        let mut idx: usize = start;
        while idx < n && (out.len() as u64) < lim
            invariant
                self.wf(),
                n == self.token_metadata_by_id@.len(),
                start <= idx <= n,
                out@.len() == idx - start,
                out@.len() <= lim,
                forall|i: int|
                    0 <= i < out@.len() ==> spec_presents(
                        self,
                        #[trigger] out@[i],
                        self.token_metadata_by_id@[start + i].0,
                    ),
            decreases n - idx,
        {
            let key = self.token_metadata_by_id.at(idx).0.clone();
            proof {
                self.token_metadata_by_id.lemma_key_at(idx as int);
                assert(self.tokens_by_id.has_key(key@));
            }
            let jt = match self.nft_token(key) {
                Some(j) => j,
                None => {
                    return vstd::pervasive::unreached();
                },
            };
            out.push(jt);
            idx = idx + 1;
        }
        out
    }

    /// The joined views of the tokens `account_id` owns, in the order they
    /// were acquired, starting at `from_index` (0 when absent), at most
    /// `limit` (50 when absent). An account owning nothing yields an empty
    /// page.
    pub fn nft_tokens_for_owner(
        &self,
        account_id: AccountId,
        from_index: Option<u128>,
        limit: Option<u64>,
    ) -> (r: Vec<JsonToken>)
        requires
            self.wf(),
        ensures
            !self.tokens_per_owner.has_key(account_id@) ==> r@.len() == 0,
            self.tokens_per_owner.has_key(account_id@) ==> ({
                let owned = self.tokens_per_owner.val(account_id@);
                let start = (match from_index {
                    Some(v) => v as int,
                    None => 0int,
                });
                let lim = (match limit {
                    Some(l) => l as int,
                    None => 50int,
                });
                &&& r@.len() == spec_page_len(owned@.len() as int, start, lim)
                &&& forall|i: int|
                    0 <= i < r@.len() ==> spec_presents(self, #[trigger] r@[i], owned@[start + i])
            }),
    {
        let key = account_id.to_key();
        let mut out: Vec<JsonToken> = Vec::new();
        let owned = match self.tokens_per_owner.get(&key) {
            None => {
                return out;
            },
            Some(set) => set,
        };
        proof {
            let a = self.tokens_per_owner.idx_of(account_id@);
            assert(self.tokens_per_owner@[a].1 == *owned);
        }
        let start_u: u128 = match from_index {
            Some(v) => v,
            None => 0,
        };
        let lim: u64 = match limit {
            Some(l) => l,
            None => 50,
        };
        let n = owned.len();
        if start_u >= n as u128 {
            return out;
        }
        let start = start_u as usize;
        let mut idx: usize = start;
        while idx < n && (out.len() as u64) < lim
            invariant
                self.wf(),
                self.tokens_per_owner.has_key(account_id@),
                *owned == self.tokens_per_owner.val(account_id@),
                n == owned@.len(),
                start <= idx <= n,
                out@.len() == idx - start,
                out@.len() <= lim,
                forall|i: int|
                    0 <= i < out@.len() ==> spec_presents(
                        self,
                        #[trigger] out@[i],
                        owned@[start + i],
                    ),
            decreases n - idx,
        {
            let id = owned.at(idx).clone();
            proof {
                let a = self.tokens_per_owner.idx_of(account_id@);
                assert(self.tokens_per_owner@[a].0 == account_id@ && self.tokens_per_owner@[a].1
                    == *owned);
                assert(self.tokens_by_id.has_key(id@));
            }
            let jt = match self.nft_token(id) {
                Some(j) => j,
                None => {
                    return vstd::pervasive::unreached();
                },
            };
            out.push(jt);
            idx = idx + 1;
        }
        out
    }
}

} // verus!
