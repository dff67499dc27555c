//! A non-fungible-token ownership ledger with storage-fee accounting and a
//! two-phase transfer protocol for notifying external receivers.
//!
//! The ledger itself is pure: every entry point takes the call's environment
//! (caller, attached deposit) as an explicit `CallContext` value and returns
//! the refunds it owes as plain `Refund` values, so that a thin host adapter
//! can perform the actual payouts and asynchronous calls.

pub mod account;
pub mod approval;
pub mod context;
pub mod enumeration;
pub mod error;
pub mod internal;
pub mod metadata;
pub mod mint;
pub mod nft_core;
pub mod store;

use vstd::prelude::*;
use crate::account::AccountId;
use crate::metadata::{NFTContractMetadata, Token, TokenMetadata};
use crate::store::{StrMap, StrSet};

verus! {

/// Tags naming the ledger's persistent collections; the key deriver turns a
/// tag (plus, for per-owner and per-type inner collections, a namespacing
/// fingerprint) into a collision-free byte prefix.
pub enum StorageKey {
    /// The owner index itself.
    TokensPerOwner,
    /// One owner's token set, namespaced by the owner's fingerprint.
    TokenPerOwnerInner {
        /// The key deriver's fingerprint of the owner.
        account_id_hash: Vec<u8>,
    },
    /// The token-record collection.
    TokensById,
    /// The token-metadata collection.
    TokenMetadataById,
    /// The ledger's own descriptive record.
    NFTContractMetadata,
    /// The per-type index.
    TokensPerType,
    /// One type's token set, namespaced by the type's fingerprint.
    TokensPerTypeInner {
        /// The key deriver's fingerprint of the token type.
        token_type_hash: Vec<u8>,
    },
    /// The set of locked token types.
    TokenTypesLocked,
}

/// The tag byte that leads each collection's prefix.
pub open spec fn spec_storage_key_tag(key: &StorageKey) -> u8 {
    match key {
        StorageKey::TokensPerOwner => 0,
        StorageKey::TokenPerOwnerInner { .. } => 1,
        StorageKey::TokensById => 2,
        StorageKey::TokenMetadataById => 3,
        StorageKey::NFTContractMetadata => 4,
        StorageKey::TokensPerType => 5,
        StorageKey::TokensPerTypeInner { .. } => 6,
        StorageKey::TokenTypesLocked => 7,
    }
}

/// The byte prefix a collection's keys live under: the tag byte, followed by
/// the namespacing fingerprint where the tag carries one.
pub open spec fn spec_storage_key_prefix(key: &StorageKey) -> Seq<u8> {
    match key {
        StorageKey::TokenPerOwnerInner { account_id_hash } => seq![1u8] + account_id_hash@,
        StorageKey::TokensPerTypeInner { token_type_hash } => seq![6u8] + token_type_hash@,
        _ => seq![spec_storage_key_tag(key)],
    }
}

/// Two storage keys name the same collection (same tag, same fingerprint
/// bytes).
pub open spec fn storage_keys_match(k1: &StorageKey, k2: &StorageKey) -> bool {
    match (k1, k2) {
        (
            StorageKey::TokenPerOwnerInner { account_id_hash: h1 },
            StorageKey::TokenPerOwnerInner { account_id_hash: h2 },
        ) => h1@ == h2@,
        (
            StorageKey::TokensPerTypeInner { token_type_hash: h1 },
            StorageKey::TokensPerTypeInner { token_type_hash: h2 },
        ) => h1@ == h2@,
        _ => spec_storage_key_tag(k1) == spec_storage_key_tag(k2),
    }
}

/// Law: the key deriver is collision-free — equal prefixes only arise from
/// the same collection tag with the same fingerprint.
pub proof fn lemma_storage_key_prefix_injective(k1: &StorageKey, k2: &StorageKey)
    requires
        spec_storage_key_prefix(k1) == spec_storage_key_prefix(k2),
    ensures
        storage_keys_match(k1, k2),
{
    let p1 = spec_storage_key_prefix(k1);
    let p2 = spec_storage_key_prefix(k2);
    assert(p1[0] == p2[0]);
    match (k1, k2) {
        (
            StorageKey::TokenPerOwnerInner { account_id_hash: h1 },
            StorageKey::TokenPerOwnerInner { account_id_hash: h2 },
        ) => {
            assert(h1@ =~= h2@) by {
                assert(p1.len() == p2.len());
                assert forall|i: int| 0 <= i < h1@.len() implies h1@[i] == h2@[i] by {
                    assert(p1[i + 1] == p2[i + 1]);
                }
            }
        },
        (
            StorageKey::TokensPerTypeInner { token_type_hash: h1 },
            StorageKey::TokensPerTypeInner { token_type_hash: h2 },
        ) => {
            assert(h1@ =~= h2@) by {
                assert(p1.len() == p2.len());
                assert forall|i: int| 0 <= i < h1@.len() implies h1@[i] == h2@[i] by {
                    assert(p1[i + 1] == p2[i + 1]);
                }
            }
        },
        _ => {},
    }
}

/// Appends the bytes of `src` to `dst`.
fn push_bytes(dst: &mut Vec<u8>, src: &Vec<u8>)
    ensures
        final(dst)@ == old(dst)@ + src@,
{
    let ghost pre = dst@;
    let n = src.len();
    let mut i: usize = 0;
    while i < n
        invariant
            0 <= i <= n,
            n == src@.len(),
            dst@ == pre + src@.take(i as int),
        decreases n - i,
    {
        dst.push(src[i]);
        proof {
            assert(pre + src@.take(i + 1 as int) =~= (pre + src@.take(i as int)).push(src@[i as int]));
        }
        i = i + 1;
    }
    proof {
        assert(src@.take(n as int) =~= src@);
    }
}

/// Builds the collision-free byte prefix of a collection key.
pub fn storage_key_prefix(key: &StorageKey) -> (r: Vec<u8>)
    ensures
        r@ == spec_storage_key_prefix(key),
{
    let mut v: Vec<u8> = Vec::new();
    match key {
        StorageKey::TokensPerOwner => {
            v.push(0);
        },
        StorageKey::TokenPerOwnerInner { account_id_hash } => {
            v.push(1);
            push_bytes(&mut v, account_id_hash);
            proof {
                assert(v@ =~= seq![1u8] + account_id_hash@);
            }
        },
        StorageKey::TokensById => {
            v.push(2);
        },
        StorageKey::TokenMetadataById => {
            v.push(3);
        },
        StorageKey::NFTContractMetadata => {
            v.push(4);
        },
        StorageKey::TokensPerType => {
            v.push(5);
        },
        StorageKey::TokensPerTypeInner { token_type_hash } => {
            v.push(6);
            push_bytes(&mut v, token_type_hash);
            proof {
                assert(v@ =~= seq![6u8] + token_type_hash@);
            }
        },
        StorageKey::TokenTypesLocked => {
            v.push(7);
        },
    }
    proof {
        assert(Seq::<u8>::empty().push(spec_storage_key_tag(key)) =~= seq![
            spec_storage_key_tag(key),
        ]);
    }
    v
}

/// Sum of the owner-index set sizes, in index order.
pub open spec fn total_owned(owners: Seq<(Seq<char>, StrSet)>) -> int
    decreases owners.len(),
{
    if owners.len() == 0 {
        0
    } else {
        total_owned(owners.drop_last()) + owners.last().1@.len()
    }
}

/// Appending an owner entry adds its set size to the total.
pub proof fn lemma_total_owned_push(owners: Seq<(Seq<char>, StrSet)>, p: (Seq<char>, StrSet))
    ensures
        total_owned(owners.push(p)) == total_owned(owners) + p.1@.len(),
{
    assert(owners.push(p).drop_last() =~= owners);
    assert(owners.push(p).last() == p);
}

/// Removing an owner entry subtracts its set size from the total.
pub proof fn lemma_total_owned_remove(owners: Seq<(Seq<char>, StrSet)>, i: int)
    requires
        0 <= i < owners.len(),
    ensures
        total_owned(owners.remove(i)) == total_owned(owners) - owners[i].1@.len(),
    decreases owners.len(),
{
    if i == owners.len() - 1 {
        assert(owners.remove(i) =~= owners.drop_last());
    } else {
        assert(owners.remove(i).drop_last() =~= owners.drop_last().remove(i));
        assert(owners.remove(i).last() == owners.last());
        lemma_total_owned_remove(owners.drop_last(), i);
        assert(owners.drop_last()[i] == owners[i]);
    }
}

/// The ownership ledger: one explicit context value threaded through every
/// operation; no ambient state.
pub struct Contract {
    /// The account that instantiated the ledger.
    pub owner_id: AccountId,
    /// The owner index: each account's set of owned token identifiers.
    pub tokens_per_owner: StrMap<StrSet>,
    /// The authoritative token records.
    pub tokens_by_id: StrMap<Token>,
    /// The immutable-after-mint descriptive payloads.
    pub token_metadata_by_id: StrMap<TokenMetadata>,
    /// The ledger's own descriptive record.
    pub metadata: NFTContractMetadata,
}

impl Contract {
    /// The collections are well-formed: distinct keys everywhere, well-formed
    /// token records, and well-formed owner sets.
    pub open spec fn store_wf(&self) -> bool {
        &&& self.owner_id.wf()
        &&& self.tokens_by_id.wf()
        &&& self.token_metadata_by_id.wf()
        &&& self.tokens_per_owner.wf()
        &&& forall|i: int|
            0 <= i < self.tokens_by_id@.len() ==> (#[trigger] self.tokens_by_id@[i]).1.wf()
        &&& forall|i: int|
            0 <= i < self.tokens_per_owner@.len() ==> (#[trigger] self.tokens_per_owner@[i]).1.wf()
    }

    /// Every live token is indexed under its current owner.
    pub open spec fn owner_index_complete(&self) -> bool {
        forall|i: int|
            0 <= i < self.tokens_by_id@.len() ==> {
                let id = (#[trigger] self.tokens_by_id@[i]).0;
                let tok = self.tokens_by_id@[i].1;
                self.tokens_per_owner.has_key(tok.owner_id@) && self.tokens_per_owner.val(
                    tok.owner_id@,
                ).has(id)
            }
    }

    /// Every indexed identifier names a live token owned by that very
    /// account, and no owner keeps an empty set.
    pub open spec fn owner_index_sound(&self) -> bool {
        forall|i: int|
            0 <= i < self.tokens_per_owner@.len() ==> {
                let o = (#[trigger] self.tokens_per_owner@[i]).0;
                let set = self.tokens_per_owner@[i].1;
                set@.len() > 0 && forall|j: int|
                    0 <= j < set@.len() ==> self.tokens_by_id.has_key(#[trigger] set@[j])
                        && self.tokens_by_id.val(set@[j]).owner_id@ == o
            }
    }

    /// Token records and metadata records cover the same identifiers.
    pub open spec fn metadata_complete(&self) -> bool {
        &&& self.tokens_by_id@.len() == self.token_metadata_by_id@.len()
        &&& forall|k: Seq<char>|
            #[trigger] self.tokens_by_id.has_key(k) <==> #[trigger] self.token_metadata_by_id.has_key(k)
    }

    /// The ledger invariant: well-formed collections, a two-way consistent
    /// owner index, metadata for exactly the live tokens, and owner-index
    /// sizes summing to the number of live tokens.
    pub open spec fn wf(&self) -> bool {
        &&& self.store_wf()
        &&& self.owner_index_complete()
        &&& self.owner_index_sound()
        &&& self.metadata_complete()
        &&& total_owned(self.tokens_per_owner@) == self.tokens_by_id@.len()
    }

    /// Law: at every quiescent point the owner-index set sizes sum to the
    /// number of live tokens.
    pub proof fn lemma_supply_consistent(&self)
        requires
            self.wf(),
        ensures
            total_owned(self.tokens_per_owner@) == self.tokens_by_id@.len(),
    {
    }

    /// An empty ledger with the given descriptive record, its collections
    /// namespaced by the key deriver.
    pub fn new(owner_id: AccountId, metadata: NFTContractMetadata) -> (r: Contract)
        requires
            owner_id.wf(),
        ensures
            r.wf(),
            r.owner_id == owner_id,
            r.metadata == metadata,
            r.tokens_by_id@.len() == 0,
            r.token_metadata_by_id@.len() == 0,
            r.tokens_per_owner@.len() == 0,
    {
        let this = Contract {
            tokens_per_owner: StrMap::with_prefix(
                storage_key_prefix(&StorageKey::TokensPerOwner),
            ),
            tokens_by_id: StrMap::with_prefix(storage_key_prefix(&StorageKey::TokensById)),
            token_metadata_by_id: StrMap::with_prefix(
                storage_key_prefix(&StorageKey::TokenMetadataById),
            ),
            owner_id,
            metadata,
        };
        this
    }

    /// An empty ledger carrying this collection's stock descriptive record.
    pub fn new_default_meta(owner_id: AccountId) -> (r: Contract)
        requires
            owner_id.wf(),
        ensures
            r.wf(),
            r.owner_id == owner_id,
            r.tokens_by_id@.len() == 0,
            r.token_metadata_by_id@.len() == 0,
            r.tokens_per_owner@.len() == 0,
            r.metadata.spec_version@ == "nft-1.0.0"@,
            r.metadata.name@ == "Mint Culture NFT Collect"@,
            r.metadata.symbol@ == "MintCulture"@,
            r.metadata.icon is None,
            r.metadata.base_uri is None,
            r.metadata.reference is None,
            r.metadata.reference_hash is None,
    {
        Self::new(
            owner_id,
            NFTContractMetadata {
                spec_version: String::from_str("nft-1.0.0"),
                name: String::from_str("Mint Culture NFT Collect"),
                symbol: String::from_str("MintCulture"),
                icon: None,
                base_uri: None,
                reference: None,
                reference_hash: None,
            },
        )
    }
}

} // verus!
