//! The data records of the ledger: token records, descriptive metadata, and
//! the joined presentation view.

use vstd::prelude::*;
use crate::account::{AccountId, is_valid_account_seq};
use crate::store::StrMap;
use crate::Contract;

verus! {

/// The identifier naming one non-fungible asset.
pub type TokenId = String;

/// Two optional byte payloads hold the same bytes.
pub open spec fn opt_bytes_match(a: Option<Vec<u8>>, b: Option<Vec<u8>>) -> bool {
    match (a, b) {
        (Some(x), Some(y)) => x@ == y@,
        (None, None) => true,
        _ => false,
    }
}

/// A royalty payout split, keyed by the receiving account's identifier.
pub struct Payout {
    /// Amount owed to each account, in the smallest currency unit.
    pub payout: StrMap<u128>,
}

/// The singleton descriptive record of the ledger itself.
pub struct NFTContractMetadata {
    /// The metadata-format version this record follows.
    pub spec_version: String,
    /// Human-readable collection name.
    pub name: String,
    /// Abbreviated symbol of the collection.
    pub symbol: String,
    /// Data URL of an icon.
    pub icon: Option<String>,
    /// Base URL that media and reference URLs are resolved against.
    pub base_uri: Option<String>,
    /// URL of an off-ledger JSON record with further details.
    pub reference: Option<String>,
    /// SHA-256 digest of the JSON behind `reference`.
    pub reference_hash: Option<Vec<u8>>,
}

/// The immutable-after-mint descriptive payload of one token.
pub struct TokenMetadata {
    /// Name of the streamer the asset belongs to.
    pub streamer_name: String,
    /// Title of the asset.
    pub title: String,
    /// Serial number of the asset.
    pub serial_number: String,
    /// URL of the associated media.
    pub media: String,
    /// SHA-256 digest of the content behind `media`.
    pub media_hash: Option<Vec<u8>>,
    /// Free-form description.
    pub description: Option<String>,
    /// Issuance date of the asset.
    pub issued_at: String,
}

/// Two token-metadata records carry the same payload.
pub open spec fn token_metadata_matches(a: &TokenMetadata, b: &TokenMetadata) -> bool {
    &&& a.streamer_name == b.streamer_name
    &&& a.title == b.title
    &&& a.serial_number == b.serial_number
    &&& a.media == b.media
    &&& opt_bytes_match(a.media_hash, b.media_hash)
    &&& a.description == b.description
    &&& a.issued_at == b.issued_at
}

/// An owned copy of an optional string.
pub fn clone_opt_string(o: &Option<String>) -> (r: Option<String>)
    ensures
        r == *o,
{
    match o {
        Some(s) => Some(s.clone()),
        None => None,
    }
}

/// An owned copy of an optional byte payload.
pub fn clone_opt_bytes(o: &Option<Vec<u8>>) -> (r: Option<Vec<u8>>)
    ensures
        opt_bytes_match(r, *o),
{
    match o {
        Some(v) => {
            let c = v.clone();
            proof {
                assert(c@ =~= v@);
            }
            Some(c)
        },
        None => None,
    }
}

impl NFTContractMetadata {
    /// A copy carrying the same payload.
    pub fn duplicate(&self) -> (r: NFTContractMetadata)
        ensures
            r.spec_version == self.spec_version,
            r.name == self.name,
            r.symbol == self.symbol,
            r.icon == self.icon,
            r.base_uri == self.base_uri,
            r.reference == self.reference,
            opt_bytes_match(r.reference_hash, self.reference_hash),
    {
        NFTContractMetadata {
            spec_version: self.spec_version.clone(),
            name: self.name.clone(),
            symbol: self.symbol.clone(),
            icon: clone_opt_string(&self.icon),
            base_uri: clone_opt_string(&self.base_uri),
            reference: clone_opt_string(&self.reference),
            reference_hash: clone_opt_bytes(&self.reference_hash),
        }
    }
}

impl TokenMetadata {
    /// A copy carrying the same payload.
    pub fn duplicate(&self) -> (r: TokenMetadata)
        ensures
            token_metadata_matches(&r, self),
    {
        TokenMetadata {
            streamer_name: self.streamer_name.clone(),
            title: self.title.clone(),
            serial_number: self.serial_number.clone(),
            media: self.media.clone(),
            media_hash: clone_opt_bytes(&self.media_hash),
            description: clone_opt_string(&self.description),
            issued_at: self.issued_at.clone(),
        }
    }
}

/// The authoritative record of one live token: its owner, its delegates and
/// the approval counter.
pub struct Token {
    /// The current owner.
    pub owner_id: AccountId,
    /// Live approvals: delegate identifier to approval id.
    pub approved_account_ids: StrMap<u64>,
    /// The next approval id to hand out; every live approval id is smaller.
    pub next_approval_id: u64,
}

impl Token {
    /// Owner and delegates satisfy the account grammar, delegate keys are
    /// distinct, and every live approval id is below the counter.
    pub open spec fn wf(&self) -> bool {
        &&& self.owner_id.wf()
        &&& self.approved_account_ids.wf()
        &&& forall|i: int|
            0 <= i < self.approved_account_ids@.len() ==> is_valid_account_seq(
                (#[trigger] self.approved_account_ids@[i]).0,
            ) && self.approved_account_ids@[i].1 < self.next_approval_id
    }

    /// A copy carrying the same owner, approvals and counter.
    pub fn duplicate(&self) -> (r: Token)
        ensures
            r.owner_id == self.owner_id,
            r.approved_account_ids@ == self.approved_account_ids@,
            r.next_approval_id == self.next_approval_id,
    {
        Token {
            owner_id: self.owner_id.duplicate(),
            approved_account_ids: self.approved_account_ids.duplicate(),
            next_approval_id: self.next_approval_id,
        }
    }
}

impl StrMap<u64> {
    /// A copy with the same entries, in the same order.
    pub fn duplicate(&self) -> (r: StrMap<u64>)
        ensures
            r@ == self@,
            r.key_prefix@ == self.key_prefix@,
    {
        let n = self.len();
        let mut pairs: Vec<(String, u64)> = Vec::new();
        let mut i: usize = 0;
        while i < n
            invariant
                0 <= i <= n,
                n == self@.len(),
                pairs@.len() == i,
                forall|j: int|
                    0 <= j < i ==> (#[trigger] pairs@[j]).0@ == self@[j].0 && pairs@[j].1
                        == self@[j].1,
            decreases n - i,
        {
            let p = self.at(i);
            pairs.push((p.0.clone(), p.1));
            i = i + 1;
        }
        let prefix = self.key_prefix.clone();
        proof {
            assert(prefix@ =~= self.key_prefix@);
        }
        let r = StrMap { key_prefix: prefix, pairs };
        proof {
            assert(r@ =~= self@);
        }
        r
    }
}

/// The joined presentation view of one token: its record and its metadata.
pub struct JsonToken {
    /// The token's identifier.
    pub token_id: TokenId,
    /// The current owner.
    pub owner_id: AccountId,
    /// The token's descriptive payload.
    pub metadata: TokenMetadata,
    /// Live approvals: delegate identifier to approval id.
    pub approved_account_ids: StrMap<u64>,
}

/// Read access to the ledger's own descriptive record.
pub trait NonFungibleTokenMetadata {
    /// The ledger's descriptive record.
    fn nft_metadata(&self) -> NFTContractMetadata;
}

impl NonFungibleTokenMetadata for Contract {
    /// A copy of the ledger's descriptive record.
    fn nft_metadata(&self) -> (r: NFTContractMetadata)
        ensures
            r.spec_version == self.metadata.spec_version,
            r.name == self.metadata.name,
            r.symbol == self.metadata.symbol,
            r.icon == self.metadata.icon,
            r.base_uri == self.metadata.base_uri,
            r.reference == self.metadata.reference,
            opt_bytes_match(r.reference_hash, self.metadata.reference_hash),
    {
        self.metadata.duplicate()
    }
}

} // verus!
