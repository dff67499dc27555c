//! Storage-fee arithmetic, the key deriver, account-identifier validation,
//! and receiver-payload decoding.

use mint_culture_contract::account::AccountId;
use mint_culture_contract::context::{CallContext, STORAGE_PRICE_PER_BYTE};
use mint_culture_contract::internal::{bytes_for_approved_account_id, hash_account_id, storage_cost};
use mint_culture_contract::metadata::TokenMetadata;
use mint_culture_contract::mint::mint_storage_bytes;
use mint_culture_contract::nft_core::{parse_json_bool, NonFungibleTokenCore};
use mint_culture_contract::{storage_key_prefix, Contract, StorageKey};

fn account(name: &str) -> AccountId {
    AccountId::new(name.to_string()).unwrap()
}

fn empty_metadata() -> TokenMetadata {
    TokenMetadata {
        streamer_name: "".to_string(),
        title: "".to_string(),
        serial_number: "".to_string(),
        media: "".to_string(),
        media_hash: None,
        description: None,
        issued_at: "".to_string(),
    }
}

#[test]
fn approval_entry_byte_formula() {
    // characters + a 4-byte length header + the 8-byte approval id
    assert_eq!(bytes_for_approved_account_id(&account("alice")), 17);
    assert_eq!(bytes_for_approved_account_id(&account("charlie")), 19);
}

#[test]
fn storage_cost_prices_per_byte() {
    assert_eq!(storage_cost(0), 0);
    assert_eq!(storage_cost(1), STORAGE_PRICE_PER_BYTE);
    assert_eq!(storage_cost(55), 55 * STORAGE_PRICE_PER_BYTE);
    // an impossible byte count saturates instead of wrapping
    assert_eq!(storage_cost(u128::MAX), u128::MAX);
}

#[test]
fn mint_byte_formula_has_exact_value() {
    // token "ab": 3 * (4 + 2); owner "bob": 4 + 3; counter: 8;
    // empty metadata: 4 * 4 string headers + 2 presence bytes + 4 + 4 = 22
    let bytes = mint_storage_bytes(&"ab".to_string(), &empty_metadata(), &account("bob"));
    assert_eq!(bytes, 18 + 7 + 8 + 22);
}

#[test]
fn mint_refunds_exact_excess_deposit() {
    let mut contract = Contract::new_default_meta(account("alice"));
    let required = 55 * STORAGE_PRICE_PER_BYTE;

    let ctx = CallContext {
        predecessor_account_id: account("bob"),
        attached_deposit: required + 7,
    };
    let refund = contract
        .nft_mint(&ctx, "ab".to_string(), empty_metadata(), account("bob"))
        .unwrap()
        .unwrap();

    assert_eq!(refund.beneficiary.as_str(), "bob");
    assert_eq!(refund.amount, 7);
}

#[test]
fn tiny_excess_deposit_is_retained() {
    let mut contract = Contract::new_default_meta(account("alice"));
    let required = 55 * STORAGE_PRICE_PER_BYTE;

    let ctx = CallContext {
        predecessor_account_id: account("bob"),
        attached_deposit: required + 1,
    };
    let refund = contract
        .nft_mint(&ctx, "ab".to_string(), empty_metadata(), account("bob"))
        .unwrap();

    assert!(refund.is_none());
}

#[test]
fn account_fingerprint_is_the_sha256_digest() {
    let digest = hash_account_id(&account("alice"));
    assert_eq!(digest.len(), 32);
    // SHA-256("alice") starts 2b d8 06 c9 and ends 6d 6e 90.
    assert_eq!(digest[0], 0x2b);
    assert_eq!(digest[1], 0xd8);
    assert_eq!(digest[2], 0x06);
    assert_eq!(digest[3], 0xc9);
    assert_eq!(digest[30], 0x6e);
    assert_eq!(digest[31], 0x90);

    let other = hash_account_id(&account("bob"));
    assert_ne!(digest, other);
    // SHA-256("bob") starts 81 b6 37 d8.
    assert_eq!(other[0], 0x81);
    assert_eq!(other[1], 0xb6);
}

#[test]
fn storage_key_prefixes_are_distinct() {
    let a = storage_key_prefix(&StorageKey::TokensPerOwner);
    let b = storage_key_prefix(&StorageKey::TokensById);
    let c = storage_key_prefix(&StorageKey::TokenMetadataById);
    assert_ne!(a, b);
    assert_ne!(b, c);
    assert_ne!(a, c);

    let alice_inner = storage_key_prefix(&StorageKey::TokenPerOwnerInner {
        account_id_hash: hash_account_id(&account("alice")),
    });
    let bob_inner = storage_key_prefix(&StorageKey::TokenPerOwnerInner {
        account_id_hash: hash_account_id(&account("bob")),
    });
    assert_eq!(alice_inner.len(), 33);
    assert_eq!(alice_inner[0], 1);
    assert_eq!(&alice_inner[1..], &hash_account_id(&account("alice"))[..]);
    assert_ne!(alice_inner, bob_inner);
}

#[test]
fn account_grammar_accepts_and_rejects() {
    assert!(AccountId::new("alice".to_string()).is_some());
    assert!(AccountId::new("a1".to_string()).is_some());
    assert!(AccountId::new("sub.account-name_0".to_string()).is_some());

    // too short, too long, bad characters, misplaced separators
    assert!(AccountId::new("".to_string()).is_none());
    assert!(AccountId::new("a".to_string()).is_none());
    assert!(AccountId::new("A1".to_string()).is_none());
    assert!(AccountId::new("has space".to_string()).is_none());
    assert!(AccountId::new(".start".to_string()).is_none());
    assert!(AccountId::new("end.".to_string()).is_none());
    assert!(AccountId::new("dou..ble".to_string()).is_none());
    assert!(AccountId::new("a_-b".to_string()).is_none());
    assert!(AccountId::new("x".repeat(65)).is_none());
    assert!(AccountId::new("x".repeat(64)).is_some());
}

#[test]
fn receiver_payload_decoding() {
    assert_eq!(parse_json_bool(&b"true".to_vec()), Some(true));
    assert_eq!(parse_json_bool(&b"false".to_vec()), Some(false));
    assert_eq!(parse_json_bool(&b"  true\n".to_vec()), Some(true));
    assert_eq!(parse_json_bool(&b"\t false \r\n".to_vec()), Some(false));
    assert_eq!(parse_json_bool(&b"True".to_vec()), None);
    assert_eq!(parse_json_bool(&b"truex".to_vec()), None);
    assert_eq!(parse_json_bool(&b"".to_vec()), None);
    assert_eq!(parse_json_bool(&b"  ".to_vec()), None);
    assert_eq!(parse_json_bool(&b"1".to_vec()), None);
}

#[test]
fn approve_settles_storage_exactly() {
    let mut contract = Contract::new_default_meta(account("alice"));
    let mint_ctx = CallContext {
        predecessor_account_id: account("alice"),
        attached_deposit: 100_000_000_000_000_000_000_000,
    };
    contract
        .nft_mint(&mint_ctx, "T1".to_string(), empty_metadata(), account("alice"))
        .unwrap();

    // charlie's entry costs (7 + 12) bytes; an exact deposit leaves nothing.
    let required = 19 * STORAGE_PRICE_PER_BYTE;
    let ctx = CallContext { predecessor_account_id: account("alice"), attached_deposit: required };
    let (id, refund) = contract.nft_approve(&ctx, "T1".to_string(), account("charlie")).unwrap();
    assert_eq!(id, 0);
    assert!(refund.is_none());

    // Re-approving the same delegate frees no bytes and costs none.
    let ctx2 = CallContext { predecessor_account_id: account("alice"), attached_deposit: 9 };
    let (id2, refund2) = contract.nft_approve(&ctx2, "T1".to_string(), account("charlie")).unwrap();
    assert_eq!(id2, 1);
    let refund2 = refund2.unwrap();
    assert_eq!(refund2.amount, 9);

    // A revocation refunds the released bytes to the owner.
    let ctx3 = CallContext { predecessor_account_id: account("alice"), attached_deposit: 1 };
    let refund3 = contract.nft_revoke(&ctx3, "T1".to_string(), account("charlie")).unwrap().unwrap();
    assert_eq!(refund3.beneficiary.as_str(), "alice");
    assert_eq!(refund3.amount, 19 * STORAGE_PRICE_PER_BYTE);
}

#[test]
fn transfer_refunds_cleared_approval_storage() {
    let mut contract = Contract::new_default_meta(account("alice"));
    let mint_ctx = CallContext {
        predecessor_account_id: account("alice"),
        attached_deposit: 100_000_000_000_000_000_000_000,
    };
    contract
        .nft_mint(&mint_ctx, "T1".to_string(), empty_metadata(), account("alice"))
        .unwrap();
    let approve_ctx = CallContext {
        predecessor_account_id: account("alice"),
        attached_deposit: 100_000_000_000_000_000_000_000,
    };
    contract.nft_approve(&approve_ctx, "T1".to_string(), account("charlie")).unwrap();

    let ctx = CallContext { predecessor_account_id: account("alice"), attached_deposit: 1 };
    let refund = contract.nft_transfer(&ctx, account("bob"), "T1".to_string(), None, None).unwrap();

    assert_eq!(refund.beneficiary.as_str(), "alice");
    assert_eq!(refund.amount, 19 * STORAGE_PRICE_PER_BYTE);
}
