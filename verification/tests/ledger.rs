//! The ledger's basic lifecycle: construction, minting, enumeration, and the
//! owner index.

use mint_culture_contract::account::AccountId;
use mint_culture_contract::context::CallContext;
use mint_culture_contract::metadata::{NFTContractMetadata, NonFungibleTokenMetadata, TokenMetadata};
use mint_culture_contract::nft_core::NonFungibleTokenCore;
use mint_culture_contract::Contract;

const ATTACHED_VALUE: u128 = 100_000_000_000_000_000_000_000;

fn accounts(i: usize) -> AccountId {
    let names = ["alice", "bob", "charlie", "danny", "eugene", "fargo"];
    AccountId::new(names[i].to_string()).unwrap()
}

fn ctx(predecessor: AccountId, deposit: u128) -> CallContext {
    CallContext { predecessor_account_id: predecessor, attached_deposit: deposit }
}

fn token_meta_data() -> TokenMetadata {
    TokenMetadata {
        streamer_name: "이름".to_string(),
        title: "제목".to_string(),
        serial_number: "1111222233334444".to_string(),
        media: "https://mint.culture.com".to_string(),
        media_hash: None,
        description: None,
        issued_at: "".to_string(),
    }
}

#[test]
fn test_new() {
    let metadata = NFTContractMetadata {
        spec_version: "NFT 1.0.0".to_string(),
        name: "TEST_MINT_CULTURE_CONTRACT".to_string(),
        symbol: "TEST_MINT_CULTURE_CONTRACT".to_string(),
        icon: None,
        base_uri: None,
        reference: None,
        reference_hash: None,
    };

    let contract = Contract::new(accounts(1), metadata);

    assert_eq!(contract.owner_id.as_str(), "bob");
    assert_eq!(contract.nft_metadata().spec_version, "NFT 1.0.0".to_string());
    assert_eq!(contract.nft_metadata().name, "TEST_MINT_CULTURE_CONTRACT".to_string());
    assert_eq!(contract.nft_metadata().symbol, "TEST_MINT_CULTURE_CONTRACT".to_string());
}

#[test]
fn test_nft_mint_to_myself() {
    let mut contract = Contract::new_default_meta(accounts(1));

    contract
        .nft_mint(
            &ctx(accounts(1), ATTACHED_VALUE),
            "TOKEN_ID_1".to_string(),
            token_meta_data(),
            accounts(1),
        )
        .unwrap();

    let count = contract.nft_total_supply();

    assert_eq!(count, 1u128);
}

#[test]
fn test_nft_mint_to_other() {
    let mut contract = Contract::new_default_meta(accounts(1));

    contract
        .nft_mint(
            &ctx(accounts(2), ATTACHED_VALUE),
            "TOKEN_ID_1".to_string(),
            token_meta_data(),
            accounts(2),
        )
        .unwrap();

    let total_count = contract.nft_total_supply();
    let index1_count = contract.nft_supply_for_owner(accounts(1));
    let index2_count = contract.nft_supply_for_owner(accounts(2));

    assert_eq!(total_count, 1u128);
    assert_eq!(index1_count, 0u128);
    assert_eq!(index2_count, 1u128);
}

#[test]
fn test_nft_total_supply() {
    let contract = Contract::new_default_meta(accounts(1));
    let count = contract.nft_total_supply();

    assert_eq!(count, 0u128);
}

#[test]
fn test_nft_supply_for_owner() {
    let mut contract = Contract::new_default_meta(accounts(1));
    let token_metadata = TokenMetadata {
        streamer_name: "스트리머네임".to_string(),
        title: "제목".to_string(),
        serial_number: "1111222233334444".to_string(),
        media: "https://주소".to_string(),
        media_hash: None,
        description: None,
        issued_at: "오늘".to_string(),
    };
    contract
        .nft_mint(
            &ctx(accounts(1), ATTACHED_VALUE),
            "TOKEN_ID_1".to_string(),
            token_metadata,
            accounts(1),
        )
        .unwrap();

    let total_count = contract.nft_total_supply();
    let index1_count = contract.nft_supply_for_owner(accounts(1));
    let index2_count = contract.nft_supply_for_owner(accounts(2));

    assert_eq!(total_count, 1u128);
    assert_eq!(index1_count, 1u128);
    assert_eq!(index2_count, 0u128);
}

#[test]
fn test_nft_tokens() {
    let mut contract = Contract::new_default_meta(accounts(1));

    let token_meta_data = token_meta_data();
    let clone_token_meta_data = TokenMetadata {
        streamer_name: token_meta_data.streamer_name.clone(),
        title: token_meta_data.title.clone(),
        serial_number: "1111222233334445".to_string(),
        media: "https://mint.culture.com".to_string(),
        media_hash: None,
        description: None,
        issued_at: token_meta_data.issued_at.clone(),
    };

    contract
        .nft_mint(
            &ctx(accounts(1), ATTACHED_VALUE),
            "TOKEN_ID_1".to_string(),
            token_meta_data,
            accounts(1),
        )
        .unwrap();

    contract
        .nft_mint(
            &ctx(accounts(2), ATTACHED_VALUE),
            "TOKEN_ID_2".to_string(),
            clone_token_meta_data,
            accounts(2),
        )
        .unwrap();

    let vec = contract.nft_tokens(None, None);

    assert_eq!("TOKEN_ID_1", vec[0].token_id);
    assert_eq!("TOKEN_ID_2", vec[1].token_id);
}

#[test]
fn test_nft_tokens_for_owner() {
    let mut contract = Contract::new_default_meta(accounts(1));

    let token_meta_data = token_meta_data();
    let clone_token_meta_data = TokenMetadata {
        streamer_name: token_meta_data.streamer_name.clone(),
        title: token_meta_data.title.clone(),
        serial_number: "1111222233334445".to_string(),
        media: "https://mint.culture.com".to_string(),
        media_hash: None,
        description: None,
        issued_at: token_meta_data.issued_at.clone(),
    };

    contract
        .nft_mint(
            &ctx(accounts(1), ATTACHED_VALUE),
            "TOKEN_ID_1".to_string(),
            token_meta_data,
            accounts(1),
        )
        .unwrap();

    contract
        .nft_mint(
            &ctx(accounts(2), ATTACHED_VALUE),
            "TOKEN_ID_2".to_string(),
            clone_token_meta_data,
            accounts(2),
        )
        .unwrap();

    let vec = contract.nft_tokens_for_owner(accounts(2), None, None);

    assert_eq!("TOKEN_ID_2", vec[0].token_id);
}

#[test]
fn test_internal_add_token_to_owner() {
    let account_id = accounts(1);
    let token_id = "Token_1".to_string();

    let mut contract = Contract::new_default_meta(accounts(1));
    contract.internal_add_token_to_owner(&account_id, &token_id);

    let key = account_id.to_key();
    let token_set = contract.tokens_per_owner.get(&key).unwrap();
    assert_eq!(token_id, token_set.to_vec()[0]);
}

#[test]
fn test_internal_remove_token_from_owner() {
    let account_id = accounts(1);
    let token_id = "Token_1".to_string();

    let mut contract = Contract::new_default_meta(accounts(1));
    contract.internal_add_token_to_owner(&account_id, &token_id);

    contract.internal_remove_token_from_owner(&account_id, &token_id).unwrap();

    let key = account_id.to_key();
    let is_none = contract.tokens_per_owner.get(&key).is_none();

    assert_eq!(is_none, true);
}

#[test]
fn mint_duplicate_id_fails_and_leaves_state_unchanged() {
    let mut contract = Contract::new_default_meta(accounts(1));

    contract
        .nft_mint(
            &ctx(accounts(1), ATTACHED_VALUE),
            "TOKEN_ID_1".to_string(),
            token_meta_data(),
            accounts(1),
        )
        .unwrap();

    let second = contract.nft_mint(
        &ctx(accounts(2), ATTACHED_VALUE),
        "TOKEN_ID_1".to_string(),
        token_meta_data(),
        accounts(2),
    );

    assert!(matches!(
        second,
        Err(mint_culture_contract::error::NftError::AlreadyExists)
    ));
    assert_eq!(contract.nft_total_supply(), 1u128);
    let token = contract.nft_token("TOKEN_ID_1".to_string()).unwrap();
    assert_eq!(token.owner_id.as_str(), "bob");
    assert_eq!(contract.nft_supply_for_owner(accounts(2)), 0u128);
}

#[test]
fn mint_with_insufficient_deposit_fails() {
    let mut contract = Contract::new_default_meta(accounts(1));

    let outcome = contract.nft_mint(
        &ctx(accounts(1), 1),
        "TOKEN_ID_1".to_string(),
        token_meta_data(),
        accounts(1),
    );

    assert!(matches!(
        outcome,
        Err(mint_culture_contract::error::NftError::InsufficientDeposit)
    ));
    assert_eq!(contract.nft_total_supply(), 0u128);
}

#[test]
fn remove_token_without_owner_set_reports_violation() {
    let mut contract = Contract::new_default_meta(accounts(1));
    let token_id = "Token_1".to_string();

    let outcome = contract.internal_remove_token_from_owner(&accounts(1), &token_id);

    assert!(matches!(
        outcome,
        Err(mint_culture_contract::error::NftError::InvariantViolation)
    ));
}

#[test]
fn owner_index_sizes_sum_to_live_tokens() {
    let mut contract = Contract::new_default_meta(accounts(0));

    for (i, id) in ["T1", "T2", "T3", "T4"].iter().enumerate() {
        let owner = accounts(i % 3);
        contract
            .nft_mint(
                &ctx(accounts(i % 3), ATTACHED_VALUE),
                id.to_string(),
                token_meta_data(),
                owner,
            )
            .unwrap();
    }

    contract
        .nft_transfer(&ctx(accounts(0), 1), accounts(1), "T1".to_string(), None, None)
        .unwrap();
    contract
        .nft_transfer(&ctx(accounts(1), 1), accounts(4), "T2".to_string(), None, None)
        .unwrap();

    let total: u128 = (0..6).map(|i| contract.nft_supply_for_owner(accounts(i))).sum();
    assert_eq!(total, contract.nft_total_supply());
    assert_eq!(contract.nft_total_supply(), 4u128);
}

#[test]
fn enumeration_pages_by_index_and_limit() {
    let mut contract = Contract::new_default_meta(accounts(0));
    for id in ["T1", "T2", "T3"] {
        contract
            .nft_mint(
                &ctx(accounts(0), ATTACHED_VALUE),
                id.to_string(),
                token_meta_data(),
                accounts(0),
            )
            .unwrap();
    }

    let page = contract.nft_tokens(Some(1), Some(1));
    assert_eq!(page.len(), 1);
    assert_eq!(page[0].token_id, "T2");

    let beyond = contract.nft_tokens(Some(5), None);
    assert_eq!(beyond.len(), 0);

    let owned_page = contract.nft_tokens_for_owner(accounts(0), Some(2), None);
    assert_eq!(owned_page.len(), 1);
    assert_eq!(owned_page[0].token_id, "T3");
}

#[test]
fn default_metadata_carries_stock_record() {
    let contract = Contract::new_default_meta(accounts(0));
    let meta = contract.nft_metadata();
    assert_eq!(meta.spec_version, "nft-1.0.0");
    assert_eq!(meta.name, "Mint Culture NFT Collect");
    assert_eq!(meta.symbol, "MintCulture");
    assert!(meta.icon.is_none());
    assert!(meta.base_uri.is_none());
    assert!(meta.reference.is_none());
    assert!(meta.reference_hash.is_none());
}
