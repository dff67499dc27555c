//! The transfer protocol: direct transfers, approvals, and the notifying
//! transfer's deferred resolution.

use mint_culture_contract::account::AccountId;
use mint_culture_contract::context::CallContext;
use mint_culture_contract::error::NftError;
use mint_culture_contract::metadata::TokenMetadata;
use mint_culture_contract::nft_core::{NonFungibleTokenCore, PromiseOutcome};
use mint_culture_contract::Contract;

const ATTACHED_VALUE: u128 = 100_000_000_000_000_000_000_000;

fn accounts(i: usize) -> AccountId {
    let names = ["alice", "bob", "charlie", "danny", "eugene", "fargo"];
    AccountId::new(names[i].to_string()).unwrap()
}

fn ctx(predecessor: AccountId, deposit: u128) -> CallContext {
    CallContext { predecessor_account_id: predecessor, attached_deposit: deposit }
}

fn simple_metadata() -> TokenMetadata {
    TokenMetadata {
        streamer_name: "name".to_string(),
        title: "title".to_string(),
        serial_number: "0001".to_string(),
        media: "https://example.com".to_string(),
        media_hash: None,
        description: None,
        issued_at: "".to_string(),
    }
}

/// A ledger in which alice owns `T1`.
fn minted_contract() -> Contract {
    let mut contract = Contract::new_default_meta(accounts(0));
    contract
        .nft_mint(&ctx(accounts(0), ATTACHED_VALUE), "T1".to_string(), simple_metadata(), accounts(0))
        .unwrap();
    contract
}

#[test]
fn transfer_moves_ownership_and_revokes_sender() {
    let mut contract = minted_contract();

    contract
        .nft_transfer(&ctx(accounts(0), 1), accounts(1), "T1".to_string(), None, None)
        .unwrap();

    let token = contract.nft_token("T1".to_string()).unwrap();
    assert_eq!(token.owner_id.as_str(), "bob");

    // The previous owner can no longer transfer the token.
    let again = contract.nft_transfer(&ctx(accounts(0), 1), accounts(2), "T1".to_string(), None, None);
    assert!(matches!(again, Err(NftError::Unauthorized)));
}

#[test]
fn transfer_requires_exact_deposit_signature() {
    let mut contract = minted_contract();

    let outcome = contract.nft_transfer(&ctx(accounts(0), 0), accounts(1), "T1".to_string(), None, None);
    assert!(matches!(outcome, Err(NftError::DepositRequired)));

    let outcome = contract.nft_transfer(&ctx(accounts(0), 2), accounts(1), "T1".to_string(), None, None);
    assert!(matches!(outcome, Err(NftError::DepositRequired)));

    let token = contract.nft_token("T1".to_string()).unwrap();
    assert_eq!(token.owner_id.as_str(), "alice");
}

#[test]
fn transfer_of_unknown_token_fails() {
    let mut contract = minted_contract();

    let outcome = contract.nft_transfer(&ctx(accounts(0), 1), accounts(1), "T9".to_string(), None, None);
    assert!(matches!(outcome, Err(NftError::NotFound)));
}

#[test]
fn transfer_to_current_owner_fails_and_mutates_nothing() {
    let mut contract = minted_contract();

    let outcome = contract.nft_transfer(&ctx(accounts(0), 1), accounts(0), "T1".to_string(), None, None);

    assert!(matches!(outcome, Err(NftError::SameOwnerTransfer)));
    let token = contract.nft_token("T1".to_string()).unwrap();
    assert_eq!(token.owner_id.as_str(), "alice");
    assert_eq!(contract.nft_supply_for_owner(accounts(0)), 1u128);
    assert_eq!(contract.nft_total_supply(), 1u128);
}

#[test]
fn transfer_clears_approvals_and_keeps_counter() {
    let mut contract = minted_contract();

    let (id, _) = contract
        .nft_approve(&ctx(accounts(0), ATTACHED_VALUE), "T1".to_string(), accounts(2))
        .unwrap();
    assert_eq!(id, 0u64);

    contract
        .nft_transfer(&ctx(accounts(0), 1), accounts(1), "T1".to_string(), None, None)
        .unwrap();

    let token = contract.nft_token("T1".to_string()).unwrap();
    assert_eq!(token.approved_account_ids.len(), 0);

    // The counter survived the transfer: the new owner's first grant gets 1.
    let (next_id, _) = contract
        .nft_approve(&ctx(accounts(1), ATTACHED_VALUE), "T1".to_string(), accounts(2))
        .unwrap();
    assert_eq!(next_id, 1u64);
}

#[test]
fn stale_approval_id_is_a_mismatch_after_transfer() {
    let mut contract = minted_contract();

    let (id, _) = contract
        .nft_approve(&ctx(accounts(0), ATTACHED_VALUE), "T1".to_string(), accounts(2))
        .unwrap();
    assert_eq!(id, 0u64);

    contract
        .nft_transfer(&ctx(accounts(0), 1), accounts(1), "T1".to_string(), None, None)
        .unwrap();

    let token = contract.nft_token("T1".to_string()).unwrap();
    assert_eq!(token.approved_account_ids.len(), 0);

    let auth = contract.authorize(&"T1".to_string(), &accounts(2), Some(0));
    assert!(matches!(auth, Err(NftError::ApprovalMismatch)));
}

#[test]
fn approved_delegate_may_transfer_with_matching_id() {
    let mut contract = minted_contract();

    contract
        .nft_approve(&ctx(accounts(0), ATTACHED_VALUE), "T1".to_string(), accounts(2))
        .unwrap();

    contract
        .nft_transfer(&ctx(accounts(2), 1), accounts(1), "T1".to_string(), Some(0), None)
        .unwrap();

    let token = contract.nft_token("T1".to_string()).unwrap();
    assert_eq!(token.owner_id.as_str(), "bob");
}

#[test]
fn wrong_approval_id_blocks_a_delegate() {
    let mut contract = minted_contract();

    contract
        .nft_approve(&ctx(accounts(0), ATTACHED_VALUE), "T1".to_string(), accounts(2))
        .unwrap();

    let outcome =
        contract.nft_transfer(&ctx(accounts(2), 1), accounts(1), "T1".to_string(), Some(7), None);
    assert!(matches!(outcome, Err(NftError::ApprovalMismatch)));
}

#[test]
fn approval_ids_increase_across_revocations() {
    let mut contract = minted_contract();
    let owner = || ctx(accounts(0), ATTACHED_VALUE);

    let (first, _) = contract.nft_approve(&owner(), "T1".to_string(), accounts(2)).unwrap();
    assert_eq!(first, 0u64);

    contract.nft_revoke(&ctx(accounts(0), 1), "T1".to_string(), accounts(2)).unwrap();

    let (second, _) = contract.nft_approve(&owner(), "T1".to_string(), accounts(2)).unwrap();
    assert_eq!(second, 1u64);

    let (third, _) = contract.nft_approve(&owner(), "T1".to_string(), accounts(3)).unwrap();
    assert_eq!(third, 2u64);

    assert!(first < second && second < third);
}

#[test]
fn revoke_all_clears_every_delegate() {
    let mut contract = minted_contract();
    let owner = || ctx(accounts(0), ATTACHED_VALUE);

    contract.nft_approve(&owner(), "T1".to_string(), accounts(2)).unwrap();
    contract.nft_approve(&owner(), "T1".to_string(), accounts(3)).unwrap();

    let refund = contract.nft_revoke_all(&ctx(accounts(0), 1), "T1".to_string()).unwrap();

    let token = contract.nft_token("T1".to_string()).unwrap();
    assert_eq!(token.approved_account_ids.len(), 0);
    // charlie (7 chars + 12) and danny (5 chars + 12) were released.
    let refund = refund.unwrap();
    assert_eq!(refund.beneficiary.as_str(), "alice");
    assert_eq!(refund.amount, 36u128 * 10_000_000_000_000_000_000);
}

#[test]
fn only_the_owner_may_approve() {
    let mut contract = minted_contract();

    let outcome =
        contract.nft_approve(&ctx(accounts(1), ATTACHED_VALUE), "T1".to_string(), accounts(2));
    assert!(matches!(outcome, Err(NftError::Unauthorized)));
}

#[test]
fn notified_transfer_rolls_back_on_rejection() {
    let mut contract = minted_contract();

    let pending = contract
        .nft_transfer_call(
            &ctx(accounts(0), 1),
            accounts(1),
            "T1".to_string(),
            None,
            None,
            "payload".to_string(),
        )
        .unwrap();

    assert_eq!(pending.sender_id.as_str(), "alice");
    assert_eq!(pending.previous_owner_id.as_str(), "alice");
    assert_eq!(pending.receiver_id.as_str(), "bob");

    // Ownership already moved, optimistically.
    assert_eq!(contract.nft_token("T1".to_string()).unwrap().owner_id.as_str(), "bob");

    let resolution = contract.nft_resolve_transfer(
        pending.previous_owner_id,
        pending.receiver_id,
        pending.token_id,
        pending.approvals_snapshot,
        PromiseOutcome::Successful(b"true".to_vec()),
    );

    assert!(!resolution.kept);
    assert_eq!(contract.nft_token("T1".to_string()).unwrap().owner_id.as_str(), "alice");
    assert_eq!(contract.nft_supply_for_owner(accounts(0)), 1u128);
    assert_eq!(contract.nft_supply_for_owner(accounts(1)), 0u128);
}

#[test]
fn notified_transfer_is_kept_on_acceptance() {
    let mut contract = minted_contract();

    let pending = contract
        .nft_transfer_call(
            &ctx(accounts(0), 1),
            accounts(1),
            "T1".to_string(),
            None,
            None,
            "payload".to_string(),
        )
        .unwrap();

    let resolution = contract.nft_resolve_transfer(
        pending.previous_owner_id,
        pending.receiver_id,
        pending.token_id,
        pending.approvals_snapshot,
        PromiseOutcome::Successful(b"false".to_vec()),
    );

    assert!(resolution.kept);
    assert_eq!(resolution.refunds.len(), 0);
    assert_eq!(contract.nft_token("T1".to_string()).unwrap().owner_id.as_str(), "bob");
}

#[test]
fn resolution_skips_rollback_after_intervening_transfer() {
    let mut contract = minted_contract();

    let pending = contract
        .nft_transfer_call(
            &ctx(accounts(0), 1),
            accounts(1),
            "T1".to_string(),
            None,
            None,
            "payload".to_string(),
        )
        .unwrap();

    // Before resolution, bob independently moves the token to danny.
    contract
        .nft_transfer(&ctx(accounts(1), 1), accounts(3), "T1".to_string(), None, None)
        .unwrap();

    let resolution = contract.nft_resolve_transfer(
        pending.previous_owner_id,
        pending.receiver_id,
        pending.token_id,
        pending.approvals_snapshot,
        PromiseOutcome::Successful(b"true".to_vec()),
    );

    assert!(resolution.kept);
    assert_eq!(contract.nft_token("T1".to_string()).unwrap().owner_id.as_str(), "danny");
}

#[test]
fn call_failure_counts_as_rejection() {
    let mut contract = minted_contract();

    let pending = contract
        .nft_transfer_call(
            &ctx(accounts(0), 1),
            accounts(1),
            "T1".to_string(),
            None,
            None,
            "payload".to_string(),
        )
        .unwrap();

    let resolution = contract.nft_resolve_transfer(
        pending.previous_owner_id,
        pending.receiver_id,
        pending.token_id,
        pending.approvals_snapshot,
        PromiseOutcome::Failed,
    );

    assert!(!resolution.kept);
    assert_eq!(contract.nft_token("T1".to_string()).unwrap().owner_id.as_str(), "alice");
}

#[test]
fn undecodable_receiver_payload_counts_as_rejection() {
    let mut contract = minted_contract();

    let pending = contract
        .nft_transfer_call(
            &ctx(accounts(0), 1),
            accounts(1),
            "T1".to_string(),
            None,
            None,
            "payload".to_string(),
        )
        .unwrap();

    let resolution = contract.nft_resolve_transfer(
        pending.previous_owner_id,
        pending.receiver_id,
        pending.token_id,
        pending.approvals_snapshot,
        PromiseOutcome::Successful(b"maybe".to_vec()),
    );

    assert!(!resolution.kept);
    assert_eq!(contract.nft_token("T1".to_string()).unwrap().owner_id.as_str(), "alice");
}

#[test]
fn rollback_refunds_snapshot_and_receiver_approvals() {
    let mut contract = minted_contract();

    // alice grants charlie an approval, whose bytes she paid for.
    contract
        .nft_approve(&ctx(accounts(0), ATTACHED_VALUE), "T1".to_string(), accounts(2))
        .unwrap();

    let pending = contract
        .nft_transfer_call(
            &ctx(accounts(0), 1),
            accounts(1),
            "T1".to_string(),
            None,
            None,
            "payload".to_string(),
        )
        .unwrap();

    // The cleared snapshot (charlie: 7 + 12 bytes) is owed to alice already.
    assert_eq!(pending.refund.beneficiary.as_str(), "alice");
    assert_eq!(pending.refund.amount, 19u128 * 10_000_000_000_000_000_000);

    // bob grants danny an approval during the asynchronous window.
    contract
        .nft_approve(&ctx(accounts(1), ATTACHED_VALUE), "T1".to_string(), accounts(3))
        .unwrap();

    let resolution = contract.nft_resolve_transfer(
        pending.previous_owner_id,
        pending.receiver_id,
        pending.token_id,
        pending.approvals_snapshot,
        PromiseOutcome::Successful(b"true".to_vec()),
    );

    assert!(!resolution.kept);
    assert_eq!(resolution.refunds.len(), 2);
    assert_eq!(resolution.refunds[0].beneficiary.as_str(), "alice");
    assert_eq!(resolution.refunds[0].amount, 19u128 * 10_000_000_000_000_000_000);
    // danny: 5 + 12 bytes, paid by bob.
    assert_eq!(resolution.refunds[1].beneficiary.as_str(), "bob");
    assert_eq!(resolution.refunds[1].amount, 17u128 * 10_000_000_000_000_000_000);

    // The returned token carries a fresh empty approval set.
    let token = contract.nft_token("T1".to_string()).unwrap();
    assert_eq!(token.owner_id.as_str(), "alice");
    assert_eq!(token.approved_account_ids.len(), 0);
}
