use evm_accounts::address::{derive_ethereum_address, derive_shadow_account_id, AccountId, EvmAddress};
use evm_accounts::balances::BalanceLedger;
use evm_accounts::claim::{challenge_digest, claim, verify_claim};
use evm_accounts::errors::ClaimError;
use evm_accounts::fixtures::{
    bob, bob_account_id, EvmAccountsOnClaimHandler, ExtBuilder, TestState, GENESIS_BALANCE,
    NATIVE_ASSET,
};
use evm_accounts::ledger::ClaimLedger;

fn secret_key(seed: &[u8]) -> libsecp256k1::SecretKey {
    libsecp256k1::SecretKey::parse_slice(seed).unwrap()
}

fn pubkey64(sk: &libsecp256k1::SecretKey) -> Vec<u8> {
    libsecp256k1::PublicKey::from_secret_key(sk).serialize()[1..65].to_vec()
}

fn evm_address_of(sk: &libsecp256k1::SecretKey) -> EvmAddress {
    derive_ethereum_address(&pubkey64(sk)).unwrap()
}

fn account(byte: u8) -> AccountId {
    AccountId::new(vec![byte; 32]).unwrap()
}

fn sign_claim(sk: &libsecp256k1::SecretKey, target: &AccountId, nonce: u64) -> Vec<u8> {
    let digest = challenge_digest(target, nonce);
    let digest32: [u8; 32] = digest.as_slice().try_into().unwrap();
    let (sig, rid) = libsecp256k1::sign(&libsecp256k1::Message::parse(&digest32), sk);
    let mut out = sig.serialize().to_vec();
    out.push(rid.serialize());
    out
}

fn fresh_state() -> TestState {
    ExtBuilder::default().build()
}

#[test]
fn genesis_state_seeds_bob_shadow_account() {
    let state = fresh_state();
    assert_eq!(state.height, 1);
    let shadow = bob_account_id().unwrap();
    assert_eq!(state.balances.balance_of(&shadow, NATIVE_ASSET), GENESIS_BALANCE);
    let other = account(9);
    assert_eq!(state.balances.balance_of(&other, NATIVE_ASSET), 0);
}

#[test]
fn bob_account_id_is_shadow_of_bob_address() {
    let sk = secret_key(&bob());
    let addr = evm_address_of(&sk);
    let expected = derive_shadow_account_id(&addr);
    let got = bob_account_id().unwrap();
    assert_eq!(got.as_bytes(), expected.as_bytes());
    assert_eq!(&got.as_bytes()[0..4], b"evm:");
}

#[test]
fn verify_claim_accepts_owner_and_rejects_others() {
    let sk = secret_key(&bob());
    let addr = evm_address_of(&sk);
    let target = account(1);
    let sig = sign_claim(&sk, &target, 0);
    assert!(verify_claim(&target, 0, &sig, &addr));

    let other_addr = evm_address_of(&secret_key(&evm_accounts::fixtures::alice()));
    assert!(!verify_claim(&target, 0, &sig, &other_addr));
    assert!(!verify_claim(&target, 1, &sig, &addr));
    let short: Vec<u8> = vec![0u8; 64];
    assert!(!verify_claim(&target, 0, &short, &addr));
}

#[test]
fn successful_claim_sweeps_and_records() {
    let mut state = fresh_state();
    let sk = secret_key(&bob());
    let addr = evm_address_of(&sk);
    let shadow = derive_shadow_account_id(&addr);
    let target = account(1);
    let sig = sign_claim(&sk, &target, 0);

    let record = claim::<EvmAccountsOnClaimHandler>(
        &mut state.claims,
        &mut state.balances,
        &target,
        &addr,
        &sig,
        0,
        state.height,
    )
    .unwrap();
    assert_eq!(record.evm_address.as_bytes(), addr.as_bytes());
    assert_eq!(record.native_id.as_bytes(), target.as_bytes());
    assert_eq!(record.claimed_at, 1);

    assert_eq!(state.balances.balance_of(&shadow, NATIVE_ASSET), 0);
    assert_eq!(state.balances.balance_of(&target, NATIVE_ASSET), GENESIS_BALANCE);

    let found = state.claims.lookup(&addr).unwrap();
    assert_eq!(found.native_id.as_bytes(), target.as_bytes());
    assert_eq!(found.claimed_at, 1);
}

#[test]
fn signature_over_other_target_is_rejected() {
    let mut state = fresh_state();
    let sk = secret_key(&bob());
    let addr = evm_address_of(&sk);
    let shadow = derive_shadow_account_id(&addr);
    let intended = account(1);
    let supplied = account(2);
    let sig = sign_claim(&sk, &intended, 0);

    let err = claim::<EvmAccountsOnClaimHandler>(
        &mut state.claims,
        &mut state.balances,
        &supplied,
        &addr,
        &sig,
        0,
        state.height,
    )
    .unwrap_err();
    assert_eq!(err, ClaimError::InvalidSignature);
    assert!(state.claims.lookup(&addr).is_none());
    assert_eq!(state.balances.balance_of(&shadow, NATIVE_ASSET), GENESIS_BALANCE);
    assert_eq!(state.balances.balance_of(&supplied, NATIVE_ASSET), 0);
}

#[test]
fn signature_over_other_nonce_is_rejected() {
    let mut state = fresh_state();
    let sk = secret_key(&bob());
    let addr = evm_address_of(&sk);
    let target = account(1);
    let sig = sign_claim(&sk, &target, 7);

    let err = claim::<EvmAccountsOnClaimHandler>(
        &mut state.claims,
        &mut state.balances,
        &target,
        &addr,
        &sig,
        8,
        state.height,
    )
    .unwrap_err();
    assert_eq!(err, ClaimError::InvalidSignature);
}

#[test]
fn malformed_signature_is_rejected_before_crypto() {
    let mut state = fresh_state();
    let sk = secret_key(&bob());
    let addr = evm_address_of(&sk);
    let target = account(1);
    let sig: Vec<u8> = vec![1u8; 64];

    let err = claim::<EvmAccountsOnClaimHandler>(
        &mut state.claims,
        &mut state.balances,
        &target,
        &addr,
        &sig,
        0,
        state.height,
    )
    .unwrap_err();
    assert_eq!(err, ClaimError::MalformedInput);
}

#[test]
fn unrecoverable_signature_is_invalid() {
    let mut state = fresh_state();
    let sk = secret_key(&bob());
    let addr = evm_address_of(&sk);
    let target = account(1);
    let sig: Vec<u8> = vec![0xffu8; 65];

    let err = claim::<EvmAccountsOnClaimHandler>(
        &mut state.claims,
        &mut state.balances,
        &target,
        &addr,
        &sig,
        0,
        state.height,
    )
    .unwrap_err();
    assert_eq!(err, ClaimError::InvalidSignature);
}

#[test]
fn second_claim_for_same_address_fails_and_changes_nothing() {
    let mut state = fresh_state();
    let sk = secret_key(&bob());
    let addr = evm_address_of(&sk);
    let shadow = derive_shadow_account_id(&addr);
    let target = account(1);
    let sig = sign_claim(&sk, &target, 0);

    claim::<EvmAccountsOnClaimHandler>(
        &mut state.claims,
        &mut state.balances,
        &target,
        &addr,
        &sig,
        0,
        state.height,
    )
    .unwrap();

    let err = claim::<EvmAccountsOnClaimHandler>(
        &mut state.claims,
        &mut state.balances,
        &target,
        &addr,
        &sig,
        0,
        state.height,
    )
    .unwrap_err();
    assert_eq!(err, ClaimError::AlreadyClaimed);

    let record = state.claims.lookup(&addr).unwrap();
    assert_eq!(record.native_id.as_bytes(), target.as_bytes());
    assert_eq!(state.balances.balance_of(&target, NATIVE_ASSET), GENESIS_BALANCE);
    assert_eq!(state.balances.balance_of(&shadow, NATIVE_ASSET), 0);
}

#[test]
fn racing_claims_have_exactly_one_winner_and_no_stray_funds() {
    let mut state = fresh_state();
    let sk = secret_key(&bob());
    let addr = evm_address_of(&sk);
    let winner_target = account(1);
    let loser_target = account(2);
    let winner_sig = sign_claim(&sk, &winner_target, 0);
    let loser_sig = sign_claim(&sk, &loser_target, 1);

    let first = claim::<EvmAccountsOnClaimHandler>(
        &mut state.claims,
        &mut state.balances,
        &winner_target,
        &addr,
        &winner_sig,
        0,
        state.height,
    );
    assert!(first.is_ok());

    let second = claim::<EvmAccountsOnClaimHandler>(
        &mut state.claims,
        &mut state.balances,
        &loser_target,
        &addr,
        &loser_sig,
        1,
        state.height,
    );
    assert_eq!(second.unwrap_err(), ClaimError::AlreadyClaimed);

    assert_eq!(state.balances.balance_of(&winner_target, NATIVE_ASSET), GENESIS_BALANCE);
    assert_eq!(state.balances.balance_of(&loser_target, NATIVE_ASSET), 0);
    let record = state.claims.lookup(&addr).unwrap();
    assert_eq!(record.native_id.as_bytes(), winner_target.as_bytes());
}

#[test]
fn sweep_moves_every_asset_and_adds_to_prior_balance() {
    let mut state = fresh_state();
    let sk = secret_key(&bob());
    let addr = evm_address_of(&sk);
    let shadow = derive_shadow_account_id(&addr);
    let target = account(1);

    let other_asset: u32 = 7;
    state.balances.deposit(&shadow, other_asset, 550).unwrap();
    state.balances.deposit(&target, NATIVE_ASSET, 42).unwrap();
    state.balances.deposit(&target, other_asset, 8).unwrap();

    let sig = sign_claim(&sk, &target, 0);
    claim::<EvmAccountsOnClaimHandler>(
        &mut state.claims,
        &mut state.balances,
        &target,
        &addr,
        &sig,
        0,
        state.height,
    )
    .unwrap();

    assert_eq!(state.balances.balance_of(&shadow, NATIVE_ASSET), 0);
    assert_eq!(state.balances.balance_of(&shadow, other_asset), 0);
    assert_eq!(state.balances.balance_of(&target, NATIVE_ASSET), 42 + GENESIS_BALANCE);
    assert_eq!(state.balances.balance_of(&target, other_asset), 8 + 550);
}

#[test]
fn overflowing_sweep_fails_atomically() {
    let mut claims = ClaimLedger::new();
    let mut balances = BalanceLedger::new();
    let sk = secret_key(&bob());
    let addr = evm_address_of(&sk);
    let shadow = derive_shadow_account_id(&addr);
    let target = account(1);

    let asset: u32 = 3;
    balances.deposit(&shadow, asset, u128::MAX).unwrap();
    balances.deposit(&target, asset, 1).unwrap();
    balances.deposit(&shadow, NATIVE_ASSET, 5).unwrap();

    let sig = sign_claim(&sk, &target, 0);
    let err = claim::<EvmAccountsOnClaimHandler>(
        &mut claims,
        &mut balances,
        &target,
        &addr,
        &sig,
        0,
        1,
    )
    .unwrap_err();
    assert_eq!(err, ClaimError::TransferError);

    assert!(claims.lookup(&addr).is_none());
    assert_eq!(balances.balance_of(&shadow, asset), u128::MAX);
    assert_eq!(balances.balance_of(&target, asset), 1);
    assert_eq!(balances.balance_of(&shadow, NATIVE_ASSET), 5);
    assert_eq!(balances.balance_of(&target, NATIVE_ASSET), 0);
}

#[test]
fn deposit_accumulates_and_rejects_overflow() {
    let mut balances = BalanceLedger::new();
    let who = account(4);
    balances.deposit(&who, NATIVE_ASSET, 10).unwrap();
    balances.deposit(&who, NATIVE_ASSET, 32).unwrap();
    assert_eq!(balances.balance_of(&who, NATIVE_ASSET), 42);
    let err = balances.deposit(&who, NATIVE_ASSET, u128::MAX).unwrap_err();
    assert_eq!(err, ClaimError::TransferError);
    assert_eq!(balances.balance_of(&who, NATIVE_ASSET), 42);
}
