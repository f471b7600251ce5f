use evm_accounts::address::{derive_ethereum_address, derive_shadow_account_id, EvmAddress};
use evm_accounts::errors::ClaimError;
use evm_accounts::fixtures::{alice, bob, eth_address};

fn keccak(data: &[u8]) -> [u8; 32] {
    let mut hasher = tiny_keccak::Keccak::v256();
    let mut out = [0u8; 32];
    tiny_keccak::Hasher::update(&mut hasher, data);
    tiny_keccak::Hasher::finalize(hasher, &mut out);
    out
}

fn secret_key(seed: &[u8; 32]) -> libsecp256k1::SecretKey {
    libsecp256k1::SecretKey::parse(seed).unwrap()
}

fn pubkey64(sk: &libsecp256k1::SecretKey) -> Vec<u8> {
    libsecp256k1::PublicKey::from_secret_key(sk).serialize()[1..65].to_vec()
}

fn address_of_seed(seed: &[u8; 32]) -> Vec<u8> {
    let pk = pubkey64(&secret_key(seed));
    derive_ethereum_address(&pk).unwrap().as_bytes().clone()
}

#[test]
fn known_address_of_secret_key_one() {
    let mut seed = [0u8; 32];
    seed[31] = 1;
    let addr = address_of_seed(&seed);
    let expected: [u8; 20] = [
        0x7e, 0x5f, 0x45, 0x52, 0x09, 0x1a, 0x69, 0x12, 0x5d, 0x5d, 0xfc, 0xb7, 0xb8, 0xc2,
        0x65, 0x90, 0x29, 0x39, 0x5b, 0xdf,
    ];
    assert_eq!(addr, expected.to_vec());
}

#[test]
fn address_derivation_is_deterministic_and_collision_free() {
    let mut one = [0u8; 32];
    one[31] = 1;
    let seeds: Vec<[u8; 32]> = vec![
        keccak(b"Alice"),
        keccak(b"Bob"),
        keccak(b"Charlie"),
        one,
    ];
    let mut addresses: Vec<Vec<u8>> = Vec::new();
    for seed in &seeds {
        let first = address_of_seed(seed);
        let second = address_of_seed(seed);
        assert_eq!(first, second);
        assert_eq!(first.len(), 20);
        addresses.push(first);
    }
    for i in 0..addresses.len() {
        for j in (i + 1)..addresses.len() {
            assert_ne!(addresses[i], addresses[j]);
        }
    }
}

#[test]
fn address_rejects_wrong_length_key() {
    let short: Vec<u8> = vec![4u8; 63];
    assert_eq!(derive_ethereum_address(&short).unwrap_err(), ClaimError::MalformedInput);
    let long: Vec<u8> = vec![4u8; 65];
    assert_eq!(derive_ethereum_address(&long).unwrap_err(), ClaimError::MalformedInput);
}

#[test]
fn shadow_id_layout() {
    let addr_bytes: Vec<u8> = (1u8..21u8).collect();
    let addr = EvmAddress::new(addr_bytes.clone()).unwrap();
    let id = derive_shadow_account_id(&addr);
    let bytes = id.as_bytes();
    assert_eq!(bytes.len(), 32);
    assert_eq!(&bytes[0..4], &[0x65u8, 0x76, 0x6d, 0x3a]);
    assert_eq!(&bytes[0..4], b"evm:");
    assert_eq!(&bytes[4..24], addr_bytes.as_slice());
    assert_eq!(&bytes[24..32], &[0u8; 8]);
}

#[test]
fn shadow_id_injective_on_samples() {
    let a1 = EvmAddress::new(vec![1u8; 20]).unwrap();
    let a2 = EvmAddress::new(vec![2u8; 20]).unwrap();
    let mut almost = vec![1u8; 20];
    almost[19] = 3;
    let a3 = EvmAddress::new(almost).unwrap();
    let id1 = derive_shadow_account_id(&a1);
    let id2 = derive_shadow_account_id(&a2);
    let id3 = derive_shadow_account_id(&a3);
    assert_ne!(id1.as_bytes(), id2.as_bytes());
    assert_ne!(id1.as_bytes(), id3.as_bytes());
    assert_ne!(id2.as_bytes(), id3.as_bytes());
}

#[test]
fn address_and_shadow_rejects_bad_lengths() {
    assert_eq!(EvmAddress::new(vec![0u8; 19]).unwrap_err(), ClaimError::MalformedInput);
    assert_eq!(EvmAddress::new(vec![0u8; 21]).unwrap_err(), ClaimError::MalformedInput);
    assert_eq!(
        evm_accounts::address::AccountId::new(vec![0u8; 31]).unwrap_err(),
        ClaimError::MalformedInput
    );
}

#[test]
fn fixture_seeds_are_keccak_of_names() {
    assert_eq!(alice(), keccak(b"Alice").to_vec());
    assert_eq!(bob(), keccak(b"Bob").to_vec());
}

#[test]
fn eth_address_matches_direct_derivation() {
    let seed_bytes = alice();
    let seed: [u8; 32] = seed_bytes.as_slice().try_into().unwrap();
    let expected = address_of_seed(&seed);
    let got = eth_address(&seed_bytes).unwrap();
    assert_eq!(got.as_bytes(), &expected);
}
