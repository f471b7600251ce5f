//! Core of an EVM account claim module: deterministic derivation of a 20-byte
//! Ethereum address from a secp256k1 public key, derivation of a 32-byte native
//! account identifier from that address, and a claim protocol that proves
//! control of the address before binding it to a caller-chosen native account
//! and sweeping every balance from the derived "shadow" account to the target.

pub mod address;
pub mod balances;
pub mod bytes;
pub mod claim;
pub mod crypto;
pub mod errors;
pub mod fixtures;
pub mod ledger;
