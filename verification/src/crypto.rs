//! Trusted boundary to the cryptographic primitives: Keccak-256 hashing,
//! secp256k1 public key derivation and ECDSA public key recovery. Each outside
//! result is given a name; everything proved about the library speaks of these
//! names, and the wrappers below are the only places where they are assumed.

use vstd::prelude::*;

verus! {

pub uninterp spec fn keccak256_of(data: Seq<u8>) -> Seq<u8>;

pub uninterp spec fn recover_of(digest: Seq<u8>, signature: Seq<u8>) -> Option<Seq<u8>>;

pub uninterp spec fn pubkey_of(secret: Seq<u8>) -> Option<Seq<u8>>;

/// Relies on tiny_keccak's Keccak in its 256-bit variant: the digest is a
/// function of the input bytes alone and is always 32 bytes long.
#[verifier::external_body]
pub(crate) fn keccak256(data: &Vec<u8>) -> (r: Vec<u8>)
    ensures
        r@ == keccak256_of(data@),
        r@.len() == 32,
{
    let mut hasher = tiny_keccak::Keccak::v256();
    let mut out = [0u8; 32];
    tiny_keccak::Hasher::update(&mut hasher, data.as_slice());
    tiny_keccak::Hasher::finalize(hasher, &mut out);
    out.to_vec()
}

/// Relies on libsecp256k1's recover, with Message::parse, RecoveryId::parse and
/// Signature::parse_standard converting the arguments: the recovered public key
/// is a function of the 32 digest bytes and the 65 signature bytes alone, and
/// holds 64 bytes (the uncompressed encoding without its leading tag byte) when
/// recovery succeeds. Recovery fails on a recovery id of 4 or more, an r or s
/// word outside the curve order, or a point that cannot be reconstructed.
#[verifier::external_body]
pub(crate) fn ecdsa_recover(digest: &Vec<u8>, signature: &Vec<u8>) -> (r: Option<Vec<u8>>)
    requires
        digest@.len() == 32,
        signature@.len() == 65,
    ensures
        match r {
            Some(pk) => recover_of(digest@, signature@) == Some(pk@) && pk@.len() == 64,
            None => recover_of(digest@, signature@) is None,
        },
{
    let d: [u8; 32] = digest.as_slice().try_into().unwrap();
    let rs: [u8; 64] = signature[0..64].try_into().unwrap();
    let rid = libsecp256k1::RecoveryId::parse(signature[64]).ok()?;
    let sig = libsecp256k1::Signature::parse_standard(&rs).ok()?;
    let pk = libsecp256k1::recover(&libsecp256k1::Message::parse(&d), &sig, &rid).ok()?;
    Some(pk.serialize()[1..65].to_vec())
}

/// Relies on libsecp256k1's PublicKey::from_secret_key, with SecretKey::parse_slice
/// converting the argument: the public key is a function of the 32 secret bytes
/// alone, and holds 64 bytes (the uncompressed encoding without its leading tag
/// byte). Parsing fails exactly when the bytes are zero or at least the curve
/// order, so not a valid secret scalar.
#[verifier::external_body]
pub(crate) fn secp_public_key(secret: &Vec<u8>) -> (r: Option<Vec<u8>>)
    requires
        secret@.len() == 32,
    ensures
        match r {
            Some(pk) => pubkey_of(secret@) == Some(pk@) && pk@.len() == 64,
            None => pubkey_of(secret@) is None,
        },
{
    let sk = libsecp256k1::SecretKey::parse_slice(secret.as_slice()).ok()?;
    let pk = libsecp256k1::PublicKey::from_secret_key(&sk);
    Some(pk.serialize()[1..65].to_vec())
}

} // verus!
