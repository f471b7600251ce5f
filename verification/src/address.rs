//! Address codec: the 20-byte Ethereum address of a secp256k1 public key, and
//! the deterministic 32-byte "shadow" native account identifier of an address.

use vstd::prelude::*;

use crate::bytes::push_bytes;
use crate::crypto::{keccak256, keccak256_of};
use crate::errors::ClaimError;

verus! {

/// A 20-byte Ethereum address.
#[derive(Debug)]
pub struct EvmAddress {
    bytes: Vec<u8>,
}

/// A 32-byte native account identifier.
#[derive(Debug)]
pub struct AccountId {
    bytes: Vec<u8>,
}

impl View for EvmAddress {
    type V = Seq<u8>;

    closed spec fn view(&self) -> Seq<u8> {
        self.bytes@
    }
}

impl View for AccountId {
    type V = Seq<u8>;

    closed spec fn view(&self) -> Seq<u8> {
        self.bytes@
    }
}

impl EvmAddress {
    /// Every address holds exactly 20 bytes.
    pub open spec fn wf(&self) -> bool {
        self@.len() == 20
    }

    /// Wraps 20 bytes as an address; any other length is malformed.
    pub fn new(bytes: Vec<u8>) -> (r: Result<EvmAddress, ClaimError>)
        ensures
            match r {
                Ok(a) => bytes@.len() == 20 && a.wf() && a@ == bytes@,
                Err(e) => bytes@.len() != 20 && e == ClaimError::MalformedInput,
            },
    {
        if bytes.len() == 20 {
            Ok(EvmAddress { bytes })
        } else {
            Err(ClaimError::MalformedInput)
        }
    }

    pub fn as_bytes(&self) -> (r: &Vec<u8>)
        ensures
            r@ == self@,
    {
        &self.bytes
    }

    /// A copy holding the same bytes.
    pub fn duplicate(&self) -> (r: EvmAddress)
        ensures
            r@ == self@,
    {
        let mut out: Vec<u8> = Vec::new();
        push_bytes(&mut out, &self.bytes);
        assert(out@ =~= self@);
        EvmAddress { bytes: out }
    }
}

impl AccountId {
    /// Every native account identifier holds exactly 32 bytes.
    pub open spec fn wf(&self) -> bool {
        self@.len() == 32
    }

    /// Wraps 32 bytes as a native account identifier; any other length is
    /// malformed.
    pub fn new(bytes: Vec<u8>) -> (r: Result<AccountId, ClaimError>)
        ensures
            match r {
                Ok(a) => bytes@.len() == 32 && a.wf() && a@ == bytes@,
                Err(e) => bytes@.len() != 32 && e == ClaimError::MalformedInput,
            },
    {
        if bytes.len() == 32 {
            Ok(AccountId { bytes })
        } else {
            Err(ClaimError::MalformedInput)
        }
    }

    pub fn as_bytes(&self) -> (r: &Vec<u8>)
        ensures
            r@ == self@,
    {
        &self.bytes
    }

    /// A copy holding the same bytes.
    pub fn duplicate(&self) -> (r: AccountId)
        ensures
            r@ == self@,
    {
        let mut out: Vec<u8> = Vec::new();
        push_bytes(&mut out, &self.bytes);
        assert(out@ =~= self@);
        AccountId { bytes: out }
    }
}

/// The four tag bytes "evm:" that open every shadow account identifier.
pub open spec fn shadow_tag() -> Seq<u8> {
    seq![101u8, 118u8, 109u8, 58u8]
}

/// The Ethereum address of a 64-byte uncompressed public key: the last 20
/// bytes of the Keccak-256 digest of the key bytes.
pub open spec fn eth_address_of(pubkey: Seq<u8>) -> Seq<u8> {
    keccak256_of(pubkey).subrange(12, 32)
}

/// The shadow account identifier of an address: the tag "evm:", then the 20
/// address bytes, then eight zero bytes.
pub open spec fn shadow_id_of(addr: Seq<u8>) -> Seq<u8> {
    shadow_tag() + addr + Seq::new(8, |i: int| 0u8)
}

/// Derives the Ethereum address owned by an uncompressed 64-byte secp256k1
/// public key (the encoding without its leading tag byte). Any other length
/// is malformed.
pub fn derive_ethereum_address(public_key: &Vec<u8>) -> (r: Result<EvmAddress, ClaimError>)
    ensures
        match r {
            Ok(a) => public_key@.len() == 64 && a.wf() && a@ == eth_address_of(public_key@),
            Err(e) => public_key@.len() != 64 && e == ClaimError::MalformedInput,
        },
{
    if public_key.len() != 64 {
        return Err(ClaimError::MalformedInput);
    }
    let digest = keccak256(public_key);
    let mut out: Vec<u8> = Vec::new();
    let mut i: usize = 12;
    while i < 32
        invariant
            12 <= i <= 32,
            digest@.len() == 32,
            digest@ == keccak256_of(public_key@),
            out@ == digest@.subrange(12, i as int),
        decreases 32 - i,
    {
        out.push(digest[i]);
        assert(out@ =~= digest@.subrange(12, i + 1));
        i = i + 1;
    }
    assert(out@ =~= eth_address_of(public_key@));
    Ok(EvmAddress { bytes: out })
}

/// Derives the shadow account identifier under which funds sent to an address
/// accrue before the address is claimed. Bit-for-bit reproducible: the tag
/// "evm:" at offset 0, the address at offset 4, zero bytes at offsets 24..32.
pub fn derive_shadow_account_id(address: &EvmAddress) -> (r: AccountId)
    requires
        address.wf(),
    ensures
        r.wf(),
        r@ == shadow_id_of(address@),
        r@.subrange(0, 4) == shadow_tag(),
{
    let mut out: Vec<u8> = Vec::new();
    out.push(101);
    out.push(118);
    out.push(109);
    out.push(58);
    assert(out@ =~= shadow_tag());
    push_bytes(&mut out, address.as_bytes());
    let mut i: usize = 0;
    while i < 8
        invariant
            i <= 8,
            out@ == shadow_tag() + address@ + Seq::new(i as nat, |j: int| 0u8),
        decreases 8 - i,
    {
        out.push(0);
        assert(out@ =~= shadow_tag() + address@ + Seq::new((i + 1) as nat, |j: int| 0u8));
        i = i + 1;
    }
    assert(out@ =~= shadow_id_of(address@));
    assert(out@.subrange(0, 4) =~= shadow_tag());
    AccountId { bytes: out }
}

/// Law: the Ethereum address of a public key is a function of the key bytes
/// alone, so every caller derives the same address from the same key.
pub proof fn lemma_eth_address_deterministic(pk1: Seq<u8>, pk2: Seq<u8>)
    requires
        pk1 == pk2,
    ensures
        eth_address_of(pk1) == eth_address_of(pk2),
{
}

/// Law: every shadow account identifier opens with the tag bytes "evm:".
pub proof fn lemma_shadow_id_tag(addr: Seq<u8>)
    ensures
        shadow_id_of(addr).subrange(0, 4) == shadow_tag(),
{
    assert(shadow_id_of(addr).subrange(0, 4) =~= shadow_tag());
}

/// Law: shadow account derivation is injective — two distinct addresses never
/// share a shadow account identifier.
pub proof fn lemma_shadow_id_injective(a1: Seq<u8>, a2: Seq<u8>)
    requires
        a1.len() == 20,
        a2.len() == 20,
        shadow_id_of(a1) == shadow_id_of(a2),
    ensures
        a1 == a2,
{
    assert forall|i: int| 0 <= i < 20 implies a1[i] == a2[i] by {
        assert(shadow_id_of(a1)[4 + i] == a1[i]);
        assert(shadow_id_of(a2)[4 + i] == a2[i]);
    }
    assert(a1 =~= a2);
}

} // verus!
