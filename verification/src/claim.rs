//! The claim coordinator: verifies that the caller controls the claimed
//! Ethereum address, checks the ledger's uniqueness invariant, sweeps every
//! balance from the address's shadow account to the claim target, and records
//! the binding — all within one call, so a rejected claim is side-effect-free.

use vstd::prelude::*;

use crate::address::{
    derive_shadow_account_id, eth_address_of, shadow_id_of, AccountId, EvmAddress,
};
use crate::balances::{sweep_fits, swept, BalanceLedger, EntryV};
use crate::bytes::{bytes_eq, push_bytes, push_u64_le, u64_le_bytes};
use crate::crypto::{ecdsa_recover, keccak256, keccak256_of, recover_of};
use crate::errors::ClaimError;
use crate::ledger::{ledger_contains, ClaimLedger, ClaimRecord, RecordV};

verus! {

/// The challenge a claimant signs: the Keccak-256 digest of the target native
/// account identifier followed by the little-endian nonce, binding the
/// signature to one target and one replay-protection nonce.
pub open spec fn challenge_of(target: Seq<u8>, nonce: u64) -> Seq<u8> {
    keccak256_of(target + u64_le_bytes(nonce))
}

/// The signature consists of 65 bytes, a signer can be recovered from it over
/// the challenge for `target` and `nonce`, and that signer's Ethereum address
/// is `addr`.
pub open spec fn signature_ok(target: Seq<u8>, nonce: u64, addr: Seq<u8>, sig: Seq<u8>) -> bool {
    sig.len() == 65 && match recover_of(challenge_of(target, nonce), sig) {
        Some(pk) => eth_address_of(pk) == addr,
        None => false,
    }
}

/// Computes the challenge digest a claimant must sign for this target and
/// nonce.
pub fn challenge_digest(target: &AccountId, nonce: u64) -> (r: Vec<u8>)
    requires
        target.wf(),
    ensures
        r@ == challenge_of(target@, nonce),
        r@.len() == 32,
{
    let mut message: Vec<u8> = Vec::new();
    push_bytes(&mut message, target.as_bytes());
    push_u64_le(&mut message, nonce);
    assert(message@ =~= target@ + u64_le_bytes(nonce));
    keccak256(&message)
}

/// Checks that `signature` was produced over the challenge for `target` and
/// `nonce` by the private key owning `claimed`: recovers the signer's public
/// key and compares its derived Ethereum address with the claimed one. A
/// malformed signature or a failed recovery yields false, never a panic.
pub fn verify_claim(target: &AccountId, nonce: u64, signature: &Vec<u8>, claimed: &EvmAddress) -> (r:
    bool)
    requires
        target.wf(),
        claimed.wf(),
    ensures
        r == signature_ok(target@, nonce, claimed@, signature@),
{
    if signature.len() != 65 {
        return false;
    }
    let digest = challenge_digest(target, nonce);
    match ecdsa_recover(&digest, signature) {
        None => false,
        Some(pk) => {
            match crate::address::derive_ethereum_address(&pk) {
                Ok(a) => bytes_eq(a.as_bytes(), claimed.as_bytes()),
                Err(_) => {
                    proof {
                        assert(false);
                    }
                    false
                },
            }
        },
    }
}

/// Why a claim attempt is rejected, given the state it starts from — or None
/// when it succeeds. The checks happen in this order: signature shape, then
/// signature validity, then ledger uniqueness, then sweep feasibility.
pub open spec fn claim_error_of(
    claims: Seq<RecordV>,
    balances: Seq<EntryV>,
    target: Seq<u8>,
    addr: Seq<u8>,
    sig: Seq<u8>,
    nonce: u64,
) -> Option<ClaimError> {
    if sig.len() != 65 {
        Some(ClaimError::MalformedInput)
    } else if !signature_ok(target, nonce, addr, sig) {
        Some(ClaimError::InvalidSignature)
    } else if ledger_contains(claims, addr) {
        Some(ClaimError::AlreadyClaimed)
    } else if !sweep_fits(balances, shadow_id_of(addr), target) {
        Some(ClaimError::TransferError)
    } else {
        None
    }
}

/// An observer of successful claims, for users of this module to implement.
/// Its outcome is ignored, so a failing observer never unwinds a committed
/// claim.
pub trait Handler {
    fn handle(who: &AccountId) -> Result<(), ClaimError>;
}

/// Binds `evm_address` to `target`: verifies the signature over the challenge
/// for `target` and `nonce`, rejects an address that is already claimed,
/// atomically sweeps every balance from the address's shadow account into
/// `target`, records the binding at height `height`, and notifies the observer
/// `H`. On any rejection both ledgers are left exactly as they were.
pub fn claim<H: Handler>(
    claims: &mut ClaimLedger,
    balances: &mut BalanceLedger,
    target: &AccountId,
    evm_address: &EvmAddress,
    signature: &Vec<u8>,
    nonce: u64,
    height: u64,
) -> (r: Result<ClaimRecord, ClaimError>)
    requires
        old(claims).wf(),
        old(balances).wf(),
        target.wf(),
        evm_address.wf(),
    ensures
        final(claims).wf(),
        final(balances).wf(),
        match r {
            Ok(rec) => {
                &&& claim_error_of(
                    old(claims)@,
                    old(balances)@,
                    target@,
                    evm_address@,
                    signature@,
                    nonce,
                ) is None
                &&& rec@.evm_address == evm_address@
                &&& rec@.native_id == target@
                &&& rec@.claimed_at == height
                &&& final(claims)@ == old(claims)@.push(rec@)
                &&& swept(old(balances)@, final(balances)@, shadow_id_of(evm_address@), target@)
            },
            Err(e) => {
                &&& Some(e) == claim_error_of(
                    old(claims)@,
                    old(balances)@,
                    target@,
                    evm_address@,
                    signature@,
                    nonce,
                )
                &&& final(claims)@ == old(claims)@
                &&& final(balances)@ == old(balances)@
            },
        },
{
    if signature.len() != 65 {
        return Err(ClaimError::MalformedInput);
    }
    if !verify_claim(target, nonce, signature, evm_address) {
        return Err(ClaimError::InvalidSignature);
    }
    match claims.lookup(evm_address) {
        Some(_) => {
            return Err(ClaimError::AlreadyClaimed);
        },
        None => {},
    }
    let shadow = derive_shadow_account_id(evm_address);
    match balances.transfer_all(&shadow, target) {
        Err(e) => {
            return Err(e);
        },
        Ok(_) => {},
    }
    let record = ClaimRecord {
        evm_address: evm_address.duplicate(),
        native_id: target.duplicate(),
        claimed_at: height,
    };
    let returned = record.duplicate();
    match claims.insert(record) {
        Ok(_) => {},
        Err(e) => {
            proof {
                assert(false);
            }
            return Err(e);
        },
    }
    let _ = H::handle(target);
    Ok(returned)
}

/// Law: a claim is judged against the challenge for the target identifier the
/// caller supplies, so a well-formed signature that does not verify over that
/// challenge — among them one produced over another target's challenge, unless
/// the recovered signer happens to own the address — is rejected with
/// InvalidSignature, before any state is read or touched.
pub proof fn lemma_replay_protection(
    claims: Seq<RecordV>,
    balances: Seq<EntryV>,
    target: Seq<u8>,
    addr: Seq<u8>,
    sig: Seq<u8>,
    nonce: u64,
)
    requires
        sig.len() == 65,
        !signature_ok(target, nonce, addr, sig),
    ensures
        claim_error_of(claims, balances, target, addr, sig, nonce) == Some(
            ClaimError::InvalidSignature,
        ),
{
}

/// Law: once an address is bound, any further claim attempt for it — however
/// well signed — is rejected with AlreadyClaimed.
pub proof fn lemma_second_claim_rejected(
    claims: Seq<RecordV>,
    balances: Seq<EntryV>,
    target: Seq<u8>,
    addr: Seq<u8>,
    sig: Seq<u8>,
    nonce: u64,
)
    requires
        signature_ok(target, nonce, addr, sig),
        ledger_contains(claims, addr),
    ensures
        claim_error_of(claims, balances, target, addr, sig, nonce) == Some(
            ClaimError::AlreadyClaimed,
        ),
{
}

/// Law: of two claim attempts racing for one address, at most one commits.
/// After the winner's record is pushed, the loser's attempt cannot succeed,
/// and is rejected with AlreadyClaimed whenever its own signature is good.
pub proof fn lemma_race_single_winner(
    claims: Seq<RecordV>,
    rec: RecordV,
    balances: Seq<EntryV>,
    target2: Seq<u8>,
    sig2: Seq<u8>,
    nonce2: u64,
)
    ensures
        claim_error_of(claims.push(rec), balances, target2, rec.evm_address, sig2, nonce2)
            is Some,
        signature_ok(target2, nonce2, rec.evm_address, sig2) ==> claim_error_of(
            claims.push(rec),
            balances,
            target2,
            rec.evm_address,
            sig2,
            nonce2,
        ) == Some(ClaimError::AlreadyClaimed),
{
    let l = claims.push(rec);
    assert(0 <= claims.len() < l.len() && l[claims.len() as int].evm_address == rec.evm_address);
    assert(ledger_contains(l, rec.evm_address));
}

} // verus!
