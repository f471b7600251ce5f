//! The ways a claim attempt can be rejected. Every rejection is
//! side-effect-free: the caller's state is exactly as it was before the call.

use vstd::prelude::*;

verus! {

/// Why a claim attempt was rejected.
#[derive(Clone, Copy, Debug, PartialEq, Eq, Structural)]
pub enum ClaimError {
    /// A structurally invalid input (wrong public key, address, account
    /// identifier or signature length), rejected before any cryptographic work.
    MalformedInput,
    /// Signature recovery failed, or the recovered signer does not own the
    /// claimed address; resubmission with a correct signature can succeed.
    InvalidSignature,
    /// The claimed address is already bound to a native account.
    AlreadyClaimed,
    /// The fund sweep could not be performed in full, so the whole claim was
    /// discarded.
    TransferError,
}

} // verus!
