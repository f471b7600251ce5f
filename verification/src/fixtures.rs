//! Well-known test accounts and a builder for a freshly seeded state, mirroring
//! the module's bootstrap: bob's shadow account starts with a balance of the
//! native asset, and the first block has height one.

use vstd::prelude::*;

use crate::address::{derive_shadow_account_id, eth_address_of, shadow_id_of, AccountId, EvmAddress};
use crate::balances::{bal, BalanceLedger, EntryV};
use crate::claim::Handler;
use crate::crypto::{keccak256, keccak256_of, pubkey_of, secp_public_key};
use crate::errors::ClaimError;
use crate::ledger::{ClaimLedger, RecordV};

verus! {

/// The asset identifier of the native currency.
pub const NATIVE_ASSET: u32 = 0;

/// The balance seeded under bob's shadow account.
pub const GENESIS_BALANCE: u128 = 100000;

/// Alice's secret key seed: the Keccak-256 digest of the name "Alice".
pub open spec fn alice_seed() -> Seq<u8> {
    keccak256_of(seq![65u8, 108u8, 105u8, 99u8, 101u8])
}

/// Bob's secret key seed: the Keccak-256 digest of the name "Bob".
pub open spec fn bob_seed() -> Seq<u8> {
    keccak256_of(seq![66u8, 111u8, 98u8])
}

/// Alice's secret key bytes.
pub fn alice() -> (r: Vec<u8>)
    ensures
        r@ == alice_seed(),
        r@.len() == 32,
{
    let mut name: Vec<u8> = Vec::new();
    name.push(65);
    name.push(108);
    name.push(105);
    name.push(99);
    name.push(101);
    assert(name@ =~= seq![65u8, 108u8, 105u8, 99u8, 101u8]);
    keccak256(&name)
}

/// Bob's secret key bytes.
pub fn bob() -> (r: Vec<u8>)
    ensures
        r@ == bob_seed(),
        r@.len() == 32,
{
    let mut name: Vec<u8> = Vec::new();
    name.push(66);
    name.push(111);
    name.push(98);
    assert(name@ =~= seq![66u8, 111u8, 98u8]);
    keccak256(&name)
}

/// The Ethereum address owned by a 32-byte secret key, or None when the bytes
/// are not a valid secret scalar.
pub fn eth_address(secret: &Vec<u8>) -> (r: Option<EvmAddress>)
    requires
        secret@.len() == 32,
    ensures
        match r {
            Some(a) => a.wf() && match pubkey_of(secret@) {
                Some(pk) => a@ == eth_address_of(pk),
                None => false,
            },
            None => pubkey_of(secret@) is None,
        },
{
    match secp_public_key(secret) {
        None => None,
        Some(pk) => {
            match crate::address::derive_ethereum_address(&pk) {
                Ok(a) => Some(a),
                Err(_) => {
                    proof {
                        assert(false);
                    }
                    None
                },
            }
        },
    }
}

/// The shadow account identifier of bob's Ethereum address.
pub fn bob_account_id() -> (r: Option<AccountId>)
    ensures
        match r {
            Some(id) => id.wf() && match pubkey_of(bob_seed()) {
                Some(pk) => id@ == shadow_id_of(eth_address_of(pk)),
                None => false,
            },
            None => pubkey_of(bob_seed()) is None,
        },
{
    let secret = bob();
    match eth_address(&secret) {
        Some(a) => Some(derive_shadow_account_id(&a)),
        None => None,
    }
}

/// An observer hook that accepts every claim and does nothing else.
pub struct EvmAccountsOnClaimHandler {}

impl Handler for EvmAccountsOnClaimHandler {
    fn handle(_who: &AccountId) -> (r: Result<(), ClaimError>)
        ensures
            r is Ok,
    {
        Ok(())
    }
}

/// A claim ledger, a balance store and the current block height, handed
/// together into each operation of a test run.
pub struct TestState {
    pub claims: ClaimLedger,
    pub balances: BalanceLedger,
    pub height: u64,
}

/// Builds the initial state for a test run.
#[derive(PartialEq, Eq, Structural)]
pub struct ExtBuilder {}

impl Default for ExtBuilder {
    fn default() -> (r: Self)
        ensures
            r == (ExtBuilder {  }),
    {
        ExtBuilder {  }
    }
}

impl ExtBuilder {
    /// The genesis state: no claims, height one, and — when bob's seed parses
    /// as a secret key — his shadow account holding the genesis balance of the
    /// native asset, every other balance zero.
    pub fn build(self) -> (r: TestState)
        ensures
            r.claims@ == Seq::<RecordV>::empty(),
            r.claims.wf(),
            r.balances.wf(),
            r.height == 1,
            match pubkey_of(bob_seed()) {
                Some(pk) => {
                    &&& bal(r.balances@, shadow_id_of(eth_address_of(pk)), NATIVE_ASSET)
                        == GENESIS_BALANCE
                    &&& forall|w: Seq<u8>, a: u32|
                        !(w == shadow_id_of(eth_address_of(pk)) && a == NATIVE_ASSET)
                            ==> bal(r.balances@, w, a) == 0
                },
                None => r.balances@ == Seq::<EntryV>::empty(),
            },
    {
        let claims = ClaimLedger::new();
        let mut balances = BalanceLedger::new();
        match bob_account_id() {
            Some(id) => {
                let ghost empty = balances@;
                proof {
                    crate::balances::lemma_bal_bounds(balances@, id@, NATIVE_ASSET);
                    assert(bal(empty, id@, NATIVE_ASSET) == 0);
                }
                match balances.deposit(&id, NATIVE_ASSET, GENESIS_BALANCE) {
                    Ok(_) => {},
                    Err(_) => {
                        proof {
                            assert(false);
                        }
                    },
                }
                proof {
                    assert forall|w: Seq<u8>, a: u32| !(w == id@ && a == NATIVE_ASSET) implies bal(
                        balances@,
                        w,
                        a,
                    ) == 0 by {
                        assert(bal(empty, w, a) == 0);
                        assert(balances.balance(w, a) == bal(balances@, w, a));
                    }
                }
            },
            None => {},
        }
        TestState { claims, balances, height: 1 }
    }
}

} // verus!
