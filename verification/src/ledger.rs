//! The claim ledger: a durable mapping from Ethereum addresses to claim
//! records, with at most one record per address.

use vstd::prelude::*;

use crate::address::{AccountId, EvmAddress};
use crate::bytes::bytes_eq;
use crate::errors::ClaimError;

verus! {

/// The mathematical content of a claim record.
pub ghost struct RecordV {
    pub evm_address: Seq<u8>,
    pub native_id: Seq<u8>,
    pub claimed_at: u64,
}

/// The binding of an Ethereum address to a native account, created exactly
/// once per address and immutable afterwards.
#[derive(Debug)]
pub struct ClaimRecord {
    pub evm_address: EvmAddress,
    pub native_id: AccountId,
    pub claimed_at: u64,
}

impl View for ClaimRecord {
    type V = RecordV;

    open spec fn view(&self) -> RecordV {
        RecordV {
            evm_address: self.evm_address@,
            native_id: self.native_id@,
            claimed_at: self.claimed_at,
        }
    }
}

impl ClaimRecord {
    /// Every record binds a 20-byte address to a 32-byte account identifier.
    pub open spec fn wf(&self) -> bool {
        record_wf(self@)
    }

    /// A copy holding the same binding.
    pub fn duplicate(&self) -> (r: ClaimRecord)
        ensures
            r@ == self@,
    {
        ClaimRecord {
            evm_address: self.evm_address.duplicate(),
            native_id: self.native_id.duplicate(),
            claimed_at: self.claimed_at,
        }
    }
}

/// A record is well formed when its address holds 20 bytes and its native
/// account identifier 32.
pub open spec fn record_wf(r: RecordV) -> bool {
    r.evm_address.len() == 20 && r.native_id.len() == 32
}

/// Some record in `l` binds `addr`.
pub open spec fn ledger_contains(l: Seq<RecordV>, addr: Seq<u8>) -> bool {
    exists|i: int| 0 <= i < l.len() && l[i].evm_address == addr
}

/// Every record is well formed and no two records bind the same address.
pub open spec fn ledger_wf(l: Seq<RecordV>) -> bool {
    (forall|i: int| 0 <= i < l.len() ==> record_wf(#[trigger] l[i]))
        && (forall|i: int, j: int|
            0 <= i < j < l.len() ==> (#[trigger] l[i]).evm_address != (#[trigger] l[j]).evm_address)
}

/// The durable mapping from Ethereum addresses to claim records.
pub struct ClaimLedger {
    records: Vec<ClaimRecord>,
}

impl View for ClaimLedger {
    type V = Seq<RecordV>;

    closed spec fn view(&self) -> Seq<RecordV> {
        self.records@.map_values(|r: ClaimRecord| r@)
    }
}

impl ClaimLedger {
    /// At most one record per address, every record well formed.
    pub open spec fn wf(&self) -> bool {
        ledger_wf(self@)
    }

    /// An empty ledger: no address is claimed.
    pub fn new() -> (r: ClaimLedger)
        ensures
            r@ == Seq::<RecordV>::empty(),
            r.wf(),
    {
        let r = ClaimLedger { records: Vec::new() };
        assert(r@ =~= Seq::<RecordV>::empty());
        r
    }

    /// The record binding `addr`, if the address has been claimed.
    pub fn lookup(&self, addr: &EvmAddress) -> (r: Option<ClaimRecord>)
        requires
            self.wf(),
        ensures
            match r {
                Some(rec) => {
                    &&& ledger_contains(self@, addr@)
                    &&& rec@.evm_address == addr@
                    &&& exists|i: int| 0 <= i < self@.len() && self@[i] == rec@
                },
                None => !ledger_contains(self@, addr@),
            },
    {
        let mut i: usize = 0;
        while i < self.records.len()
            invariant
                i <= self@.len(),
                self@.len() == self.records@.len(),
                forall|j: int| 0 <= j < i ==> (#[trigger] self@[j]).evm_address != addr@,
                forall|j: int| 0 <= j < self@.len() ==> self@[j] == self.records@[j]@,
            decreases self@.len() - i,
        {
            if bytes_eq(self.records[i].evm_address.as_bytes(), addr.as_bytes()) {
                let rec = self.records[i].duplicate();
                assert(self@[i as int] == rec@);
                assert(0 <= i < self@.len() && self@[i as int].evm_address == addr@);
                return Some(rec);
            }
            i = i + 1;
        }
        None
    }

    /// Records a binding, enforcing uniqueness: fails with AlreadyClaimed, and
    /// changes nothing, if some record already binds the same address.
    pub fn insert(&mut self, record: ClaimRecord) -> (r: Result<(), ClaimError>)
        requires
            old(self).wf(),
            record.wf(),
        ensures
            final(self).wf(),
            match r {
                Ok(_) => {
                    &&& !ledger_contains(old(self)@, record@.evm_address)
                    &&& final(self)@ == old(self)@.push(record@)
                },
                Err(e) => {
                    &&& e == ClaimError::AlreadyClaimed
                    &&& ledger_contains(old(self)@, record@.evm_address)
                    &&& final(self)@ == old(self)@
                },
            },
    {
        match self.lookup(&record.evm_address) {
            Some(_) => Err(ClaimError::AlreadyClaimed),
            None => {
                self.records.push(record);
                assert(self@ =~= old(self)@.push(record@));
                assert forall|i: int, j: int| 0 <= i < j < self@.len() implies (
                    #[trigger] self@[i]).evm_address != (#[trigger] self@[j]).evm_address by {
                    if j + 1 == self@.len() {
                        assert(self@[i] == old(self)@[i]);
                    }
                }
                Ok(())
            },
        }
    }
}

} // verus!
