//! The multi-currency balance store: per-account, per-asset amounts, with an
//! atomic all-asset sweep from one account to another. The store is an
//! explicit value handed into every operation, so a failed sweep leaves it
//! exactly as it was.

use vstd::prelude::*;
use vstd::pervasive::VecAdditionalExecFns;

use crate::address::AccountId;
use crate::bytes::bytes_eq;
use crate::errors::ClaimError;

verus! {

/// The mathematical content of one balance entry.
pub ghost struct EntryV {
    pub account: Seq<u8>,
    pub asset: u32,
    pub amount: u128,
}

/// What one entry contributes to the balance of `who` under `asset`.
pub open spec fn piece(e: EntryV, who: Seq<u8>, asset: u32) -> int {
    if e.account == who && e.asset == asset {
        e.amount as int
    } else {
        0
    }
}

/// The balance of `who` under `asset`: the sum of every matching entry.
pub open spec fn bal(s: Seq<EntryV>, who: Seq<u8>, asset: u32) -> int
    decreases s.len(),
{
    if s.len() == 0 {
        0
    } else {
        bal(s.drop_last(), who, asset) + piece(s.last(), who, asset)
    }
}

/// No two entries share an account and an asset.
pub open spec fn entries_unique(s: Seq<EntryV>) -> bool {
    forall|i: int, j: int|
        0 <= i < j < s.len() ==> !((#[trigger] s[i]).account == (#[trigger] s[j]).account
            && s[i].asset == s[j].asset)
}

/// Unique keys, and every account identifier holds 32 bytes.
pub open spec fn entries_wf(s: Seq<EntryV>) -> bool {
    entries_unique(s) && (forall|i: int|
        0 <= i < s.len() ==> (#[trigger] s[i]).account.len() == 32)
}

/// Every per-asset balance moves from `from` to `to`, and no other account is
/// touched; a sweep from an account to itself changes nothing.
pub open spec fn swept(pre: Seq<EntryV>, post: Seq<EntryV>, from: Seq<u8>, to: Seq<u8>) -> bool {
    if from == to {
        post == pre
    } else {
        (forall|a: u32| #[trigger] bal(post, from, a) == 0)
            && (forall|a: u32| #[trigger] bal(post, to, a) == bal(pre, to, a) + bal(pre, from, a))
            && (forall|w: Seq<u8>, a: u32|
                w != from && w != to ==> #[trigger] bal(post, w, a) == bal(pre, w, a))
    }
}

/// The sweep stays within the amount type: for every asset the sum of the two
/// balances fits in a u128.
pub open spec fn sweep_fits(s: Seq<EntryV>, from: Seq<u8>, to: Seq<u8>) -> bool {
    from == to || (forall|a: u32| #[trigger] bal(s, from, a) + bal(s, to, a) <= u128::MAX)
}

pub proof fn lemma_bal_push(s: Seq<EntryV>, e: EntryV, who: Seq<u8>, asset: u32)
    ensures
        bal(s.push(e), who, asset) == bal(s, who, asset) + piece(e, who, asset),
{
    assert(s.push(e).drop_last() =~= s);
    assert(s.push(e).last() == e);
}

pub proof fn lemma_bal_update(s: Seq<EntryV>, i: int, e: EntryV, who: Seq<u8>, asset: u32)
    requires
        0 <= i < s.len(),
    ensures
        bal(s.update(i, e), who, asset) == bal(s, who, asset) - piece(s[i], who, asset)
            + piece(e, who, asset),
    decreases s.len(),
{
    let t = s.update(i, e);
    if i == s.len() - 1 {
        assert(t.drop_last() =~= s.drop_last());
        assert(t.last() == e);
    } else {
        assert(t.drop_last() =~= s.drop_last().update(i, e));
        assert(t.last() == s.last());
        lemma_bal_update(s.drop_last(), i, e, who, asset);
        assert(s.drop_last()[i] == s[i]);
    }
}

pub proof fn lemma_bal_zero(s: Seq<EntryV>, who: Seq<u8>, asset: u32)
    requires
        forall|j: int| 0 <= j < s.len() ==> piece(#[trigger] s[j], who, asset) == 0,
    ensures
        bal(s, who, asset) == 0,
    decreases s.len(),
{
    if s.len() > 0 {
        assert forall|j: int| 0 <= j < s.drop_last().len() implies piece(
            #[trigger] s.drop_last()[j],
            who,
            asset,
        ) == 0 by {
            assert(s.drop_last()[j] == s[j]);
        }
        lemma_bal_zero(s.drop_last(), who, asset);
        assert(piece(s[s.len() - 1], who, asset) == 0);
    }
}

pub proof fn lemma_bal_found(s: Seq<EntryV>, i: int, who: Seq<u8>, asset: u32)
    requires
        entries_unique(s),
        0 <= i < s.len(),
        s[i].account == who,
        s[i].asset == asset,
    ensures
        bal(s, who, asset) == s[i].amount as int,
    decreases s.len(),
{
    if i == s.len() - 1 {
        assert forall|j: int| 0 <= j < s.drop_last().len() implies piece(
            #[trigger] s.drop_last()[j],
            who,
            asset,
        ) == 0 by {
            assert(s.drop_last()[j] == s[j]);
            assert(!(s[j].account == s[i].account && s[j].asset == s[i].asset));
        }
        lemma_bal_zero(s.drop_last(), who, asset);
    } else {
        assert(s.last() == s[s.len() - 1]);
        assert(!(s[i].account == s[s.len() - 1].account && s[i].asset == s[s.len() - 1].asset));
        assert(piece(s.last(), who, asset) == 0);
        assert forall|p: int, q: int| 0 <= p < q < s.drop_last().len() implies !((
        #[trigger] s.drop_last()[p]).account == (#[trigger] s.drop_last()[q]).account
            && s.drop_last()[p].asset == s.drop_last()[q].asset) by {
            assert(s.drop_last()[p] == s[p]);
            assert(s.drop_last()[q] == s[q]);
        }
        assert(s.drop_last()[i] == s[i]);
        lemma_bal_found(s.drop_last(), i, who, asset);
    }
}

/// Under unique keys every balance is one entry's amount or zero, so it fits
/// in a u128.
pub proof fn lemma_bal_bounds(s: Seq<EntryV>, who: Seq<u8>, asset: u32)
    requires
        entries_unique(s),
    ensures
        0 <= bal(s, who, asset) <= u128::MAX,
{
    if exists|i: int| 0 <= i < s.len() && (#[trigger] s[i]).account == who && s[i].asset == asset {
        let i = choose|i: int|
            0 <= i < s.len() && (#[trigger] s[i]).account == who && s[i].asset == asset;
        lemma_bal_found(s, i, who, asset);
    } else {
        assert forall|j: int| 0 <= j < s.len() implies piece(#[trigger] s[j], who, asset)
            == 0 by {
            assert(!(s[j].account == who && s[j].asset == asset));
        }
        lemma_bal_zero(s, who, asset);
    }
}

/// One balance entry: an account holds an amount of one asset.
pub struct BalanceEntry {
    pub account: AccountId,
    pub asset: u32,
    pub amount: u128,
}

impl View for BalanceEntry {
    type V = EntryV;

    open spec fn view(&self) -> EntryV {
        EntryV { account: self.account@, asset: self.asset, amount: self.amount }
    }
}

/// The multi-currency balance store.
pub struct BalanceLedger {
    entries: Vec<BalanceEntry>,
}

impl View for BalanceLedger {
    type V = Seq<EntryV>;

    closed spec fn view(&self) -> Seq<EntryV> {
        self.entries@.map_values(|e: BalanceEntry| e@)
    }
}

impl BalanceLedger {
    pub open spec fn wf(&self) -> bool {
        entries_wf(self@)
    }

    /// The balance of `who` under `asset`.
    pub open spec fn balance(&self, who: Seq<u8>, asset: u32) -> int {
        bal(self@, who, asset)
    }

    /// An empty store: every balance is zero.
    pub fn new() -> (r: BalanceLedger)
        ensures
            r@ == Seq::<EntryV>::empty(),
            r.wf(),
    {
        let r = BalanceLedger { entries: Vec::new() };
        assert(r@ =~= Seq::<EntryV>::empty());
        r
    }

    /// The index of the entry for `who` under `asset`, if there is one.
    fn find_index(&self, who: &AccountId, asset: u32) -> (r: Option<usize>)
        ensures
            match r {
                Some(i) => 0 <= i < self@.len() && self@[i as int].account == who@
                    && self@[i as int].asset == asset,
                None => forall|j: int|
                    0 <= j < self@.len() ==> !((#[trigger] self@[j]).account == who@
                        && self@[j].asset == asset),
            },
    {
        let mut i: usize = 0;
        while i < self.entries.len()
            invariant
                i <= self@.len(),
                self@.len() == self.entries@.len(),
                forall|j: int|
                    0 <= j < i ==> !((#[trigger] self@[j]).account == who@ && self@[j].asset
                        == asset),
            decreases self@.len() - i,
        {
            if self.entries[i].asset == asset
                && bytes_eq(self.entries[i].account.as_bytes(), who.as_bytes()) {
                assert(self@[i as int] == self.entries@[i as int]@);
                return Some(i);
            }
            i = i + 1;
        }
        None
    }

    /// Reads the balance of `who` under `asset`.
    pub fn balance_of(&self, who: &AccountId, asset: u32) -> (r: u128)
        requires
            self.wf(),
        ensures
            r as int == self.balance(who@, asset),
    {
        match self.find_index(who, asset) {
            Some(i) => {
                proof {
                    lemma_bal_found(self@, i as int, who@, asset);
                }
                self.entries[i].amount
            },
            None => {
                proof {
                    assert forall|j: int| 0 <= j < self@.len() implies piece(
                        #[trigger] self@[j],
                        who@,
                        asset,
                    ) == 0 by {}
                    lemma_bal_zero(self@, who@, asset);
                }
                0
            },
        }
    }

    /// Adds `amount` to the balance of `who` under `asset`; fails, changing
    /// nothing, exactly when the new balance would not fit in a u128.
    pub fn deposit(&mut self, who: &AccountId, asset: u32, amount: u128) -> (r: Result<
        (),
        ClaimError,
    >)
        requires
            old(self).wf(),
            who.wf(),
        ensures
            final(self).wf(),
            match r {
                Ok(_) => {
                    &&& old(self).balance(who@, asset) + amount <= u128::MAX
                    &&& final(self).balance(who@, asset) == old(self).balance(who@, asset)
                        + amount
                    &&& forall|w: Seq<u8>, a: u32|
                        !(w == who@ && a == asset) ==> #[trigger] final(self).balance(w, a)
                            == old(self).balance(w, a)
                },
                Err(e) => {
                    &&& e == ClaimError::TransferError
                    &&& old(self).balance(who@, asset) + amount > u128::MAX
                    &&& final(self)@ == old(self)@
                },
            },
    {
        match self.find_index(who, asset) {
            Some(i) => {
                let cur = self.entries[i].amount;
                proof {
                    lemma_bal_found(self@, i as int, who@, asset);
                }
                if amount > u128::MAX - cur {
                    Err(ClaimError::TransferError)
                } else {
                    let acct = self.entries[i].account.duplicate();
                    let ghost pre = self@;
                    self.entries.set(
                        i,
                        BalanceEntry { account: acct, asset, amount: cur + amount },
                    );
                    proof {
                        let e = EntryV { account: who@, asset, amount: (cur + amount) as u128 };
                        assert(self@ =~= pre.update(i as int, e));
                        lemma_bal_update(pre, i as int, e, who@, asset);
                        assert forall|w: Seq<u8>, a: u32| !(w == who@ && a == asset) implies
                            #[trigger] bal(self@, w, a) == bal(pre, w, a) by {
                            lemma_bal_update(pre, i as int, e, w, a);
                        }
                        assert forall|p: int, q: int| 0 <= p < q < self@.len() implies !((
                        #[trigger] self@[p]).account == (#[trigger] self@[q]).account
                            && self@[p].asset == self@[q].asset) by {
                            assert(pre[p].account == self@[p].account && pre[p].asset
                                == self@[p].asset);
                            assert(pre[q].account == self@[q].account && pre[q].asset
                                == self@[q].asset);
                        }
                    }
                    Ok(())
                }
            },
            None => {
                proof {
                    assert forall|j: int| 0 <= j < self@.len() implies piece(
                        #[trigger] self@[j],
                        who@,
                        asset,
                    ) == 0 by {}
                    lemma_bal_zero(self@, who@, asset);
                }
                let ghost pre = self@;
                self.entries.push(BalanceEntry { account: who.duplicate(), asset, amount });
                proof {
                    let e = EntryV { account: who@, asset, amount };
                    assert(self@ =~= pre.push(e));
                    lemma_bal_push(pre, e, who@, asset);
                    assert forall|w: Seq<u8>, a: u32| !(w == who@ && a == asset) implies
                        #[trigger] bal(self@, w, a) == bal(pre, w, a) by {
                        lemma_bal_push(pre, e, w, a);
                    }
                }
                Ok(())
            },
        }
    }

    /// Moves every per-asset balance of `from` to `to`, atomically: either all
    /// balances move, or (when some combined balance would not fit in a u128)
    /// nothing changes. Sweeping an account into itself is a no-op success.
    pub fn transfer_all(&mut self, from: &AccountId, to: &AccountId) -> (r: Result<
        (),
        ClaimError,
    >)
        requires
            old(self).wf(),
            from.wf(),
            to.wf(),
        ensures
            final(self).wf(),
            match r {
                Ok(_) => sweep_fits(old(self)@, from@, to@) && swept(
                    old(self)@,
                    final(self)@,
                    from@,
                    to@,
                ),
                Err(e) => {
                    &&& e == ClaimError::TransferError
                    &&& !sweep_fits(old(self)@, from@, to@)
                    &&& final(self)@ == old(self)@
                },
            },
    {
        if bytes_eq(from.as_bytes(), to.as_bytes()) {
            return Ok(());
        }
        let n = self.entries.len();
        // First pass, read-only: reject the sweep if any combined balance
        // would overflow, before anything is moved.
        let mut i: usize = 0;
        while i < n
            invariant
                self.wf(),
                from@ != to@,
                n == self@.len(),
                i <= n,
                forall|j: int|
                    0 <= j < i && (#[trigger] self@[j]).account == from@ ==> self@[j].amount
                        + bal(self@, to@, self@[j].asset) <= u128::MAX,
            decreases n - i,
        {
            if bytes_eq(self.entries[i].account.as_bytes(), from.as_bytes()) {
                let asset = self.entries[i].asset;
                let amt = self.entries[i].amount;
                let b = self.balance_of(to, asset);
                if amt > u128::MAX - b {
                    proof {
                        assert(self@[i as int].account == from@ && self@[i as int].asset
                            == asset);
                        lemma_bal_found(self@, i as int, from@, asset);
                        assert(bal(self@, from@, asset) + bal(self@, to@, asset) > u128::MAX);
                    }
                    return Err(ClaimError::TransferError);
                }
                assert(self@[i as int].amount + bal(self@, to@, self@[i as int].asset)
                    <= u128::MAX);
            }
            i = i + 1;
        }
        proof {
            assert forall|a: u32| #[trigger] bal(self@, from@, a) + bal(self@, to@, a)
                <= u128::MAX by {
                if exists|j: int|
                    0 <= j < self@.len() && (#[trigger] self@[j]).account == from@
                        && self@[j].asset == a {
                    let j = choose|j: int|
                        0 <= j < self@.len() && (#[trigger] self@[j]).account == from@
                            && self@[j].asset == a;
                    lemma_bal_found(self@, j, from@, a);
                } else {
                    assert forall|j: int| 0 <= j < self@.len() implies piece(
                        #[trigger] self@[j],
                        from@,
                        a,
                    ) == 0 by {
                        assert(!(self@[j].account == from@ && self@[j].asset == a));
                    }
                    lemma_bal_zero(self@, from@, a);
                    lemma_bal_bounds(self@, to@, a);
                }
            }
        }
        // Second pass: zero each of `from`'s entries and credit `to` with the
        // amount; the first pass guarantees no addition overflows.
        let mut i: usize = 0;
        while i < n
            invariant
                self.wf(),
                from@ != to@,
                from@.len() == 32,
                to@.len() == 32,
                i <= n,
                n <= self@.len(),
                forall|a: u32| #[trigger] bal(old(self)@, from@, a) + bal(old(self)@, to@, a)
                    <= u128::MAX,
                forall|a: u32| #[trigger] bal(self@, from@, a) + bal(self@, to@, a) == bal(
                    old(self)@,
                    from@,
                    a,
                ) + bal(old(self)@, to@, a),
                forall|w: Seq<u8>, a: u32|
                    w != from@ && w != to@ ==> #[trigger] bal(self@, w, a) == bal(
                        old(self)@,
                        w,
                        a,
                    ),
                forall|j: int|
                    0 <= j < i && (#[trigger] self@[j]).account == from@ ==> self@[j].amount
                        == 0,
                forall|j: int| n <= j < self@.len() ==> (#[trigger] self@[j]).account == to@,
            decreases n - i,
        {
            let is_from = bytes_eq(self.entries[i].account.as_bytes(), from.as_bytes());
            if is_from && self.entries[i].amount > 0 {
                let asset = self.entries[i].asset;
                let amt = self.entries[i].amount;
                let acct = self.entries[i].account.duplicate();
                let ghost s0 = self@;
                self.entries.set(i, BalanceEntry { account: acct, asset, amount: 0 });
                let ghost s1 = self@;
                proof {
                    let ez = EntryV { account: from@, asset, amount: 0 };
                    assert(s1 =~= s0.update(i as int, ez));
                    assert(piece(s0[i as int], from@, asset) == amt as int);
                    lemma_bal_update(s0, i as int, ez, from@, asset);
                    assert(bal(s1, from@, asset) == bal(s0, from@, asset) - amt);
                    assert forall|w: Seq<u8>, a: u32| !(w == from@ && a == asset) implies
                        #[trigger] bal(s1, w, a) == bal(s0, w, a) by {
                        lemma_bal_update(s0, i as int, ez, w, a);
                    }
                    assert forall|p: int, q: int| 0 <= p < q < s1.len() implies !((
                    #[trigger] s1[p]).account == (#[trigger] s1[q]).account && s1[p].asset
                        == s1[q].asset) by {
                        assert(s0[p].account == s1[p].account && s0[p].asset == s1[p].asset);
                        assert(s0[q].account == s1[q].account && s0[q].asset == s1[q].asset);
                    }
                    lemma_bal_bounds(s1, from@, asset);
                    assert(amt as int <= bal(s0, from@, asset));
                }
                match self.find_index(to, asset) {
                    Some(j) => {
                        let cur = self.entries[j].amount;
                        proof {
                            lemma_bal_found(s1, j as int, to@, asset);
                            assert(cur as int == bal(s1, to@, asset));
                            assert(bal(s1, to@, asset) == bal(s0, to@, asset));
                            assert(bal(s0, from@, asset) + bal(s0, to@, asset) <= u128::MAX);
                        }
                        let acct2 = self.entries[j].account.duplicate();
                        self.entries.set(
                            j,
                            BalanceEntry { account: acct2, asset, amount: cur + amt },
                        );
                        proof {
                            let eb = EntryV { account: to@, asset, amount: (cur + amt) as u128 };
                            assert(self@ =~= s1.update(j as int, eb));
                            assert(piece(s1[j as int], to@, asset) == cur as int);
                            lemma_bal_update(s1, j as int, eb, to@, asset);
                            assert(bal(self@, to@, asset) == bal(s1, to@, asset) + amt);
                            assert forall|w: Seq<u8>, a: u32| !(w == to@ && a == asset) implies
                                #[trigger] bal(self@, w, a) == bal(s1, w, a) by {
                                lemma_bal_update(s1, j as int, eb, w, a);
                            }
                            assert forall|p: int, q: int| 0 <= p < q < self@.len() implies !((
                            #[trigger] self@[p]).account == (#[trigger] self@[q]).account
                                && self@[p].asset == self@[q].asset) by {
                                assert(s1[p].account == self@[p].account && s1[p].asset
                                    == self@[p].asset);
                                assert(s1[q].account == self@[q].account && s1[q].asset
                                    == self@[q].asset);
                            }
                        }
                    },
                    None => {
                        proof {
                            assert forall|j: int| 0 <= j < s1.len() implies piece(
                                #[trigger] s1[j],
                                to@,
                                asset,
                            ) == 0 by {
                                assert(!(s1[j].account == to@ && s1[j].asset == asset));
                            }
                            lemma_bal_zero(s1, to@, asset);
                        }
                        self.entries.push(BalanceEntry { account: to.duplicate(), asset, amount: amt });
                        proof {
                            let eb = EntryV { account: to@, asset, amount: amt };
                            assert(self@ =~= s1.push(eb));
                            lemma_bal_push(s1, eb, to@, asset);
                            assert forall|w: Seq<u8>, a: u32| !(w == to@ && a == asset) implies
                                #[trigger] bal(self@, w, a) == bal(s1, w, a) by {
                                lemma_bal_push(s1, eb, w, a);
                            }
                            assert forall|p: int, q: int| 0 <= p < q < self@.len() implies !((
                            #[trigger] self@[p]).account == (#[trigger] self@[q]).account
                                && self@[p].asset == self@[q].asset) by {
                                if q == self@.len() - 1 {
                                    assert(self@[p] == s1[p]);
                                    assert(!(s1[p].account == to@ && s1[p].asset == asset));
                                } else {
                                    assert(self@[p] == s1[p]);
                                    assert(self@[q] == s1[q]);
                                }
                            }
                        }
                    },
                }
            }
            i = i + 1;
        }
        proof {
            assert forall|a: u32| #[trigger] bal(self@, from@, a) == 0 by {
                assert forall|j: int| 0 <= j < self@.len() implies piece(
                    #[trigger] self@[j],
                    from@,
                    a,
                ) == 0 by {
                    if self@[j].account == from@ {
                        assert(j < n as int);
                        assert(self@[j].amount == 0);
                    }
                }
                lemma_bal_zero(self@, from@, a);
            }
            assert forall|a: u32| #[trigger] bal(self@, to@, a) == bal(old(self)@, to@, a)
                + bal(old(self)@, from@, a) by {
                assert(bal(self@, from@, a) + bal(self@, to@, a) == bal(old(self)@, from@, a)
                    + bal(old(self)@, to@, a));
                assert(bal(self@, from@, a) == 0);
            }
            assert(sweep_fits(old(self)@, from@, to@));
            assert(swept(old(self)@, self@, from@, to@));
        }
        Ok(())
    }
}

} // verus!
