use vstd::prelude::*;

use crate::address::{same_identity, Identity};
use crate::error::LedgerError;

verus! {

/// An account of the ledger is named by its holder and the asset it holds.
pub type AccountKey = (Seq<u8>, Seq<u8>);

/// The ledger's state: the balance of every account that exists.
pub type Balances = Map<AccountKey, u64>;

/// One account: who holds it, which asset, and how much of it.
#[derive(Clone, Copy, Debug)]
pub struct TokenAccount {
    pub holder: Identity,
    pub asset: Identity,
    pub amount: u64,
}

impl TokenAccount {
    pub open spec fn key(self) -> AccountKey {
        (self.holder@, self.asset@)
    }
}

/// The effect of `create_account`: a new empty account, unless it exists.
pub open spec fn create_outcome(m: Balances, holder: Seq<u8>, asset: Seq<u8>) -> Result<Balances, LedgerError> {
    if m.contains_key((holder, asset)) {
        Err(LedgerError::AccountExists)
    } else {
        Ok(m.insert((holder, asset), 0))
    }
}

/// The balance of an account, zero where it does not exist.
pub open spec fn balance_or_zero(m: Balances, holder: Seq<u8>, asset: Seq<u8>) -> int {
    if m.contains_key((holder, asset)) {
        m[(holder, asset)] as int
    } else {
        0
    }
}

/// The effect of `mint_to`: new units of an asset credited to an account, which is created where
/// it does not exist.
pub open spec fn credit_outcome(m: Balances, holder: Seq<u8>, asset: Seq<u8>, amount: u64) -> Result<Balances, LedgerError> {
    let total = balance_or_zero(m, holder, asset) + amount;
    if total > u64::MAX {
        Err(LedgerError::Overflow)
    } else {
        Ok(m.insert((holder, asset), total as u64))
    }
}

/// The effect of `transfer`: `amount` of `asset` moves from `from`'s account to `to`'s, on the
/// authority of `signer`, which must be `from`.
pub open spec fn transfer_outcome(
    m: Balances,
    signer: Seq<u8>,
    from: Seq<u8>,
    to: Seq<u8>,
    asset: Seq<u8>,
    amount: u64,
) -> Result<Balances, LedgerError> {
    let fk = (from, asset);
    let tk = (to, asset);
    if signer != from {
        Err(LedgerError::Unauthorized)
    } else if !m.contains_key(fk) || !m.contains_key(tk) {
        Err(LedgerError::AccountMissing)
    } else if m[fk] < amount {
        Err(LedgerError::InsufficientFunds)
    } else if from == to {
        Ok(m)
    } else if m[tk] + amount > u64::MAX {
        Err(LedgerError::Overflow)
    } else {
        Ok(m.insert(fk, (m[fk] - amount) as u64).insert(tk, (m[tk] + amount) as u64))
    }
}

/// The effect of `close_account`: what is left in the account is swept to the beneficiary's
/// account of the same asset, and the account is removed.
pub open spec fn close_outcome(
    m: Balances,
    signer: Seq<u8>,
    holder: Seq<u8>,
    asset: Seq<u8>,
    beneficiary: Seq<u8>,
) -> Result<Balances, LedgerError> {
    let k = (holder, asset);
    if signer != holder {
        Err(LedgerError::Unauthorized)
    } else if !m.contains_key(k) {
        Err(LedgerError::AccountMissing)
    } else if beneficiary == holder {
        Err(LedgerError::InvalidBeneficiary)
    } else if m[k] == 0 {
        Ok(m.remove(k))
    } else {
        match transfer_outcome(m, holder, holder, beneficiary, asset, m[k]) {
            Ok(swept) => Ok(swept.remove(k)),
            Err(e) => Err(e),
        }
    }
}

/// `after` is what the operation with result `r` left of `before`, given the operation's
/// outcome: the new state when it succeeds, the same error and no change when it fails.
pub open spec fn applied(
    r: Result<(), LedgerError>,
    before: Balances,
    after: Balances,
    outcome: Result<Balances, LedgerError>,
) -> bool {
    match outcome {
        Ok(m) => r is Ok && after == m,
        Err(e) => r == Err::<(), LedgerError>(e) && after == before,
    }
}

/// An in-memory ledger of fungible assets: accounts named by holder and asset, with a transfer
/// that only the holder of the debited account can authorize.
pub struct Ledger {
    accounts: Vec<TokenAccount>,
    balances: Ghost<Balances>,
}

impl View for Ledger {
    type V = Balances;

    closed spec fn view(&self) -> Balances {
        self.balances@
    }
}

impl Ledger {
    /// The accounts stored are exactly the model's, one entry per key.
    pub closed spec fn wf(&self) -> bool {
        &&& forall|i: int|
            0 <= i < self.accounts.len() ==> {
                &&& self.balances@.contains_key(#[trigger] self.accounts@[i].key())
                &&& self.balances@[self.accounts@[i].key()] == self.accounts@[i].amount
            }
        &&& forall|k: AccountKey|
            #[trigger] self.balances@.contains_key(k) ==> exists|i: int|
                0 <= i < self.accounts.len() && #[trigger] self.accounts@[i].key() == k
        &&& forall|i: int, j: int|
            0 <= i < self.accounts.len() && 0 <= j < self.accounts.len() && i != j
                ==> #[trigger] self.accounts@[i].key() != #[trigger] self.accounts@[j].key()
    }

    /// An empty ledger.
    pub fn new() -> (r: Ledger)
        ensures
            r.wf(),
            r@ == Map::<AccountKey, u64>::empty(),
    {
        Ledger { accounts: Vec::new(), balances: Ghost(Map::empty()) }
    }

    /// A copy of this ledger.
    pub fn snapshot(&self) -> (r: Ledger)
        requires
            self.wf(),
        ensures
            r.wf(),
            r@ == self@,
    {
        let mut accounts: Vec<TokenAccount> = Vec::new();
        let mut i: usize = 0;
        while i < self.accounts.len()
            invariant
                i <= self.accounts.len(),
                accounts@ == self.accounts@.subrange(0, i as int),
            decreases self.accounts.len() - i,
        {
            accounts.push(self.accounts[i]);
            i = i + 1;
        }
        assert(accounts@ =~= self.accounts@);
        let r = Ledger { accounts, balances: Ghost(self.balances@) };
        assert forall|j: int| 0 <= j < r.accounts.len() implies #[trigger] r.accounts@[j] == self.accounts@[j] by {}
        r
    }

    fn find(&self, holder: &Identity, asset: &Identity) -> (r: Option<usize>)
        requires
            self.wf(),
        ensures
            match r {
                Some(i) => i < self.accounts.len() && self.accounts@[i as int].key() == (holder@, asset@),
                None => !self@.contains_key((holder@, asset@)),
            },
    {
        let mut i: usize = 0;
        while i < self.accounts.len()
            invariant
                i <= self.accounts.len(),
                forall|j: int| 0 <= j < i ==> #[trigger] self.accounts@[j].key() != (holder@, asset@),
            decreases self.accounts.len() - i,
        {
            let a = &self.accounts[i];
            if same_identity(&a.holder, holder) && same_identity(&a.asset, asset) {
                return Some(i);
            }
            i = i + 1;
        }
        assert(!self@.contains_key((holder@, asset@))) by {
            if self.balances@.contains_key((holder@, asset@)) {
                let j = choose|j: int| 0 <= j < self.accounts.len() && #[trigger] self.accounts@[j].key() == (holder@, asset@);
                assert(self.accounts@[j].key() != (holder@, asset@));
            }
        }
        None
    }

    fn set_amount(&mut self, i: usize, amount: u64)
        requires
            old(self).wf(),
            i < old(self).accounts.len(),
        ensures
            final(self).wf(),
            final(self)@ == old(self)@.insert(old(self).accounts@[i as int].key(), amount),
            final(self).accounts.len() == old(self).accounts.len(),
            forall|j: int| 0 <= j < old(self).accounts.len() ==> #[trigger] final(self).accounts@[j].key() == old(self).accounts@[j].key(),
    {
        let ghost k = self.accounts@[i as int].key();
        let mut a = self.accounts[i];
        a.amount = amount;
        self.accounts.set(i, a);
        self.balances = Ghost(self.balances@.insert(k, amount));
        proof {
            let s = *self;
            assert forall|k2: AccountKey| #[trigger] s.balances@.contains_key(k2) implies exists|j: int|
                0 <= j < s.accounts.len() && #[trigger] s.accounts@[j].key() == k2 by {
                if k2 == k {
                    assert(s.accounts@[i as int].key() == k2);
                } else {
                    let j = choose|j: int| 0 <= j < old(self).accounts.len() && #[trigger] old(self).accounts@[j].key() == k2;
                    assert(s.accounts@[j].key() == k2);
                }
            }
        }
    }

    fn push_account(&mut self, holder: &Identity, asset: &Identity, amount: u64)
        requires
            old(self).wf(),
            !old(self)@.contains_key((holder@, asset@)),
        ensures
            final(self).wf(),
            final(self)@ == old(self)@.insert((holder@, asset@), amount),
    {
        let ghost k = (holder@, asset@);
        self.accounts.push(TokenAccount { holder: *holder, asset: *asset, amount });
        self.balances = Ghost(self.balances@.insert(k, amount));
        proof {
            let s = *self;
            let n = old(self).accounts.len() as int;
            assert(s.accounts@[n].key() == k);
            assert forall|j: int| 0 <= j < n implies #[trigger] s.accounts@[j].key() != k by {
                assert(old(self).balances@.contains_key(old(self).accounts@[j].key()));
            }
            assert forall|k2: AccountKey| #[trigger] s.balances@.contains_key(k2) implies exists|j: int|
                0 <= j < s.accounts.len() && #[trigger] s.accounts@[j].key() == k2 by {
                if k2 == k {
                    assert(s.accounts@[n].key() == k2);
                } else {
                    let j = choose|j: int| 0 <= j < old(self).accounts.len() && #[trigger] old(self).accounts@[j].key() == k2;
                    assert(s.accounts@[j].key() == k2);
                }
            }
        }
    }

    fn remove_account(&mut self, i: usize)
        requires
            old(self).wf(),
            i < old(self).accounts.len(),
        ensures
            final(self).wf(),
            final(self)@ == old(self)@.remove(old(self).accounts@[i as int].key()),
    {
        let ghost k = self.accounts@[i as int].key();
        let ghost before = self.accounts@;
        self.accounts.remove(i);
        self.balances = Ghost(self.balances@.remove(k));
        proof {
            let s = *self;
            assert forall|j: int| 0 <= j < s.accounts.len() implies #[trigger] s.accounts@[j] == (if j < i { before[j] } else { before[j + 1] }) by {}
            assert forall|j: int| 0 <= j < s.accounts.len() implies #[trigger] s.accounts@[j].key() != k by {
                if j < i {
                    assert(before[j].key() != before[i as int].key());
                } else {
                    assert(before[j + 1].key() != before[i as int].key());
                }
            }
            assert forall|k2: AccountKey| #[trigger] s.balances@.contains_key(k2) implies exists|j: int|
                0 <= j < s.accounts.len() && #[trigger] s.accounts@[j].key() == k2 by {
                let j = choose|j: int| 0 <= j < old(self).accounts.len() && #[trigger] old(self).accounts@[j].key() == k2;
                if j < i {
                    assert(s.accounts@[j].key() == k2);
                } else {
                    assert(j != i);
                    assert(s.accounts@[j - 1].key() == k2);
                }
            }
            assert forall|a: int, b: int|
                0 <= a < s.accounts.len() && 0 <= b < s.accounts.len() && a != b
                    implies #[trigger] s.accounts@[a].key() != #[trigger] s.accounts@[b].key() by {
                let a0 = if a < i { a } else { a + 1 };
                let b0 = if b < i { b } else { b + 1 };
                assert(before[a0].key() != before[b0].key());
            }
        }
    }

    /// The balance of `holder`'s account of `asset`, or `None` where it does not exist.
    pub fn balance(&self, holder: &Identity, asset: &Identity) -> (r: Option<u64>)
        requires
            self.wf(),
        ensures
            r == (if self@.contains_key((holder@, asset@)) {
                Some(self@[(holder@, asset@)])
            } else {
                None::<u64>
            }),
    {
        match self.find(holder, asset) {
            Some(i) => Some(self.accounts[i].amount),
            None => None,
        }
    }

    /// Whether `holder` has an account of `asset`.
    pub fn account_exists(&self, holder: &Identity, asset: &Identity) -> (r: bool)
        requires
            self.wf(),
        ensures
            r == self@.contains_key((holder@, asset@)),
    {
        self.find(holder, asset).is_some()
    }

    /// Creates an empty account of `asset` held by `holder`.
    pub fn create_account(&mut self, holder: &Identity, asset: &Identity) -> (r: Result<(), LedgerError>)
        requires
            old(self).wf(),
        ensures
            final(self).wf(),
            applied(r, old(self)@, final(self)@, create_outcome(old(self)@, holder@, asset@)),
    {
        if self.find(holder, asset).is_some() {
            return Err(LedgerError::AccountExists);
        }
        self.push_account(holder, asset, 0);
        Ok(())
    }

    /// Credits `amount` new units of `asset` to `holder`, creating the account where needed.
    pub fn mint_to(&mut self, holder: &Identity, asset: &Identity, amount: u64) -> (r: Result<(), LedgerError>)
        requires
            old(self).wf(),
        ensures
            final(self).wf(),
            applied(r, old(self)@, final(self)@, credit_outcome(old(self)@, holder@, asset@, amount)),
    {
        match self.find(holder, asset) {
            Some(i) => {
                let current = self.accounts[i].amount;
                if current > u64::MAX - amount {
                    return Err(LedgerError::Overflow);
                }
                self.set_amount(i, current + amount);
                Ok(())
            },
            None => {
                self.push_account(holder, asset, amount);
                Ok(())
            },
        }
    }

    /// Moves `amount` of `asset` from `from`'s account to `to`'s on the authority of `signer`.
    pub fn transfer(
        &mut self,
        signer: &Identity,
        from: &Identity,
        to: &Identity,
        asset: &Identity,
        amount: u64,
    ) -> (r: Result<(), LedgerError>)
        requires
            old(self).wf(),
        ensures
            final(self).wf(),
            applied(r, old(self)@, final(self)@, transfer_outcome(old(self)@, signer@, from@, to@, asset@, amount)),
    {
        if !same_identity(signer, from) {
            return Err(LedgerError::Unauthorized);
        }
        let fi = self.find(from, asset);
        let ti = self.find(to, asset);
        match (fi, ti) {
            (Some(fi), Some(ti)) => {
                let fa = self.accounts[fi].amount;
                if fa < amount {
                    return Err(LedgerError::InsufficientFunds);
                }
                if fi == ti {
                    assert(from@ == to@);
                    return Ok(());
                }
                assert(from@ != to@);
                let ta = self.accounts[ti].amount;
                if ta > u64::MAX - amount {
                    return Err(LedgerError::Overflow);
                }
                self.set_amount(fi, fa - amount);
                self.set_amount(ti, ta + amount);
                Ok(())
            },
            _ => Err(LedgerError::AccountMissing),
        }
    }

    /// Closes `holder`'s account of `asset` on the authority of `signer`, sweeping what it holds to
    /// `beneficiary`'s account of the same asset.
    pub fn close_account(
        &mut self,
        signer: &Identity,
        holder: &Identity,
        asset: &Identity,
        beneficiary: &Identity,
    ) -> (r: Result<(), LedgerError>)
        requires
            old(self).wf(),
        ensures
            final(self).wf(),
            applied(r, old(self)@, final(self)@, close_outcome(old(self)@, signer@, holder@, asset@, beneficiary@)),
    {
        if !same_identity(signer, holder) {
            return Err(LedgerError::Unauthorized);
        }
        let i = match self.find(holder, asset) {
            Some(i) => i,
            None => {
                return Err(LedgerError::AccountMissing);
            },
        };
        if same_identity(beneficiary, holder) {
            return Err(LedgerError::InvalidBeneficiary);
        }
        let left = self.accounts[i].amount;
        if left > 0 {
            let bi = match self.find(beneficiary, asset) {
                Some(bi) => bi,
                None => {
                    return Err(LedgerError::AccountMissing);
                },
            };
            let ba = self.accounts[bi].amount;
            if ba > u64::MAX - left {
                return Err(LedgerError::Overflow);
            }
            self.set_amount(i, 0);
            self.set_amount(bi, ba + left);
        }
        self.remove_account(i);
        Ok(())
    }
}

} // verus!
