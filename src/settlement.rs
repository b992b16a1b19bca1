use vstd::bytes::{spec_u64_to_le_bytes, u64_to_le_bytes};
use vstd::prelude::*;

use crate::address::{
    derivation_outcome, derivation_view, derive_address, derived_address, identity_bytes,
    same_identity, seeds_view, Identity,
};
use crate::error::{escrow_error_of, to_escrow_error, EscrowError};
use crate::ledger::{close_outcome, transfer_outcome, Balances, Ledger};

verus! {

/// One in-flight exchange: the depositor offers what its vault holds of `asset_offered` for
/// `amount_requested` of `asset_requested`.
#[derive(Clone, Copy, Debug)]
pub struct EscrowRecord {
    pub seed: u64,
    pub depositor: Identity,
    pub asset_offered: Identity,
    pub asset_requested: Identity,
    pub amount_requested: u64,
    /// The proof byte of the vault authority, as derived when the record was opened.
    pub authority_proof: u8,
}

/// The mathematical view of an `EscrowRecord`.
pub struct RecordView {
    pub seed: u64,
    pub depositor: Seq<u8>,
    pub asset_offered: Seq<u8>,
    pub asset_requested: Seq<u8>,
    pub amount_requested: u64,
    pub authority_proof: u8,
}

impl View for EscrowRecord {
    type V = RecordView;

    open spec fn view(&self) -> RecordView {
        RecordView {
            seed: self.seed,
            depositor: self.depositor@,
            asset_offered: self.asset_offered@,
            asset_requested: self.asset_requested@,
            amount_requested: self.amount_requested,
            authority_proof: self.authority_proof,
        }
    }
}

impl EscrowRecord {
    pub open spec fn key(self) -> RecordKey {
        (self.seed, self.depositor@)
    }
}

/// A record is named by its seed and its depositor.
pub type RecordKey = (u64, Seq<u8>);

/// The live records of an engine.
pub type Records = Map<RecordKey, RecordView>;

/// The bytes of the ASCII label "escrow".
pub open spec fn escrow_tag() -> Seq<u8> {
    seq![101u8, 115u8, 99u8, 114u8, 111u8, 119u8]
}

/// The labels from which the vault authority of a pair is derived: the tag, the seed in
/// little-endian bytes, and the depositor.
pub open spec fn escrow_labels(seed: u64, depositor: Seq<u8>) -> Seq<Seq<u8>> {
    seq![escrow_tag(), spec_u64_to_le_bytes(seed), depositor]
}

/// The vault authority of a pair and its proof byte.
pub open spec fn vault_authority(program_id: Seq<u8>, seed: u64, depositor: Seq<u8>) -> Option<(Seq<u8>, u8)> {
    derived_address(escrow_labels(seed, depositor), program_id)
}

/// The proof byte that derivation gives for a pair.
pub open spec fn derived_bump(program_id: Seq<u8>, seed: u64, depositor: Seq<u8>) -> Option<u8> {
    match vault_authority(program_id, seed, depositor) {
        Some((_, bump)) => Some(bump),
        None => None,
    }
}

/// Every live record is stored under its own seed and depositor, and its proof byte is the one
/// that derivation gives for that pair.
pub open spec fn records_valid(program_id: Seq<u8>, records: Records) -> bool {
    forall|k: RecordKey|
        #[trigger] records.contains_key(k) ==> {
            &&& records[k].seed == k.0
            &&& records[k].depositor == k.1
            &&& derived_bump(program_id, k.0, k.1) == Some(records[k].authority_proof)
        }
}

/// `m` with an empty account for `holder` and `asset` where it had none.
pub open spec fn with_account(m: Balances, holder: Seq<u8>, asset: Seq<u8>) -> Balances {
    if m.contains_key((holder, asset)) {
        m
    } else {
        m.insert((holder, asset), 0)
    }
}

/// The records and balances after an Open, or the error it fails with.
pub open spec fn open_outcome(
    program_id: Seq<u8>,
    records: Records,
    m: Balances,
    depositor: Seq<u8>,
    seed: u64,
    asset_offered: Seq<u8>,
    asset_requested: Seq<u8>,
    amount_offered: u64,
    amount_requested: u64,
) -> Result<(Records, Balances), EscrowError> {
    match vault_authority(program_id, seed, depositor) {
        None => Err(EscrowError::DerivationExhausted),
        Some((vault, bump)) => {
            if records.contains_key((seed, depositor)) || m.contains_key((vault, asset_offered)) {
                Err(EscrowError::VaultAlreadyExists)
            } else if amount_offered == 0 {
                Err(EscrowError::InvalidAmount)
            } else {
                match transfer_outcome(
                    m.insert((vault, asset_offered), 0),
                    depositor,
                    depositor,
                    vault,
                    asset_offered,
                    amount_offered,
                ) {
                    Err(e) => Err(escrow_error_of(e)),
                    Ok(funded) => {
                        let record = RecordView {
                            seed,
                            depositor,
                            asset_offered,
                            asset_requested,
                            amount_requested,
                            authority_proof: bump,
                        };
                        Ok((records.insert((seed, depositor), record), funded))
                    },
                }
            }
        },
    }
}

/// The records and balances after an Execute by `taker`, or the error it fails with. The taker
/// pays the depositor, the vault's whole balance goes to the taker, and the vault is closed into
/// the depositor's account.
pub open spec fn execute_outcome(
    program_id: Seq<u8>,
    records: Records,
    m: Balances,
    taker: Seq<u8>,
    seed: u64,
    depositor: Seq<u8>,
) -> Result<(Records, Balances), EscrowError> {
    let key = (seed, depositor);
    match vault_authority(program_id, seed, depositor) {
        None => Err(EscrowError::DerivationExhausted),
        Some((vault, bump)) => {
            if !records.contains_key(key) {
                Err(EscrowError::RecordNotFound)
            } else {
                let rec = records[key];
                if rec.authority_proof != bump {
                    Err(EscrowError::AuthorityMismatch)
                } else if !m.contains_key((vault, rec.asset_offered)) {
                    Err(EscrowError::RecordNotFound)
                } else {
                    let prepared = with_account(
                        with_account(m, depositor, rec.asset_requested),
                        taker,
                        rec.asset_offered,
                    );
                    match transfer_outcome(prepared, taker, taker, depositor, rec.asset_requested, rec.amount_requested) {
                        Err(e) => Err(escrow_error_of(e)),
                        Ok(paid) => match transfer_outcome(
                            paid,
                            vault,
                            vault,
                            taker,
                            rec.asset_offered,
                            paid[(vault, rec.asset_offered)],
                        ) {
                            Err(e) => Err(escrow_error_of(e)),
                            Ok(delivered) => match close_outcome(delivered, vault, vault, rec.asset_offered, depositor) {
                                Err(e) => Err(escrow_error_of(e)),
                                Ok(closed) => Ok((records.remove(key), closed)),
                            },
                        },
                    }
                }
            }
        },
    }
}

/// The records and balances after a Cancel by `caller`, or the error it fails with. The vault's
/// whole balance returns to the depositor and the vault is closed.
pub open spec fn cancel_outcome(
    program_id: Seq<u8>,
    records: Records,
    m: Balances,
    caller: Seq<u8>,
    seed: u64,
    depositor: Seq<u8>,
) -> Result<(Records, Balances), EscrowError> {
    let key = (seed, depositor);
    match vault_authority(program_id, seed, depositor) {
        None => Err(EscrowError::DerivationExhausted),
        Some((vault, bump)) => {
            if !records.contains_key(key) {
                Err(EscrowError::RecordNotFound)
            } else if caller != records[key].depositor {
                Err(EscrowError::NotDepositor)
            } else {
                let rec = records[key];
                if rec.authority_proof != bump {
                    Err(EscrowError::AuthorityMismatch)
                } else if !m.contains_key((vault, rec.asset_offered)) {
                    Err(EscrowError::RecordNotFound)
                } else {
                    let prepared = with_account(m, depositor, rec.asset_offered);
                    match transfer_outcome(
                        prepared,
                        vault,
                        vault,
                        depositor,
                        rec.asset_offered,
                        prepared[(vault, rec.asset_offered)],
                    ) {
                        Err(e) => Err(escrow_error_of(e)),
                        Ok(returned) => match close_outcome(returned, vault, vault, rec.asset_offered, depositor) {
                            Err(e) => Err(escrow_error_of(e)),
                            Ok(closed) => Ok((records.remove(key), closed)),
                        },
                    }
                }
            }
        },
    }
}

/// The engine and the ledger after an operation with result `r`: the outcome's state where it
/// succeeds; the same error and both untouched where it fails.
pub open spec fn settled(
    r: Result<(), EscrowError>,
    records_before: Records,
    records_after: Records,
    balances_before: Balances,
    balances_after: Balances,
    outcome: Result<(Records, Balances), EscrowError>,
) -> bool {
    match outcome {
        Ok((records, balances)) => r is Ok && records_after == records && balances_after == balances,
        Err(e) => r == Err::<(), EscrowError>(e) && records_after == records_before && balances_after == balances_before,
    }
}

fn escrow_tag_bytes() -> (r: Vec<u8>)
    ensures
        r@ == escrow_tag(),
{
    let mut r: Vec<u8> = Vec::new();
    r.push(101);
    r.push(115);
    r.push(99);
    r.push(114);
    r.push(111);
    r.push(119);
    assert(r@ =~= escrow_tag());
    r
}

/// The labels of a pair as byte vectors.
pub fn escrow_label_bytes(seed: u64, depositor: &Identity) -> (r: Vec<Vec<u8>>)
    ensures
        seeds_view(&r) == escrow_labels(seed, depositor@),
{
    let mut r: Vec<Vec<u8>> = Vec::new();
    r.push(escrow_tag_bytes());
    r.push(u64_to_le_bytes(seed));
    r.push(identity_bytes(depositor));
    assert(seeds_view(&r) =~= escrow_labels(seed, depositor@));
    r
}

fn ensure_account(ledger: &mut Ledger, holder: &Identity, asset: &Identity)
    requires
        old(ledger).wf(),
    ensures
        final(ledger).wf(),
        final(ledger)@ == with_account(old(ledger)@, holder@, asset@),
{
    if !ledger.account_exists(holder, asset) {
        let _ = ledger.create_account(holder, asset);
    }
}

/// The settlement engine: the sole writer of escrow records and of the vaults they own.
pub struct SettlementEngine {
    program_id: Identity,
    records: Vec<EscrowRecord>,
    live: Ghost<Records>,
}

impl View for SettlementEngine {
    type V = Records;

    closed spec fn view(&self) -> Records {
        self.live@
    }
}

impl SettlementEngine {
    /// The program id under which vault authorities are derived.
    pub closed spec fn program(&self) -> Seq<u8> {
        self.program_id@
    }

    /// The stored records are exactly the model's, one per key, and the model is valid.
    pub closed spec fn wf(&self) -> bool {
        &&& forall|i: int|
            0 <= i < self.records.len() ==> {
                &&& self.live@.contains_key(#[trigger] self.records@[i].key())
                &&& self.live@[self.records@[i].key()] == self.records@[i]@
            }
        &&& forall|k: RecordKey|
            #[trigger] self.live@.contains_key(k) ==> exists|i: int|
                0 <= i < self.records.len() && #[trigger] self.records@[i].key() == k
        &&& forall|i: int, j: int|
            0 <= i < self.records.len() && 0 <= j < self.records.len() && i != j
                ==> #[trigger] self.records@[i].key() != #[trigger] self.records@[j].key()
        &&& records_valid(self.program_id@, self.live@)
    }

    /// An engine with no records, deriving its vault authorities under `program_id`.
    pub fn new(program_id: Identity) -> (r: SettlementEngine)
        ensures
            r.wf(),
            r.program() == program_id@,
            r@ == Map::<RecordKey, RecordView>::empty(),
            records_valid(r.program(), r@),
    {
        SettlementEngine { program_id, records: Vec::new(), live: Ghost(Map::empty()) }
    }

    /// The program id under which vault authorities are derived.
    pub fn program_id(&self) -> (r: Identity)
        ensures
            r@ == self.program(),
    {
        self.program_id
    }

    /// The vault authority of the pair `(seed, depositor)` and its proof byte.
    pub fn vault_authority(&self, seed: u64, depositor: &Identity) -> (r: Result<(Identity, u8), EscrowError>)
        ensures
            derivation_view(r) == derivation_outcome(escrow_labels(seed, depositor@), self.program()),
    {
        let labels = escrow_label_bytes(seed, depositor);
        derive_address(&labels, &self.program_id)
    }

    fn find(&self, seed: u64, depositor: &Identity) -> (r: Option<usize>)
        requires
            self.wf(),
        ensures
            match r {
                Some(i) => i < self.records.len() && self.records@[i as int].key() == (seed, depositor@),
                None => !self@.contains_key((seed, depositor@)),
            },
    {
        let mut i: usize = 0;
        while i < self.records.len()
            invariant
                i <= self.records.len(),
                forall|j: int| 0 <= j < i ==> #[trigger] self.records@[j].key() != (seed, depositor@),
            decreases self.records.len() - i,
        {
            let rec = &self.records[i];
            if rec.seed == seed && same_identity(&rec.depositor, depositor) {
                return Some(i);
            }
            i = i + 1;
        }
        assert(!self@.contains_key((seed, depositor@))) by {
            if self.live@.contains_key((seed, depositor@)) {
                let j = choose|j: int| 0 <= j < self.records.len() && #[trigger] self.records@[j].key() == (seed, depositor@);
                assert(self.records@[j].key() != (seed, depositor@));
            }
        }
        None
    }

    fn push_record(&mut self, rec: EscrowRecord)
        requires
            old(self).wf(),
            !old(self)@.contains_key(rec.key()),
            derived_bump(old(self).program(), rec.seed, rec.depositor@) == Some(rec.authority_proof),
        ensures
            final(self).wf(),
            final(self).program() == old(self).program(),
            final(self)@ == old(self)@.insert(rec.key(), rec@),
    {
        let ghost k = rec.key();
        self.records.push(rec);
        self.live = Ghost(self.live@.insert(k, rec@));
        proof {
            let s = *self;
            let n = old(self).records.len() as int;
            assert(s.records@[n].key() == k);
            assert forall|j: int| 0 <= j < n implies #[trigger] s.records@[j].key() != k by {
                assert(old(self).live@.contains_key(old(self).records@[j].key()));
            }
            assert forall|k2: RecordKey| #[trigger] s.live@.contains_key(k2) implies exists|j: int|
                0 <= j < s.records.len() && #[trigger] s.records@[j].key() == k2 by {
                if k2 == k {
                    assert(s.records@[n].key() == k2);
                } else {
                    let j = choose|j: int| 0 <= j < old(self).records.len() && #[trigger] old(self).records@[j].key() == k2;
                    assert(s.records@[j].key() == k2);
                }
            }
            assert forall|k2: RecordKey| #[trigger] s.live@.contains_key(k2) implies {
                &&& s.live@[k2].seed == k2.0
                &&& s.live@[k2].depositor == k2.1
                &&& derived_bump(s.program_id@, k2.0, k2.1) == Some(s.live@[k2].authority_proof)
            } by {
                if k2 != k {
                    assert(old(self).live@.contains_key(k2));
                }
            }
        }
    }

    fn remove_record(&mut self, i: usize)
        requires
            old(self).wf(),
            i < old(self).records.len(),
        ensures
            final(self).wf(),
            final(self).program() == old(self).program(),
            final(self)@ == old(self)@.remove(old(self).records@[i as int].key()),
    {
        let ghost k = self.records@[i as int].key();
        let ghost before = self.records@;
        self.records.remove(i);
        self.live = Ghost(self.live@.remove(k));
        proof {
            let s = *self;
            assert forall|j: int| 0 <= j < s.records.len() implies #[trigger] s.records@[j] == (if j < i { before[j] } else { before[j + 1] }) by {}
            assert forall|j: int| 0 <= j < s.records.len() implies #[trigger] s.records@[j].key() != k by {
                if j < i {
                    assert(before[j].key() != before[i as int].key());
                } else {
                    assert(before[j + 1].key() != before[i as int].key());
                }
            }
            assert forall|k2: RecordKey| #[trigger] s.live@.contains_key(k2) implies exists|j: int|
                0 <= j < s.records.len() && #[trigger] s.records@[j].key() == k2 by {
                let j = choose|j: int| 0 <= j < old(self).records.len() && #[trigger] old(self).records@[j].key() == k2;
                if j < i {
                    assert(s.records@[j].key() == k2);
                } else {
                    assert(j != i);
                    assert(s.records@[j - 1].key() == k2);
                }
            }
            assert forall|a: int, b: int|
                0 <= a < s.records.len() && 0 <= b < s.records.len() && a != b
                    implies #[trigger] s.records@[a].key() != #[trigger] s.records@[b].key() by {
                let a0 = if a < i { a } else { a + 1 };
                let b0 = if b < i { b } else { b + 1 };
                assert(before[a0].key() != before[b0].key());
            }
            assert forall|k2: RecordKey| #[trigger] s.live@.contains_key(k2) implies {
                &&& s.live@[k2].seed == k2.0
                &&& s.live@[k2].depositor == k2.1
                &&& derived_bump(s.program_id@, k2.0, k2.1) == Some(s.live@[k2].authority_proof)
            } by {
                assert(old(self).live@.contains_key(k2));
            }
        }
    }

    /// The live record of the pair `(seed, depositor)`, if any.
    pub fn record(&self, seed: u64, depositor: &Identity) -> (r: Option<EscrowRecord>)
        requires
            self.wf(),
        ensures
            match r {
                Some(rec) => self@.contains_key((seed, depositor@)) && self@[(seed, depositor@)] == rec@,
                None => !self@.contains_key((seed, depositor@)),
            },
    {
        match self.find(seed, depositor) {
            Some(i) => Some(self.records[i]),
            None => None,
        }
    }
    /// Opens an escrow: derives the vault authority of `(seed, depositor)`, creates its vault of
    /// `asset_offered`, moves `amount_offered` into it from the depositor, and records the offer.
    /// Either all of it happens or nothing does.
    pub fn open(
        &mut self,
        ledger: &mut Ledger,
        depositor: &Identity,
        seed: u64,
        asset_offered: &Identity,
        asset_requested: &Identity,
        amount_offered: u64,
        amount_requested: u64,
    ) -> (r: Result<(), EscrowError>)
        requires
            old(self).wf(),
            old(ledger).wf(),
        ensures
            final(self).wf(),
            final(ledger).wf(),
            final(self).program() == old(self).program(),
            records_valid(final(self).program(), final(self)@),
            settled(
                r,
                old(self)@,
                final(self)@,
                old(ledger)@,
                final(ledger)@,
                open_outcome(
                    old(self).program(),
                    old(self)@,
                    old(ledger)@,
                    depositor@,
                    seed,
                    asset_offered@,
                    asset_requested@,
                    amount_offered,
                    amount_requested,
                ),
            ),
    {
        let (vault, bump) = match self.vault_authority(seed, depositor) {
            Ok(found) => found,
            Err(e) => {
                return Err(e);
            },
        };
        if self.find(seed, depositor).is_some() || ledger.account_exists(&vault, asset_offered) {
            return Err(EscrowError::VaultAlreadyExists);
        }
        if amount_offered == 0 {
            return Err(EscrowError::InvalidAmount);
        }
        let mut work = ledger.snapshot();
        match work.create_account(&vault, asset_offered) {
            Ok(()) => {},
            Err(e) => {
                return Err(to_escrow_error(e));
            },
        }
        match work.transfer(depositor, depositor, &vault, asset_offered, amount_offered) {
            Ok(()) => {},
            Err(e) => {
                return Err(to_escrow_error(e));
            },
        }
        *ledger = work;
        let rec = EscrowRecord {
            seed,
            depositor: *depositor,
            asset_offered: *asset_offered,
            asset_requested: *asset_requested,
            amount_requested,
            authority_proof: bump,
        };
        self.push_record(rec);
        Ok(())
    }

    /// Executes the swap of `(seed, depositor)` for `taker`: the taker pays `amount_requested` of
    /// `asset_requested` to the depositor, the vault's whole balance goes to the taker on the
    /// derived authority, the vault is closed into the depositor, and the record is deleted. The
    /// accounts that receive are created where missing. Either all of it happens or nothing does.
    pub fn execute(
        &mut self,
        ledger: &mut Ledger,
        taker: &Identity,
        seed: u64,
        depositor: &Identity,
    ) -> (r: Result<(), EscrowError>)
        requires
            old(self).wf(),
            old(ledger).wf(),
        ensures
            final(self).wf(),
            final(ledger).wf(),
            final(self).program() == old(self).program(),
            records_valid(final(self).program(), final(self)@),
            settled(
                r,
                old(self)@,
                final(self)@,
                old(ledger)@,
                final(ledger)@,
                execute_outcome(old(self).program(), old(self)@, old(ledger)@, taker@, seed, depositor@),
            ),
    {
        let (vault, bump) = match self.vault_authority(seed, depositor) {
            Ok(found) => found,
            Err(e) => {
                return Err(e);
            },
        };
        let i = match self.find(seed, depositor) {
            Some(i) => i,
            None => {
                return Err(EscrowError::RecordNotFound);
            },
        };
        let rec = self.records[i];
        if rec.authority_proof != bump {
            return Err(EscrowError::AuthorityMismatch);
        }
        if !ledger.account_exists(&vault, &rec.asset_offered) {
            return Err(EscrowError::RecordNotFound);
        }
        let mut work = ledger.snapshot();
        ensure_account(&mut work, depositor, &rec.asset_requested);
        ensure_account(&mut work, taker, &rec.asset_offered);
        match work.transfer(taker, taker, depositor, &rec.asset_requested, rec.amount_requested) {
            Ok(()) => {},
            Err(e) => {
                return Err(to_escrow_error(e));
            },
        }
        let held = match work.balance(&vault, &rec.asset_offered) {
            Some(held) => held,
            None => {
                return Err(EscrowError::RecordNotFound);
            },
        };
        match work.transfer(&vault, &vault, taker, &rec.asset_offered, held) {
            Ok(()) => {},
            Err(e) => {
                return Err(to_escrow_error(e));
            },
        }
        match work.close_account(&vault, &vault, &rec.asset_offered, depositor) {
            Ok(()) => {},
            Err(e) => {
                return Err(to_escrow_error(e));
            },
        }
        *ledger = work;
        self.remove_record(i);
        Ok(())
    }

    /// Cancels the escrow of `(seed, depositor)` on behalf of `caller`, who must be the stored
    /// depositor: the vault's whole balance returns to the depositor on the derived authority, the
    /// vault is closed, and the record is deleted. Either all of it happens or nothing does.
    pub fn cancel(
        &mut self,
        ledger: &mut Ledger,
        caller: &Identity,
        seed: u64,
        depositor: &Identity,
    ) -> (r: Result<(), EscrowError>)
        requires
            old(self).wf(),
            old(ledger).wf(),
        ensures
            final(self).wf(),
            final(ledger).wf(),
            final(self).program() == old(self).program(),
            records_valid(final(self).program(), final(self)@),
            settled(
                r,
                old(self)@,
                final(self)@,
                old(ledger)@,
                final(ledger)@,
                cancel_outcome(old(self).program(), old(self)@, old(ledger)@, caller@, seed, depositor@),
            ),
    {
        let (vault, bump) = match self.vault_authority(seed, depositor) {
            Ok(found) => found,
            Err(e) => {
                return Err(e);
            },
        };
        let i = match self.find(seed, depositor) {
            Some(i) => i,
            None => {
                return Err(EscrowError::RecordNotFound);
            },
        };
        let rec = self.records[i];
        if !same_identity(caller, &rec.depositor) {
            return Err(EscrowError::NotDepositor);
        }
        if rec.authority_proof != bump {
            return Err(EscrowError::AuthorityMismatch);
        }
        if !ledger.account_exists(&vault, &rec.asset_offered) {
            return Err(EscrowError::RecordNotFound);
        }
        let mut work = ledger.snapshot();
        ensure_account(&mut work, depositor, &rec.asset_offered);
        let held = match work.balance(&vault, &rec.asset_offered) {
            Some(held) => held,
            None => {
                return Err(EscrowError::RecordNotFound);
            },
        };
        match work.transfer(&vault, &vault, depositor, &rec.asset_offered, held) {
            Ok(()) => {},
            Err(e) => {
                return Err(to_escrow_error(e));
            },
        }
        match work.close_account(&vault, &vault, &rec.asset_offered, depositor) {
            Ok(()) => {},
            Err(e) => {
                return Err(to_escrow_error(e));
            },
        }
        *ledger = work;
        self.remove_record(i);
        Ok(())
    }
}

} // verus!
