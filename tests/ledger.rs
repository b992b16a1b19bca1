use escrow::address::Identity;
use escrow::error::LedgerError;
use escrow::ledger::Ledger;

const A: Identity = [1u8; 32];
const B: Identity = [2u8; 32];
const COIN: Identity = [9u8; 32];

#[test]
fn mint_creates_and_credits() {
    let mut ledger = Ledger::new();
    assert!(!ledger.account_exists(&A, &COIN));
    ledger.mint_to(&A, &COIN, 5).unwrap();
    ledger.mint_to(&A, &COIN, 7).unwrap();
    assert_eq!(ledger.balance(&A, &COIN), Some(12));
    assert_eq!(ledger.mint_to(&A, &COIN, u64::MAX), Err(LedgerError::Overflow));
    assert_eq!(ledger.balance(&A, &COIN), Some(12));
}

#[test]
fn create_existing_account_refused() {
    let mut ledger = Ledger::new();
    ledger.create_account(&A, &COIN).unwrap();
    assert_eq!(ledger.balance(&A, &COIN), Some(0));
    assert_eq!(ledger.create_account(&A, &COIN), Err(LedgerError::AccountExists));
}

#[test]
fn transfer_moves_amount() {
    let mut ledger = Ledger::new();
    ledger.mint_to(&A, &COIN, 30).unwrap();
    ledger.create_account(&B, &COIN).unwrap();
    ledger.transfer(&A, &A, &B, &COIN, 12).unwrap();
    assert_eq!(ledger.balance(&A, &COIN), Some(18));
    assert_eq!(ledger.balance(&B, &COIN), Some(12));
}

#[test]
fn transfer_refusals() {
    let mut ledger = Ledger::new();
    ledger.mint_to(&A, &COIN, 30).unwrap();
    assert_eq!(ledger.transfer(&A, &A, &B, &COIN, 1), Err(LedgerError::AccountMissing));
    ledger.mint_to(&B, &COIN, u64::MAX).unwrap();
    assert_eq!(ledger.transfer(&B, &A, &B, &COIN, 1), Err(LedgerError::Unauthorized));
    assert_eq!(ledger.transfer(&A, &A, &B, &COIN, 31), Err(LedgerError::InsufficientFunds));
    assert_eq!(ledger.transfer(&A, &A, &B, &COIN, 1), Err(LedgerError::Overflow));
    assert_eq!(ledger.transfer(&A, &A, &A, &COIN, 30), Ok(()));
    assert_eq!(ledger.balance(&A, &COIN), Some(30));
    assert_eq!(ledger.balance(&B, &COIN), Some(u64::MAX));
}

#[test]
fn close_sweeps_to_beneficiary() {
    let mut ledger = Ledger::new();
    ledger.mint_to(&A, &COIN, 30).unwrap();
    ledger.create_account(&B, &COIN).unwrap();
    assert_eq!(ledger.close_account(&B, &A, &COIN, &B), Err(LedgerError::Unauthorized));
    assert_eq!(ledger.close_account(&A, &A, &COIN, &A), Err(LedgerError::InvalidBeneficiary));
    ledger.close_account(&A, &A, &COIN, &B).unwrap();
    assert!(!ledger.account_exists(&A, &COIN));
    assert_eq!(ledger.balance(&B, &COIN), Some(30));
    assert_eq!(ledger.close_account(&A, &A, &COIN, &B), Err(LedgerError::AccountMissing));
}

#[test]
fn snapshot_is_independent() {
    let mut ledger = Ledger::new();
    ledger.mint_to(&A, &COIN, 3).unwrap();
    let copy = ledger.snapshot();
    ledger.mint_to(&A, &COIN, 4).unwrap();
    assert_eq!(copy.balance(&A, &COIN), Some(3));
    assert_eq!(ledger.balance(&A, &COIN), Some(7));
}
