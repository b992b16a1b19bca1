use escrow::address::{derive_address, Identity};
use escrow::error::EscrowError;
use escrow::ledger::Ledger;
use escrow::settlement::{escrow_label_bytes, SettlementEngine};

const PROGRAM: Identity = [7u8; 32];
const DEPOSITOR: Identity = [1u8; 32];
const TAKER: Identity = [2u8; 32];
const STRANGER: Identity = [3u8; 32];
const X: Identity = [10u8; 32];
const Y: Identity = [20u8; 32];

fn funded_ledger(depositor_x: u64, taker_y: u64) -> Ledger {
    let mut ledger = Ledger::new();
    ledger.mint_to(&DEPOSITOR, &X, depositor_x).unwrap();
    ledger.mint_to(&TAKER, &Y, taker_y).unwrap();
    ledger
}

fn balance(ledger: &Ledger, holder: &Identity, asset: &Identity) -> Option<u64> {
    ledger.balance(holder, asset)
}

#[test]
fn open_moves_offer_into_vault() {
    let mut ledger = funded_ledger(150, 80);
    let mut engine = SettlementEngine::new(PROGRAM);
    engine.open(&mut ledger, &DEPOSITOR, 42, &X, &Y, 100, 50).unwrap();
    let (vault, bump) = engine.vault_authority(42, &DEPOSITOR).unwrap();
    assert_eq!(balance(&ledger, &vault, &X), Some(100));
    assert_eq!(balance(&ledger, &DEPOSITOR, &X), Some(50));
    let rec = engine.record(42, &DEPOSITOR).unwrap();
    assert_eq!(rec.seed, 42);
    assert_eq!(rec.depositor, DEPOSITOR);
    assert_eq!(rec.asset_offered, X);
    assert_eq!(rec.asset_requested, Y);
    assert_eq!(rec.amount_requested, 50);
    assert_eq!(rec.authority_proof, bump);
}

#[test]
fn exchange_moves_both_legs() {
    let mut ledger = funded_ledger(100, 80);
    let mut engine = SettlementEngine::new(PROGRAM);
    engine.open(&mut ledger, &DEPOSITOR, 9, &X, &Y, 100, 50).unwrap();
    let (vault, _) = engine.vault_authority(9, &DEPOSITOR).unwrap();
    engine.execute(&mut ledger, &TAKER, 9, &DEPOSITOR).unwrap();
    assert_eq!(balance(&ledger, &DEPOSITOR, &Y), Some(50));
    assert_eq!(balance(&ledger, &DEPOSITOR, &X), Some(0));
    assert_eq!(balance(&ledger, &TAKER, &X), Some(100));
    assert_eq!(balance(&ledger, &TAKER, &Y), Some(30));
    assert_eq!(balance(&ledger, &vault, &X), None);
    assert!(engine.record(9, &DEPOSITOR).is_none());
}

#[test]
fn failed_execute_leaves_balances() {
    let mut ledger = funded_ledger(100, 40);
    let mut engine = SettlementEngine::new(PROGRAM);
    engine.open(&mut ledger, &DEPOSITOR, 1, &X, &Y, 100, 50).unwrap();
    let (vault, _) = engine.vault_authority(1, &DEPOSITOR).unwrap();
    assert_eq!(engine.execute(&mut ledger, &TAKER, 1, &DEPOSITOR), Err(EscrowError::InsufficientFunds));
    assert_eq!(balance(&ledger, &TAKER, &Y), Some(40));
    assert_eq!(balance(&ledger, &DEPOSITOR, &Y), None);
    assert_eq!(balance(&ledger, &TAKER, &X), None);
    assert_eq!(balance(&ledger, &vault, &X), Some(100));
    assert!(engine.record(1, &DEPOSITOR).is_some());
}

#[test]
fn execute_failing_on_second_leg_rolls_back_first() {
    let mut ledger = funded_ledger(100, 80);
    ledger.mint_to(&TAKER, &X, u64::MAX - 10).unwrap();
    let mut engine = SettlementEngine::new(PROGRAM);
    engine.open(&mut ledger, &DEPOSITOR, 5, &X, &Y, 100, 50).unwrap();
    let (vault, _) = engine.vault_authority(5, &DEPOSITOR).unwrap();
    assert_eq!(engine.execute(&mut ledger, &TAKER, 5, &DEPOSITOR), Err(EscrowError::BalanceOverflow));
    assert_eq!(balance(&ledger, &TAKER, &Y), Some(80));
    assert_eq!(balance(&ledger, &DEPOSITOR, &Y), None);
    assert_eq!(balance(&ledger, &TAKER, &X), Some(u64::MAX - 10));
    assert_eq!(balance(&ledger, &vault, &X), Some(100));
    assert!(engine.record(5, &DEPOSITOR).is_some());
}

#[test]
fn open_then_cancel_restores_depositor() {
    let mut ledger = funded_ledger(120, 0);
    let mut engine = SettlementEngine::new(PROGRAM);
    engine.open(&mut ledger, &DEPOSITOR, 3, &X, &Y, 70, 5).unwrap();
    let (vault, _) = engine.vault_authority(3, &DEPOSITOR).unwrap();
    assert_eq!(balance(&ledger, &DEPOSITOR, &X), Some(50));
    engine.cancel(&mut ledger, &DEPOSITOR, 3, &DEPOSITOR).unwrap();
    assert_eq!(balance(&ledger, &DEPOSITOR, &X), Some(120));
    assert_eq!(balance(&ledger, &vault, &X), None);
    assert!(engine.record(3, &DEPOSITOR).is_none());
}

#[test]
fn second_open_of_live_pair_refused() {
    let mut ledger = funded_ledger(200, 0);
    let mut engine = SettlementEngine::new(PROGRAM);
    engine.open(&mut ledger, &DEPOSITOR, 11, &X, &Y, 100, 5).unwrap();
    assert_eq!(engine.open(&mut ledger, &DEPOSITOR, 11, &X, &Y, 100, 5), Err(EscrowError::VaultAlreadyExists));
    assert_eq!(balance(&ledger, &DEPOSITOR, &X), Some(100));
    engine.cancel(&mut ledger, &DEPOSITOR, 11, &DEPOSITOR).unwrap();
    assert_eq!(engine.open(&mut ledger, &DEPOSITOR, 11, &X, &Y, 100, 5), Ok(()));
    assert_eq!(balance(&ledger, &DEPOSITOR, &X), Some(100));
}

#[test]
fn reopen_after_execute() {
    let mut ledger = funded_ledger(200, 50);
    let mut engine = SettlementEngine::new(PROGRAM);
    engine.open(&mut ledger, &DEPOSITOR, 12, &X, &Y, 100, 50).unwrap();
    engine.execute(&mut ledger, &TAKER, 12, &DEPOSITOR).unwrap();
    assert_eq!(engine.open(&mut ledger, &DEPOSITOR, 12, &X, &Y, 100, 50), Ok(()));
    assert_eq!(balance(&ledger, &DEPOSITOR, &X), Some(0));
}

#[test]
fn second_terminal_operation_sees_no_record() {
    let mut ledger = funded_ledger(100, 50);
    let mut engine = SettlementEngine::new(PROGRAM);
    engine.open(&mut ledger, &DEPOSITOR, 13, &X, &Y, 100, 50).unwrap();
    engine.execute(&mut ledger, &TAKER, 13, &DEPOSITOR).unwrap();
    assert_eq!(engine.execute(&mut ledger, &TAKER, 13, &DEPOSITOR), Err(EscrowError::RecordNotFound));
    assert_eq!(engine.cancel(&mut ledger, &DEPOSITOR, 13, &DEPOSITOR), Err(EscrowError::RecordNotFound));
}

#[test]
fn cancel_by_stranger_refused() {
    let mut ledger = funded_ledger(100, 0);
    let mut engine = SettlementEngine::new(PROGRAM);
    engine.open(&mut ledger, &DEPOSITOR, 4, &X, &Y, 60, 5).unwrap();
    let (vault, _) = engine.vault_authority(4, &DEPOSITOR).unwrap();
    assert_eq!(engine.cancel(&mut ledger, &STRANGER, 4, &DEPOSITOR), Err(EscrowError::NotDepositor));
    assert_eq!(balance(&ledger, &vault, &X), Some(60));
    assert_eq!(balance(&ledger, &DEPOSITOR, &X), Some(40));
    assert!(engine.record(4, &DEPOSITOR).is_some());
}

#[test]
fn open_with_zero_amount_refused() {
    let mut ledger = funded_ledger(100, 0);
    let mut engine = SettlementEngine::new(PROGRAM);
    assert_eq!(engine.open(&mut ledger, &DEPOSITOR, 6, &X, &Y, 0, 5), Err(EscrowError::InvalidAmount));
    assert!(engine.record(6, &DEPOSITOR).is_none());
}

#[test]
fn open_without_funds_refused() {
    let mut ledger = funded_ledger(10, 0);
    let mut engine = SettlementEngine::new(PROGRAM);
    assert_eq!(engine.open(&mut ledger, &DEPOSITOR, 7, &X, &Y, 11, 5), Err(EscrowError::InsufficientFunds));
    assert_eq!(engine.open(&mut ledger, &STRANGER, 7, &X, &Y, 1, 5), Err(EscrowError::InsufficientFunds));
    let (vault, _) = engine.vault_authority(7, &DEPOSITOR).unwrap();
    assert_eq!(balance(&ledger, &vault, &X), None);
    assert_eq!(balance(&ledger, &DEPOSITOR, &X), Some(10));
}

#[test]
fn open_over_existing_vault_refused() {
    let mut ledger = funded_ledger(100, 0);
    let mut engine = SettlementEngine::new(PROGRAM);
    let (vault, _) = engine.vault_authority(8, &DEPOSITOR).unwrap();
    ledger.create_account(&vault, &X).unwrap();
    assert_eq!(engine.open(&mut ledger, &DEPOSITOR, 8, &X, &Y, 10, 5), Err(EscrowError::VaultAlreadyExists));
}

#[test]
fn execute_and_cancel_without_record() {
    let mut ledger = funded_ledger(100, 100);
    let mut engine = SettlementEngine::new(PROGRAM);
    assert_eq!(engine.execute(&mut ledger, &TAKER, 99, &DEPOSITOR), Err(EscrowError::RecordNotFound));
    assert_eq!(engine.cancel(&mut ledger, &DEPOSITOR, 99, &DEPOSITOR), Err(EscrowError::RecordNotFound));
}

#[test]
fn derivation_is_deterministic() {
    let labels = escrow_label_bytes(42, &DEPOSITOR);
    let first = derive_address(&labels, &PROGRAM).unwrap();
    let second = derive_address(&escrow_label_bytes(42, &DEPOSITOR), &PROGRAM).unwrap();
    assert_eq!(first, second);
    let other = derive_address(&escrow_label_bytes(43, &DEPOSITOR), &PROGRAM).unwrap();
    assert_ne!(first.0, other.0);
}

#[test]
fn derivation_matches_ledger_search() {
    let labels = escrow_label_bytes(42, &DEPOSITOR);
    let (address, bump) = derive_address(&labels, &PROGRAM).unwrap();
    let program = anchor_lang::prelude::Pubkey::new_from_array(PROGRAM);
    let seeds: Vec<&[u8]> = labels.iter().map(|l| l.as_slice()).collect();
    let (expected, expected_bump) = anchor_lang::prelude::Pubkey::find_program_address(&seeds, &program);
    assert_eq!(address, expected.to_bytes());
    assert_eq!(bump, expected_bump);
    assert_ne!(address, PROGRAM);
}

#[test]
fn derivation_labels_layout() {
    let labels = escrow_label_bytes(0x0102, &DEPOSITOR);
    assert_eq!(labels.len(), 3);
    assert_eq!(labels[0], b"escrow".to_vec());
    assert_eq!(labels[1], vec![2, 1, 0, 0, 0, 0, 0, 0]);
    assert_eq!(labels[2], DEPOSITOR.to_vec());
}

#[test]
fn derivation_exhausted_on_oversized_label() {
    let labels = vec![vec![0u8; 33]];
    assert_eq!(derive_address(&labels, &PROGRAM), Err(EscrowError::DerivationExhausted));
}
