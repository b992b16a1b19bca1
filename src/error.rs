use vstd::prelude::*;

verus! {

/// Why an operation of the settlement engine was refused. Every refusal leaves the engine and the
/// ledger exactly as they were.
#[derive(Clone, Copy, Debug, PartialEq, Eq, Structural)]
pub enum EscrowError {
    /// No proof byte in `0..=255` gives an address off the curve.
    DerivationExhausted,
    /// A live record or a vault already stands at the pair's derived address.
    VaultAlreadyExists,
    /// No live record (or no vault) for the pair.
    RecordNotFound,
    /// A paying account is missing or holds too little.
    InsufficientFunds,
    /// The stored proof byte disagrees with the recomputed one.
    AuthorityMismatch,
    /// The caller of a cancellation is not the stored depositor.
    NotDepositor,
    /// An offered amount of zero.
    InvalidAmount,
    /// A credited balance would exceed `u64::MAX`.
    BalanceOverflow,
}

/// Why the ledger refused a primitive operation. A refused operation changes nothing.
#[derive(Clone, Copy, Debug, PartialEq, Eq, Structural)]
pub enum LedgerError {
    /// The account to create exists already.
    AccountExists,
    /// An account that the operation reads or writes does not exist.
    AccountMissing,
    /// The authorizing identity is not the holder of the debited account.
    Unauthorized,
    /// The debited account holds less than the amount.
    InsufficientFunds,
    /// The credited account would exceed `u64::MAX`.
    Overflow,
    /// An account cannot be closed into itself.
    InvalidBeneficiary,
}

/// How a refusal of the ledger surfaces from a settlement operation.
pub open spec fn escrow_error_of(e: LedgerError) -> EscrowError {
    match e {
        LedgerError::AccountExists => EscrowError::VaultAlreadyExists,
        LedgerError::AccountMissing => EscrowError::InsufficientFunds,
        LedgerError::Unauthorized => EscrowError::AuthorityMismatch,
        LedgerError::InsufficientFunds => EscrowError::InsufficientFunds,
        LedgerError::Overflow => EscrowError::BalanceOverflow,
        LedgerError::InvalidBeneficiary => EscrowError::AuthorityMismatch,
    }
}

/// Maps a refusal of the ledger to the settlement error it surfaces as.
pub fn to_escrow_error(e: LedgerError) -> (r: EscrowError)
    ensures
        r == escrow_error_of(e),
{
    match e {
        LedgerError::AccountExists => EscrowError::VaultAlreadyExists,
        LedgerError::AccountMissing => EscrowError::InsufficientFunds,
        LedgerError::Unauthorized => EscrowError::AuthorityMismatch,
        LedgerError::InsufficientFunds => EscrowError::InsufficientFunds,
        LedgerError::Overflow => EscrowError::BalanceOverflow,
        LedgerError::InvalidBeneficiary => EscrowError::AuthorityMismatch,
    }
}

} // verus!
