//! Errors surfaced by the contract operations.
//!
//! Every operation either completes fully or returns one of these errors
//! with no state change.  Arithmetic faults of the host's 128-bit integers
//! are reported as [`ContractError::Overflow`].

use vstd::prelude::*;

verus! {

/// Payment validation failures for operations that take (or refuse) funds.
#[derive(Debug, Clone, PartialEq, Eq)]
pub enum PaymentError {
    /// No coins were sent with a message that requires payment,
    /// or the single coin sent had a zero amount.
    NoFunds,
    /// More than one coin denomination was sent.
    MultipleDenoms,
    /// A single coin was sent, but not of the required denomination.
    MissingDenom(String),
    /// Funds were attached to a message that must not carry any.
    NonPayable,
}

/// Errors of the contract operations.
#[derive(Debug, Clone, PartialEq, Eq)]
pub enum ContractError {
    /// 128-bit arithmetic would overflow or underflow.
    Overflow {},
    /// A mint or burn of zero tokens.
    InvalidZeroAmount {},
    /// The caller is not allowed to perform the operation.
    Unauthorized {},
    /// Minting would push the total supply past the configured cap.
    CannotExceedCap {},
    /// A payment check failed.
    Payment(PaymentError),
    /// The configured validator is not in the active validator set.
    NotInValidatorSet { validator: String },
    /// The delegations reported by the host mix denominations.
    DifferentBondDenom { denom1: String, denom2: String },
    /// The cached reserve disagrees with the externally reported bonded total.
    BondedMismatch { stored: u128, queried: u128 },
    /// No tokens of the required bond denomination were sent.
    EmptyBalance { denom: String },
    /// An unbond below the configured minimum withdrawal.
    UnbondTooSmall { min_bonded: u128, denom: String },
    /// The contract's liquid balance is below the minimum withdrawal.
    BalanceTooSmall {},
    /// No claim is both matured and payable right now.
    NothingToClaim {},
}

} // verus!
