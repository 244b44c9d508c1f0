//! The error taxonomy shared by the vault controller and the two token
//! ledgers. Every precondition violation is a hard failure surfaced to the
//! caller; no operation leaves a partial mutation behind when it fails.

use vstd::prelude::*;

verus! {

/// Why an operation was refused.
#[derive(Clone, Copy, Debug, PartialEq, Eq, Structural)]
pub enum Error {
    /// `initialize` was called on an instance that is already set up.
    AlreadyInitialized,
    /// The installment date and amount sequences differ in length.
    ScheduleMismatch,
    /// The vault is not in the phase the operation demands.
    WrongPhase,
    /// The caller is not the principal the operation demands.
    NotAuthorized,
    /// The paying account does not hold the amount to be moved.
    InsufficientBalance,
    /// The spender's allowance does not cover the amount to be moved.
    InsufficientAllowance,
}

} // verus!
