//! Error values.

use vstd::prelude::*;

verus! {

/// What went wrong while a transaction was executed or charged.
#[derive(Clone, Copy, Debug, PartialEq, Eq, Structural)]
pub enum ExecutionErrorKind {
    /// The gas budget does not cover a charge.
    InsufficientGas,
    /// The engine found its own state inconsistent.
    InvariantViolation,
    /// Adding two coin balances left the range of a balance.
    CoinBalanceOverflow,
}

/// An error raised while a transaction was executed or charged.
#[derive(Clone, Copy, Debug, PartialEq, Eq, Structural)]
pub struct ExecutionError {
    pub kind: ExecutionErrorKind,
}

impl ExecutionError {
    pub fn from_kind(kind: ExecutionErrorKind) -> (e: Self)
        ensures
            e.kind == kind,
    {
        ExecutionError { kind }
    }

    pub fn invariant_violation() -> (e: Self)
        ensures
            e.kind == ExecutionErrorKind::InvariantViolation,
    {
        ExecutionError { kind: ExecutionErrorKind::InvariantViolation }
    }

    pub fn kind(&self) -> (k: ExecutionErrorKind)
        ensures
            k == self.kind,
    {
        self.kind
    }
}

/// An error raised by a lookup in the store.
#[derive(Clone, Copy, Debug, PartialEq, Eq, Structural)]
pub enum SuiError {
    /// The object found is not of the kind that was asked for.
    BadObjectType,
    /// The engine asked for an object that is not what it takes it for.
    ExecutionInvariantViolation,
    /// The amounts of a transaction do not balance.
    ConservationViolation,
    /// The package does not hold the module asked for.
    ModuleNotFound,
}

pub type SuiResult<T> = Result<T, SuiError>;

} // verus!
