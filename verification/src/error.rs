//! Errors of the hook. Every error ends the invocation.

use vstd::prelude::*;

verus! {

/// Why a seed formula could not be turned into an address.
#[derive(Clone, Copy, Debug, PartialEq, Eq, Structural)]
pub enum SeedResolutionError {
    /// A term refers to a position that the account list does not have.
    BadReference,
    /// No bump in the search space gives an address off the curve.
    SearchExhausted,
}

/// The errors with which an invocation aborts.
#[derive(Clone, Copy, Debug, PartialEq, Eq, Structural)]
pub enum HookError {
    SeedResolutionError(SeedResolutionError),
    AlreadyInitialized,
    InsufficientFunds,
    InvalidInstructionData,
    AuthorityMismatch,
    InsufficientBalance,
    ArithmeticOverflow,
}

} // verus!
