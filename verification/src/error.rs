//! The ways in which a payment operation is refused.

use vstd::prelude::*;

verus! {

/// Why an operation was refused. A refused operation leaves every record as
/// it was and asks for no transfer.
#[derive(Clone, Copy, Debug, PartialEq, Eq, Structural)]
pub enum Error {
    /// The party whose consent the operation needs has not given it.
    AuthorizationFailure,
    /// The paying account holds less than the operation would move.
    InsufficientFunds,
    /// The record is already released, refunded, distributed, resolved or
    /// exhausted.
    InvalidState,
    /// The next payment of a schedule is not yet due.
    TooEarly,
    /// The weights of a split are not percentages that sum to one hundred.
    InvariantViolation,
    /// No record has the given identifier.
    NotFound,
}

} // verus!
