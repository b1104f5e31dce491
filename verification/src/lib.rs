//! Payment-flow managers with verified state machines: escrow, recurring
//! payments, weighted payment splitting and dispute resolution.
//!
//! Each manager owns one family of records, numbered from 1, and decides what
//! an operation does to them. A manager touches neither the token ledger nor
//! the host: what it needs to know of them comes in as arguments (whether the
//! party concerned has consented, what the paying account holds, what time it
//! is, which account holds value for the contract), and what it wants moved
//! goes out as [`ledger::Transfer`]s for the caller to perform. An operation
//! either succeeds, changing one record and naming its transfers, or is
//! refused with an [`error::Error`], changing nothing and naming none.
//!
//! The contracts of the operations are exact: for every input they say which
//! records result and which transfers are asked for, or which refusal comes
//! back. The laws proved beside them say what follows for every family of
//! records and, over the model in [`ledger`], for every token ledger.

pub mod dispute;
pub mod error;
pub mod escrow;
pub mod ledger;
pub mod recurring;
pub mod sdk;
pub mod splitter;
pub mod store;
