//! Ledger-domain errors. All of them are non-fatal to the pipeline: a failed
//! event is dropped and reported, and the account keeps its last valid state.

use vstd::prelude::*;

verus! {

/// Error enum.
#[derive(Clone, Copy, Debug, PartialEq, Eq, Structural)]
pub enum LedgerError {
    /// Any event arrived after a chargeback locked the account.
    LockedAccount(u32),
    /// A dispute, resolve or chargeback referenced an unknown transaction ID.
    TransactionNotFound(u32),
    /// A withdrawal or dispute asked for more than the available funds
    /// (both balances in minor units).
    InsufficientFunds { available: u128, amount: u128 },
    /// A dispute named an already-disputed transaction, or a resolve or
    /// chargeback named a transaction that is not under dispute.
    DisputedTransaction(u32),
    /// A deposit or withdrawal transaction ID was not strictly greater than
    /// the highest one already seen on the account.
    SuspiciousTransaction(u32),
    /// A deposit or withdrawal arrived without the required amount.
    MissingAmount(u32),
}

} // verus!
