//! Laws of the account state machine, stated and proved over the model in
//! [`crate::engine::model`]. Together with the exec contracts (a successful
//! `apply_tx` yields exactly the model transition, a failed one leaves the
//! account untouched and returns the model's error), these pin down the
//! observable behaviour of the ledger.

use vstd::prelude::*;
use crate::engine::domain::TransactionEvent;
use crate::engine::error::LedgerError;
use crate::engine::model::{
    amount_units, apply_view, is_recorded_type, new_view, total_of, view_wf, AccountView,
};

verus! {

/// Applying a sequence of events to one account, in order: the first
/// rejected event aborts the run with its error.
pub open spec fn apply_seq(pre: AccountView, events: Seq<TransactionEvent>) -> Result<
    AccountView,
    LedgerError,
>
    decreases events.len(),
{
    if events.len() == 0 {
        Ok(pre)
    } else {
        match apply_seq(pre, events.drop_last()) {
            Ok(mid) => apply_view(mid, events.last().tx_id, events.last()),
            Err(e) => Err(e),
        }
    }
}

/// The sum of the amounts carried by the deposits of a batch, in minor units.
pub open spec fn sum_deposits(events: Seq<TransactionEvent>) -> int
    decreases events.len(),
{
    if events.len() == 0 {
        0
    } else {
        sum_deposits(events.drop_last()) + if events.last().transaction_type is Deposit {
            amount_units(events.last())
        } else {
            0
        }
    }
}

/// The sum of the amounts carried by the withdrawals of a batch, in minor
/// units.
pub open spec fn sum_withdrawals(events: Seq<TransactionEvent>) -> int
    decreases events.len(),
{
    if events.len() == 0 {
        0
    } else {
        sum_withdrawals(events.drop_last()) + if events.last().transaction_type is Withdrawal {
            amount_units(events.last())
        } else {
            0
        }
    }
}

/// For every sequence of deposits and withdrawals successfully applied to
/// one account: the reported total grows by exactly the sum of the deposited
/// amounts less the sum of the withdrawn amounts, the held funds do not
/// move, and the available funds equal the total less the held funds.
pub proof fn lemma_total_is_net_deposits(pre: AccountView, events: Seq<TransactionEvent>)
    requires
        forall|i: int|
            0 <= i < events.len() ==> is_recorded_type(
                (#[trigger] events[i]).transaction_type,
            ),
        apply_seq(pre, events) is Ok,
    ensures
        total_of(apply_seq(pre, events)->Ok_0) == total_of(pre) + sum_deposits(events)
            - sum_withdrawals(events),
        apply_seq(pre, events)->Ok_0.held == pre.held,
        apply_seq(pre, events)->Ok_0.available == total_of(apply_seq(pre, events)->Ok_0)
            - apply_seq(pre, events)->Ok_0.held,
    decreases events.len(),
{
    if events.len() > 0 {
        let head = events.drop_last();
        assert forall|i: int| 0 <= i < head.len() implies is_recorded_type(
            (#[trigger] head[i]).transaction_type,
        ) by {
            assert(head[i] == events[i]);
        }
        lemma_total_is_net_deposits(pre, head);
        assert(is_recorded_type(events[events.len() - 1].transaction_type));
    }
}

/// An account created by a first deposit and then mutated only by successful
/// deposits and withdrawals reports `total == sum(deposits) -
/// sum(withdrawals)`, the creating deposit counted among them, and
/// `available == total - held` with nothing held.
pub proof fn lemma_account_total_from_first_deposit(
    first: TransactionEvent,
    events: Seq<TransactionEvent>,
)
    requires
        first.transaction_type is Deposit,
        forall|i: int|
            0 <= i < events.len() ==> is_recorded_type(
                (#[trigger] events[i]).transaction_type,
            ),
        apply_seq(new_view(first.tx_id, first), events) is Ok,
    ensures
        total_of(apply_seq(new_view(first.tx_id, first), events)->Ok_0) == amount_units(first)
            + sum_deposits(events) - sum_withdrawals(events),
        apply_seq(new_view(first.tx_id, first), events)->Ok_0.held == 0,
{
    lemma_total_is_net_deposits(new_view(first.tx_id, first), events);
}

/// Disputing a transaction ID that is not in the account's log is rejected
/// with `TransactionNotFound`. A rejected event never changes the account:
/// that is part of `apply_tx`'s contract.
pub proof fn lemma_dispute_unknown_tx(pre: AccountView, tx_id: u32, tx_data: TransactionEvent)
    requires
        view_wf(pre),
        !pre.locked,
        tx_data.transaction_type is Dispute,
        !pre.transactions.dom().contains(tx_id),
    ensures
        apply_view(pre, tx_id, tx_data) == Err::<AccountView, LedgerError>(
            LedgerError::TransactionNotFound(tx_id),
        ),
{
    assert(!pre.disputed.contains(tx_id));
}

/// Disputing an already-disputed transaction is rejected with
/// `DisputedTransaction`, whatever else the account holds; the failed
/// attempt is idempotent because a rejected event never changes the account.
pub proof fn lemma_dispute_already_disputed(
    pre: AccountView,
    tx_id: u32,
    tx_data: TransactionEvent,
)
    requires
        !pre.locked,
        tx_data.transaction_type is Dispute,
        pre.disputed.contains(tx_id),
    ensures
        apply_view(pre, tx_id, tx_data) == Err::<AccountView, LedgerError>(
            LedgerError::DisputedTransaction(tx_id),
        ),
{
}

/// A locked account rejects every event with `LockedAccount`, regardless of
/// the event's kind.
pub proof fn lemma_locked_rejects_all(pre: AccountView, tx_id: u32, tx_data: TransactionEvent)
    requires
        pre.locked,
    ensures
        apply_view(pre, tx_id, tx_data) == Err::<AccountView, LedgerError>(
            LedgerError::LockedAccount(tx_id),
        ),
{
}

/// A chargeback that takes effect (its disputed amount is covered by the
/// held funds) locks the account, and from then on every event, of every
/// kind, is rejected with `LockedAccount`.
pub proof fn lemma_chargeback_locks(pre: AccountView, tx_id: u32, tx_data: TransactionEvent)
    requires
        !pre.locked,
        tx_data.transaction_type is Chargeback,
        pre.disputed.contains(tx_id),
        pre.transactions.dom().contains(tx_id),
        (pre.transactions[tx_id].amount matches Some(a) && pre.held >= a.units),
    ensures
        apply_view(pre, tx_id, tx_data) is Ok,
        apply_view(pre, tx_id, tx_data)->Ok_0.locked,
        forall|later_tx_id: u32, later: TransactionEvent|
            apply_view(apply_view(pre, tx_id, tx_data)->Ok_0, later_tx_id, later) == Err::<
                AccountView,
                LedgerError,
            >(LedgerError::LockedAccount(later_tx_id)),
{
}

/// A deposit or withdrawal whose transaction ID is not strictly greater than
/// the highest one the account has seen is rejected with
/// `SuspiciousTransaction`.
pub proof fn lemma_stale_tx_id_rejected(pre: AccountView, tx_id: u32, tx_data: TransactionEvent)
    requires
        !pre.locked,
        is_recorded_type(tx_data.transaction_type),
        tx_id <= pre.previous_tx_id,
    ensures
        apply_view(pre, tx_id, tx_data) == Err::<AccountView, LedgerError>(
            LedgerError::SuspiciousTransaction(tx_id),
        ),
{
}

} // verus!
