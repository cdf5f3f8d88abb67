//! The mathematical model of the ledger: an account is modelled by
//! [`AccountView`] and the whole store by [`LedgerView`], and every state
//! change is specified by a transition function over these views. The
//! executable types in [`crate::engine::ledger`] carry contracts stated in
//! terms of this model.

use vstd::prelude::*;
use crate::engine::domain::{AccountSnapshot, TransactionEvent, TransactionType};
use crate::engine::error::LedgerError;

verus! {

/// The model of one account: exact balances as unbounded integers, the log of
/// recorded deposits and withdrawals, the set of transaction IDs under
/// dispute, the highest deposit/withdrawal transaction ID seen, and the lock
/// flag.
#[verifier::ext_equal]
pub struct AccountView {
    /// Funds available for withdrawal or dispute, in minor units.
    pub available: int,
    /// Funds held while a dispute is open, in minor units.
    pub held: int,
    /// The transaction log: only deposits and withdrawals are retained.
    pub transactions: Map<u32, TransactionEvent>,
    /// Transaction IDs with an open dispute.
    pub disputed: Set<u32>,
    /// The highest transaction ID a deposit or withdrawal has carried.
    pub previous_tx_id: u32,
    /// Whether a chargeback has locked the account.
    pub locked: bool,
}

/// The reported total of an account: available plus held funds.
pub open spec fn total_of(v: AccountView) -> int {
    v.available + v.held
}

/// One more than the largest amount a single transaction can carry in minor
/// units; deposits grow an account's funds by less than this per transaction.
pub open spec fn amount_span() -> int {
    0x1_0000_0000_0000_0000
}

/// Well-formedness of an account model: balances are non-negative, the funds
/// are bounded by the number of deposits that can have been accepted (each
/// deposit carries less than [`amount_span`] and strictly increases
/// `previous_tx_id`), the disputed set only names logged transactions, and
/// the log is finite.
pub open spec fn view_wf(v: AccountView) -> bool {
    &&& 0 <= v.available
    &&& 0 <= v.held
    &&& total_of(v) <= (v.previous_tx_id + 1) * amount_span()
    &&& v.disputed.subset_of(v.transactions.dom())
    &&& v.transactions.dom().finite()
}

/// Whether events of this type are retained in the transaction log.
pub open spec fn is_recorded_type(t: TransactionType) -> bool {
    t is Deposit || t is Withdrawal
}

/// The amount an event carries, in minor units, or zero if it carries none.
pub open spec fn amount_units(ev: TransactionEvent) -> int {
    match ev.amount {
        Some(a) => a.units as int,
        None => 0,
    }
}

/// The state a first event constructs: a deposit opens the account with its
/// amount available, any other first event opens it empty; deposits and
/// withdrawals are recorded, and the first transaction ID becomes the highest
/// one seen.
pub open spec fn new_view(tx_id: u32, tx_data: TransactionEvent) -> AccountView {
    AccountView {
        available: if tx_data.transaction_type is Deposit {
            amount_units(tx_data)
        } else {
            0
        },
        held: 0,
        transactions: if is_recorded_type(tx_data.transaction_type) {
            Map::empty().insert(tx_id, tx_data)
        } else {
            Map::empty()
        },
        disputed: Set::empty(),
        previous_tx_id: tx_id,
        locked: false,
    }
}

/// The account state machine: applies one event to an account model and
/// yields either the next model or the error that rejects the event, with
/// the preconditions checked in order. A locked account rejects everything;
/// deposits and withdrawals must carry a fresh, strictly increasing
/// transaction ID and an amount; withdrawals and disputes must fit in the
/// available funds; disputes must name a logged, not-yet-disputed
/// transaction; resolves and chargebacks must name a disputed one, and
/// silently leave the state unchanged when the held funds do not cover the
/// disputed amount.
///
/// Two deliberate asymmetries of the state machine are kept as they stand
/// rather than smoothed over: disputes, resolves and chargebacks are not
/// ordering-checked and never advance `previous_tx_id`, and a resolve or
/// chargeback whose disputed amount exceeds the held funds is a silent
/// no-op instead of an error.
pub open spec fn apply_view(pre: AccountView, tx_id: u32, tx_data: TransactionEvent) -> Result<
    AccountView,
    LedgerError,
> {
    if pre.locked {
        Err(LedgerError::LockedAccount(tx_id))
    } else {
        match tx_data.transaction_type {
            TransactionType::Deposit => if tx_id <= pre.previous_tx_id {
                Err(LedgerError::SuspiciousTransaction(tx_id))
            } else {
                match tx_data.amount {
                    None => Err(LedgerError::MissingAmount(tx_id)),
                    Some(a) => Ok(
                        AccountView {
                            available: pre.available + a.units,
                            transactions: pre.transactions.insert(tx_id, tx_data),
                            previous_tx_id: tx_id,
                            ..pre
                        },
                    ),
                }
            },
            TransactionType::Withdrawal => if tx_id <= pre.previous_tx_id {
                Err(LedgerError::SuspiciousTransaction(tx_id))
            } else {
                match tx_data.amount {
                    None => Err(LedgerError::MissingAmount(tx_id)),
                    Some(a) => if pre.available < a.units {
                        Err(
                            LedgerError::InsufficientFunds {
                                available: pre.available as u128,
                                amount: a.units as u128,
                            },
                        )
                    } else {
                        Ok(
                            AccountView {
                                available: pre.available - a.units,
                                transactions: pre.transactions.insert(tx_id, tx_data),
                                previous_tx_id: tx_id,
                                ..pre
                            },
                        )
                    },
                }
            },
            TransactionType::Dispute => if pre.disputed.contains(tx_id) {
                Err(LedgerError::DisputedTransaction(tx_id))
            } else if !pre.transactions.dom().contains(tx_id) {
                Err(LedgerError::TransactionNotFound(tx_id))
            } else {
                match pre.transactions[tx_id].amount {
                    None => Ok(pre),
                    Some(a) => if pre.available < a.units {
                        Err(
                            LedgerError::InsufficientFunds {
                                available: pre.available as u128,
                                amount: a.units as u128,
                            },
                        )
                    } else {
                        Ok(
                            AccountView {
                                available: pre.available - a.units,
                                held: pre.held + a.units,
                                disputed: pre.disputed.insert(tx_id),
                                ..pre
                            },
                        )
                    },
                }
            },
            TransactionType::Resolve => if !pre.disputed.contains(tx_id) {
                Err(LedgerError::DisputedTransaction(tx_id))
            } else if !pre.transactions.dom().contains(tx_id) {
                Err(LedgerError::TransactionNotFound(tx_id))
            } else {
                match pre.transactions[tx_id].amount {
                    None => Ok(pre),
                    Some(a) => if pre.held < a.units {
                        Ok(pre)
                    } else {
                        Ok(
                            AccountView {
                                available: pre.available + a.units,
                                held: pre.held - a.units,
                                disputed: pre.disputed.remove(tx_id),
                                ..pre
                            },
                        )
                    },
                }
            },
            TransactionType::Chargeback => if !pre.disputed.contains(tx_id) {
                Err(LedgerError::DisputedTransaction(tx_id))
            } else if !pre.transactions.dom().contains(tx_id) {
                Err(LedgerError::TransactionNotFound(tx_id))
            } else {
                match pre.transactions[tx_id].amount {
                    None => Ok(pre),
                    Some(a) => if pre.held < a.units {
                        Ok(pre)
                    } else {
                        Ok(
                            AccountView {
                                held: pre.held - a.units,
                                disputed: pre.disputed.remove(tx_id),
                                locked: true,
                                ..pre
                            },
                        )
                    },
                }
            },
        }
    }
}

/// The snapshot an account model projects to, tagged with its client ID.
pub open spec fn snapshot_view(v: AccountView, client_id: u16) -> AccountSnapshot {
    AccountSnapshot {
        client_id,
        available: v.available as u128,
        held: v.held as u128,
        total: total_of(v) as u128,
        locked: v.locked,
    }
}

/// A first event always constructs a well-formed account model.
pub proof fn lemma_new_view_wf(tx_id: u32, tx_data: TransactionEvent)
    ensures
        view_wf(new_view(tx_id, tx_data)),
{
    let v = new_view(tx_id, tx_data);
    assert(total_of(v) < amount_span());
    assert(amount_span() <= (v.previous_tx_id + 1) * amount_span());
}

/// The model of the whole keyed store: each known client's account model,
/// and the client IDs in order of first appearance.
#[verifier::ext_equal]
pub struct LedgerView {
    /// The account models, keyed by client ID.
    pub accounts: Map<u16, AccountView>,
    /// The known client IDs, in the order their accounts were created.
    pub order: Seq<u16>,
}

/// Well-formedness of the store model: the creation order lists each known
/// client exactly once, and every account model is well-formed.
pub open spec fn ledger_wf(v: LedgerView) -> bool {
    &&& v.order.no_duplicates()
    &&& (forall|id: u16|
        #![trigger v.accounts.dom().contains(id)]
        #![trigger v.order.contains(id)]
        v.accounts.dom().contains(id) <==> v.order.contains(id))
    &&& (forall|id: u16|
        v.accounts.dom().contains(id) ==> view_wf(#[trigger] v.accounts[id]))
}

/// The store's atomic create-or-update: the first event for a client creates
/// its account, a later event is applied to it; a rejected event is reported
/// and leaves the store unchanged.
pub open spec fn ledger_step(
    pre: LedgerView,
    id: u16,
    tx_id: u32,
    tx_data: TransactionEvent,
) -> (LedgerView, Result<u16, LedgerError>) {
    if !pre.accounts.dom().contains(id) {
        (
            LedgerView {
                accounts: pre.accounts.insert(id, new_view(tx_id, tx_data)),
                order: pre.order.push(id),
            },
            Ok(id),
        )
    } else {
        match apply_view(pre.accounts[id], tx_id, tx_data) {
            Ok(post) => (LedgerView { accounts: pre.accounts.insert(id, post), ..pre }, Ok(id)),
            Err(e) => (pre, Err(e)),
        }
    }
}

/// The store after replaying a batch of events in order, each keyed by the
/// client the event names; rejected events are dropped.
pub open spec fn replay(pre: LedgerView, updates: Seq<TransactionEvent>) -> LedgerView
    decreases updates.len(),
{
    if updates.len() == 0 {
        pre
    } else {
        ledger_step(
            replay(pre, updates.drop_last()),
            updates.last().client_id,
            updates.last().tx_id,
            updates.last(),
        ).0
    }
}

/// One store step preserves well-formedness of the store model.
pub proof fn lemma_ledger_step_wf(pre: LedgerView, id: u16, tx_id: u32, tx_data: TransactionEvent)
    requires
        ledger_wf(pre),
    ensures
        ledger_wf(ledger_step(pre, id, tx_id, tx_data).0),
{
    let post = ledger_step(pre, id, tx_id, tx_data).0;
    if !pre.accounts.dom().contains(id) {
        lemma_new_view_wf(tx_id, tx_data);
        assert forall|c: u16| post.accounts.dom().contains(c) implies post.order.contains(
            c,
        ) by {
            if c == id {
                assert(post.order[post.order.len() - 1] == id);
            } else {
                let i = choose|i: int| 0 <= i < pre.order.len() && pre.order[i] == c;
                assert(post.order[i] == c);
            }
        }
        assert forall|c: u16| post.order.contains(c) implies post.accounts.dom().contains(
            c,
        ) by {
            let i = choose|i: int| 0 <= i < post.order.len() && post.order[i] == c;
            if i < pre.order.len() {
                assert(pre.order.contains(c));
            }
        }
        assert forall|i: int, j: int|
            0 <= i < post.order.len() && 0 <= j < post.order.len() && i != j implies post.order[i]
            != post.order[j] by {
            if j == post.order.len() - 1 {
                assert(pre.order.contains(pre.order[i]));
            }
            if i == post.order.len() - 1 {
                assert(pre.order.contains(pre.order[j]));
            }
        }
    } else {
        if apply_view(pre.accounts[id], tx_id, tx_data) is Ok {
            lemma_apply_view_wf(pre.accounts[id], tx_id, tx_data);
        }
    }
}

/// A successful transition preserves well-formedness of the account model.
pub proof fn lemma_apply_view_wf(pre: AccountView, tx_id: u32, tx_data: TransactionEvent)
    requires
        view_wf(pre),
        apply_view(pre, tx_id, tx_data) is Ok,
    ensures
        view_wf(apply_view(pre, tx_id, tx_data)->Ok_0),
{
    let post = apply_view(pre, tx_id, tx_data)->Ok_0;
    if !pre.locked && is_recorded_type(tx_data.transaction_type) && tx_id > pre.previous_tx_id
        && tx_data.amount is Some {
        assert((pre.previous_tx_id + 2) * amount_span() <= (tx_id + 1) * amount_span());
    }
}

} // verus!
