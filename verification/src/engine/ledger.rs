//! The aggregate abstraction, the concrete account state machine, and the
//! in-memory keyed store of accounts.

use vstd::prelude::*;
use std::collections::HashMap;
use std::collections::HashSet;
use crate::engine::domain::{AccountSnapshot, Amount, Balance, TransactionEvent, TransactionType};
use crate::engine::error::LedgerError;
use crate::engine::model::{
    apply_view, ledger_step, ledger_wf, new_view, snapshot_view, view_wf, AccountView, LedgerView,
};

verus! {

broadcast use vstd::std_specs::hash::group_hash_axioms;

/// A stateful entity identified by an ID: constructed from the first event
/// ever seen for that identity, mutated in place by each further event, and
/// able to produce a snapshot. Construction never fails; a failed mutation
/// reports an error and leaves the state unchanged.
pub trait Aggregate: Sized {
    /// The internal invariant that construction establishes and every
    /// transition preserves.
    spec fn inv(&self) -> bool;

    /// Whether `post` is the state constructed from a first event.
    spec fn new_rel(tx_id: u32, tx_data: TransactionEvent, post: Self) -> bool;

    /// Whether `post` is the state after successfully applying an event to
    /// `pre`.
    spec fn apply_rel(pre: Self, tx_id: u32, tx_data: TransactionEvent, post: Self) -> bool;

    /// Whether `e` is the error with which `pre` rejects an event.
    spec fn apply_fails(pre: Self, tx_id: u32, tx_data: TransactionEvent, e: LedgerError) -> bool;

    /// The snapshot this state projects to, tagged with the owning identity.
    spec fn snapshot_spec(&self, client_id: u16) -> AccountSnapshot;

    /// Constructs the initial state from the first event seen for this
    /// identity.
    fn new(tx_id: u32, tx_data: TransactionEvent) -> (r: Self)
        ensures
            r.inv(),
            Self::new_rel(tx_id, tx_data, r),
    ;

    /// Mutates the state in place; on failure the state is left unchanged.
    fn apply_tx(&mut self, tx_id: u32, tx_data: TransactionEvent) -> (r: Result<(), LedgerError>)
        requires
            old(self).inv(),
        ensures
            final(self).inv(),
            match r {
                Ok(()) => Self::apply_rel(*old(self), tx_id, tx_data, *final(self)),
                Err(e) => Self::apply_fails(*old(self), tx_id, tx_data, e) && *final(self) == *old(
                    self,
                ),
            },
    ;

    /// A pure projection of the current state, tagged with the owning
    /// identity.
    fn snapshot(&self, client_id: u16) -> (r: AccountSnapshot)
        requires
            self.inv(),
        ensures
            r == self.snapshot_spec(client_id),
    ;
}

/// The concrete aggregate: one client's balance, transaction log, open
/// disputes, highest seen deposit/withdrawal transaction ID, and lock flag.
/// Its whole behaviour is pinned to the model transition functions
/// [`new_view`] and [`apply_view`].
#[derive(Debug, PartialEq)]
pub struct Account {
    pub balance: Balance,
    pub transactions: HashMap<u32, TransactionEvent>,
    pub disputed_transactions: HashSet<u32>,
    pub previous_tx_id: u32,
    pub locked: bool,
}

impl View for Account {
    type V = AccountView;

    open spec fn view(&self) -> AccountView {
        AccountView {
            available: self.balance.available as int,
            held: self.balance.held as int,
            transactions: self.transactions@,
            disputed: self.disputed_transactions@,
            previous_tx_id: self.previous_tx_id,
            locked: self.locked,
        }
    }
}

impl Account {
    /// Record a deposit or withdrawal in the transaction log and advance the
    /// highest seen transaction ID.
    pub fn record_tx(&mut self, tx_id: u32, tx_data: TransactionEvent)
        ensures
            final(self)@ == (AccountView {
                transactions: old(self)@.transactions.insert(tx_id, tx_data),
                previous_tx_id: tx_id,
                ..old(self)@
            }),
    {
        self.transactions.insert(tx_id, tx_data);
        self.previous_tx_id = tx_id;
    }

    /// Look a referenced transaction up in the log.
    fn get_tx(&self, tx_id: u32) -> (r: Result<&TransactionEvent, LedgerError>)
        ensures
            match r {
                Ok(ev) => self@.transactions.dom().contains(tx_id) && *ev
                    == self@.transactions[tx_id],
                Err(e) => !self@.transactions.dom().contains(tx_id) && e
                    == LedgerError::TransactionNotFound(tx_id),
            },
    {
        match self.transactions.get(&tx_id) {
            Some(ev) => Ok(ev),
            None => Err(LedgerError::TransactionNotFound(tx_id)),
        }
    }

    /// Reject a deposit or withdrawal whose transaction ID is not strictly
    /// greater than the highest one seen.
    fn check_tx_id(&self, tx_id: u32) -> (r: Result<(), LedgerError>)
        ensures
            r is Ok <==> self.previous_tx_id < tx_id,
            r is Err ==> r->Err_0 == LedgerError::SuspiciousTransaction(tx_id),
    {
        if self.previous_tx_id < tx_id {
            Ok(())
        } else {
            Err(LedgerError::SuspiciousTransaction(tx_id))
        }
    }

    /// Reject an operation that asks for more than the available funds.
    fn check_available_amount(&self, tx_amount: Amount) -> (r: Result<(), LedgerError>)
        ensures
            r is Ok <==> self.balance.available >= tx_amount.units,
            r is Err ==> r->Err_0 == (LedgerError::InsufficientFunds {
                available: self.balance.available,
                amount: tx_amount.units as u128,
            }),
    {
        if self.balance.available >= tx_amount.units as u128 {
            Ok(())
        } else {
            Err(
                LedgerError::InsufficientFunds {
                    available: self.balance.available,
                    amount: tx_amount.units as u128,
                },
            )
        }
    }

    /// Reject a dispute of an already-disputed transaction (`expected` is
    /// false), or a resolve or chargeback of a transaction that is not under
    /// dispute (`expected` is true).
    fn check_disputed_transaction(&self, tx_id: u32, expected: bool) -> (r: Result<
        (),
        LedgerError,
    >)
        ensures
            r is Ok <==> self@.disputed.contains(tx_id) == expected,
            r is Err ==> r->Err_0 == LedgerError::DisputedTransaction(tx_id),
    {
        if self.disputed_transactions.contains(&tx_id) != expected {
            Err(LedgerError::DisputedTransaction(tx_id))
        } else {
            Ok(())
        }
    }

    /// Reject any event once a chargeback has locked the account.
    fn locked_account(&self, tx_id: u32) -> (r: Result<(), LedgerError>)
        ensures
            r is Ok <==> !self.locked,
            r is Err ==> r->Err_0 == LedgerError::LockedAccount(tx_id),
    {
        if self.locked {
            Err(LedgerError::LockedAccount(tx_id))
        } else {
            Ok(())
        }
    }
}

impl Aggregate for Account {
    open spec fn inv(&self) -> bool {
        view_wf(self@)
    }

    open spec fn new_rel(tx_id: u32, tx_data: TransactionEvent, post: Self) -> bool {
        post@ == new_view(tx_id, tx_data)
    }

    open spec fn apply_rel(pre: Self, tx_id: u32, tx_data: TransactionEvent, post: Self) -> bool {
        apply_view(pre@, tx_id, tx_data) == Ok::<AccountView, LedgerError>(post@)
    }

    open spec fn apply_fails(pre: Self, tx_id: u32, tx_data: TransactionEvent, e: LedgerError) -> bool {
        apply_view(pre@, tx_id, tx_data) == Err::<AccountView, LedgerError>(e)
    }

    open spec fn snapshot_spec(&self, client_id: u16) -> AccountSnapshot {
        snapshot_view(self@, client_id)
    }

    fn new(tx_id: u32, tx_data: TransactionEvent) -> (r: Self) {
        let balance = match tx_data.amount {
            Some(a) => if matches!(tx_data.transaction_type, TransactionType::Deposit) {
                Balance::new(a)
            } else {
                Balance::default()
            },
            None => Balance::default(),
        };
        let mut account = Account {
            balance,
            transactions: HashMap::new(),
            disputed_transactions: HashSet::new(),
            previous_tx_id: tx_id,
            locked: false,
        };
        if matches!(
            tx_data.transaction_type,
            TransactionType::Deposit | TransactionType::Withdrawal
        ) {
            account.record_tx(tx_id, tx_data);
        }
        proof {
            crate::engine::model::lemma_new_view_wf(tx_id, tx_data);
            assert(account@ =~= new_view(tx_id, tx_data));
        }
        account
    }

    fn apply_tx(&mut self, tx_id: u32, tx_data: TransactionEvent) -> (r: Result<(), LedgerError>) {
        match self.locked_account(tx_id) {
            Err(e) => return Err(e),
            Ok(()) => {},
        }
        match tx_data.transaction_type {
            TransactionType::Deposit => {
                match self.check_tx_id(tx_id) {
                    Err(e) => return Err(e),
                    Ok(()) => {},
                }
                match tx_data.amount {
                    None => return Err(LedgerError::MissingAmount(tx_id)),
                    Some(a) => {
                        proof {
                            crate::engine::model::lemma_apply_view_wf(
                                old(self)@,
                                tx_id,
                                tx_data,
                            );
                        }
                        self.balance.available = self.balance.available + a.units as u128;
                        self.record_tx(tx_id, tx_data);
                        assert(self@ =~= apply_view(old(self)@, tx_id, tx_data)->Ok_0);
                    },
                }
            },
            TransactionType::Withdrawal => {
                match self.check_tx_id(tx_id) {
                    Err(e) => return Err(e),
                    Ok(()) => {},
                }
                match tx_data.amount {
                    None => return Err(LedgerError::MissingAmount(tx_id)),
                    Some(a) => {
                        match self.check_available_amount(a) {
                            Err(e) => return Err(e),
                            Ok(()) => {},
                        }
                        proof {
                            crate::engine::model::lemma_apply_view_wf(
                                old(self)@,
                                tx_id,
                                tx_data,
                            );
                        }
                        self.balance.available = self.balance.available - a.units as u128;
                        self.record_tx(tx_id, tx_data);
                        assert(self@ =~= apply_view(old(self)@, tx_id, tx_data)->Ok_0);
                    },
                }
            },
            TransactionType::Dispute => {
                match self.check_disputed_transaction(tx_id, false) {
                    Err(e) => return Err(e),
                    Ok(()) => {},
                }
                let amount = match self.get_tx(tx_id) {
                    Err(e) => return Err(e),
                    Ok(ev) => ev.amount,
                };
                match amount {
                    None => {},
                    Some(a) => {
                        match self.check_available_amount(a) {
                            Err(e) => return Err(e),
                            Ok(()) => {},
                        }
                        proof {
                            crate::engine::model::lemma_apply_view_wf(
                                old(self)@,
                                tx_id,
                                tx_data,
                            );
                        }
                        self.balance.available = self.balance.available - a.units as u128;
                        self.balance.held = self.balance.held + a.units as u128;
                        self.disputed_transactions.insert(tx_id);
                        assert(self@ =~= apply_view(old(self)@, tx_id, tx_data)->Ok_0);
                    },
                }
            },
            TransactionType::Resolve => {
                match self.check_disputed_transaction(tx_id, true) {
                    Err(e) => return Err(e),
                    Ok(()) => {},
                }
                let amount = match self.get_tx(tx_id) {
                    Err(e) => return Err(e),
                    Ok(ev) => ev.amount,
                };
                match amount {
                    None => {},
                    Some(a) => {
                        if self.balance.held >= a.units as u128 {
                            proof {
                                crate::engine::model::lemma_apply_view_wf(
                                    old(self)@,
                                    tx_id,
                                    tx_data,
                                );
                            }
                            self.balance.held = self.balance.held - a.units as u128;
                            self.balance.available = self.balance.available + a.units as u128;
                            self.disputed_transactions.remove(&tx_id);
                            assert(self@ =~= apply_view(old(self)@, tx_id, tx_data)->Ok_0);
                        }
                    },
                }
            },
            TransactionType::Chargeback => {
                match self.check_disputed_transaction(tx_id, true) {
                    Err(e) => return Err(e),
                    Ok(()) => {},
                }
                let amount = match self.get_tx(tx_id) {
                    Err(e) => return Err(e),
                    Ok(ev) => ev.amount,
                };
                match amount {
                    None => {},
                    Some(a) => {
                        if self.balance.held >= a.units as u128 {
                            proof {
                                crate::engine::model::lemma_apply_view_wf(
                                    old(self)@,
                                    tx_id,
                                    tx_data,
                                );
                            }
                            self.balance.held = self.balance.held - a.units as u128;
                            self.locked = true;
                            self.disputed_transactions.remove(&tx_id);
                            assert(self@ =~= apply_view(old(self)@, tx_id, tx_data)->Ok_0);
                        }
                    },
                }
            },
        }
        Ok(())
    }

    fn snapshot(&self, client_id: u16) -> (r: AccountSnapshot) {
        AccountSnapshot {
            client_id,
            available: self.balance.available,
            held: self.balance.held,
            total: self.balance.available + self.balance.held,
            locked: self.locked,
        }
    }
}

/// The in-memory keyed store: exactly one account per distinct client ID,
/// created lazily by the first event naming it. The store exclusively owns
/// all accounts; `account_ids` remembers the order in which they were
/// created, so that snapshot emission is deterministic.
#[derive(Debug)]
pub struct InMemoryLedger {
    pub accounts: HashMap<u16, Account>,
    pub account_ids: Vec<u16>,
}

impl View for InMemoryLedger {
    type V = LedgerView;

    open spec fn view(&self) -> LedgerView {
        LedgerView {
            accounts: Map::new(
                |id: u16| self.accounts@.dom().contains(id),
                |id: u16| self.accounts@[id]@,
            ),
            order: self.account_ids@,
        }
    }
}

impl InMemoryLedger {
    /// Well-formedness of the store's contents.
    pub open spec fn wf(&self) -> bool {
        ledger_wf(self@)
    }

    /// An empty store.
    pub fn new() -> (r: InMemoryLedger)
        ensures
            r.wf(),
            r@.accounts == Map::<u16, AccountView>::empty(),
            r@.order == Seq::<u16>::empty(),
    {
        let r = InMemoryLedger { accounts: HashMap::new(), account_ids: Vec::new() };
        proof {
            assert(r@.accounts =~= Map::<u16, AccountView>::empty());
        }
        r
    }

    /// Atomic create-or-update: the first event for a client constructs its
    /// account, any later event is applied to the existing one. A rejected
    /// event is reported to the caller and does not poison the store: the
    /// account keeps its last valid state.
    pub fn process_transaction(&mut self, id: u16, tx_id: u32, transaction: TransactionEvent) -> (r:
        Result<u16, LedgerError>)
        requires
            old(self).wf(),
        ensures
            final(self).wf(),
            final(self)@ == ledger_step(old(self)@, id, tx_id, transaction).0,
            r == ledger_step(old(self)@, id, tx_id, transaction).1,
    {
        proof {
            crate::engine::model::lemma_ledger_step_wf(old(self)@, id, tx_id, transaction);
        }
        match self.accounts.remove(&id) {
            None => {
                let account = Account::new(tx_id, transaction);
                self.accounts.insert(id, account);
                self.account_ids.push(id);
                proof {
                    assert(self@ =~= ledger_step(old(self)@, id, tx_id, transaction).0);
                }
                Ok(id)
            },
            Some(mut account) => {
                let result = account.apply_tx(tx_id, transaction);
                self.accounts.insert(id, account);
                proof {
                    assert(self@ =~= ledger_step(old(self)@, id, tx_id, transaction).0);
                }
                match result {
                    Ok(()) => Ok(id),
                    Err(e) => Err(e),
                }
            },
        }
    }

    /// The snapshot of one account, or an error if the client is unknown.
    pub fn snapshot(&self, id: u16) -> (r: Result<AccountSnapshot, ()>)
        requires
            self.wf(),
        ensures
            match r {
                Ok(s) => self@.accounts.dom().contains(id) && s == snapshot_view(
                    self@.accounts[id],
                    id,
                ),
                Err(_) => !self@.accounts.dom().contains(id),
            },
    {
        match self.accounts.get(&id) {
            Some(account) => {
                assert(self@.accounts.dom().contains(id) && view_wf(self@.accounts[id]));
                Ok(account.snapshot(id))
            },
            None => Err(()),
        }
    }

    /// A consistent read of every known account, in creation order.
    pub fn all_snapshots(&self) -> (r: Vec<AccountSnapshot>)
        requires
            self.wf(),
        ensures
            r@.len() == self@.order.len(),
            forall|i: int|
                0 <= i < r@.len() ==> r@[i] == snapshot_view(
                    self@.accounts[self@.order[i]],
                    self@.order[i],
                ),
    {
        let mut out: Vec<AccountSnapshot> = Vec::new();
        let mut i: usize = 0;
        while i < self.account_ids.len()
            invariant
                self.wf(),
                i <= self.account_ids.len(),
                out@.len() == i,
                forall|j: int|
                    0 <= j < i ==> out@[j] == snapshot_view(
                        self@.accounts[self@.order[j]],
                        self@.order[j],
                    ),
            decreases self.account_ids.len() - i,
        {
            let id = self.account_ids[i];
            assert(self@.order.contains(id));
            let account = self.accounts.get(&id).unwrap();
            assert(self@.accounts.dom().contains(id) && view_wf(self@.accounts[id]));
            let snap = account.snapshot(id);
            out.push(snap);
            i = i + 1;
        }
        out
    }
}

} // verus!
