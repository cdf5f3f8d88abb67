//! Tests of the account state machine: creation, each transition kind, and
//! each rejection, with balances written as minor units (four decimal
//! places, so `123456` is `12.3456`).

use std::collections::{HashMap, HashSet};

use leviathan::engine::domain::{Amount, Balance, TransactionEvent, TransactionType};
use leviathan::engine::error::LedgerError;
use leviathan::engine::ledger::{Account, Aggregate};

fn deposit(client_id: u16, tx_id: u32, units: u64) -> TransactionEvent {
    TransactionEvent {
        client_id,
        tx_id,
        transaction_type: TransactionType::Deposit,
        amount: Some(Amount { units }),
    }
}

fn withdrawal(client_id: u16, tx_id: u32, units: u64) -> TransactionEvent {
    TransactionEvent {
        client_id,
        tx_id,
        transaction_type: TransactionType::Withdrawal,
        amount: Some(Amount { units }),
    }
}

fn bare(client_id: u16, tx_id: u32, transaction_type: TransactionType) -> TransactionEvent {
    TransactionEvent { client_id, tx_id, transaction_type, amount: None }
}

#[test]
fn test_initial_deposit() {
    let tx_event = TransactionEvent {
        client_id: 1,
        tx_id: 1,
        transaction_type: TransactionType::Deposit,
        amount: Some(Amount { units: 123456 }),
    };

    let account = Account::new(1, tx_event.clone());
    let mut expected = Account {
        balance: Balance { available: 123456, held: 0 },
        transactions: HashMap::new(),
        disputed_transactions: HashSet::new(),
        previous_tx_id: 1,
        locked: false,
    };
    expected.record_tx(1, tx_event);
    assert_eq!(account, expected);
}

#[test]
fn first_event_other_than_deposit_opens_empty() {
    let account = Account::new(7, bare(4, 7, TransactionType::Dispute));
    assert_eq!(account.balance, Balance { available: 0, held: 0 });
    assert_eq!(account.previous_tx_id, 7);
    assert!(!account.locked);
    assert!(account.transactions.is_empty());
}

#[test]
fn deposit_then_withdrawal_updates_available() {
    let mut account = Account::new(1, deposit(1, 1, 50_0000));
    assert_eq!(account.apply_tx(2, deposit(1, 2, 25_0000)), Ok(()));
    assert_eq!(account.apply_tx(3, withdrawal(1, 3, 60_0000)), Ok(()));
    assert_eq!(account.balance, Balance { available: 15_0000, held: 0 });
    assert_eq!(account.previous_tx_id, 3);
}

#[test]
fn stale_tx_id_is_suspicious() {
    let mut account = Account::new(5, deposit(1, 5, 10_0000));
    assert_eq!(
        account.apply_tx(5, deposit(1, 5, 10_0000)),
        Err(LedgerError::SuspiciousTransaction(5))
    );
    assert_eq!(
        account.apply_tx(4, withdrawal(1, 4, 1_0000)),
        Err(LedgerError::SuspiciousTransaction(4))
    );
    assert_eq!(account.balance, Balance { available: 10_0000, held: 0 });
}

#[test]
fn deposit_without_amount_is_rejected() {
    let mut account = Account::new(1, deposit(1, 1, 10_0000));
    assert_eq!(
        account.apply_tx(2, bare(1, 2, TransactionType::Deposit)),
        Err(LedgerError::MissingAmount(2))
    );
    assert_eq!(
        account.apply_tx(3, bare(1, 3, TransactionType::Withdrawal)),
        Err(LedgerError::MissingAmount(3))
    );
    assert_eq!(account.balance, Balance { available: 10_0000, held: 0 });
}

#[test]
fn overdraft_is_rejected() {
    let mut account = Account::new(1, deposit(1, 1, 5_0000));
    assert_eq!(
        account.apply_tx(2, withdrawal(1, 2, 6_0000)),
        Err(LedgerError::InsufficientFunds { available: 5_0000, amount: 6_0000 })
    );
    assert_eq!(account.balance, Balance { available: 5_0000, held: 0 });
}

#[test]
fn dispute_holds_funds() {
    let mut account = Account::new(1, deposit(1, 1, 30_0000));
    assert_eq!(account.apply_tx(2, deposit(1, 2, 12_0000)), Ok(()));
    assert_eq!(account.apply_tx(2, bare(1, 2, TransactionType::Dispute)), Ok(()));
    assert_eq!(account.balance, Balance { available: 30_0000, held: 12_0000 });
    assert!(account.disputed_transactions.contains(&2));
}

#[test]
fn dispute_of_unknown_tx_is_not_found() {
    let mut account = Account::new(1, deposit(1, 1, 30_0000));
    assert_eq!(
        account.apply_tx(9, bare(1, 9, TransactionType::Dispute)),
        Err(LedgerError::TransactionNotFound(9))
    );
    assert_eq!(account.balance, Balance { available: 30_0000, held: 0 });
}

#[test]
fn dispute_twice_is_rejected_and_idempotent() {
    let mut account = Account::new(1, deposit(1, 1, 30_0000));
    assert_eq!(account.apply_tx(1, bare(1, 1, TransactionType::Dispute)), Ok(()));
    assert_eq!(
        account.apply_tx(1, bare(1, 1, TransactionType::Dispute)),
        Err(LedgerError::DisputedTransaction(1))
    );
    assert_eq!(account.balance, Balance { available: 0, held: 30_0000 });
    assert!(account.disputed_transactions.contains(&1));
    assert_eq!(account.disputed_transactions.len(), 1);
    assert_eq!(account.previous_tx_id, 1);
    assert!(!account.locked);
}

#[test]
fn dispute_beyond_available_funds_is_rejected() {
    let mut account = Account::new(1, deposit(1, 1, 30_0000));
    assert_eq!(account.apply_tx(2, withdrawal(1, 2, 25_0000)), Ok(()));
    // The deposited 30 is logged, but only 5 is still available.
    assert_eq!(
        account.apply_tx(1, bare(1, 1, TransactionType::Dispute)),
        Err(LedgerError::InsufficientFunds { available: 5_0000, amount: 30_0000 })
    );
    assert_eq!(account.balance, Balance { available: 5_0000, held: 0 });
}

#[test]
fn resolve_releases_funds() {
    let mut account = Account::new(1, deposit(1, 1, 30_0000));
    assert_eq!(account.apply_tx(1, bare(1, 1, TransactionType::Dispute)), Ok(()));
    assert_eq!(account.apply_tx(1, bare(1, 1, TransactionType::Resolve)), Ok(()));
    assert_eq!(account.balance, Balance { available: 30_0000, held: 0 });
    assert!(!account.disputed_transactions.contains(&1));
    assert!(!account.locked);
}

#[test]
fn resolve_of_undisputed_tx_is_rejected() {
    let mut account = Account::new(1, deposit(1, 1, 30_0000));
    assert_eq!(
        account.apply_tx(1, bare(1, 1, TransactionType::Resolve)),
        Err(LedgerError::DisputedTransaction(1))
    );
    assert_eq!(
        account.apply_tx(1, bare(1, 1, TransactionType::Chargeback)),
        Err(LedgerError::DisputedTransaction(1))
    );
    assert_eq!(account.balance, Balance { available: 30_0000, held: 0 });
}

#[test]
fn chargeback_locks_the_account() {
    let mut account = Account::new(1, deposit(1, 1, 30_0000));
    assert_eq!(account.apply_tx(1, bare(1, 1, TransactionType::Dispute)), Ok(()));
    assert_eq!(account.apply_tx(1, bare(1, 1, TransactionType::Chargeback)), Ok(()));
    assert!(account.locked);
    assert_eq!(account.balance, Balance { available: 0, held: 0 });
    // Any further event, of any kind, is rejected.
    assert_eq!(account.apply_tx(2, deposit(1, 2, 1_0000)), Err(LedgerError::LockedAccount(2)));
    assert_eq!(
        account.apply_tx(3, withdrawal(1, 3, 1_0000)),
        Err(LedgerError::LockedAccount(3))
    );
    assert_eq!(
        account.apply_tx(1, bare(1, 1, TransactionType::Dispute)),
        Err(LedgerError::LockedAccount(1))
    );
    assert_eq!(
        account.apply_tx(1, bare(1, 1, TransactionType::Resolve)),
        Err(LedgerError::LockedAccount(1))
    );
    assert_eq!(
        account.apply_tx(1, bare(1, 1, TransactionType::Chargeback)),
        Err(LedgerError::LockedAccount(1))
    );
    assert_eq!(account.balance, Balance { available: 0, held: 0 });
}

#[test]
fn snapshot_reports_total() {
    let mut account = Account::new(1, deposit(9, 1, 30_0000));
    assert_eq!(account.apply_tx(2, deposit(9, 2, 12_5000)), Ok(()));
    assert_eq!(account.apply_tx(2, bare(9, 2, TransactionType::Dispute)), Ok(()));
    let snapshot = account.snapshot(9);
    assert_eq!(snapshot.client_id, 9);
    assert_eq!(snapshot.available, 30_0000);
    assert_eq!(snapshot.held, 12_5000);
    assert_eq!(snapshot.total, 42_5000);
    assert!(!snapshot.locked);
}
