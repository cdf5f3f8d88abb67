//! End-to-end tests: a batch of events replayed through the dispatcher and
//! the store, checked against the final snapshots. Amounts are minor units
//! (four decimal places), so `554674400` is `55467.44`.

use leviathan::engine::domain::{AccountSnapshot, Amount, TransactionEvent, TransactionType};
use leviathan::engine::error::LedgerError;
use leviathan::engine::ledger::InMemoryLedger;
use leviathan::TransactionDispatcher;

fn deposit(client_id: u16, tx_id: u32, units: u64) -> TransactionEvent {
    TransactionEvent {
        client_id,
        tx_id,
        transaction_type: TransactionType::Deposit,
        amount: Some(Amount { units }),
    }
}

fn withdrawal(client_id: u16, tx_id: u32, units: u64) -> TransactionEvent {
    TransactionEvent {
        client_id,
        tx_id,
        transaction_type: TransactionType::Withdrawal,
        amount: Some(Amount { units }),
    }
}

fn bare(client_id: u16, tx_id: u32, transaction_type: TransactionType) -> TransactionEvent {
    TransactionEvent { client_id, tx_id, transaction_type, amount: None }
}

#[test]
fn test_updates_from_transaction_dispatcher() {
    let updates = vec![
        deposit(1, 1, 554674400),
        deposit(1, 2, 5474400),
        deposit(3, 4, 55776000),
        deposit(2, 3, 23440000),
        withdrawal(3, 7, 3347560),
        withdrawal(1, 9, 7525600),
        bare(1, 9, TransactionType::Dispute),
        deposit(3, 11, 44462300),
        withdrawal(3, 13, 457680),
        bare(3, 13, TransactionType::Dispute),
        deposit(1, 15, 67597540),
        bare(3, 13, TransactionType::Resolve),
        withdrawal(3, 17, 6574300),
        bare(3, 17, TransactionType::Dispute),
        deposit(2, 18, 43464300),
        withdrawal(1, 19, 4560000),
        bare(3, 17, TransactionType::Chargeback),
        withdrawal(1, 20, 1110000),
    ];

    let mut dispatcher = TransactionDispatcher::<InMemoryLedger, ()>::new(());
    let snapshots = dispatcher.handle_batch(&updates);

    // One snapshot per account, in order of account creation.
    assert_eq!(snapshots.len(), 3);
    assert_eq!(
        snapshots[0],
        AccountSnapshot {
            client_id: 1,
            available: 607025140,
            held: 7525600,
            total: 614550740,
            locked: false,
        }
    );
    assert_eq!(
        snapshots[1],
        AccountSnapshot {
            client_id: 3,
            available: 83284460,
            held: 0,
            total: 83284460,
            locked: true,
        }
    );
    assert_eq!(
        snapshots[2],
        AccountSnapshot {
            client_id: 2,
            available: 66904300,
            held: 0,
            total: 66904300,
            locked: false,
        }
    );
}

#[test]
fn empty_batch_yields_no_snapshots() {
    let mut dispatcher = TransactionDispatcher::<InMemoryLedger, ()>::new(());
    let snapshots = dispatcher.handle_batch(&Vec::new());
    assert!(snapshots.is_empty());
}

#[test]
fn rejected_event_does_not_poison_the_store() {
    let mut dispatcher = TransactionDispatcher::<InMemoryLedger, ()>::new(());
    assert_eq!(dispatcher.process_event(deposit(8, 1, 10_0000)), Ok(8));
    assert_eq!(
        dispatcher.process_event(withdrawal(8, 2, 99_0000)),
        Err(LedgerError::InsufficientFunds { available: 10_0000, amount: 99_0000 })
    );
    assert_eq!(dispatcher.process_event(withdrawal(8, 3, 4_0000)), Ok(8));
    let snapshot = dispatcher.ledger.snapshot(8).unwrap();
    assert_eq!(snapshot.available, 6_0000);
    assert_eq!(snapshot.total, 6_0000);
}

#[test]
fn ledger_creates_one_account_per_client() {
    let mut ledger = InMemoryLedger::new();
    assert_eq!(ledger.process_transaction(1, 1, deposit(1, 1, 5_0000)), Ok(1));
    assert_eq!(ledger.process_transaction(2, 2, deposit(2, 2, 7_0000)), Ok(2));
    assert_eq!(ledger.process_transaction(1, 3, deposit(1, 3, 1_0000)), Ok(1));
    let all = ledger.all_snapshots();
    assert_eq!(all.len(), 2);
    assert_eq!(all[0].client_id, 1);
    assert_eq!(all[0].available, 6_0000);
    assert_eq!(all[1].client_id, 2);
    assert_eq!(all[1].available, 7_0000);
}

#[test]
fn snapshot_of_unknown_client_is_an_error() {
    let mut ledger = InMemoryLedger::new();
    assert_eq!(ledger.snapshot(5), Err(()));
    assert_eq!(ledger.process_transaction(5, 1, deposit(5, 1, 5_0000)), Ok(5));
    assert!(ledger.snapshot(5).is_ok());
    assert_eq!(ledger.snapshot(6), Err(()));
}
