//! A ledger that replays an ordered log of financial transaction events into
//! per-account balances, enforcing funds availability, the dispute lifecycle,
//! and account locking, and exposing point-in-time balance snapshots.
//!
//! The event source (a stream of parsed records) and the snapshot sink (a
//! writer of output records) are external collaborators: a driver reads
//! events, feeds them one by one to a [`TransactionDispatcher`], and hands
//! the final snapshots to its sink.

pub mod engine;
pub mod error_handler;
pub mod listener;

use vstd::prelude::*;

use crate::engine::domain::{AccountSnapshot, TransactionEvent};
use crate::engine::error::LedgerError;
use crate::engine::ledger::InMemoryLedger;
use crate::engine::model::{ledger_step, replay, snapshot_view, AccountView};

verus! {

/// The single consumer of the event sequence: it owns the ledger, feeds it
/// each event in source order, and keeps the snapshot sink it was built with
/// so a driver can hand it the final snapshots. Failed events are reported
/// and dropped; processing always continues with the next event.
///
/// Both snapshot-emission policies are open to a driver: [`Self::process_event`]
/// names the account each event touched, so a per-event driver can read that
/// account's snapshot right away, while [`Self::handle_batch`] drains the
/// whole source first and projects every account once — the default.
pub struct TransactionDispatcher<L, H> {
    /// The keyed store of accounts.
    pub ledger: L,
    /// The snapshot sink this dispatcher was built with. The library never
    /// invokes it; emitting output is the driver's side of the contract.
    pub handler: H,
}

impl<H> TransactionDispatcher<InMemoryLedger, H> {
    /// A dispatcher over an empty ledger, keeping the given snapshot sink.
    pub fn new(handler: H) -> (r: Self)
        ensures
            r.ledger.wf(),
            r.ledger@.accounts == Map::<u16, AccountView>::empty(),
            r.ledger@.order == Seq::<u16>::empty(),
            r.handler == handler,
    {
        TransactionDispatcher { ledger: InMemoryLedger::new(), handler }
    }

    /// Feed one event to the ledger, keyed by the client the event names.
    pub fn process_event(&mut self, update: TransactionEvent) -> (r: Result<u16, LedgerError>)
        requires
            old(self).ledger.wf(),
        ensures
            final(self).ledger.wf(),
            final(self).handler == old(self).handler,
            final(self).ledger@ == ledger_step(
                old(self).ledger@,
                update.client_id,
                update.tx_id,
                update,
            ).0,
            r == ledger_step(old(self).ledger@, update.client_id, update.tx_id, update).1,
    {
        self.ledger.process_transaction(update.client_id, update.tx_id, update)
    }

    /// Replay a whole batch of events in source order — a rejected event is
    /// dropped and the run continues — then project the final snapshot of
    /// every known account, in order of account creation.
    pub fn handle_batch(&mut self, updates: &Vec<TransactionEvent>) -> (r: Vec<AccountSnapshot>)
        requires
            old(self).ledger.wf(),
        ensures
            final(self).ledger.wf(),
            final(self).handler == old(self).handler,
            final(self).ledger@ == replay(old(self).ledger@, updates@),
            r@.len() == final(self).ledger@.order.len(),
            forall|i: int|
                0 <= i < r@.len() ==> r@[i] == snapshot_view(
                    final(self).ledger@.accounts[final(self).ledger@.order[i]],
                    final(self).ledger@.order[i],
                ),
    {
        let mut i: usize = 0;
        while i < updates.len()
            invariant
                self.ledger.wf(),
                self.handler == old(self).handler,
                i <= updates.len(),
                self.ledger@ == replay(old(self).ledger@, updates@.take(i as int)),
            decreases updates.len() - i,
        {
            proof {
                assert(updates@.take(i as int + 1).drop_last() =~= updates@.take(i as int));
                assert(updates@.take(i as int + 1).last() == updates@[i as int]);
            }
            let update = updates[i];
            let _ = self.ledger.process_transaction(update.client_id, update.tx_id, update);
            i = i + 1;
        }
        proof {
            assert(updates@.take(updates@.len() as int) =~= updates@);
        }
        self.ledger.all_snapshots()
    }
}

} // verus!
