//! The ledger core: the event and snapshot model, the account state machine,
//! and the in-memory keyed store of accounts.

pub mod domain;
pub mod error;
pub mod laws;
pub mod ledger;
pub mod model;
