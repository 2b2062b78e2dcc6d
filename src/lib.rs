//! A token wallet ledger: the owner's balance and the balances of the
//! counterparties it sent to, with transfers that never overdraw the owner
//! and keep the value they move.

pub mod accounts;
pub mod wallet;

pub use accounts::Balances;
pub use wallet::{LedgerState, Wallet};
