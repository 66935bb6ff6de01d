//! A per-user savings ledger: exact decimal amounts in cents, an append-only
//! entry store with derived balances, and the archive transition that moves
//! the current balance into history.

pub mod text;
pub mod amount;
pub mod ledger;
pub mod db;
pub mod laws;
pub mod display;
pub mod command;
