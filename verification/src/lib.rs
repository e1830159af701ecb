//! A fungible-token ledger: balances per principal, with transfer and mint.

pub mod history;
pub mod laws;
pub mod ledger;
pub mod model;
pub mod principal;
pub mod status;
pub mod token;

pub use crate::ledger::Ledger;
pub use crate::status::{mint_status, transfer_status, LedgerError};
pub use crate::token::{create_account, Token};
