//! A minimal financial ledger.
//!
//! Each account holds a signed balance and a fixed credit limit. Credits and
//! debits are applied one at a time, each as an indivisible unit, and never
//! leave an account below its limit. A statement shows the balance together
//! with the ten most recent transactions of an account.

pub mod errors;
pub mod ledger;
pub mod models;
pub mod operation;
pub mod recent;
pub mod settlement;
pub mod statement;
pub mod storage;
pub mod timefmt;
pub mod unit;
