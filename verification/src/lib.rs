//! An in-memory multi-currency ledger.
//!
//! The ledger manages accounts, one balance per currency, PIN-based
//! authorization, and the money-movement operations deposit, withdraw and
//! transfer, recording an append-only transaction history per account.
//! Every balance-affecting or balance-reading operation is gated by an
//! exact-match PIN check, and every operation states in its contract both
//! when it succeeds and which error it returns otherwise.
//!
//! Monetary amounts are unsigned integers (whole minor units): by this
//! choice a negative opening balance, deposit or balance is unrepresentable,
//! and a balance can never go below zero.

pub mod account;
pub mod balance;
pub mod bank;
mod clock;
pub mod currency;
pub mod errors;
pub mod transaction;

pub use account::Account;
pub use bank::Bank;
pub use currency::Currency;
pub use currency::CurrencyRegistry;
pub use errors::BankError;
pub use transaction::Transaction;
pub use transaction::TransactionKind;
