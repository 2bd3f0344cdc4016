//! The error taxonomy of the ledger.
//!
//! Every fallible operation of the ledger returns one of these variants;
//! no operation panics or aborts.

use vstd::prelude::*;

verus! {

/// Why a ledger operation was refused.
#[derive(Debug, PartialEq, Eq)]
pub enum BankError {
    /// The given account id is not present in the ledger.
    AccountNotFound(u32),
    /// The supplied PIN does not match the stored PIN of an existing account.
    InvalidPin,
    /// The currency code is not in the currency registry.
    InvalidCurrency(String),
    /// The account has no balance entry for that currency code
    /// (distinct from a zero balance).
    CurrencyBalanceNotFound(String),
    /// A withdrawal or transfer amount exceeds the current balance.
    InsufficientFunds,
    /// A transfer names the same account as source and destination.
    SameAccount,
}

/// The error is `InvalidCurrency` carrying exactly the code `c`.
pub open spec fn is_invalid_currency(e: BankError, c: Seq<char>) -> bool {
    e matches BankError::InvalidCurrency(s) && s@ == c
}

/// The error is `CurrencyBalanceNotFound` carrying exactly the code `c`.
pub open spec fn is_currency_balance_not_found(e: BankError, c: Seq<char>) -> bool {
    e matches BankError::CurrencyBalanceNotFound(s) && s@ == c
}

} // verus!
