//! The ledger (bank): the owning registry of all accounts and the sole
//! mutator of balances. Identities are assigned from a counter that starts at
//! 1 and advances only on a successful creation, so account ids are exactly
//! 1 up to the number of accounts, in order.

use vstd::prelude::*;
use crate::account::Account;
use crate::account::recorded_movement;
use crate::clock::now_millis;
use crate::currency::Currency;
use crate::currency::CurrencyRegistry;
use crate::errors::BankError;
use crate::errors::is_currency_balance_not_found;
use crate::errors::is_invalid_currency;
use crate::transaction::Transaction;
use crate::transaction::TransactionKind;
use crate::transaction::mentions_currency;
use crate::transaction::signed_sum;

verus! {

/// The ledger of accounts.
pub struct Bank {
    pub accounts: Vec<Account>,
    pub next_id: u32,
    pub currencies: CurrencyRegistry,
}

impl Bank {
    /// An account with this id exists.
    pub open spec fn has_account(self, id: u32) -> bool {
        1 <= id && id as int <= self.accounts@.len()
    }

    /// The account with this id; meaningful only when `has_account(id)`.
    pub open spec fn account_of(self, id: u32) -> Account {
        self.accounts@[id as int - 1]
    }

    /// The registry supports currency code `c`.
    pub open spec fn spec_supported(self, c: Seq<char>) -> bool {
        self.currencies.spec_supported(c)
    }

    /// The stored PIN of account `id` is exactly `pin`.
    pub open spec fn pin_matches(self, id: u32, pin: Seq<char>) -> bool {
        self.account_of(id).pin@ == pin
    }

    /// `c` is one of the registry's own entries, metadata included — not
    /// merely a supported code.
    pub open spec fn currency_registered(self, c: Currency) -> bool {
        exists|i: int| 0 <= i < self.currencies.entries@.len() && self.currencies.entries@[i] == c
    }

    /// Every authorization and validity gate of a deposit passes: the account
    /// exists, the PIN matches, and the currency is supported. Only then does
    /// a deposit reach its addition.
    pub open spec fn deposit_gates_pass(self, id: u32, c: Seq<char>, pin: Seq<char>) -> bool {
        &&& self.has_account(id)
        &&& self.pin_matches(id, pin)
        &&& self.spec_supported(c)
    }

    /// Every gate of a transfer passes: the sender exists and authorized, the
    /// accounts differ, the receiver exists, the currency is supported, and
    /// the sender holds at least `amount` in it. Only then does a transfer
    /// reach the receiver's addition.
    pub open spec fn transfer_gates_pass(
        self,
        from_id: u32,
        to_id: u32,
        amount: u64,
        c: Seq<char>,
        pin: Seq<char>,
    ) -> bool {
        &&& self.has_account(from_id)
        &&& self.pin_matches(from_id, pin)
        &&& from_id != to_id
        &&& self.has_account(to_id)
        &&& self.spec_supported(c)
        &&& self.account_of(from_id).holds_currency(c)
        &&& amount <= self.account_of(from_id).balance_of(c)
    }

    /// The ledger invariant: the registry is well formed, ids are dense (the
    /// account at position `i` has id `i + 1`), the id counter is one past
    /// the last id given out, and every account satisfies its own invariant.
    pub open spec fn wf(self) -> bool {
        &&& self.currencies.wf()
        &&& self.next_id as int == self.accounts@.len() + 1
        &&& forall|i: int|
            0 <= i < self.accounts@.len() ==> (#[trigger] self.accounts@[i]).id as int == i + 1
        &&& forall|i: int| 0 <= i < self.accounts@.len() ==> (#[trigger] self.accounts@[i]).wf()
    }

    /// A fresh ledger: no accounts, the id counter at 1, and the standard
    /// currency registry — exactly the three fixed code/name/symbol triples.
    pub fn new() -> (r: Bank)
        ensures
            r.wf(),
            r.accounts@.len() == 0,
            r.next_id == 1,
            forall|c: Seq<char>|
                #[trigger] r.spec_supported(c) <==> (c == "TRY"@ || c == "USD"@ || c == "EUR"@),
            r.currencies.entries@.len() == 3,
            r.currencies.entries@[0].code@ == "TRY"@ && r.currencies.entries@[0].name@
                == "Türk Lirası"@ && r.currencies.entries@[0].symbol@ == "₺"@,
            r.currencies.entries@[1].code@ == "USD"@ && r.currencies.entries@[1].name@
                == "Amerikan Doları"@ && r.currencies.entries@[1].symbol@ == "$"@,
            r.currencies.entries@[2].code@ == "EUR"@ && r.currencies.entries@[2].name@
                == "Euro"@ && r.currencies.entries@[2].symbol@ == "€"@,
    {
        Bank { accounts: Vec::new(), next_id: 1, currencies: CurrencyRegistry::standard() }
    }

    /// The PIN gate: every balance-affecting or balance-reading operation
    /// passes here first. Exact string equality against the stored PIN.
    pub fn verify_pin(&self, account_id: u32, pin: &str) -> (r: Result<(), BankError>)
        ensures
            (if !self.has_account(account_id) {
                r == Err::<(), BankError>(BankError::AccountNotFound(account_id))
            } else if !self.pin_matches(account_id, pin@) {
                r == Err::<(), BankError>(BankError::InvalidPin)
            } else {
                r == Ok::<(), BankError>(())
            }),
    {
        if account_id >= 1 && (account_id as usize) <= self.accounts.len() {
            let idx = (account_id as usize) - 1;
            let supplied: String = pin.to_owned();
            if self.accounts[idx].pin == supplied {
                Ok(())
            } else {
                Err(BankError::InvalidPin)
            }
        } else {
            Err(BankError::AccountNotFound(account_id))
        }
    }

    /// Creates an account: refused only for an unsupported currency code.
    /// On success the new account gets the next id, a balances map with
    /// exactly one entry for the opening currency, and a one-entry history
    /// (`OpenAccount`, recording the opening balance); the id counter
    /// advances. On failure the ledger is unchanged and the counter does not
    /// advance.
    pub fn create_account(
        &mut self,
        owner: String,
        initial_balance: u64,
        currency_code: &str,
        pin: String,
    ) -> (r: Result<u32, BankError>)
        requires
            old(self).wf(),
            old(self).spec_supported(currency_code@) ==> old(self).next_id < u32::MAX,
        ensures
            final(self).wf(),
            ({
                let pre = *old(self);
                let post = *final(self);
                if !pre.spec_supported(currency_code@) {
                    &&& (r matches Err(e) && is_invalid_currency(e, currency_code@))
                    &&& post == pre
                } else {
                    &&& r == Ok::<u32, BankError>(pre.next_id)
                    &&& post.next_id == pre.next_id + 1
                    &&& post.currencies == pre.currencies
                    &&& post.accounts@.len() == pre.accounts@.len() + 1
                    &&& post.accounts@.drop_last() == pre.accounts@
                    &&& ({
                        let a = post.accounts@.last();
                        &&& a.id == pre.next_id
                        &&& a.owner == owner
                        &&& a.pin == pin
                        &&& a.balances@ == Map::<Seq<char>, u64>::empty().insert(
                            currency_code@,
                            initial_balance,
                        )
                        &&& a.transactions@.len() == 1
                        &&& a.transactions@[0].kind is OpenAccount
                        &&& a.transactions@[0].amount == initial_balance
                        &&& a.transactions@[0].resulting_balance == initial_balance
                        &&& a.transactions@[0].currency.code@ == currency_code@
                        &&& pre.currency_registered(a.transactions@[0].currency)
                    })
                }
            }),
    {
        let currency = match self.currencies.lookup(currency_code) {
            Some(c) => c.clone(),
            None => {
                return Err(BankError::InvalidCurrency(currency_code.to_owned()));
            },
        };
        let id = self.next_id;
        self.next_id = id + 1;
        let timestamp = now_millis();
        let account = Account::open(id, owner, initial_balance, currency, pin, timestamp);
        self.accounts.push(account);
        proof {
            assert(self.accounts@.drop_last() =~= old(self).accounts@);
        }
        Ok(id)
    }

    /// The balance of account `id` in the given currency. An account that
    /// never held the currency has no entry for it: the query is an error,
    /// not a zero.
    pub fn get_balance(&self, id: u32, currency_code: &str, pin: &str) -> (r: Result<
        u64,
        BankError,
    >)
        requires
            self.wf(),
        ensures
            (if !self.has_account(id) {
                r == Err::<u64, BankError>(BankError::AccountNotFound(id))
            } else if !self.pin_matches(id, pin@) {
                r == Err::<u64, BankError>(BankError::InvalidPin)
            } else if !self.account_of(id).holds_currency(currency_code@) {
                r matches Err(e) && is_currency_balance_not_found(e, currency_code@)
            } else {
                r == Ok::<u64, BankError>(self.account_of(id).balance_of(currency_code@))
            }),
    {
        match self.verify_pin(id, pin) {
            Err(e) => {
                return Err(e);
            },
            Ok(()) => {},
        }
        let idx = (id as usize) - 1;
        let account = &self.accounts[idx];
        match account.balances.get(currency_code) {
            Some(v) => Ok(v),
            None => Err(BankError::CurrencyBalanceNotFound(currency_code.to_owned())),
        }
    }

    /// Deposits `amount` into account `id` in the given currency, creating
    /// the currency's entry at zero first when the account never held it.
    /// Returns the new balance and appends one `Deposit` transaction. On any
    /// error the ledger is unchanged.
    pub fn deposit(&mut self, id: u32, amount: u64, currency_code: &str, pin: &str) -> (r: Result<
        u64,
        BankError,
    >)
        requires
            old(self).wf(),
            old(self).deposit_gates_pass(id, currency_code@, pin@) ==> old(self).account_of(
                id,
            ).balance_or_zero(currency_code@) + amount <= u64::MAX,
        ensures
            final(self).wf(),
            ({
                let pre = *old(self);
                let post = *final(self);
                if !pre.has_account(id) {
                    &&& r == Err::<u64, BankError>(BankError::AccountNotFound(id))
                    &&& post == pre
                } else if !pre.pin_matches(id, pin@) {
                    &&& r == Err::<u64, BankError>(BankError::InvalidPin)
                    &&& post == pre
                } else if !pre.spec_supported(currency_code@) {
                    &&& (r matches Err(e) && is_invalid_currency(e, currency_code@))
                    &&& post == pre
                } else {
                    let nb = (pre.account_of(id).balance_or_zero(currency_code@) + amount) as u64;
                    &&& r == Ok::<u64, BankError>(nb)
                    &&& post.next_id == pre.next_id
                    &&& post.currencies == pre.currencies
                    &&& post.accounts@.len() == pre.accounts@.len()
                    &&& (forall|j: int|
                        0 <= j < pre.accounts@.len() && j != id - 1 ==> post.accounts@[j]
                            == pre.accounts@[j])
                    &&& recorded_movement(
                        pre.account_of(id),
                        post.account_of(id),
                        TransactionKind::Deposit,
                        amount,
                        nb,
                        currency_code@,
                    )
                    &&& pre.currency_registered(post.account_of(id).transactions@.last().currency)
                }
            }),
    {
        match self.verify_pin(id, pin) {
            Err(e) => {
                return Err(e);
            },
            Ok(()) => {},
        }
        let currency = match self.currencies.lookup(currency_code) {
            Some(c) => c.clone(),
            None => {
                return Err(BankError::InvalidCurrency(currency_code.to_owned()));
            },
        };
        let timestamp = now_millis();
        let idx = (id as usize) - 1;
        let account = &mut self.accounts[idx];
        let new_balance = account.credit(TransactionKind::Deposit, amount, currency, timestamp);
        proof {
            assert(self.accounts@[idx as int].transactions@.drop_last() =~= old(
                self,
            ).accounts@[idx as int].transactions@);
        }
        Ok(new_balance)
    }

    /// Withdraws `amount` from account `id` in the given currency. Refused
    /// when the currency is unsupported, when the account never held it, or
    /// when the balance is short; on success the balance decreases by exactly
    /// `amount` and one `Withdraw` transaction is appended. On any error the
    /// ledger is unchanged.
    pub fn withdraw(&mut self, id: u32, amount: u64, currency_code: &str, pin: &str) -> (r: Result<
        u64,
        BankError,
    >)
        requires
            old(self).wf(),
        ensures
            final(self).wf(),
            ({
                let pre = *old(self);
                let post = *final(self);
                if !pre.has_account(id) {
                    &&& r == Err::<u64, BankError>(BankError::AccountNotFound(id))
                    &&& post == pre
                } else if !pre.pin_matches(id, pin@) {
                    &&& r == Err::<u64, BankError>(BankError::InvalidPin)
                    &&& post == pre
                } else if !pre.spec_supported(currency_code@) {
                    &&& (r matches Err(e) && is_invalid_currency(e, currency_code@))
                    &&& post == pre
                } else if !pre.account_of(id).holds_currency(currency_code@) {
                    &&& (r matches Err(e) && is_currency_balance_not_found(e, currency_code@))
                    &&& post == pre
                } else if pre.account_of(id).balance_of(currency_code@) < amount {
                    &&& r == Err::<u64, BankError>(BankError::InsufficientFunds)
                    &&& post == pre
                } else {
                    let nb = (pre.account_of(id).balance_of(currency_code@) - amount) as u64;
                    &&& r == Ok::<u64, BankError>(nb)
                    &&& post.next_id == pre.next_id
                    &&& post.currencies == pre.currencies
                    &&& post.accounts@.len() == pre.accounts@.len()
                    &&& (forall|j: int|
                        0 <= j < pre.accounts@.len() && j != id - 1 ==> post.accounts@[j]
                            == pre.accounts@[j])
                    &&& recorded_movement(
                        pre.account_of(id),
                        post.account_of(id),
                        TransactionKind::Withdraw,
                        amount,
                        nb,
                        currency_code@,
                    )
                    &&& pre.currency_registered(post.account_of(id).transactions@.last().currency)
                }
            }),
    {
        match self.verify_pin(id, pin) {
            Err(e) => {
                return Err(e);
            },
            Ok(()) => {},
        }
        let currency = match self.currencies.lookup(currency_code) {
            Some(c) => c.clone(),
            None => {
                return Err(BankError::InvalidCurrency(currency_code.to_owned()));
            },
        };
        let idx = (id as usize) - 1;
        let account_ref = &self.accounts[idx];
        let current = match account_ref.balances.get(currency_code) {
            Some(v) => v,
            None => {
                return Err(BankError::CurrencyBalanceNotFound(currency_code.to_owned()));
            },
        };
        if current < amount {
            return Err(BankError::InsufficientFunds);
        }
        let timestamp = now_millis();
        let account = &mut self.accounts[idx];
        let new_balance = account.debit(TransactionKind::Withdraw, amount, currency, timestamp);
        proof {
            assert(self.accounts@[idx as int].transactions@.drop_last() =~= old(
                self,
            ).accounts@[idx as int].transactions@);
        }
        Ok(new_balance)
    }

    /// Moves `amount` atomically from `from_id` to `to_id` in the given
    /// currency: only the sender authorizes with their PIN. All checks pass
    /// before either side is mutated; on success the sender's balance drops
    /// by exactly `amount`, the receiver's rises by exactly `amount` (its
    /// entry created at zero first when absent), and each side gets one
    /// transaction naming the other as counterparty, both with the same
    /// timestamp. On any error the ledger is unchanged.
    pub fn transfer(
        &mut self,
        from_id: u32,
        to_id: u32,
        amount: u64,
        currency_code: &str,
        pin: &str,
    ) -> (r: Result<(), BankError>)
        requires
            old(self).wf(),
            old(self).transfer_gates_pass(from_id, to_id, amount, currency_code@, pin@) ==> old(
                self,
            ).account_of(to_id).balance_or_zero(currency_code@) + amount <= u64::MAX,
        ensures
            final(self).wf(),
            ({
                let pre = *old(self);
                let post = *final(self);
                if !pre.has_account(from_id) {
                    &&& r == Err::<(), BankError>(BankError::AccountNotFound(from_id))
                    &&& post == pre
                } else if !pre.pin_matches(from_id, pin@) {
                    &&& r == Err::<(), BankError>(BankError::InvalidPin)
                    &&& post == pre
                } else if from_id == to_id {
                    &&& r == Err::<(), BankError>(BankError::SameAccount)
                    &&& post == pre
                } else if !pre.has_account(to_id) {
                    &&& r == Err::<(), BankError>(BankError::AccountNotFound(to_id))
                    &&& post == pre
                } else if !pre.spec_supported(currency_code@) {
                    &&& (r matches Err(e) && is_invalid_currency(e, currency_code@))
                    &&& post == pre
                } else if !pre.account_of(from_id).holds_currency(currency_code@) {
                    &&& (r matches Err(e) && is_currency_balance_not_found(e, currency_code@))
                    &&& post == pre
                } else if pre.account_of(from_id).balance_of(currency_code@) < amount {
                    &&& r == Err::<(), BankError>(BankError::InsufficientFunds)
                    &&& post == pre
                } else {
                    &&& r == Ok::<(), BankError>(())
                    &&& transfer_applied(pre, post, from_id, to_id, amount, currency_code@)
                }
            }),
    {
        match self.verify_pin(from_id, pin) {
            Err(e) => {
                return Err(e);
            },
            Ok(()) => {},
        }
        if from_id == to_id {
            return Err(BankError::SameAccount);
        }
        if !(to_id >= 1 && (to_id as usize) <= self.accounts.len()) {
            return Err(BankError::AccountNotFound(to_id));
        }
        let currency = match self.currencies.lookup(currency_code) {
            Some(c) => c.clone(),
            None => {
                return Err(BankError::InvalidCurrency(currency_code.to_owned()));
            },
        };
        let from_idx = (from_id as usize) - 1;
        let to_idx = (to_id as usize) - 1;
        let sender_ref = &self.accounts[from_idx];
        let sender_balance = match sender_ref.balances.get(currency_code) {
            Some(v) => v,
            None => {
                return Err(BankError::CurrencyBalanceNotFound(currency_code.to_owned()));
            },
        };
        if sender_balance < amount {
            return Err(BankError::InsufficientFunds);
        }
        let timestamp = now_millis();
        let receiver_currency = currency.clone();
        let sender = &mut self.accounts[from_idx];
        sender.debit(
            TransactionKind::TransferOut { counterparty: to_id },
            amount,
            currency,
            timestamp,
        );
        let receiver = &mut self.accounts[to_idx];
        receiver.credit(
            TransactionKind::TransferIn { counterparty: from_id },
            amount,
            receiver_currency,
            timestamp,
        );
        proof {
            let pre = *old(self);
            let post = *self;
            assert(post.accounts@[from_idx as int].transactions@.drop_last()
                =~= pre.accounts@[from_idx as int].transactions@);
            assert(post.accounts@[to_idx as int].transactions@.drop_last()
                =~= pre.accounts@[to_idx as int].transactions@);
        }
        Ok(())
    }

    /// The account's full history, oldest first: the read-only view the
    /// presentation shell renders.
    pub fn list_transactions(&self, id: u32, pin: &str) -> (r: Result<&Vec<Transaction>, BankError>)
        ensures
            (if !self.has_account(id) {
                r == Err::<&Vec<Transaction>, BankError>(BankError::AccountNotFound(id))
            } else if !self.pin_matches(id, pin@) {
                r == Err::<&Vec<Transaction>, BankError>(BankError::InvalidPin)
            } else {
                r matches Ok(ts) && ts@ == self.account_of(id).transactions@
            }),
    {
        match self.verify_pin(id, pin) {
            Err(e) => {
                return Err(e);
            },
            Ok(()) => {},
        }
        let idx = (id as usize) - 1;
        Ok(&self.accounts[idx].transactions)
    }
}

/// `post` is `pre` after a successful transfer of `amount` in currency `c`
/// from `from_id` to `to_id`: every other account is untouched, the sender's
/// balance for `c` drops by `amount` with a `TransferOut` entry naming the
/// receiver, the receiver's rises by `amount` (from zero when absent) with a
/// `TransferIn` entry naming the sender, and the two entries carry the same
/// timestamp.
pub open spec fn transfer_applied(
    pre: Bank,
    post: Bank,
    from_id: u32,
    to_id: u32,
    amount: u64,
    c: Seq<char>,
) -> bool {
    &&& post.next_id == pre.next_id
    &&& post.currencies == pre.currencies
    &&& post.accounts@.len() == pre.accounts@.len()
    &&& (forall|j: int|
        0 <= j < pre.accounts@.len() && j != from_id - 1 && j != to_id - 1
            ==> post.accounts@[j] == pre.accounts@[j])
    &&& recorded_movement(
        pre.account_of(from_id),
        post.account_of(from_id),
        (TransactionKind::TransferOut { counterparty: to_id }),
        amount,
        (pre.account_of(from_id).balance_of(c) - amount) as u64,
        c,
    )
    &&& recorded_movement(
        pre.account_of(to_id),
        post.account_of(to_id),
        (TransactionKind::TransferIn { counterparty: from_id }),
        amount,
        (pre.account_of(to_id).balance_or_zero(c) + amount) as u64,
        c,
    )
    &&& post.account_of(from_id).transactions@.last().timestamp == post.account_of(
        to_id,
    ).transactions@.last().timestamp
    &&& pre.currency_registered(post.account_of(from_id).transactions@.last().currency)
    &&& pre.currency_registered(post.account_of(to_id).transactions@.last().currency)
}

/// For every account and every currency it holds, the signed amounts of all
/// its recorded entries for that currency sum to the current balance. The
/// `OpenAccount` entry carries the opening balance, so this is the opening
/// balance plus the signed deposits, withdrawals and transfers.
pub proof fn lemma_balance_is_history_sum(b: Bank, id: u32, c: Seq<char>)
    requires
        b.wf(),
        b.has_account(id),
        b.account_of(id).holds_currency(c),
    ensures
        signed_sum(b.account_of(id).transactions@, c) == b.account_of(id).balance_of(c) as int,
{
    assert(b.accounts@[id - 1].wf());
}

/// An account whose history never mentions currency `c` holds no balance
/// entry for `c`: a balance query for it is an error, never a zero reading.
pub proof fn lemma_never_funded_no_entry(b: Bank, id: u32, c: Seq<char>)
    requires
        b.wf(),
        b.has_account(id),
        !mentions_currency(b.account_of(id).transactions@, c),
    ensures
        !b.account_of(id).holds_currency(c),
{
    assert(b.accounts@[id - 1].wf());
    if b.account_of(id).holds_currency(c) {
        assert(mentions_currency(b.account_of(id).transactions@, c));
    }
}

/// A successful transfer conserves money: the sender's balance drops by
/// exactly the amount, the receiver's rises by exactly the amount, and the
/// total of the two balances is unchanged (a receiver without an entry for
/// the currency starts from zero).
pub proof fn lemma_transfer_conserves_total(
    pre: Bank,
    post: Bank,
    from_id: u32,
    to_id: u32,
    amount: u64,
    c: Seq<char>,
)
    requires
        pre.has_account(from_id),
        pre.has_account(to_id),
        from_id != to_id,
        pre.account_of(from_id).holds_currency(c),
        amount <= pre.account_of(from_id).balance_of(c),
        pre.account_of(to_id).balance_or_zero(c) + amount <= u64::MAX,
        transfer_applied(pre, post, from_id, to_id, amount, c),
    ensures
        post.account_of(from_id).balance_of(c) == pre.account_of(from_id).balance_of(c) - amount,
        post.account_of(to_id).balance_of(c) == pre.account_of(to_id).balance_or_zero(c) + amount,
        post.account_of(from_id).balance_of(c) + post.account_of(to_id).balance_of(c)
            == pre.account_of(from_id).balance_of(c) + pre.account_of(to_id).balance_or_zero(c),
{
}

} // verus!
