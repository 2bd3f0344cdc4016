//! Accounts: an identity, an owner, one balance per currency, a PIN, and an
//! append-only transaction history. The account invariant ties the balances
//! to the history: for every currency held, the signed amounts of its entries
//! sum to the current balance, an entry exists exactly for the currencies the
//! history mentions, and each recorded `resulting_balance` is the balance
//! right after its own entry.

use vstd::prelude::*;
use crate::balance::BalanceTable;
use crate::currency::Currency;
use crate::transaction::Transaction;
use crate::transaction::TransactionKind;
use crate::transaction::is_credit_kind;
use crate::transaction::is_debit_kind;
use crate::transaction::lemma_mentions_push;
use crate::transaction::lemma_signed_sum_absent;
use crate::transaction::lemma_signed_sum_push;
use crate::transaction::lemma_take_push;
use crate::transaction::mentions_currency;
use crate::transaction::signed_amount;
use crate::transaction::signed_sum;

verus! {

/// One account of the ledger.
pub struct Account {
    pub id: u32,
    pub owner: String,
    pub balances: BalanceTable,
    pub pin: String,
    pub transactions: Vec<Transaction>,
}

impl Account {
    /// The account holds (has ever been funded in) currency `c`.
    pub open spec fn holds_currency(self, c: Seq<char>) -> bool {
        self.balances@.contains_key(c)
    }

    /// The balance for `c`, meaningful only when the account holds `c`.
    pub open spec fn balance_of(self, c: Seq<char>) -> u64 {
        self.balances@[c]
    }

    /// The balance for `c`, taking an absent entry as zero. Only movement
    /// operations use this reading; a query of an absent entry is an error.
    pub open spec fn balance_or_zero(self, c: Seq<char>) -> int {
        if self.holds_currency(c) {
            self.balance_of(c) as int
        } else {
            0
        }
    }

    /// The account invariant.
    pub open spec fn wf(self) -> bool {
        &&& self.balances.wf()
        &&& self.transactions@.len() >= 1
        &&& self.transactions@[0].kind is OpenAccount
        &&& forall|c: Seq<char>| #[trigger]
            self.balances@.contains_key(c) ==> signed_sum(self.transactions@, c)
                == self.balances@[c] as int
        &&& forall|c: Seq<char>| #[trigger]
            self.balances@.contains_key(c) ==> mentions_currency(self.transactions@, c)
        &&& forall|c: Seq<char>| #[trigger]
            mentions_currency(self.transactions@, c) ==> self.balances@.contains_key(c)
        &&& forall|k: int|
            0 <= k < self.transactions@.len() ==> (#[trigger] self.transactions@[k]).resulting_balance
                as int == signed_sum(
                self.transactions@.take(k + 1),
                self.transactions@[k].currency.code@,
            )
    }

    /// Opens an account: one balance entry for the opening currency, and one
    /// `OpenAccount` transaction recording the opening balance.
    pub fn open(
        id: u32,
        owner: String,
        initial_balance: u64,
        currency: Currency,
        pin: String,
        timestamp: i64,
    ) -> (r: Account)
        ensures
            r.wf(),
            r.id == id,
            r.owner == owner,
            r.pin == pin,
            r.balances@ == Map::<Seq<char>, u64>::empty().insert(currency.code@, initial_balance),
            r.transactions@.len() == 1,
            (r.transactions@[0] == Transaction {
                timestamp,
                kind: TransactionKind::OpenAccount,
                amount: initial_balance,
                resulting_balance: initial_balance,
                currency,
            }),
    {
        let ghost ccode = currency.code@;
        let mut balances = BalanceTable::new();
        balances.set(currency.code.as_str(), initial_balance);
        let tx = Transaction {
            timestamp,
            kind: TransactionKind::OpenAccount,
            amount: initial_balance,
            resulting_balance: initial_balance,
            currency,
        };
        let mut transactions: Vec<Transaction> = Vec::new();
        transactions.push(tx);
        let r = Account { id, owner, balances, pin, transactions };
        proof {
            let ts = r.transactions@;
            assert(ts.drop_last() =~= Seq::<Transaction>::empty());
            assert(ts.take(1) =~= ts);
            assert(ts.last() == tx);
            assert(signed_sum(Seq::<Transaction>::empty(), ccode) == 0);
            assert(signed_amount(tx) == initial_balance as int);
            assert(signed_sum(ts, ccode) == initial_balance);
            assert forall|c: Seq<char>| #[trigger]
                r.balances@.contains_key(c) implies signed_sum(ts, c) == r.balances@[c] as int by {
                assert(c == ccode);
            }
            assert forall|c: Seq<char>| #[trigger]
                r.balances@.contains_key(c) implies mentions_currency(ts, c) by {
                assert(c == ccode);
                assert(ts[0].currency.code@ == c);
            }
            assert forall|c: Seq<char>| #[trigger]
                mentions_currency(ts, c) implies r.balances@.contains_key(c) by {
                let k = choose|k: int| 0 <= k < ts.len() && ts[k].currency.code@ == c;
                assert(k == 0);
            }
        }
        r
    }

    /// Records one credit (deposit or incoming transfer) of `amount` in the
    /// given currency, creating the currency's entry at zero first when the
    /// account never held it.
    pub fn credit(
        &mut self,
        kind: TransactionKind,
        amount: u64,
        currency: Currency,
        timestamp: i64,
    ) -> (new_balance: u64)
        requires
            old(self).wf(),
            is_credit_kind(kind),
            old(self).balance_or_zero(currency.code@) + amount <= u64::MAX,
        ensures
            final(self).wf(),
            new_balance == old(self).balance_or_zero(currency.code@) + amount,
            final(self).id == old(self).id,
            final(self).owner == old(self).owner,
            final(self).pin == old(self).pin,
            final(self).balances@ == old(self).balances@.insert(currency.code@, new_balance),
            (final(self).transactions@ == old(self).transactions@.push(
                Transaction { timestamp, kind, amount, resulting_balance: new_balance, currency },
            )),
    {
        let bal0 = match self.balances.get(currency.code.as_str()) {
            Some(v) => v,
            None => 0,
        };
        let new_balance = bal0 + amount;
        self.balances.set(currency.code.as_str(), new_balance);
        let tx = Transaction { timestamp, kind, amount, resulting_balance: new_balance, currency };
        self.transactions.push(tx);
        proof {
            lemma_movement_preserves_wf(*old(self), *self, new_balance);
        }
        new_balance
    }

    /// Records one debit (withdrawal or outgoing transfer) of `amount` in the
    /// given currency, which the account must hold with at least `amount`
    /// available.
    pub fn debit(
        &mut self,
        kind: TransactionKind,
        amount: u64,
        currency: Currency,
        timestamp: i64,
    ) -> (new_balance: u64)
        requires
            old(self).wf(),
            is_debit_kind(kind),
            old(self).holds_currency(currency.code@),
            amount <= old(self).balance_of(currency.code@),
        ensures
            final(self).wf(),
            new_balance == old(self).balance_of(currency.code@) - amount,
            final(self).id == old(self).id,
            final(self).owner == old(self).owner,
            final(self).pin == old(self).pin,
            final(self).balances@ == old(self).balances@.insert(currency.code@, new_balance),
            (final(self).transactions@ == old(self).transactions@.push(
                Transaction { timestamp, kind, amount, resulting_balance: new_balance, currency },
            )),
    {
        let bal0 = match self.balances.get(currency.code.as_str()) {
            Some(v) => v,
            None => 0,
        };
        let new_balance = bal0 - amount;
        self.balances.set(currency.code.as_str(), new_balance);
        let tx = Transaction { timestamp, kind, amount, resulting_balance: new_balance, currency };
        self.transactions.push(tx);
        proof {
            lemma_movement_preserves_wf(*old(self), *self, new_balance);
        }
        new_balance
    }
}

/// `a1` is `a0` after recording one movement of `amount` in currency `c`:
/// identity, owner and PIN are kept, the balance for `c` becomes `nb`, and
/// exactly one transaction of the given kind is appended, recording `nb`.
pub open spec fn recorded_movement(
    a0: Account,
    a1: Account,
    kind: TransactionKind,
    amount: u64,
    nb: u64,
    c: Seq<char>,
) -> bool {
    &&& a1.id == a0.id
    &&& a1.owner == a0.owner
    &&& a1.pin == a0.pin
    &&& a1.balances@ == a0.balances@.insert(c, nb)
    &&& a1.transactions@.len() == a0.transactions@.len() + 1
    &&& a1.transactions@.drop_last() == a0.transactions@
    &&& a1.transactions@.last().kind == kind
    &&& a1.transactions@.last().amount == amount
    &&& a1.transactions@.last().resulting_balance == nb
    &&& a1.transactions@.last().currency.code@ == c
}

/// One recorded movement — an appended transaction whose signed amount takes
/// its currency's balance from its old value to the recorded one — keeps the
/// account invariant.
proof fn lemma_movement_preserves_wf(a0: Account, a1: Account, nb: u64)
    requires
        a0.wf(),
        a1.balances.wf(),
        a1.transactions@.len() == a0.transactions@.len() + 1,
        a1.transactions@ == a0.transactions@.push(a1.transactions@.last()),
        a1.balances@ == a0.balances@.insert(a1.transactions@.last().currency.code@, nb),
        a1.transactions@.last().resulting_balance == nb,
        nb as int == a0.balance_or_zero(a1.transactions@.last().currency.code@) + signed_amount(
            a1.transactions@.last(),
        ),
    ensures
        a1.wf(),
{
    let ts0 = a0.transactions@;
    let ts1 = a1.transactions@;
    let tx = ts1.last();
    let ccode = tx.currency.code@;
    assert(ts1[0] == ts0[0]);
    if !a0.balances@.contains_key(ccode) {
        if mentions_currency(ts0, ccode) {
            assert(a0.balances@.contains_key(ccode));
        }
        lemma_signed_sum_absent(ts0, ccode);
    }
    assert forall|c: Seq<char>| #[trigger]
        a1.balances@.contains_key(c) implies signed_sum(ts1, c) == a1.balances@[c] as int by {
        lemma_signed_sum_push(ts0, tx, c);
        if c != ccode {
            assert(a0.balances@.contains_key(c));
        }
    }
    assert forall|c: Seq<char>| #[trigger]
        a1.balances@.contains_key(c) implies mentions_currency(ts1, c) by {
        lemma_mentions_push(ts0, tx, c);
        if c != ccode {
            assert(a0.balances@.contains_key(c));
        }
    }
    assert forall|c: Seq<char>| #[trigger]
        mentions_currency(ts1, c) implies a1.balances@.contains_key(c) by {
        lemma_mentions_push(ts0, tx, c);
    }
    assert forall|k: int|
        0 <= k < ts1.len() implies (#[trigger] ts1[k]).resulting_balance as int == signed_sum(
        ts1.take(k + 1),
        ts1[k].currency.code@,
    ) by {
        if k < ts0.len() {
            assert(ts1[k] == ts0[k]);
            lemma_take_push(ts0, tx, k + 1);
            assert(ts0[k].resulting_balance as int == signed_sum(
                ts0.take(k + 1),
                ts0[k].currency.code@,
            ));
        } else {
            assert(ts1.take(k + 1) =~= ts1);
            lemma_signed_sum_push(ts0, tx, ccode);
        }
    }
}

} // verus!
