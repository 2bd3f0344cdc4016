//! Transactions: immutable records of balance-affecting events, kept per
//! account in an append-only sequence.

use vstd::prelude::*;
use crate::currency::Currency;

verus! {

/// What kind of movement a transaction records. A transfer names the other
/// account involved.
#[derive(Debug, Clone, Copy)]
pub enum TransactionKind {
    OpenAccount,
    Deposit,
    Withdraw,
    TransferOut { counterparty: u32 },
    TransferIn { counterparty: u32 },
}

/// One recorded movement: when it happened, what it was, the amount moved,
/// the balance it left behind, and the currency it was made in.
pub struct Transaction {
    pub timestamp: i64,
    pub kind: TransactionKind,
    pub amount: u64,
    pub resulting_balance: u64,
    pub currency: Currency,
}

/// A kind that adds to a balance.
pub open spec fn is_credit_kind(k: TransactionKind) -> bool {
    match k {
        TransactionKind::Deposit => true,
        TransactionKind::TransferIn { .. } => true,
        _ => false,
    }
}

/// A kind that takes from a balance.
pub open spec fn is_debit_kind(k: TransactionKind) -> bool {
    match k {
        TransactionKind::Withdraw => true,
        TransactionKind::TransferOut { .. } => true,
        _ => false,
    }
}

/// The signed contribution of one transaction to its currency's balance:
/// positive for an opening, a deposit or an incoming transfer, negative for a
/// withdrawal or an outgoing transfer.
pub open spec fn signed_amount(t: Transaction) -> int {
    if is_debit_kind(t.kind) {
        -(t.amount as int)
    } else {
        t.amount as int
    }
}

/// The sum of the signed amounts of the entries of `ts` tagged with currency
/// code `c`.
pub open spec fn signed_sum(ts: Seq<Transaction>, c: Seq<char>) -> int
    decreases ts.len(),
{
    if ts.len() == 0 {
        0
    } else {
        signed_sum(ts.drop_last(), c) + (if ts.last().currency.code@ == c {
            signed_amount(ts.last())
        } else {
            0
        })
    }
}

/// Some entry of `ts` is tagged with currency code `c`.
pub open spec fn mentions_currency(ts: Seq<Transaction>, c: Seq<char>) -> bool {
    exists|k: int| 0 <= k < ts.len() && ts[k].currency.code@ == c
}

/// Appending one transaction adds its signed amount to the sum of its own
/// currency and leaves every other currency's sum unchanged.
pub proof fn lemma_signed_sum_push(ts: Seq<Transaction>, t: Transaction, c: Seq<char>)
    ensures
        signed_sum(ts.push(t), c) == signed_sum(ts, c) + (if t.currency.code@ == c {
            signed_amount(t)
        } else {
            0
        }),
{
    assert(ts.push(t).drop_last() =~= ts);
    assert(ts.push(t).last() == t);
}

/// A history that never mentions a currency sums to zero for it.
pub proof fn lemma_signed_sum_absent(ts: Seq<Transaction>, c: Seq<char>)
    requires
        !mentions_currency(ts, c),
    ensures
        signed_sum(ts, c) == 0,
    decreases ts.len(),
{
    if ts.len() > 0 {
        assert(ts.last().currency.code@ != c);
        assert forall|k: int| 0 <= k < ts.drop_last().len() implies ts.drop_last()[k].currency.code@
            != c by {
            assert(ts.drop_last()[k] == ts[k]);
        }
        lemma_signed_sum_absent(ts.drop_last(), c);
    }
}

/// Appending one transaction makes its own currency mentioned and changes no
/// other currency's being mentioned.
pub proof fn lemma_mentions_push(ts: Seq<Transaction>, t: Transaction, c: Seq<char>)
    ensures
        mentions_currency(ts.push(t), c) <==> (mentions_currency(ts, c) || t.currency.code@ == c),
{
    let tsp = ts.push(t);
    if mentions_currency(ts, c) {
        let k = choose|k: int| 0 <= k < ts.len() && ts[k].currency.code@ == c;
        assert(tsp[k].currency.code@ == c);
    }
    if t.currency.code@ == c {
        assert(tsp[ts.len() as int].currency.code@ == c);
    }
    if mentions_currency(tsp, c) && t.currency.code@ != c {
        let k = choose|k: int| 0 <= k < tsp.len() && tsp[k].currency.code@ == c;
        assert(k < ts.len() && ts[k].currency.code@ == c);
    }
}

/// Taking a prefix that ends before an appended element is unchanged by the
/// append.
pub proof fn lemma_take_push<T>(ts: Seq<T>, t: T, n: int)
    requires
        0 <= n <= ts.len(),
    ensures
        ts.push(t).take(n) == ts.take(n),
{
    assert(ts.push(t).take(n) =~= ts.take(n));
}

} // verus!
