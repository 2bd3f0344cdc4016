//! Per-account balances: one non-negative amount per currency code, viewed
//! abstractly as a map from code to amount. A currency has an entry only once
//! the account has held it; absence means "never funded", not zero.

use vstd::prelude::*;

verus! {

/// One currency's balance on one account.
pub struct BalanceEntry {
    pub code: String,
    pub amount: u64,
}

/// The balances of one account, keyed by currency code.
pub struct BalanceTable {
    pub entries: Vec<BalanceEntry>,
}

/// The map an entry sequence denotes; later entries win, though a
/// well-formed table never repeats a code.
pub open spec fn entries_map(s: Seq<BalanceEntry>) -> Map<Seq<char>, u64>
    decreases s.len(),
{
    if s.len() == 0 {
        Map::empty()
    } else {
        entries_map(s.drop_last()).insert(s.last().code@, s.last().amount)
    }
}

/// No two entries carry the same code.
pub open spec fn unique_codes(s: Seq<BalanceEntry>) -> bool {
    forall|i: int, j: int| 0 <= i < j < s.len() ==> s[i].code@ != s[j].code@
}

/// A code is in the map exactly when some entry carries it.
pub proof fn lemma_entries_map_domain(s: Seq<BalanceEntry>, c: Seq<char>)
    ensures
        entries_map(s).contains_key(c) <==> (exists|i: int| 0 <= i < s.len() && s[i].code@ == c),
    decreases s.len(),
{
    if s.len() > 0 {
        lemma_entries_map_domain(s.drop_last(), c);
        if s.last().code@ == c {
            assert(s[s.len() - 1].code@ == c);
        } else {
            if exists|i: int| 0 <= i < s.drop_last().len() && s.drop_last()[i].code@ == c {
                let i = choose|i: int|
                    0 <= i < s.drop_last().len() && s.drop_last()[i].code@ == c;
                assert(s[i].code@ == c);
            }
            if exists|i: int| 0 <= i < s.len() && s[i].code@ == c {
                let i = choose|i: int| 0 <= i < s.len() && s[i].code@ == c;
                assert(s.drop_last()[i].code@ == c);
            }
        }
    }
}

/// In a table without repeated codes, the map's value for a code is the
/// amount of the entry that carries it.
pub proof fn lemma_entries_map_value(s: Seq<BalanceEntry>, i: int)
    requires
        unique_codes(s),
        0 <= i < s.len(),
    ensures
        entries_map(s).contains_key(s[i].code@),
        entries_map(s)[s[i].code@] == s[i].amount,
    decreases s.len(),
{
    if i == s.len() - 1 {
        assert(s[i] == s.last());
    } else {
        assert(s.drop_last()[i] == s[i]);
        lemma_entries_map_value(s.drop_last(), i);
        assert(s.last().code@ != s[i].code@);
    }
}

/// Replacing the entry at `i` by one with the same code updates exactly that
/// code's value in the map.
pub proof fn lemma_entries_map_update(s: Seq<BalanceEntry>, i: int, e: BalanceEntry)
    requires
        unique_codes(s),
        0 <= i < s.len(),
        e.code@ == s[i].code@,
    ensures
        entries_map(s.update(i, e)) =~= entries_map(s).insert(e.code@, e.amount),
    decreases s.len(),
{
    let su = s.update(i, e);
    if i == s.len() - 1 {
        assert(su.drop_last() =~= s.drop_last());
        assert(su.last() == e);
    } else {
        assert(su.drop_last() =~= s.drop_last().update(i, e));
        assert(su.last() == s.last());
        assert(s.drop_last()[i] == s[i]);
        lemma_entries_map_update(s.drop_last(), i, e);
        assert(s.last().code@ != s[i].code@);
    }
}

impl View for BalanceTable {
    type V = Map<Seq<char>, u64>;

    open spec fn view(&self) -> Map<Seq<char>, u64> {
        entries_map(self.entries@)
    }
}

impl BalanceTable {
    /// The table never repeats a code.
    pub open spec fn wf(self) -> bool {
        unique_codes(self.entries@)
    }

    /// An empty table: no currency has ever been held.
    pub fn new() -> (r: Self)
        ensures
            r.wf(),
            r@ == Map::<Seq<char>, u64>::empty(),
    {
        BalanceTable { entries: Vec::new() }
    }

    /// The balance for `code`, or `None` when the account has never held it.
    pub fn get(&self, code: &str) -> (r: Option<u64>)
        requires
            self.wf(),
        ensures
            match r {
                Some(v) => self@.contains_key(code@) && v == self@[code@],
                None => !self@.contains_key(code@),
            },
    {
        let target: String = code.to_owned();
        let n = self.entries.len();
        let mut i: usize = 0;
        while i < n
            invariant
                n == self.entries@.len(),
                i <= n,
                target@ == code@,
                unique_codes(self.entries@),
                forall|j: int| 0 <= j < i ==> self.entries@[j].code@ != code@,
            decreases n - i,
        {
            if self.entries[i].code == target {
                proof {
                    lemma_entries_map_value(self.entries@, i as int);
                }
                return Some(self.entries[i].amount);
            }
            i += 1;
        }
        proof {
            lemma_entries_map_domain(self.entries@, code@);
        }
        None
    }

    /// Sets the balance for `code` to `value`, creating the entry when the
    /// code was never held before.
    pub fn set(&mut self, code: &str, value: u64)
        requires
            old(self).wf(),
        ensures
            final(self).wf(),
            final(self)@ == old(self)@.insert(code@, value),
    {
        let target: String = code.to_owned();
        let n = self.entries.len();
        let mut i: usize = 0;
        while i < n
            invariant
                n == self.entries@.len(),
                i <= n,
                target@ == code@,
                unique_codes(self.entries@),
                *self == *old(self),
                forall|j: int| 0 <= j < i ==> self.entries@[j].code@ != code@,
            decreases n - i,
        {
            if self.entries[i].code == target {
                let existing = self.entries.remove(i);
                self.entries.insert(i, BalanceEntry { code: existing.code, amount: value });
                proof {
                    let s0 = old(self).entries@;
                    let e = BalanceEntry { code: existing.code, amount: value };
                    assert(self.entries@ =~= s0.update(i as int, e));
                    lemma_entries_map_update(s0, i as int, e);
                    assert forall|p: int, q: int|
                        0 <= p < q < self.entries@.len() implies self.entries@[p].code@
                        != self.entries@[q].code@ by {
                        assert(s0[p].code@ != s0[q].code@);
                    }
                }
                return ;
            }
            i += 1;
        }
        let e = BalanceEntry { code: target, amount: value };
        self.entries.push(e);
        proof {
            let s0 = old(self).entries@;
            assert(self.entries@.drop_last() =~= s0);
            assert forall|p: int, q: int|
                0 <= p < q < self.entries@.len() implies self.entries@[p].code@
                != self.entries@[q].code@ by {
                if q < s0.len() {
                    assert(s0[p].code@ != s0[q].code@);
                } else {
                    assert(self.entries@[q].code@ == code@);
                    assert(s0[p].code@ != code@);
                }
            }
        }
    }
}

} // verus!
