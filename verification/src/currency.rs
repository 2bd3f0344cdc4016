//! The currency registry: the fixed catalog of valid currency codes and
//! their display metadata. Populated once when the ledger is constructed and
//! immutable afterwards.

use vstd::prelude::*;

verus! {

/// A supported currency: a unique short code plus display metadata.
pub struct Currency {
    pub code: String,
    pub name: String,
    pub symbol: String,
}

impl Clone for Currency {
    fn clone(&self) -> (r: Self)
        ensures
            r == *self,
    {
        Currency {
            code: self.code.clone(),
            name: self.name.clone(),
            symbol: self.symbol.clone(),
        }
    }
}

/// The closed set of currencies the ledger accepts.
pub struct CurrencyRegistry {
    pub entries: Vec<Currency>,
}

impl CurrencyRegistry {
    /// Some registry entry carries the code `c`.
    pub open spec fn spec_supported(self, c: Seq<char>) -> bool {
        exists|i: int| 0 <= i < self.entries@.len() && self.entries@[i].code@ == c
    }

    /// No two registry entries share a code.
    pub open spec fn wf(self) -> bool {
        forall|i: int, j: int|
            0 <= i < j < self.entries@.len() ==> self.entries@[i].code@ != self.entries@[j].code@
    }

    /// The fixed registry the ledger is constructed with: TRY, USD and EUR.
    pub fn standard() -> (r: Self)
        ensures
            r.wf(),
            forall|c: Seq<char>|
                #[trigger] r.spec_supported(c) <==> (c == "TRY"@ || c == "USD"@ || c == "EUR"@),
            r.entries@.len() == 3,
            r.entries@[0].code@ == "TRY"@ && r.entries@[0].name@ == "Türk Lirası"@
                && r.entries@[0].symbol@ == "₺"@,
            r.entries@[1].code@ == "USD"@ && r.entries@[1].name@ == "Amerikan Doları"@
                && r.entries@[1].symbol@ == "$"@,
            r.entries@[2].code@ == "EUR"@ && r.entries@[2].name@ == "Euro"@
                && r.entries@[2].symbol@ == "€"@,
    {
        let mut entries: Vec<Currency> = Vec::new();
        entries.push(
            Currency {
                code: "TRY".to_owned(),
                name: "Türk Lirası".to_owned(),
                symbol: "₺".to_owned(),
            },
        );
        entries.push(
            Currency {
                code: "USD".to_owned(),
                name: "Amerikan Doları".to_owned(),
                symbol: "$".to_owned(),
            },
        );
        entries.push(
            Currency {
                code: "EUR".to_owned(),
                name: "Euro".to_owned(),
                symbol: "€".to_owned(),
            },
        );
        proof {
            reveal_strlit("TRY");
            reveal_strlit("USD");
            reveal_strlit("EUR");
        }
        let r = CurrencyRegistry { entries };
        proof {
            assert("TRY"@[0] != "USD"@[0] && "TRY"@[0] != "EUR"@[0] && "USD"@[0] != "EUR"@[0]);
            assert(r.entries@[0].code@ != r.entries@[1].code@);
            assert(r.entries@[0].code@ != r.entries@[2].code@);
            assert(r.entries@[1].code@ != r.entries@[2].code@);
            assert forall|c: Seq<char>|
                #[trigger] r.spec_supported(c) <==> (c == "TRY"@ || c == "USD"@ || c == "EUR"@) by {
                if c == "TRY"@ {
                    assert(r.entries@[0].code@ == c);
                }
                if c == "USD"@ {
                    assert(r.entries@[1].code@ == c);
                }
                if c == "EUR"@ {
                    assert(r.entries@[2].code@ == c);
                }
            }
        }
        r
    }

    /// Whether `code` names a currency of the registry.
    pub fn is_supported(&self, code: &str) -> (b: bool)
        ensures
            b == self.spec_supported(code@),
    {
        let target: String = code.to_owned();
        let n = self.entries.len();
        let mut i: usize = 0;
        while i < n
            invariant
                n == self.entries@.len(),
                i <= n,
                target@ == code@,
                forall|j: int| 0 <= j < i ==> self.entries@[j].code@ != code@,
            decreases n - i,
        {
            if self.entries[i].code == target {
                return true;
            }
            i += 1;
        }
        false
    }

    /// Looks the code up, returning the registry's entry for it, or `None`
    /// when the code is not supported.
    pub fn lookup(&self, code: &str) -> (r: Option<&Currency>)
        ensures
            match r {
                Some(c) => self.spec_supported(code@) && c.code@ == code@ && (exists|i: int|
                    0 <= i < self.entries@.len() && self.entries@[i] == *c),
                None => !self.spec_supported(code@),
            },
    {
        let target: String = code.to_owned();
        let n = self.entries.len();
        let mut i: usize = 0;
        while i < n
            invariant
                n == self.entries@.len(),
                i <= n,
                target@ == code@,
                forall|j: int| 0 <= j < i ==> self.entries@[j].code@ != code@,
            decreases n - i,
        {
            if self.entries[i].code == target {
                return Some(&self.entries[i]);
            }
            i += 1;
        }
        None
    }
}

} // verus!
