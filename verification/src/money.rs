//! Currency-tagged monetary amounts and the exchange-rate registry.
//!
//! A conversion registry maps ordered currency pairs to positive rates.
//! Converting between equal currencies is the identity (no lookup at
//! all); otherwise the amount is multiplied by the registered rate, or
//! divided by it when only the opposite direction is registered, and an
//! unregistered pair fails with `InvalidOperation`.

use crate::parse::{
    char_is_digit, chars_of, is_digit, number_val, parse_number, subvec, trim_spaces, trim_vec,
};
use crate::percentage::{spec_base_percent, apply_percent_to_base, Percentage};
use crate::rational::{
    frac_eq, frac_fits, frac_mul, frac_norm, frac_wf, lemma_frac_eq_trans, lemma_norm,
    lemma_pos_mul_pos, Frac, Rational,
};
use crate::render::{fixed2_str, fixed2_string};
use crate::restype::{rational_apply, res_models, spec_rational_apply, CalculationError, Operator};
use vstd::prelude::*;

verus! {

/// A currency code.
#[derive(Clone, Copy, Debug, PartialEq, Eq, Structural)]
pub enum Currency {
    Euros,
    Dollars,
}

/// Error: a string is not a known currency symbol.
#[derive(Clone, Copy, Debug, PartialEq, Eq, Structural)]
pub struct ParseCurrencyError;

/// The currency a symbol character denotes, if any.
pub open spec fn currency_of_symbol(c: char) -> Option<Currency> {
    if c == '\u{20ac}' {
        Some(Currency::Euros)
    } else if c == '$' {
        Some(Currency::Dollars)
    } else {
        None
    }
}

/// The symbol character of a currency.
pub open spec fn symbol_of(c: Currency) -> char {
    match c {
        Currency::Euros => '\u{20ac}',
        Currency::Dollars => '$',
    }
}

impl Currency {
    /// Renders the currency as its symbol.
    pub fn render(self) -> (s: String)
        ensures
            s@ == seq![symbol_of(self)],
    {
        proof {
            reveal_strlit("$");
            reveal_strlit("\u{20ac}");
        }
        let s = match self {
            Currency::Euros => "\u{20ac}".to_owned(),
            Currency::Dollars => "$".to_owned(),
        };
        proof {
            assert(s@ =~= seq![symbol_of(self)]);
        }
        s
    }

    /// Parses a currency symbol: exactly one character, either the euro
    /// sign or the dollar sign.
    pub fn from_str(s: &str) -> (r: Result<Currency, ParseCurrencyError>)
        ensures
            match r {
                Ok(c) => s@.len() == 1 && currency_of_symbol(s@[0]) == Some(c),
                Err(e) => (s@.len() != 1 || currency_of_symbol(s@[0]) is None) && e
                    == ParseCurrencyError,
            },
    {
        if s.unicode_len() != 1 {
            return Err(ParseCurrencyError);
        }
        let c = s.get_char(0);
        if c == '\u{20ac}' {
            Ok(Currency::Euros)
        } else if c == '$' {
            Ok(Currency::Dollars)
        } else {
            Err(ParseCurrencyError)
        }
    }

    /// The symbol character of the currency.
    pub fn symbol(self) -> (c: char)
        ensures
            c == symbol_of(self),
            currency_of_symbol(c) == Some(self),
    {
        match self {
            Currency::Euros => '\u{20ac}',
            Currency::Dollars => '$',
        }
    }
}

/// One registered exchange rate: one unit of `from` is `rate` units of
/// `to`.
#[derive(Clone, Copy, Debug, PartialEq, Eq, Structural)]
pub struct RateEntry {
    pub from: Currency,
    pub to: Currency,
    pub rate: Rational,
}

impl RateEntry {
    /// A registered rate is a well-formed, strictly positive rational.
    pub open spec fn wf(self) -> bool {
        self.rate.wf() && self.rate@.n >= 1
    }
}

/// The reciprocal of a positive rate.
pub open spec fn frac_inv(r: Frac) -> Frac {
    Frac { n: r.d, d: r.n }
}

/// Direction-resolved registry lookup: the factor by which an amount of
/// `from` is multiplied to yield `to`, taken from the first entry
/// registered for the pair in either direction.
pub open spec fn rate_lookup(entries: Seq<RateEntry>, from: Currency, to: Currency) -> Option<Frac>
    decreases entries.len(),
{
    if entries.len() == 0 {
        None
    } else if entries[0].from == from && entries[0].to == to {
        Some(entries[0].rate@)
    } else if entries[0].from == to && entries[0].to == from {
        Some(frac_inv(entries[0].rate@))
    } else {
        rate_lookup(entries.drop_first(), from, to)
    }
}

/// Every registered rate is well formed.
pub open spec fn entries_wf(entries: Seq<RateEntry>) -> bool {
    forall|i: int| 0 <= i < entries.len() ==> (#[trigger] entries[i]).wf()
}

/// The registry resolves a pair symmetrically: whichever direction a rate
/// was registered in, the two directions of a lookup use exactly
/// reciprocal factors.
pub proof fn lemma_rate_lookup_symmetric(entries: Seq<RateEntry>, from: Currency, to: Currency)
    requires
        from != to,
    ensures
        match rate_lookup(entries, from, to) {
            Some(f) => rate_lookup(entries, to, from) == Some(Frac { n: f.d, d: f.n }),
            None => rate_lookup(entries, to, from) is None,
        },
    decreases entries.len(),
{
    if entries.len() > 0 {
        let e = entries[0];
        if (e.from == from && e.to == to) || (e.from == to && e.to == from) {
        } else {
            lemma_rate_lookup_symmetric(entries.drop_first(), from, to);
        }
    }
}

/// What a conversion must yield: the unchanged amount between equal
/// currencies, the exact scaled amount in canonical form for a registered
/// pair, `PrecisonLoss` when that amount does not fit the stored range,
/// and `InvalidOperation` for an unregistered pair.
pub open spec fn spec_convert(
    entries: Seq<RateEntry>,
    a: Frac,
    from: Currency,
    to: Currency,
) -> Result<Frac, CalculationError> {
    if from == to {
        Ok(a)
    } else {
        match rate_lookup(entries, from, to) {
            None => Err(CalculationError::InvalidOperation),
            Some(factor) => {
                let e = frac_mul(a, factor);
                if frac_fits(e) {
                    Ok(frac_norm(e))
                } else {
                    Err(CalculationError::PrecisonLoss)
                }
            },
        }
    }
}

/// A registry of exchange rates keyed by ordered currency pairs.
#[derive(Debug)]
pub struct ConversionTable {
    pub entries: Vec<RateEntry>,
}

/// The rate table of the standard registry: euros to dollars at 21/20.
pub open spec fn standard_entries() -> Seq<RateEntry> {
    seq![
        RateEntry {
            from: Currency::Euros,
            to: Currency::Dollars,
            rate: Rational { num: 21, den: 20 },
        },
    ]
}

impl ConversionTable {
    /// Every registered rate is well formed.
    pub open spec fn wf(self) -> bool {
        entries_wf(self.entries@)
    }

    /// The standard registry: euros and dollars at 1.05 dollars per euro.
    pub fn standard() -> (t: ConversionTable)
        ensures
            t.wf(),
            t.entries@ == standard_entries(),
    {
        let mut entries: Vec<RateEntry> = Vec::new();
        entries.push(
            RateEntry {
                from: Currency::Euros,
                to: Currency::Dollars,
                rate: Rational { num: 21, den: 20 },
            },
        );
        proof {
            assert(entries@ =~= standard_entries());
        }
        ConversionTable { entries }
    }

    /// Converts an amount between currencies.  Equal currencies are the
    /// identity; otherwise the first registered rate for the pair is
    /// applied in the matching direction.
    pub fn convert(&self, amount: Rational, from: Currency, to: Currency) -> (r: Result<
        Rational,
        CalculationError,
    >)
        requires
            self.wf(),
            amount.wf(),
        ensures
            res_models(r, spec_convert(self.entries@, amount@, from, to)),
    {
        if from == to {
            return Ok(amount);
        }
        let ghost all = self.entries@;
        let mut i: usize = 0;
        proof {
            assert(all.skip(0) =~= all);
        }
        while i < self.entries.len()
            invariant
                self.wf(),
                amount.wf(),
                from != to,
                0 <= i <= self.entries@.len(),
                self.entries@ == all,
                rate_lookup(all, from, to) == rate_lookup(all.skip(i as int), from, to),
            decreases self.entries@.len() - i,
        {
            let e = self.entries[i];
            proof {
                assert(all.skip(i as int)[0] == all[i as int]);
                assert(all.skip(i as int).drop_first() =~= all.skip(i as int + 1));
            }
            if e.from == from && e.to == to {
                return match amount.mul(e.rate) {
                    Some(q) => Ok(q),
                    None => Err(CalculationError::PrecisonLoss),
                };
            }
            if e.from == to && e.to == from {
                return match amount.div(e.rate) {
                    Some(q) => Ok(q),
                    None => Err(CalculationError::PrecisonLoss),
                };
            }
            i += 1;
        }
        proof {
            assert(all.skip(i as int) =~= Seq::<RateEntry>::empty());
        }
        Err(CalculationError::InvalidOperation)
    }
}

/// Error: a string is not a money amount.
#[derive(Clone, Copy, Debug, PartialEq, Eq, Structural)]
pub struct ParseMoneyError;

/// The money value a string denotes: a currency symbol as the first or
/// the last character (not both), around a decimal number that may be
/// padded with spaces.
pub open spec fn spec_parse_money(s: Seq<char>) -> Option<(Frac, Currency)> {
    if s.len() == 0 {
        None
    } else if !is_digit(s[0]) {
        match currency_of_symbol(s[0]) {
            None => None,
            Some(c) => match number_val(trim_spaces(s.drop_first())) {
                None => None,
                Some(v) => Some((v, c)),
            },
        }
    } else if !is_digit(s.last()) {
        match currency_of_symbol(s.last()) {
            None => None,
            Some(c) => match number_val(trim_spaces(s.drop_last())) {
                None => None,
                Some(v) => Some((v, c)),
            },
        }
    } else {
        None
    }
}

/// The currency a symbol character denotes, if any.
fn currency_from_char(c: char) -> (r: Option<Currency>)
    ensures
        r == currency_of_symbol(c),
{
    if c == '\u{20ac}' {
        Some(Currency::Euros)
    } else if c == '$' {
        Some(Currency::Dollars)
    } else {
        None
    }
}

/// The rendering of a monetary amount: the amount to two decimal places,
/// preceded by the dollar sign or followed by the euro sign.
pub open spec fn money_str(a: Frac, c: Currency) -> Seq<char> {
    match c {
        Currency::Dollars => seq!['$'] + fixed2_str(a),
        Currency::Euros => fixed2_str(a) + seq!['\u{20ac}'],
    }
}

/// Law: converting an amount from a currency into the same currency
/// returns the amount unchanged, for every registry and every amount.
pub proof fn lemma_convert_identity(entries: Seq<RateEntry>, a: Frac, c: Currency)
    ensures
        spec_convert(entries, a, c, c) == Ok::<Frac, CalculationError>(a),
{
}

/// A currency-tagged monetary amount.
#[derive(Clone, Copy, Debug, PartialEq, Eq, Structural)]
pub struct Money {
    pub amount: Rational,
    pub currency: Currency,
}

/// An executable money result matches its model when the amount and the
/// currency agree (and the amount is well formed) or the errors agree.
pub open spec fn money_models(
    r: Result<Money, CalculationError>,
    m: Result<(Frac, Currency), CalculationError>,
) -> bool {
    match r {
        Ok(mo) => m == Ok::<(Frac, Currency), CalculationError>((mo.amount@, mo.currency))
            && mo.wf(),
        Err(e) => m == Err::<(Frac, Currency), CalculationError>(e),
    }
}

/// What a money/money operation must yield: the right operand converted
/// into the left operand's currency, then exact arithmetic on the two
/// amounts, with the result carrying the left operand's currency.
pub open spec fn spec_money_money(
    entries: Seq<RateEntry>,
    op: Operator,
    la: Frac,
    lc: Currency,
    ra: Frac,
    rc: Currency,
) -> Result<(Frac, Currency), CalculationError> {
    match spec_convert(entries, ra, rc, lc) {
        Err(e) => Err(e),
        Ok(conv) => match spec_rational_apply(op, la, conv) {
            Err(e) => Err(e),
            Ok(v) => Ok((v, lc)),
        },
    }
}

/// Scaling two value-equal fractions by the same factor keeps them
/// value-equal.
proof fn lemma_frac_eq_scale(x: Frac, y: Frac, z: Frac)
    requires
        frac_eq(x, y),
    ensures
        frac_eq(frac_mul(x, z), frac_mul(y, z)),
{
    assert((x.n * z.n) * (y.d * z.d) == (y.n * z.n) * (x.d * z.d)) by (nonlinear_arith)
        requires
            x.n * y.d == y.n * x.d;
}

/// Multiplying by a factor and then by its reciprocal returns the
/// original value.
proof fn lemma_mul_reciprocal_cancels(a: Frac, f: Frac)
    ensures
        frac_eq(frac_mul(frac_mul(a, f), Frac { n: f.d, d: f.n }), a),
{
    assert(((a.n * f.n) * f.d) * a.d == a.n * ((a.d * f.d) * f.n)) by (nonlinear_arith);
}

/// Law: a conversion and its reverse undo each other exactly.  Whenever
/// both directions succeed, the round trip returns the original amount's
/// value: the registry stores one rate per pair, so the two directions
/// apply exactly reciprocal factors, and the arithmetic is exact.
pub proof fn lemma_convert_round_trip(
    entries: Seq<RateEntry>,
    a: Frac,
    from: Currency,
    to: Currency,
)
    requires
        frac_wf(a),
        entries_wf(entries),
    ensures
        match spec_convert(entries, a, from, to) {
            Ok(b) => match spec_convert(entries, b, to, from) {
                Ok(back) => frac_eq(back, a),
                Err(_) => true,
            },
            Err(_) => true,
        },
{
    if from == to {
        assert(frac_eq(a, a));
    } else {
        lemma_rate_lookup_symmetric(entries, from, to);
        match rate_lookup(entries, from, to) {
            None => {},
            Some(f) => {
                lemma_rate_lookup_found_wf(entries, from, to);
                let g = Frac { n: f.d, d: f.n };
                let e1 = frac_mul(a, f);
                if frac_fits(e1) {
                    let b = frac_norm(e1);
                    lemma_pos_mul_pos(a.d, f.d);
                    lemma_norm(e1);
                    let e2 = frac_mul(b, g);
                    if frac_fits(e2) {
                        let back = frac_norm(e2);
                        lemma_pos_mul_pos(b.d, g.d);
                        lemma_norm(e2);
                        // back ~ e2 ~ e1 * g ~ a.
                        lemma_frac_eq_scale(b, e1, g);
                        lemma_mul_reciprocal_cancels(a, f);
                        lemma_pos_mul_pos(e1.d, g.d);
                        lemma_frac_eq_trans(back, e2, frac_mul(e1, g));
                        lemma_frac_eq_trans(back, frac_mul(e1, g), a);
                    }
                }
            },
        }
    }
}

/// A factor a lookup returns is well formed and strictly positive.
proof fn lemma_rate_lookup_found_wf(entries: Seq<RateEntry>, from: Currency, to: Currency)
    requires
        entries_wf(entries),
    ensures
        match rate_lookup(entries, from, to) {
            Some(f) => f.n >= 1 && f.d >= 1,
            None => true,
        },
    decreases entries.len(),
{
    if entries.len() > 0 {
        let e = entries[0];
        if (e.from == from && e.to == to) || (e.from == to && e.to == from) {
        } else {
            assert(entries_wf(entries.drop_first())) by {
                assert(forall|i: int|
                    0 <= i < entries.drop_first().len() ==> entries.drop_first()[i]
                        == entries[i + 1]);
            }
            lemma_rate_lookup_found_wf(entries.drop_first(), from, to);
        }
    }
}

/// Law: whatever the operator and the right operand, a successful
/// money/money operation carries the left operand's currency.
pub proof fn lemma_money_result_currency(
    entries: Seq<RateEntry>,
    op: Operator,
    la: Frac,
    lc: Currency,
    ra: Frac,
    rc: Currency,
)
    ensures
        match spec_money_money(entries, op, la, lc, ra, rc) {
            Ok((f, c)) => c == lc,
            Err(_) => true,
        },
{
}

impl Money {
    /// A monetary amount is well formed when its amount is.
    pub open spec fn wf(self) -> bool {
        self.amount.wf()
    }

    /// Tags an amount with a currency.
    pub fn new(amount: Rational, currency: Currency) -> (m: Money)
        ensures
            m.amount == amount,
            m.currency == currency,
    {
        Money { amount, currency }
    }

    /// Re-expresses the amount in another currency through the registry.
    /// Converting into the own currency returns the amount unchanged.
    pub fn conversion(self, new_currency: Currency, table: &ConversionTable) -> (r: Result<
        Money,
        CalculationError,
    >)
        requires
            self.wf(),
            table.wf(),
        ensures
            ({
                let m = spec_convert(table.entries@, self.amount@, self.currency, new_currency);
                match r {
                    Ok(mo) => m == Ok::<Frac, CalculationError>(mo.amount@) && mo.wf()
                        && mo.currency == new_currency,
                    Err(e) => m == Err::<Frac, CalculationError>(e),
                }
            }),
    {
        match table.convert(self.amount, self.currency, new_currency) {
            Ok(a) => Ok(Money { amount: a, currency: new_currency }),
            Err(e) => Err(e),
        }
    }

    /// Applies an operator between two monetary amounts over a registry:
    /// the right operand is converted into the left operand's currency
    /// first, and the result carries the left operand's currency.
    pub fn combine(self, op: Operator, other: Money, table: &ConversionTable) -> (r: Result<
        Money,
        CalculationError,
    >)
        requires
            self.wf(),
            other.wf(),
            table.wf(),
        ensures
            money_models(
                r,
                spec_money_money(
                    table.entries@,
                    op,
                    self.amount@,
                    self.currency,
                    other.amount@,
                    other.currency,
                ),
            ),
    {
        let conv = match table.convert(other.amount, other.currency, self.currency) {
            Ok(a) => a,
            Err(e) => return Err(e),
        };
        match rational_apply(op, self.amount, conv) {
            Ok(v) => Ok(Money { amount: v, currency: self.currency }),
            Err(e) => Err(e),
        }
    }

    /// The sum of two monetary amounts, in the left operand's currency,
    /// over the standard registry.
    pub fn add(self, other: Money) -> (r: Result<Money, CalculationError>)
        requires
            self.wf(),
            other.wf(),
        ensures
            money_models(
                r,
                spec_money_money(
                    standard_entries(),
                    Operator::Add,
                    self.amount@,
                    self.currency,
                    other.amount@,
                    other.currency,
                ),
            ),
    {
        self.combine(Operator::Add, other, &ConversionTable::standard())
    }

    /// The difference of two monetary amounts, in the left operand's
    /// currency, over the standard registry.
    pub fn sub(self, other: Money) -> (r: Result<Money, CalculationError>)
        requires
            self.wf(),
            other.wf(),
        ensures
            money_models(
                r,
                spec_money_money(
                    standard_entries(),
                    Operator::Sub,
                    self.amount@,
                    self.currency,
                    other.amount@,
                    other.currency,
                ),
            ),
    {
        self.combine(Operator::Sub, other, &ConversionTable::standard())
    }

    /// The product of two monetary amounts, in the left operand's
    /// currency, over the standard registry.  Money times money is
    /// semantically unusual but kept for symmetry with addition.
    pub fn mul(self, other: Money) -> (r: Result<Money, CalculationError>)
        requires
            self.wf(),
            other.wf(),
        ensures
            money_models(
                r,
                spec_money_money(
                    standard_entries(),
                    Operator::Mul,
                    self.amount@,
                    self.currency,
                    other.amount@,
                    other.currency,
                ),
            ),
    {
        self.combine(Operator::Mul, other, &ConversionTable::standard())
    }

    /// The quotient of two monetary amounts, in the left operand's
    /// currency, over the standard registry.
    pub fn div(self, other: Money) -> (r: Result<Money, CalculationError>)
        requires
            self.wf(),
            other.wf(),
        ensures
            money_models(
                r,
                spec_money_money(
                    standard_entries(),
                    Operator::Div,
                    self.amount@,
                    self.currency,
                    other.amount@,
                    other.currency,
                ),
            ),
    {
        self.combine(Operator::Div, other, &ConversionTable::standard())
    }

    /// Applies an operator between the amount and a plain real value; the
    /// currency is kept.
    pub fn apply_real(self, op: Operator, x: Rational) -> (r: Result<Money, CalculationError>)
        requires
            self.wf(),
            x.wf(),
        ensures
            ({
                let m = spec_rational_apply(op, self.amount@, x@);
                match r {
                    Ok(mo) => m == Ok::<Frac, CalculationError>(mo.amount@) && mo.wf()
                        && mo.currency == self.currency,
                    Err(e) => m == Err::<Frac, CalculationError>(e),
                }
            }),
    {
        match rational_apply(op, self.amount, x) {
            Ok(v) => Ok(Money { amount: v, currency: self.currency }),
            Err(e) => Err(e),
        }
    }

    /// Parses a money string: a currency symbol as the first or the last
    /// character, around a decimal number.  Succeeds if and only if the
    /// string fits that shape and the value fits the stored range.
    pub fn from_str(s: &str) -> (r: Result<Money, ParseMoneyError>)
        ensures
            match spec_parse_money(s@) {
                Some((f, c)) => match r {
                    Ok(m) => frac_fits(f) && m.wf() && m.amount@ == frac_norm(f) && m.currency
                        == c,
                    Err(_) => !frac_fits(f),
                },
                None => r == Err::<Money, ParseMoneyError>(ParseMoneyError),
            },
    {
        let v = chars_of(s);
        let n = v.len();
        if n == 0 {
            return Err(ParseMoneyError);
        }
        let first = v[0];
        if !char_is_digit(first) {
            let c = match currency_from_char(first) {
                Some(c) => c,
                None => { return Err(ParseMoneyError) },
            };
            let rest = subvec(&v, 1, n);
            proof {
                assert(rest@ =~= s@.drop_first());
            }
            let t = trim_vec(&rest);
            match parse_number(&t) {
                Some(q) => Ok(Money::new(q, c)),
                None => Err(ParseMoneyError),
            }
        } else {
            let last = v[n - 1];
            if !char_is_digit(last) {
                let c = match currency_from_char(last) {
                    Some(c) => c,
                    None => { return Err(ParseMoneyError) },
                };
                let rest = subvec(&v, 0, n - 1);
                proof {
                    assert(rest@ =~= s@.drop_last());
                }
                let t = trim_vec(&rest);
                match parse_number(&t) {
                    Some(q) => Ok(Money::new(q, c)),
                    None => Err(ParseMoneyError),
                }
            } else {
                Err(ParseMoneyError)
            }
        }
    }

    /// Renders the amount to two decimal places with the currency symbol,
    /// as in `$1381.10` or `42.00€`.
    pub fn render(self) -> (s: String)
        requires
            self.wf(),
        ensures
            s@ == money_str(self.amount@, self.currency),
    {
        proof {
            reveal_strlit("$");
            reveal_strlit("\u{20ac}");
        }
        match self.currency {
            Currency::Dollars => {
                let mut s = "$".to_owned();
                let body = fixed2_string(self.amount);
                s.append(body.as_str());
                proof {
                    assert(s@ =~= money_str(self.amount@, self.currency));
                }
                s
            },
            Currency::Euros => {
                let mut s = fixed2_string(self.amount);
                s.append("\u{20ac}");
                proof {
                    assert(s@ =~= money_str(self.amount@, self.currency));
                }
                s
            },
        }
    }

    /// Applies a percentage to the amount as a relative modifier; the
    /// currency is kept.
    pub fn apply_percent(self, op: Operator, p: Percentage) -> (r: Result<Money, CalculationError>)
        requires
            self.wf(),
            p.wf(),
        ensures
            ({
                let m = spec_base_percent(op, self.amount@, p.value@);
                match r {
                    Ok(mo) => m == Ok::<Frac, CalculationError>(mo.amount@) && mo.wf()
                        && mo.currency == self.currency,
                    Err(e) => m == Err::<Frac, CalculationError>(e),
                }
            }),
    {
        match apply_percent_to_base(op, self.amount, p) {
            Ok(v) => Ok(Money { amount: v, currency: self.currency }),
            Err(e) => Err(e),
        }
    }
}

} // verus!
