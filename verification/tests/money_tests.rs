use mixed_units::money::{ConversionTable, Currency, Money, ParseCurrencyError, ParseMoneyError};
use mixed_units::percentage::Percentage;
use mixed_units::rational::Rational;
use mixed_units::restype::{CalculationError, Operator};

#[test]
fn currency_from_str() {
    assert_eq!(Currency::from_str("\u{20ac}"), Ok(Currency::Euros));
    assert_eq!(Currency::from_str("$"), Ok(Currency::Dollars));
    assert_eq!(
        Currency::from_str("Nothing to see here"),
        Err(ParseCurrencyError)
    );
}

#[test]
fn money_from_str() {
    assert_eq!(
        Money::from_str("42.0\u{20ac}"),
        Ok(Money::new(Rational::from_int(42), Currency::Euros))
    );
    assert_eq!(
        Money::from_str("42\u{20ac}"),
        Ok(Money::new(Rational::from_int(42), Currency::Euros))
    );
    assert_eq!(
        Money::from_str("$ 13"),
        Ok(Money::new(Rational::from_int(13), Currency::Dollars))
    );
    assert_eq!(Money::from_str("$ 13 $"), Err(ParseMoneyError));
}

#[test]
fn money_from_str_more() {
    assert_eq!(
        Money::from_str("\u{20ac}42.5"),
        Ok(Money::new(Rational::new(85, 2), Currency::Euros))
    );
    assert_eq!(Money::from_str(""), Err(ParseMoneyError));
    assert_eq!(Money::from_str("42"), Err(ParseMoneyError));
    assert_eq!(Money::from_str("4 2\u{20ac}"), Err(ParseMoneyError));
    assert_eq!(Money::from_str("42.\u{20ac}"), Err(ParseMoneyError));
    assert_eq!(Money::from_str("x42\u{20ac}"), Err(ParseMoneyError));
    // A value outside the representable range is rejected, not truncated.
    assert_eq!(Money::from_str("$9999999999"), Err(ParseMoneyError));
}

#[test]
fn add_money() {
    let bob = Money::new(Rational::from_int(1337), Currency::Dollars);
    let alice = Money::new(Rational::from_int(42), Currency::Euros);
    assert_eq!(
        bob.add(alice),
        Ok(Money::new(Rational::new(13811, 10), Currency::Dollars))
    );
}

#[test]
fn add_i32() {
    assert_eq!(
        Money::new(Rational::from_int(42), Currency::Euros)
            .apply_real(Operator::Add, Rational::from_int(12)),
        Ok(Money::new(Rational::from_int(54), Currency::Euros))
    );
}

#[test]
fn mul_i32() {
    assert_eq!(
        Money::new(Rational::from_int(42), Currency::Euros)
            .apply_real(Operator::Mul, Rational::from_int(12)),
        Ok(Money::new(Rational::from_int(504), Currency::Euros))
    );
}

#[test]
fn add_f64() {
    assert_eq!(
        Money::new(Rational::from_int(7), Currency::Euros)
            .apply_real(Operator::Add, Rational::from_int(6)),
        Ok(Money::new(Rational::from_int(13), Currency::Euros))
    );
}

#[test]
fn mul_f64() {
    assert_eq!(
        Money::new(Rational::from_int(7), Currency::Euros)
            .apply_real(Operator::Mul, Rational::from_int(6)),
        Ok(Money::new(Rational::from_int(42), Currency::Euros))
    );
}

#[test]
fn add_percent() {
    assert_eq!(
        Money::new(Rational::from_int(42), Currency::Euros)
            .apply_percent(Operator::Add, Percentage::new(Rational::from_int(12))),
        Ok(Money::new(Rational::new(4704, 100), Currency::Euros))
    );
}

#[test]
fn percentage_of() {
    assert_eq!(
        Money::new(Rational::from_int(42), Currency::Euros)
            .apply_percent(Operator::Mul, Percentage::new(Rational::from_int(12))),
        Ok(Money::new(Rational::new(504, 100), Currency::Euros))
    );
}

#[test]
fn convert_identity() {
    let table = ConversionTable::standard();
    let x = Rational::new(1337, 100);
    assert_eq!(
        table.convert(x, Currency::Euros, Currency::Euros),
        Ok(x)
    );
    assert_eq!(
        table.convert(x, Currency::Dollars, Currency::Dollars),
        Ok(x)
    );
}

#[test]
fn convert_rates() {
    let table = ConversionTable::standard();
    // Forward: euros to dollars multiplies by 21/20.
    assert_eq!(
        table.convert(Rational::from_int(20), Currency::Euros, Currency::Dollars),
        Ok(Rational::from_int(21))
    );
    // Reverse: dollars to euros divides by 21/20, exactly.
    assert_eq!(
        table.convert(Rational::from_int(21), Currency::Dollars, Currency::Euros),
        Ok(Rational::from_int(20))
    );
}

#[test]
fn convert_unknown_pair() {
    let empty = ConversionTable {
        entries: Vec::new(),
    };
    assert_eq!(
        empty.convert(Rational::from_int(1), Currency::Euros, Currency::Dollars),
        Err(CalculationError::InvalidOperation)
    );
}

#[test]
fn conversion_roundtrip() {
    let table = ConversionTable::standard();
    let m = Money::new(Rational::new(42, 1), Currency::Euros);
    let in_dollars = m.conversion(Currency::Dollars, &table).unwrap();
    assert_eq!(
        in_dollars,
        Money::new(Rational::new(441, 10), Currency::Dollars)
    );
    let back = in_dollars.conversion(Currency::Euros, &table).unwrap();
    assert_eq!(back, m);
}

#[test]
fn money_sub_and_div() {
    let a = Money::new(Rational::from_int(10), Currency::Dollars);
    let b = Money::new(Rational::from_int(4), Currency::Dollars);
    assert_eq!(
        a.sub(b),
        Ok(Money::new(Rational::from_int(6), Currency::Dollars))
    );
    assert_eq!(
        a.div(b),
        Ok(Money::new(Rational::new(5, 2), Currency::Dollars))
    );
    let zero = Money::new(Rational::from_int(0), Currency::Dollars);
    assert_eq!(a.div(zero), Err(CalculationError::InvalidOperation));
    assert_eq!(
        a.mul(b),
        Ok(Money::new(Rational::from_int(40), Currency::Dollars))
    );
}

#[test]
fn money_render() {
    assert_eq!(
        Money::new(Rational::new(13811, 10), Currency::Dollars).render(),
        "$1381.10"
    );
    assert_eq!(
        Money::new(Rational::from_int(42), Currency::Euros).render(),
        "42.00\u{20ac}"
    );
    // One third of a euro rounds to the nearest cent.
    assert_eq!(
        Money::new(Rational::new(1, 3), Currency::Euros).render(),
        "0.33\u{20ac}"
    );
    assert_eq!(
        Money::new(Rational::new(-504, 100), Currency::Euros).render(),
        "-5.04\u{20ac}"
    );
    assert_eq!(Currency::Euros.render(), "\u{20ac}");
    assert_eq!(Currency::Dollars.render(), "$");
}
