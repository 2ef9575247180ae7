use mixed_units::math_utils::{checked_to_real, PrecisonLossError};
use mixed_units::money::{Currency, Money};
use mixed_units::percentage::Percentage;
use mixed_units::rational::Rational;
use mixed_units::restype::{arithmetic_operation, evaluate, CalculationError, Operator, ResType};

fn money(n: i32, d: i32, c: Currency) -> ResType {
    ResType::Money(Money::new(Rational::new(n, d), c))
}

fn percent(n: i32) -> ResType {
    ResType::Percent(Percentage::new(Rational::from_int(n)))
}

fn realv(n: i32, d: i32) -> ResType {
    ResType::Real(Rational::new(n, d))
}

#[test]
fn cross_currency_add() {
    // 1337.00$ + 42.00EUR at the 1.05 rate = 1381.10$: the left operand's
    // currency wins.
    let r = evaluate(
        money(1337, 1, Currency::Dollars),
        Operator::Add,
        money(42, 1, Currency::Euros),
    );
    assert_eq!(r, Ok(money(13811, 10, Currency::Dollars)));
    // With the operands swapped the result is in euros: 42 + 1337/1.05.
    let r = evaluate(
        money(42, 1, Currency::Euros),
        Operator::Add,
        money(1337, 1, Currency::Dollars),
    );
    assert_eq!(r, Ok(money(27622, 21, Currency::Euros)));
}

#[test]
fn int_plus_percentage_promotes_to_real() {
    let r = evaluate(ResType::Int(12), Operator::Add, percent(11));
    // 12 + 12 * 11 / 100 = 13.32, and the result kind is Real, not Int.
    assert_eq!(r, Ok(realv(1332, 100)));
    assert!(r.unwrap().is_real());
}

#[test]
fn percentage_division_by_zero_is_invalid() {
    assert_eq!(
        evaluate(percent(13), Operator::Div, percent(0)),
        Err(CalculationError::InvalidOperation)
    );
}

#[test]
fn precision_guard_round_trip() {
    // Every integer in the exactly representable range converts exactly.
    assert_eq!(checked_to_real(42), Ok(Rational::from_int(42)));
    assert_eq!(
        checked_to_real(i32::MIN as i128),
        Ok(Rational::from_int(i32::MIN))
    );
    assert_eq!(
        checked_to_real(i32::MAX as i128),
        Ok(Rational::from_int(i32::MAX))
    );
    // Every integer beyond it is rejected rather than silently truncated.
    assert_eq!(
        checked_to_real(i32::MAX as i128 + 1),
        Err(PrecisonLossError)
    );
    assert_eq!(
        checked_to_real(i32::MIN as i128 - 1),
        Err(PrecisonLossError)
    );
    assert_eq!(checked_to_real(i128::MAX), Err(PrecisonLossError));
}

#[test]
fn money_with_large_int_loses_precision() {
    let r = evaluate(
        money(1, 1, Currency::Euros),
        Operator::Add,
        ResType::Int(1 << 40),
    );
    assert_eq!(r, Err(CalculationError::PrecisonLoss));
}

#[test]
fn int_arithmetic() {
    assert_eq!(
        evaluate(ResType::Int(40), Operator::Add, ResType::Int(2)),
        Ok(ResType::Int(42))
    );
    assert_eq!(
        evaluate(ResType::Int(7), Operator::Div, ResType::Int(2)),
        Ok(ResType::Int(3))
    );
    // Machine division truncates toward zero.
    assert_eq!(
        evaluate(ResType::Int(-7), Operator::Div, ResType::Int(2)),
        Ok(ResType::Int(-3))
    );
    assert_eq!(
        evaluate(ResType::Int(7), Operator::Div, ResType::Int(0)),
        Err(CalculationError::InvalidOperation)
    );
    assert_eq!(
        evaluate(ResType::Int(i128::MAX), Operator::Add, ResType::Int(1)),
        Err(CalculationError::PrecisonLoss)
    );
}

#[test]
fn real_arithmetic() {
    assert_eq!(
        evaluate(realv(1, 2), Operator::Add, realv(1, 3)),
        Ok(realv(5, 6))
    );
    assert_eq!(
        evaluate(realv(1, 2), Operator::Div, realv(0, 1)),
        Err(CalculationError::InvalidOperation)
    );
    assert_eq!(
        evaluate(realv(3, 1), Operator::Mul, ResType::Int(5)),
        Ok(realv(15, 1))
    );
    assert_eq!(
        evaluate(ResType::Int(5), Operator::Sub, realv(3, 1)),
        Ok(realv(2, 1))
    );
}

#[test]
fn undefined_percentage_combinations() {
    // Only addition and multiplication combine a base with a percentage.
    assert_eq!(
        evaluate(money(42, 1, Currency::Euros), Operator::Sub, percent(10)),
        Err(CalculationError::InvalidOperation)
    );
    assert_eq!(
        evaluate(realv(42, 1), Operator::Div, percent(10)),
        Err(CalculationError::InvalidOperation)
    );
    assert_eq!(
        evaluate(ResType::Int(42), Operator::Sub, percent(10)),
        Err(CalculationError::InvalidOperation)
    );
}

#[test]
fn percentage_applies_from_either_side() {
    let r = evaluate(percent(20), Operator::Add, money(42, 1, Currency::Euros));
    assert_eq!(r, Ok(money(504, 10, Currency::Euros)));
    let r = evaluate(percent(50), Operator::Mul, realv(42, 1));
    assert_eq!(r, Ok(realv(21, 1)));
}

#[test]
fn quantity_render() {
    assert_eq!(ResType::Int(-5).render(), "-5");
    assert_eq!(ResType::Int(120).render(), "120");
    assert_eq!(realv(1, 3).render(), "1/3");
    assert_eq!(realv(42, 1).render(), "42");
    assert_eq!(money(504, 10, Currency::Euros).render(), "50.40\u{20ac}");
    assert_eq!(percent(37).render(), "37.0%");
}

#[test]
fn quantity_accessors() {
    let m = money(441, 10, Currency::Dollars);
    assert!(m.is_money());
    assert!(!m.is_int());
    assert!(!m.is_real());
    assert!(!m.is_percentage());
    assert_eq!(
        m.money(),
        Some(Money::new(Rational::new(441, 10), Currency::Dollars))
    );
    assert_eq!(percent(3).money(), None);
    assert_eq!(m.to_real(), Ok(Rational::new(441, 10)));
    assert_eq!(m.to_integer(), 44);
    assert_eq!(realv(-7, 2).to_integer(), -3);
    assert_eq!(ResType::Int(1 << 40).to_real(), Err(PrecisonLossError));
}

#[test]
fn generic_operation() {
    let sum = arithmetic_operation(40i64, 2i64, |x: i64, y: i64| x + y);
    assert_eq!(sum, 42);
}
