use mixed_units::percentage::Percentage;
use mixed_units::rational::Rational;
use mixed_units::restype::CalculationError;

#[test]
fn add() {
    assert_eq!(
        Percentage::new(Rational::from_int(15)).add(Percentage::new(Rational::from_int(22))),
        Ok(Percentage::new(Rational::from_int(37)))
    );
}

#[test]
fn sub() {
    assert_eq!(
        Percentage::new(Rational::from_int(15)).sub(Percentage::new(Rational::from_int(22))),
        Ok(Percentage::new(Rational::from_int(-7)))
    );
}

#[test]
fn mul() {
    assert_eq!(
        Percentage::new(Rational::from_int(-7)).mul(Percentage::new(Rational::from_int(-2))),
        Ok(Percentage::new(Rational::from_int(14)))
    );
}

#[test]
fn div() {
    assert_eq!(
        Percentage::new(Rational::from_int(13)).div(Percentage::new(Rational::from_int(2))),
        Ok(Percentage::new(Rational::new(65, 10)))
    );
}

#[test]
fn div_by_zero_percentage() {
    assert_eq!(
        Percentage::new(Rational::from_int(13)).div(Percentage::new(Rational::from_int(0))),
        Err(CalculationError::InvalidOperation)
    );
}

#[test]
fn percentage_overflow_reported() {
    let huge = Percentage::new(Rational::new(i32::MAX, 1));
    let one = Percentage::new(Rational::from_int(1));
    assert_eq!(huge.add(one), Err(CalculationError::PrecisonLoss));
}

#[test]
fn percentage_render() {
    assert_eq!(Percentage::new(Rational::from_int(12)).render(), "12.0%");
    assert_eq!(Percentage::new(Rational::new(65, 10)).render(), "6.5%");
    assert_eq!(Percentage::new(Rational::from_int(-7)).render(), "-7.0%");
    // One third of a percent rounds to the nearest tenth.
    assert_eq!(Percentage::new(Rational::new(1, 3)).render(), "0.3%");
}
