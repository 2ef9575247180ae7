//! The evaluation surface: the tagged union of the four numeric kinds and
//! the promotion/dispatch engine that evaluates a binary operation over it.

use crate::math_utils::{checked_to_real, real_exact_int, PrecisonLossError};
use crate::money::{
    money_str, spec_money_money, standard_entries, ConversionTable, Currency, Money, RateEntry,
};
use crate::percentage::{
    apply_percent_to_base, increased_by_percent, lemma_increase_is_scale, percent_of, percent_str,
    spec_base_percent, Percentage,
};
use crate::rational::{
    frac_add, frac_div, frac_eq, frac_fits, frac_mul, frac_norm, frac_of_int, frac_sub, frac_wf,
    lemma_frac_eq_trans, lemma_norm, lemma_pos_mul_pos, Frac, Rational,
};
use crate::render::{int_str, int_string, rational_str, rational_string};
use vstd::prelude::*;

verus! {

/// A recoverable evaluation failure.
#[derive(Clone, Copy, Debug, PartialEq, Eq, Structural)]
pub enum CalculationError {
    /// The exact result (or a coerced operand) cannot be represented
    /// without loss.
    PrecisonLoss,
    /// The operand/operator combination has no defined semantics, for
    /// example a division by zero or an unregistered currency pair.
    InvalidOperation,
}

/// The operator tag of a binary evaluation.
#[derive(Clone, Copy, Debug, PartialEq, Eq, Structural)]
pub enum Operator {
    Add,
    Sub,
    Mul,
    Div,
}

/// The exact fraction arithmetic an operator denotes.  For division the
/// divisor must be nonzero.
pub open spec fn frac_apply(op: Operator, a: Frac, b: Frac) -> Frac {
    match op {
        Operator::Add => frac_add(a, b),
        Operator::Sub => frac_sub(a, b),
        Operator::Mul => frac_mul(a, b),
        Operator::Div => frac_div(a, b),
    }
}

/// An executable rational result matches its model when the values agree
/// (and the stored rational is well formed) or the errors agree.
pub open spec fn res_models(
    r: Result<Rational, CalculationError>,
    m: Result<Frac, CalculationError>,
) -> bool {
    match r {
        Ok(q) => m == Ok::<Frac, CalculationError>(q@) && q.wf(),
        Err(e) => m == Err::<Frac, CalculationError>(e),
    }
}

/// What applying an operator to two real values must yield: division by
/// zero is undefined; otherwise the exact result in canonical form when it
/// fits the stored range, and `PrecisonLoss` when it does not.
pub open spec fn spec_rational_apply(op: Operator, a: Frac, b: Frac) -> Result<
    Frac,
    CalculationError,
> {
    if op == Operator::Div && b.n == 0 {
        Err(CalculationError::InvalidOperation)
    } else {
        let e = frac_apply(op, a, b);
        if frac_fits(e) {
            Ok(frac_norm(e))
        } else {
            Err(CalculationError::PrecisonLoss)
        }
    }
}

/// Applies an operator exactly to two real values.
pub fn rational_apply(op: Operator, a: Rational, b: Rational) -> (r: Result<
    Rational,
    CalculationError,
>)
    requires
        a.wf(),
        b.wf(),
    ensures
        res_models(r, spec_rational_apply(op, a@, b@)),
{
    let step = match op {
        Operator::Add => a.add(b),
        Operator::Sub => a.sub(b),
        Operator::Mul => a.mul(b),
        Operator::Div => {
            if b.is_zero() {
                return Err(CalculationError::InvalidOperation);
            }
            a.div(b)
        },
    };
    match step {
        Some(q) => Ok(q),
        None => Err(CalculationError::PrecisonLoss),
    }
}

/// Division truncated toward zero, as machine integers divide.
pub open spec fn trunc_div(a: int, b: int) -> int {
    if a == 0 {
        0
    } else if a > 0 && b > 0 {
        a / b
    } else if a < 0 && b < 0 {
        (a * -1) / (b * -1)
    } else if a < 0 {
        ((a * -1) / b) * -1
    } else {
        (a / (b * -1)) * -1
    }
}

/// What plain integer arithmetic must yield: the exact result while it
/// stays in `i128` range, `PrecisonLoss` once it leaves it, and an
/// undefined division by zero.
pub open spec fn spec_int_int(op: Operator, a: int, b: int) -> Result<int, CalculationError> {
    match op {
        Operator::Add => if i128::MIN <= a + b <= i128::MAX {
            Ok(a + b)
        } else {
            Err(CalculationError::PrecisonLoss)
        },
        Operator::Sub => if i128::MIN <= a - b <= i128::MAX {
            Ok(a - b)
        } else {
            Err(CalculationError::PrecisonLoss)
        },
        Operator::Mul => if i128::MIN <= a * b <= i128::MAX {
            Ok(a * b)
        } else {
            Err(CalculationError::PrecisonLoss)
        },
        Operator::Div => if b == 0 {
            Err(CalculationError::InvalidOperation)
        } else if i128::MIN <= trunc_div(a, b) <= i128::MAX {
            Ok(trunc_div(a, b))
        } else {
            Err(CalculationError::PrecisonLoss)
        },
    }
}

/// Applies an operator to two plain integers.
fn int_apply(op: Operator, a: i128, b: i128) -> (r: Result<i128, CalculationError>)
    ensures
        match r {
            Ok(v) => spec_int_int(op, a as int, b as int) == Ok::<int, CalculationError>(v as int),
            Err(e) => spec_int_int(op, a as int, b as int) == Err::<int, CalculationError>(e),
        },
{
    let step = match op {
        Operator::Add => a.checked_add(b),
        Operator::Sub => a.checked_sub(b),
        Operator::Mul => a.checked_mul(b),
        Operator::Div => {
            if b == 0 {
                return Err(CalculationError::InvalidOperation);
            }
            a.checked_div(b)
        },
    };
    match step {
        Some(v) => Ok(v),
        None => Err(CalculationError::PrecisonLoss),
    }
}

/// Model of a quantity: the mathematical value of each of the four kinds.
pub ghost enum QVal {
    Int(int),
    Real(Frac),
    Money(Frac, Currency),
    Percent(Frac),
}

/// Wraps a modelled real result as a real quantity.
pub open spec fn lift_real(m: Result<Frac, CalculationError>) -> Result<QVal, CalculationError> {
    match m {
        Ok(f) => Ok(QVal::Real(f)),
        Err(e) => Err(e),
    }
}

/// Wraps a modelled amount as a monetary quantity of the given currency.
pub open spec fn lift_money(m: Result<Frac, CalculationError>, c: Currency) -> Result<
    QVal,
    CalculationError,
> {
    match m {
        Ok(f) => Ok(QVal::Money(f, c)),
        Err(e) => Err(e),
    }
}

/// Wraps a modelled value as a percentage quantity.
pub open spec fn lift_percent(m: Result<Frac, CalculationError>) -> Result<
    QVal,
    CalculationError,
> {
    match m {
        Ok(f) => Ok(QVal::Percent(f)),
        Err(e) => Err(e),
    }
}

/// The promotion and dispatch rules of the evaluator, over quantity
/// models.  The higher-ranked operand (money over real over integer over
/// percentage) decides the result kind; the lower-ranked operand is
/// coerced; the operands keep their order in the leaf arithmetic.
pub open spec fn spec_evaluate(
    entries: Seq<RateEntry>,
    a: QVal,
    op: Operator,
    b: QVal,
) -> Result<QVal, CalculationError> {
    match (a, b) {
        // Monetary rank: the result is money.
        (QVal::Money(la, lc), QVal::Money(ra, rc)) => match spec_money_money(
            entries,
            op,
            la,
            lc,
            ra,
            rc,
        ) {
            Ok((f, c)) => Ok(QVal::Money(f, c)),
            Err(e) => Err(e),
        },
        (QVal::Money(la, lc), QVal::Real(x)) => lift_money(spec_rational_apply(op, la, x), lc),
        (QVal::Real(x), QVal::Money(ra, rc)) => lift_money(spec_rational_apply(op, x, ra), rc),
        (QVal::Money(la, lc), QVal::Int(i)) => if !real_exact_int(i) {
            Err(CalculationError::PrecisonLoss)
        } else {
            lift_money(spec_rational_apply(op, la, frac_of_int(i)), lc)
        },
        (QVal::Int(i), QVal::Money(ra, rc)) => if !real_exact_int(i) {
            Err(CalculationError::PrecisonLoss)
        } else {
            lift_money(spec_rational_apply(op, frac_of_int(i), ra), rc)
        },
        (QVal::Money(la, lc), QVal::Percent(p)) => lift_money(spec_base_percent(op, la, p), lc),
        (QVal::Percent(p), QVal::Money(ra, rc)) => lift_money(spec_base_percent(op, ra, p), rc),
        // Real rank: the result is real.
        (QVal::Real(x), QVal::Real(y)) => lift_real(spec_rational_apply(op, x, y)),
        (QVal::Real(x), QVal::Int(i)) => if !real_exact_int(i) {
            Err(CalculationError::PrecisonLoss)
        } else {
            lift_real(spec_rational_apply(op, x, frac_of_int(i)))
        },
        (QVal::Int(i), QVal::Real(y)) => if !real_exact_int(i) {
            Err(CalculationError::PrecisonLoss)
        } else {
            lift_real(spec_rational_apply(op, frac_of_int(i), y))
        },
        (QVal::Real(x), QVal::Percent(p)) => lift_real(spec_base_percent(op, x, p)),
        (QVal::Percent(p), QVal::Real(x)) => lift_real(spec_base_percent(op, x, p)),
        // Integer rank: integer with integer stays integer, but a
        // percentage promotes the result to real.
        (QVal::Int(i), QVal::Int(j)) => match spec_int_int(op, i, j) {
            Ok(v) => Ok(QVal::Int(v)),
            Err(e) => Err(e),
        },
        (QVal::Int(i), QVal::Percent(p)) => if op == Operator::Sub || op == Operator::Div {
            Err(CalculationError::InvalidOperation)
        } else if !real_exact_int(i) {
            Err(CalculationError::PrecisonLoss)
        } else {
            lift_real(spec_base_percent(op, frac_of_int(i), p))
        },
        (QVal::Percent(p), QVal::Int(i)) => if op == Operator::Sub || op == Operator::Div {
            Err(CalculationError::InvalidOperation)
        } else if !real_exact_int(i) {
            Err(CalculationError::PrecisonLoss)
        } else {
            lift_real(spec_base_percent(op, frac_of_int(i), p))
        },
        // Percentage rank: the elementwise percentage algebra.
        (QVal::Percent(p1), QVal::Percent(p2)) => lift_percent(spec_rational_apply(op, p1, p2)),
    }
}

/// A quantity: the tagged union of the four numeric kinds.
#[derive(Clone, Copy, Debug, PartialEq, Eq, Structural)]
pub enum ResType {
    Int(i128),
    Real(Rational),
    Money(Money),
    Percent(Percentage),
}

impl View for ResType {
    type V = QVal;

    open spec fn view(&self) -> QVal {
        match *self {
            ResType::Int(i) => QVal::Int(i as int),
            ResType::Real(x) => QVal::Real(x@),
            ResType::Money(m) => QVal::Money(m.amount@, m.currency),
            ResType::Percent(p) => QVal::Percent(p.value@),
        }
    }
}

/// An executable quantity result matches its model when the values agree
/// (and the quantity is well formed) or the errors agree.
pub open spec fn quantity_models(
    r: Result<ResType, CalculationError>,
    m: Result<QVal, CalculationError>,
) -> bool {
    match r {
        Ok(q) => m == Ok::<QVal, CalculationError>(q@) && q.wf(),
        Err(e) => m == Err::<QVal, CalculationError>(e),
    }
}

impl ResType {
    /// A quantity is well formed when its payload is.
    pub open spec fn wf(self) -> bool {
        match self {
            ResType::Int(_) => true,
            ResType::Real(x) => x.wf(),
            ResType::Money(m) => m.wf(),
            ResType::Percent(p) => p.wf(),
        }
    }

    /// Whether the quantity is monetary.
    pub fn is_money(self) -> (b: bool)
        ensures
            b == (self@ is Money),
    {
        matches!(self, ResType::Money(_))
    }

    /// The monetary payload, if the quantity is monetary.
    pub fn money(self) -> (r: Option<Money>)
        ensures
            match r {
                Some(m) => self@ == QVal::Money(m.amount@, m.currency),
                None => !(self@ is Money),
            },
    {
        if let ResType::Money(m) = self {
            return Some(m);
        }
        None
    }

    /// Whether the quantity is a plain real.
    pub fn is_real(self) -> (b: bool)
        ensures
            b == (self@ is Real),
    {
        matches!(self, ResType::Real(_))
    }

    /// Whether the quantity is a plain integer.
    pub fn is_int(self) -> (b: bool)
        ensures
            b == (self@ is Int),
    {
        matches!(self, ResType::Int(_))
    }

    /// Whether the quantity is a percentage.
    pub fn is_percentage(self) -> (b: bool)
        ensures
            b == (self@ is Percent),
    {
        matches!(self, ResType::Percent(_))
    }
}

/// The real value a quantity carries: the integer itself, the real, the
/// monetary amount, or the percentage value.
pub open spec fn real_of(q: QVal) -> Frac {
    match q {
        QVal::Int(i) => frac_of_int(i),
        QVal::Real(f) => f,
        QVal::Money(a, _) => a,
        QVal::Percent(v) => v,
    }
}

/// The value of a quantity truncated toward zero to an integer.
pub open spec fn trunc_of(q: QVal) -> int {
    trunc_div(real_of(q).n, real_of(q).d)
}

impl ResType {
    /// The value as an exact real.  An integer crosses over through the
    /// precision guard and fails with `PrecisonLossError` outside the
    /// exactly representable range.
    pub fn to_real(self) -> (r: Result<Rational, PrecisonLossError>)
        requires
            self.wf(),
        ensures
            match r {
                Ok(q) => q.wf() && q@ == real_of(self@) && (self@ matches QVal::Int(i)
                    ==> real_exact_int(i)),
                Err(_) => self@ matches QVal::Int(i) && !real_exact_int(i),
            },
    {
        match self {
            ResType::Int(i) => checked_to_real(i),
            ResType::Real(x) => Ok(x),
            ResType::Money(m) => Ok(m.amount),
            ResType::Percent(p) => Ok(p.value),
        }
    }

    /// The value truncated toward zero to an integer.
    pub fn to_integer(self) -> (r: i128)
        requires
            self.wf(),
        ensures
            r as int == trunc_of(self@),
    {
        let a = match self {
            ResType::Int(i) => { return i },
            ResType::Real(x) => x,
            ResType::Money(m) => m.amount,
            ResType::Percent(p) => p.value,
        };
        let mag: u64 = if a.num < 0 {
            (-(a.num as i64)) as u64
        } else {
            a.num as u64
        };
        let q = mag / (a.den as u64);
        if a.num < 0 {
            -(q as i128)
        } else {
            q as i128
        }
    }
}

/// The rendering of a quantity: integers and reals as their literal
/// value, money to two decimal places with its currency symbol, and
/// percentages to one decimal place with a percent sign.
pub open spec fn quantity_str(q: QVal) -> Seq<char> {
    match q {
        QVal::Int(i) => int_str(i),
        QVal::Real(f) => rational_str(f),
        QVal::Money(a, c) => money_str(a, c),
        QVal::Percent(v) => percent_str(v),
    }
}

impl ResType {
    /// Renders the quantity as text.
    pub fn render(self) -> (s: String)
        requires
            self.wf(),
        ensures
            s@ == quantity_str(self@),
    {
        match self {
            ResType::Int(i) => int_string(i),
            ResType::Real(x) => rational_string(x),
            ResType::Money(m) => m.render(),
            ResType::Percent(p) => p.render(),
        }
    }
}

/// Evaluates `lhs op rhs` over the promotion and dispatch rules, with
/// currency conversions taken from the given registry.
pub fn evaluate_with(table: &ConversionTable, lhs: ResType, op: Operator, rhs: ResType) -> (r:
    Result<ResType, CalculationError>)
    requires
        table.wf(),
        lhs.wf(),
        rhs.wf(),
    ensures
        quantity_models(r, spec_evaluate(table.entries@, lhs@, op, rhs@)),
{
    match (lhs, rhs) {
        (ResType::Money(lm), ResType::Money(rm)) => match lm.combine(op, rm, table) {
            Ok(m) => Ok(ResType::Money(m)),
            Err(e) => Err(e),
        },
        (ResType::Money(lm), ResType::Real(x)) => match lm.apply_real(op, x) {
            Ok(m) => Ok(ResType::Money(m)),
            Err(e) => Err(e),
        },
        (ResType::Real(x), ResType::Money(rm)) => match rational_apply(op, x, rm.amount) {
            Ok(v) => Ok(ResType::Money(Money::new(v, rm.currency))),
            Err(e) => Err(e),
        },
        (ResType::Money(lm), ResType::Int(i)) => match checked_to_real(i) {
            Err(_) => Err(CalculationError::PrecisonLoss),
            Ok(x) => match lm.apply_real(op, x) {
                Ok(m) => Ok(ResType::Money(m)),
                Err(e) => Err(e),
            },
        },
        (ResType::Int(i), ResType::Money(rm)) => match checked_to_real(i) {
            Err(_) => Err(CalculationError::PrecisonLoss),
            Ok(x) => match rational_apply(op, x, rm.amount) {
                Ok(v) => Ok(ResType::Money(Money::new(v, rm.currency))),
                Err(e) => Err(e),
            },
        },
        (ResType::Money(lm), ResType::Percent(p)) => match lm.apply_percent(op, p) {
            Ok(m) => Ok(ResType::Money(m)),
            Err(e) => Err(e),
        },
        (ResType::Percent(p), ResType::Money(rm)) => match rm.apply_percent(op, p) {
            Ok(m) => Ok(ResType::Money(m)),
            Err(e) => Err(e),
        },
        (ResType::Real(x), ResType::Real(y)) => match rational_apply(op, x, y) {
            Ok(v) => Ok(ResType::Real(v)),
            Err(e) => Err(e),
        },
        (ResType::Real(x), ResType::Int(i)) => match checked_to_real(i) {
            Err(_) => Err(CalculationError::PrecisonLoss),
            Ok(y) => match rational_apply(op, x, y) {
                Ok(v) => Ok(ResType::Real(v)),
                Err(e) => Err(e),
            },
        },
        (ResType::Int(i), ResType::Real(y)) => match checked_to_real(i) {
            Err(_) => Err(CalculationError::PrecisonLoss),
            Ok(x) => match rational_apply(op, x, y) {
                Ok(v) => Ok(ResType::Real(v)),
                Err(e) => Err(e),
            },
        },
        (ResType::Real(x), ResType::Percent(p)) => match apply_percent_to_base(op, x, p) {
            Ok(v) => Ok(ResType::Real(v)),
            Err(e) => Err(e),
        },
        (ResType::Percent(p), ResType::Real(x)) => match apply_percent_to_base(op, x, p) {
            Ok(v) => Ok(ResType::Real(v)),
            Err(e) => Err(e),
        },
        (ResType::Int(i), ResType::Int(j)) => match int_apply(op, i, j) {
            Ok(v) => Ok(ResType::Int(v)),
            Err(e) => Err(e),
        },
        (ResType::Int(i), ResType::Percent(p)) => match op {
            Operator::Sub | Operator::Div => Err(CalculationError::InvalidOperation),
            _ => match checked_to_real(i) {
                Err(_) => Err(CalculationError::PrecisonLoss),
                Ok(x) => match apply_percent_to_base(op, x, p) {
                    Ok(v) => Ok(ResType::Real(v)),
                    Err(e) => Err(e),
                },
            },
        },
        (ResType::Percent(p), ResType::Int(i)) => match op {
            Operator::Sub | Operator::Div => Err(CalculationError::InvalidOperation),
            _ => match checked_to_real(i) {
                Err(_) => Err(CalculationError::PrecisonLoss),
                Ok(x) => match apply_percent_to_base(op, x, p) {
                    Ok(v) => Ok(ResType::Real(v)),
                    Err(e) => Err(e),
                },
            },
        },
        (ResType::Percent(p1), ResType::Percent(p2)) => match rational_apply(op, p1.value, p2.value) {
            Ok(v) => Ok(ResType::Percent(Percentage::new(v))),
            Err(e) => Err(e),
        },
    }
}

/// Evaluates `lhs op rhs` over the standard registry.
pub fn evaluate(lhs: ResType, op: Operator, rhs: ResType) -> (r: Result<ResType, CalculationError>)
    requires
        lhs.wf(),
        rhs.wf(),
    ensures
        quantity_models(r, spec_evaluate(standard_entries(), lhs@, op, rhs@)),
{
    let table = ConversionTable::standard();
    evaluate_with(&table, lhs, op, rhs)
}

/// Law: money times a percentage yields `amount × p / 100`, in the
/// money's own currency, whenever that exact value is representable.
pub proof fn lemma_money_times_percentage(entries: Seq<RateEntry>, m: Frac, c: Currency, p: Frac)
    requires
        frac_wf(m),
        frac_wf(p),
    ensures
        frac_fits(percent_of(m, p)) ==> spec_evaluate(
            entries,
            QVal::Money(m, c),
            Operator::Mul,
            QVal::Percent(p),
        ) == Ok::<QVal, CalculationError>(QVal::Money(frac_norm(percent_of(m, p)), c)),
        frac_eq(frac_norm(percent_of(m, p)), percent_of(m, p)),
{
    lemma_pos_mul_pos(m.d, p.d);
    lemma_pos_mul_pos(m.d * p.d, 100);
    lemma_norm(percent_of(m, p));
}

/// Law: money plus a percentage yields `amount × (1 + p / 100)`, in the
/// money's own currency, whenever the exact increased value is
/// representable.
pub proof fn lemma_money_plus_percentage(entries: Seq<RateEntry>, m: Frac, c: Currency, p: Frac)
    requires
        frac_wf(m),
        frac_wf(p),
    ensures
        frac_fits(increased_by_percent(m, p)) ==> spec_evaluate(
            entries,
            QVal::Money(m, c),
            Operator::Add,
            QVal::Percent(p),
        ) == Ok::<QVal, CalculationError>(QVal::Money(frac_norm(increased_by_percent(m, p)), c)),
        frac_eq(
            frac_norm(increased_by_percent(m, p)),
            frac_mul(m, Frac { n: p.d * 100 + p.n, d: p.d * 100 }),
        ),
{
    lemma_pos_mul_pos(m.d, p.d);
    lemma_pos_mul_pos(m.d * p.d, 100);
    lemma_pos_mul_pos(m.d, m.d * p.d * 100);
    lemma_norm(increased_by_percent(m, p));
    lemma_increase_is_scale(m, p);
    lemma_frac_eq_trans(
        frac_norm(increased_by_percent(m, p)),
        increased_by_percent(m, p),
        frac_mul(m, Frac { n: p.d * 100 + p.n, d: p.d * 100 }),
    );
}

/// Law: an integer combined with a percentage by addition promotes to a
/// real result, never an integer.
pub proof fn lemma_int_plus_percentage_promotes(entries: Seq<RateEntry>, i: int, p: Frac)
    ensures
        match spec_evaluate(entries, QVal::Int(i), Operator::Add, QVal::Percent(p)) {
            Ok(q) => q is Real,
            Err(_) => true,
        },
{
}

/// Law: dividing a percentage by the zero percentage fails with
/// `InvalidOperation` rather than producing a value.
pub proof fn lemma_percentage_div_by_zero(entries: Seq<RateEntry>, p1: Frac, p2: Frac)
    requires
        p2.n == 0,
    ensures
        spec_evaluate(entries, QVal::Percent(p1), Operator::Div, QVal::Percent(p2)) == Err::<
            QVal,
            CalculationError,
        >(CalculationError::InvalidOperation),
{
}

/// Applies a caller-supplied binary operation to two values.
pub fn arithmetic_operation<T, U, F: Fn(T, U) -> T>(a: T, b: U, operation: F) -> (r: T)
    requires
        operation.requires((a, b)),
    ensures
        operation.ensures((a, b), r),
{
    operation(a, b)
}

} // verus!
