//! The relative percentage modifier and its two algebras.
//!
//! Between two percentages every operator acts elementwise on the wrapped
//! values.  Against a base quantity a percentage acts as a relative
//! modifier: `base + p` increases the base by `p` percent and `base * p`
//! takes `p` percent of the base; no other base/percentage combination is
//! defined.

use crate::rational::{
    frac_add, frac_div, frac_eq, frac_fits, frac_mul, frac_norm, frac_sub, frac_wf,
    lemma_mul_i32_bound, lemma_mul_range, lemma_pos_mul_pos, reduce, Frac, Rational,
};
use crate::render::{fixed1_str, fixed1_string};
use crate::restype::{res_models, CalculationError, Operator};
use vstd::prelude::*;

verus! {

/// A relative modifier: `value` parts per hundred.
#[derive(Clone, Copy, Debug, PartialEq, Eq, Structural)]
pub struct Percentage {
    pub value: Rational,
}

/// The outcome of an operation whose exact result is `e`: the canonical
/// form of `e` when it fits the stored range, `PrecisonLoss` otherwise.
pub open spec fn percent_result(r: Result<Percentage, CalculationError>, e: Frac) -> bool {
    match r {
        Ok(p) => p.wf() && frac_fits(e) && p.value@ == frac_norm(e) && frac_eq(p.value@, e),
        Err(err) => err == CalculationError::PrecisonLoss && !frac_fits(e),
    }
}

/// The exact value of "`p` percent of `base`": `base * p / 100`.
pub open spec fn percent_of(base: Frac, p: Frac) -> Frac {
    Frac { n: base.n * p.n, d: base.d * p.d * 100 }
}

/// The exact value of "`base` increased by `p` percent":
/// `base + base * p / 100`.
pub open spec fn increased_by_percent(base: Frac, p: Frac) -> Frac {
    frac_add(base, percent_of(base, p))
}

impl Percentage {
    /// A percentage is well formed when its value is.
    pub open spec fn wf(self) -> bool {
        self.value.wf()
    }

    /// Wraps a value as a percentage.
    pub fn new(value: Rational) -> (p: Percentage)
        ensures
            p.value == value,
    {
        Percentage { value }
    }

    /// The elementwise sum of two percentages.
    pub fn add(self, rhs: Percentage) -> (r: Result<Percentage, CalculationError>)
        requires
            self.wf(),
            rhs.wf(),
        ensures
            percent_result(r, frac_add(self.value@, rhs.value@)),
    {
        match self.value.add(rhs.value) {
            Some(v) => Ok(Percentage { value: v }),
            None => Err(CalculationError::PrecisonLoss),
        }
    }

    /// The elementwise difference of two percentages.
    pub fn sub(self, rhs: Percentage) -> (r: Result<Percentage, CalculationError>)
        requires
            self.wf(),
            rhs.wf(),
        ensures
            percent_result(r, frac_sub(self.value@, rhs.value@)),
    {
        match self.value.sub(rhs.value) {
            Some(v) => Ok(Percentage { value: v }),
            None => Err(CalculationError::PrecisonLoss),
        }
    }

    /// The elementwise product of two percentages.
    pub fn mul(self, rhs: Percentage) -> (r: Result<Percentage, CalculationError>)
        requires
            self.wf(),
            rhs.wf(),
        ensures
            percent_result(r, frac_mul(self.value@, rhs.value@)),
    {
        match self.value.mul(rhs.value) {
            Some(v) => Ok(Percentage { value: v }),
            None => Err(CalculationError::PrecisonLoss),
        }
    }

    /// The elementwise quotient of two percentages.  Dividing by a zero
    /// percentage is undefined and fails with `InvalidOperation`.
    pub fn div(self, rhs: Percentage) -> (r: Result<Percentage, CalculationError>)
        requires
            self.wf(),
            rhs.wf(),
        ensures
            rhs.value@.n == 0 ==> r == Err::<Percentage, CalculationError>(
                CalculationError::InvalidOperation,
            ),
            rhs.value@.n != 0 ==> percent_result(r, frac_div(self.value@, rhs.value@)),
    {
        if rhs.value.is_zero() {
            return Err(CalculationError::InvalidOperation);
        }
        match self.value.div(rhs.value) {
            Some(v) => Ok(Percentage { value: v }),
            None => Err(CalculationError::PrecisonLoss),
        }
    }
}

/// "`p` percent of `base`", exactly, in lowest terms, or `None` when the
/// result does not fit the stored range.
pub fn percent_of_value(base: Rational, p: Percentage) -> (r: Option<Rational>)
    requires
        base.wf(),
        p.wf(),
    ensures
        ({
            let e = percent_of(base@, p.value@);
            match r {
                Some(q) => q.wf() && frac_fits(e) && q@ == frac_norm(e) && frac_eq(q@, e),
                None => !frac_fits(e),
            }
        }),
{
    proof {
        lemma_mul_i32_bound(base@.n, p.value@.n);
        lemma_mul_i32_bound(base@.d, p.value@.d);
        lemma_pos_mul_pos(base@.d, p.value@.d);
    }
    let n = (base.num as i128) * (p.value.num as i128);
    let d = (base.den as i128) * (p.value.den as i128) * 100;
    reduce(n, d)
}

/// "`base` increased by `p` percent", exactly, in lowest terms, or `None`
/// when the result does not fit the stored range.
pub fn increased_by_percent_value(base: Rational, p: Percentage) -> (r: Option<Rational>)
    requires
        base.wf(),
        p.wf(),
    ensures
        ({
            let e = increased_by_percent(base@, p.value@);
            match r {
                Some(q) => q.wf() && frac_fits(e) && q@ == frac_norm(e) && frac_eq(q@, e),
                None => !frac_fits(e),
            }
        }),
{
    proof {
        lemma_mul_i32_bound(base@.d, p.value@.d);
        lemma_pos_mul_pos(base@.d, p.value@.d);
        // The shared denominator base.d * p.d * 100 is within 2^69.
        lemma_mul_range(base@.n, base@.d * p.value@.d * 100, 0x8000_0000, 0x19_0000_0000_0000_0000);
        lemma_mul_i32_bound(base@.n, p.value@.n);
        lemma_mul_range(base@.n * p.value@.n, base@.d, 0x4000_0000_0000_0000, 0x8000_0000);
        lemma_mul_range(base@.d, base@.d * p.value@.d * 100, 0x8000_0000, 0x19_0000_0000_0000_0000);
    }
    let shared_den = (base.den as i128) * (p.value.den as i128) * 100;
    let n = (base.num as i128) * shared_den + (base.num as i128) * (p.value.num as i128) * (
    base.den as i128);
    let d = (base.den as i128) * shared_den;
    proof {
        lemma_pos_mul_pos(base@.d, base@.d * p.value@.d * 100);
    }
    reduce(n, d)
}

/// What applying an operator between a base value and a percentage must
/// yield: addition increases the base by the percentage, multiplication
/// takes the percentage of the base, and no other combination is defined.
pub open spec fn spec_base_percent(op: Operator, base: Frac, p: Frac) -> Result<
    Frac,
    CalculationError,
> {
    match op {
        Operator::Add => {
            let e = increased_by_percent(base, p);
            if frac_fits(e) {
                Ok(frac_norm(e))
            } else {
                Err(CalculationError::PrecisonLoss)
            }
        },
        Operator::Mul => {
            let e = percent_of(base, p);
            if frac_fits(e) {
                Ok(frac_norm(e))
            } else {
                Err(CalculationError::PrecisonLoss)
            }
        },
        _ => Err(CalculationError::InvalidOperation),
    }
}

/// The rendering of a percentage: its value to one decimal place,
/// followed by a percent sign.
pub open spec fn percent_str(v: Frac) -> Seq<char> {
    fixed1_str(v) + seq!['%']
}

impl Percentage {
    /// Renders the percentage to one decimal place, as in `12.0%`.
    pub fn render(self) -> (s: String)
        requires
            self.wf(),
        ensures
            s@ == percent_str(self.value@),
    {
        proof {
            reveal_strlit("%");
        }
        let mut s = fixed1_string(self.value);
        s.append("%");
        proof {
            assert(s@ =~= percent_str(self.value@));
        }
        s
    }
}

/// Law: increasing a base by `p` percent is the same value as multiplying
/// the base by `1 + p / 100`.
pub proof fn lemma_increase_is_scale(base: Frac, p: Frac)
    requires
        frac_wf(base),
        frac_wf(p),
    ensures
        frac_eq(
            increased_by_percent(base, p),
            frac_mul(base, Frac { n: p.d * 100 + p.n, d: p.d * 100 }),
        ),
{
    let lhs = increased_by_percent(base, p);
    let rhs = frac_mul(base, Frac { n: p.d * 100 + p.n, d: p.d * 100 });
    assert(lhs.n * rhs.d == rhs.n * lhs.d) by (nonlinear_arith)
        requires
            lhs.n == base.n * (base.d * p.d * 100) + (base.n * p.n) * base.d,
            lhs.d == base.d * (base.d * p.d * 100),
            rhs.n == base.n * (p.d * 100 + p.n),
            rhs.d == base.d * (p.d * 100);
}

/// Applies a percentage to a base value as a relative modifier.
pub fn apply_percent_to_base(op: Operator, base: Rational, p: Percentage) -> (r: Result<
    Rational,
    CalculationError,
>)
    requires
        base.wf(),
        p.wf(),
    ensures
        res_models(r, spec_base_percent(op, base@, p.value@)),
{
    match op {
        Operator::Add => match increased_by_percent_value(base, p) {
            Some(q) => Ok(q),
            None => Err(CalculationError::PrecisonLoss),
        },
        Operator::Mul => match percent_of_value(base, p) {
            Some(q) => Ok(q),
            None => Err(CalculationError::PrecisonLoss),
        },
        _ => Err(CalculationError::InvalidOperation),
    }
}

} // verus!
