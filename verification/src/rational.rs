//! Exact rational numbers: the real-number domain of the evaluator.
//!
//! A value is a fraction `num / den` with `den >= 1`, stored in `i32`
//! components and kept in lowest terms by every operation.  All
//! intermediate arithmetic is carried out exactly in `i128`, so each
//! operation either returns the mathematically exact result in lowest
//! terms or reports that the result does not fit the component range.

use vstd::prelude::*;
use vstd::arithmetic::div_mod::{
    lemma_add_mod_noop, lemma_fundamental_div_mod, lemma_fundamental_div_mod_converse,
    lemma_mod_self_0, lemma_mul_mod_noop_left, lemma_small_mod,
};
use vstd::math::abs;

verus! {

/// Mathematical model of a rational number: an unbounded numerator and
/// denominator.  A fraction is well formed when its denominator is positive.
pub ghost struct Frac {
    pub n: int,
    pub d: int,
}

/// A well-formed fraction has a positive denominator.
pub open spec fn frac_wf(f: Frac) -> bool {
    f.d >= 1
}

/// Two fractions denote the same rational value (cross multiplication).
pub open spec fn frac_eq(a: Frac, b: Frac) -> bool {
    a.n * b.d == b.n * a.d
}

/// The exact sum of two fractions.
pub open spec fn frac_add(a: Frac, b: Frac) -> Frac {
    Frac { n: a.n * b.d + b.n * a.d, d: a.d * b.d }
}

/// The exact difference of two fractions.
pub open spec fn frac_sub(a: Frac, b: Frac) -> Frac {
    Frac { n: a.n * b.d - b.n * a.d, d: a.d * b.d }
}

/// The exact product of two fractions.
pub open spec fn frac_mul(a: Frac, b: Frac) -> Frac {
    Frac { n: a.n * b.n, d: a.d * b.d }
}

/// The exact quotient of two fractions, sign-normalized so that the
/// denominator stays positive.  Meaningful only when `b.n != 0`.
pub open spec fn frac_div(a: Frac, b: Frac) -> Frac {
    if b.n >= 0 {
        Frac { n: a.n * b.d, d: a.d * b.n }
    } else {
        Frac { n: -(a.n * b.d), d: a.d * (-b.n) }
    }
}

/// The fraction denoting the integer `i`.
pub open spec fn frac_of_int(i: int) -> Frac {
    Frac { n: i, d: 1 }
}

/// The greatest common divisor, by the Euclidean recursion.
pub open spec fn gcd(a: nat, b: nat) -> nat
    decreases b,
{
    if b == 0 {
        a
    } else {
        gcd(b, a % b)
    }
}

/// The gcd of two numbers, not both zero, is positive and divides both.
pub proof fn lemma_gcd_divides(a: nat, b: nat)
    requires
        a + b > 0,
    ensures
        gcd(a, b) >= 1,
        (a as int) % (gcd(a, b) as int) == 0,
        (b as int) % (gcd(a, b) as int) == 0,
    decreases b,
{
    if b == 0 {
        let g = gcd(a, b) as int;
        assert(g == a);
        lemma_mod_self_0(g);
        lemma_small_mod(0, a);
    } else {
        lemma_gcd_divides(b, a % b);
        let g = gcd(b, a % b) as int;
        assert(gcd(a, b) == gcd(b, a % b));
        let bi = b as int;
        let q = a as int / bi;
        let r = (a as int) % bi;
        // a == b * q + r, and g divides both summands.
        lemma_fundamental_div_mod(a as int, bi);
        assert(a as int == bi * q + r);
        lemma_small_mod(0, g as nat);
        lemma_mul_mod_noop_left(bi, q, g);
        assert((bi % g) * q == 0 * q);
        assert(0 * q == 0) by (nonlinear_arith);
        assert((bi * q) % g == 0);
        lemma_add_mod_noop(bi * q, r, g);
        assert((r % g + 0) % g == (bi * q + r) % g);
        assert(r % g == 0);
    }
}

/// The positive factor by which a fraction is reduced to lowest terms.
pub open spec fn norm_gcd(f: Frac) -> int {
    gcd(abs(f.n), f.d as nat) as int
}

/// The canonical form of a fraction: both components divided by their gcd.
pub open spec fn frac_norm(f: Frac) -> Frac {
    Frac { n: f.n / norm_gcd(f), d: f.d / norm_gcd(f) }
}

/// Whether the canonical form of a fraction fits the stored component range.
pub open spec fn frac_fits(f: Frac) -> bool {
    &&& i32::MIN <= frac_norm(f).n <= i32::MAX
    &&& frac_norm(f).d <= i32::MAX
}

/// Reduction to canonical form divides both components exactly, keeps the
/// denominator positive, and preserves the rational value.
pub proof fn lemma_norm(f: Frac)
    requires
        frac_wf(f),
    ensures
        norm_gcd(f) >= 1,
        frac_norm(f).n * norm_gcd(f) == f.n,
        frac_norm(f).d * norm_gcd(f) == f.d,
        frac_norm(f).n == if f.n >= 0 {
            (abs(f.n) as int) / norm_gcd(f)
        } else {
            -((abs(f.n) as int) / norm_gcd(f))
        },
        frac_wf(frac_norm(f)),
        frac_eq(frac_norm(f), f),
{
    let g = norm_gcd(f);
    let na = abs(f.n) as int;
    lemma_gcd_divides(abs(f.n), f.d as nat);
    assert(g >= 1);
    assert(na % g == 0);
    assert(f.d % g == 0);
    // The gcd divides the absolute numerator exactly.
    lemma_fundamental_div_mod(na, g);
    let qa = na / g;
    assert(na == g * qa);
    // ... and the denominator exactly.
    lemma_fundamental_div_mod(f.d, g);
    let qd = f.d / g;
    assert(f.d == g * qd);
    assert(qd * g == f.d) by (nonlinear_arith)
        requires f.d == g * qd;
    // The reduced denominator is still positive.
    assert(qd >= 1) by (nonlinear_arith)
        requires g >= 1, f.d >= 1, f.d == g * qd;
    if f.n >= 0 {
        assert(na == f.n);
        assert(qa * g == f.n) by (nonlinear_arith)
            requires f.n == g * qa;
        assert(f.n / g == qa);
    } else {
        assert(na == -f.n);
        assert(f.n == (-qa) * g + 0) by (nonlinear_arith)
            requires -f.n == g * qa;
        lemma_fundamental_div_mod_converse(f.n, g, -qa, 0);
        assert(f.n / g == -qa);
        assert((-qa) * g == f.n) by (nonlinear_arith)
            requires f.n == (-qa) * g + 0;
    }
    // Cross multiplication: (f.n / g) * f.d == f.n * (f.d / g).
    let rn = f.n / g;
    assert(rn * f.d == f.n * qd) by (nonlinear_arith)
        requires rn * g == f.n, qd * g == f.d;
}

/// Value equality of fractions is transitive across a well-formed middle.
pub proof fn lemma_frac_eq_trans(a: Frac, b: Frac, c: Frac)
    requires
        frac_wf(b),
        frac_eq(a, b),
        frac_eq(b, c),
    ensures
        frac_eq(a, c),
{
    assert(a.n * c.d == c.n * a.d) by (nonlinear_arith)
        requires
            a.n * b.d == b.n * a.d,
            b.n * c.d == c.n * b.d,
            b.d >= 1;
}

/// A factor of at least one can only shrink the magnitude of a product.
proof fn lemma_reduced_within(a: int, g: int, n: int)
    by (nonlinear_arith)
    requires
        g >= 1,
        a * g == n,
    ensures
        n >= 0 ==> 0 <= a <= n,
        n < 0 ==> n <= a <= 0,
{
}

/// The product of two i32-range factors stays far inside the i128 range.
pub(crate) proof fn lemma_mul_i32_bound(x: int, y: int)
    by (nonlinear_arith)
    requires
        -0x8000_0000 <= x <= 0x8000_0000,
        -0x8000_0000 <= y <= 0x8000_0000,
    ensures
        -0x4000_0000_0000_0000 <= x * y <= 0x4000_0000_0000_0000,
{
}

/// A product is bounded by the product of the factors' bounds.
pub(crate) proof fn lemma_mul_range(x: int, y: int, bx: int, by: int)
    by (nonlinear_arith)
    requires
        -bx <= x <= bx,
        -by <= y <= by,
    ensures
        -(bx * by) <= x * y <= bx * by,
{
}

/// The product of two positive factors is positive.
pub(crate) proof fn lemma_pos_mul_pos(x: int, y: int)
    by (nonlinear_arith)
    requires
        x >= 1,
        y >= 1,
    ensures
        x * y >= 1,
{
}

/// An exact rational number `num / den`, kept in lowest terms with a
/// positive denominator.
#[derive(Clone, Copy, Debug, PartialEq, Eq, Structural)]
pub struct Rational {
    pub num: i32,
    pub den: i32,
}

impl View for Rational {
    type V = Frac;

    open spec fn view(&self) -> Frac {
        Frac { n: self.num as int, d: self.den as int }
    }
}

/// Euclid's algorithm.
fn gcd_u128(a: u128, b: u128) -> (g: u128)
    ensures
        g as nat == gcd(a as nat, b as nat),
{
    let mut x = a;
    let mut y = b;
    while y != 0
        invariant
            gcd(x as nat, y as nat) == gcd(a as nat, b as nat),
        decreases y,
    {
        let r = x % y;
        proof {
            assert(gcd(x as nat, y as nat) == gcd(y as nat, (x as nat) % (y as nat)));
        }
        x = y;
        y = r;
    }
    x
}

/// Reduces an exactly computed fraction to lowest terms and stores it,
/// or reports that its canonical form does not fit the component range.
pub(crate) fn reduce(n: i128, d: i128) -> (r: Option<Rational>)
    requires
        1 <= d,
        i128::MIN < n,
    ensures
        ({
            let f = Frac { n: n as int, d: d as int };
            match r {
                Some(q) => q.wf() && frac_fits(f) && q@ == frac_norm(f) && frac_eq(q@, f),
                None => !frac_fits(f),
            }
        }),
{
    let ghost f = Frac { n: n as int, d: d as int };
    proof {
        lemma_norm(f);
    }
    let neg = n < 0;
    let n_abs: u128 = if neg {
        (-n) as u128
    } else {
        n as u128
    };
    assert(n_abs as int == abs(f.n));
    let du: u128 = d as u128;
    let g = gcd_u128(n_abs, du);
    assert(g as int == norm_gcd(f));
    let n_red = n_abs / g;
    let d_red = du / g;
    assert(n_red as int == (abs(f.n) as int) / norm_gcd(f));
    assert(d_red as int == frac_norm(f).d);
    if d_red > 0x7fff_ffff {
        return None;
    }
    if neg {
        if n_red > 0x8000_0000 {
            assert(frac_norm(f).n < i32::MIN);
            return None;
        }
        let num: i32 = (-(n_red as i128)) as i32;
        assert(num as int == frac_norm(f).n);
        Some(Rational { num, den: d_red as i32 })
    } else {
        if n_red > 0x7fff_ffff {
            return None;
        }
        let num: i32 = n_red as i32;
        Some(Rational { num, den: d_red as i32 })
    }
}

impl Rational {
    /// A stored rational is well formed when its denominator is positive.
    pub open spec fn wf(self) -> bool {
        self.den >= 1
    }

    /// The rational denoting the integer `i`.
    pub fn from_int(i: i32) -> (r: Rational)
        ensures
            r.wf(),
            r@ == frac_of_int(i as int),
    {
        Rational { num: i, den: 1 }
    }

    /// The rational `num / den`, reduced to lowest terms.
    pub fn new(num: i32, den: i32) -> (r: Rational)
        requires
            den >= 1,
        ensures
            r.wf(),
            r@ == frac_norm(Frac { n: num as int, d: den as int }),
            frac_eq(r@, Frac { n: num as int, d: den as int }),
    {
        let ghost f = Frac { n: num as int, d: den as int };
        proof {
            lemma_norm(f);
            lemma_reduced_within(frac_norm(f).n, norm_gcd(f), f.n);
            lemma_reduced_within(frac_norm(f).d, norm_gcd(f), f.d);
            assert(frac_fits(f));
        }
        match reduce(num as i128, den as i128) {
            Some(q) => q,
            None => vstd::pervasive::unreached(),
        }
    }

    /// Whether the value is exactly zero.
    pub fn is_zero(&self) -> (b: bool)
        ensures
            b == (self@.n == 0),
    {
        self.num == 0
    }

    /// The exact sum, in lowest terms, or `None` when it does not fit.
    pub fn add(self, other: Rational) -> (r: Option<Rational>)
        requires
            self.wf(),
            other.wf(),
        ensures
            ({
                let e = frac_add(self@, other@);
                match r {
                    Some(q) => q.wf() && frac_fits(e) && q@ == frac_norm(e) && frac_eq(q@, e),
                    None => !frac_fits(e),
                }
            }),
    {
        proof {
            lemma_mul_i32_bound(self.num as int, other.den as int);
            lemma_mul_i32_bound(other.num as int, self.den as int);
            lemma_pos_mul_pos(self.den as int, other.den as int);
            lemma_mul_i32_bound(self.den as int, other.den as int);
        }
        let n = (self.num as i128) * (other.den as i128) + (other.num as i128) * (self.den as i128);
        let d = (self.den as i128) * (other.den as i128);
        reduce(n, d)
    }

    /// The exact difference, in lowest terms, or `None` when it does not fit.
    pub fn sub(self, other: Rational) -> (r: Option<Rational>)
        requires
            self.wf(),
            other.wf(),
        ensures
            ({
                let e = frac_sub(self@, other@);
                match r {
                    Some(q) => q.wf() && frac_fits(e) && q@ == frac_norm(e) && frac_eq(q@, e),
                    None => !frac_fits(e),
                }
            }),
    {
        proof {
            lemma_mul_i32_bound(self.num as int, other.den as int);
            lemma_mul_i32_bound(other.num as int, self.den as int);
            lemma_pos_mul_pos(self.den as int, other.den as int);
            lemma_mul_i32_bound(self.den as int, other.den as int);
        }
        let n = (self.num as i128) * (other.den as i128) - (other.num as i128) * (self.den as i128);
        let d = (self.den as i128) * (other.den as i128);
        reduce(n, d)
    }

    /// The exact product, in lowest terms, or `None` when it does not fit.
    pub fn mul(self, other: Rational) -> (r: Option<Rational>)
        requires
            self.wf(),
            other.wf(),
        ensures
            ({
                let e = frac_mul(self@, other@);
                match r {
                    Some(q) => q.wf() && frac_fits(e) && q@ == frac_norm(e) && frac_eq(q@, e),
                    None => !frac_fits(e),
                }
            }),
    {
        proof {
            lemma_mul_i32_bound(self.num as int, other.num as int);
            lemma_pos_mul_pos(self.den as int, other.den as int);
            lemma_mul_i32_bound(self.den as int, other.den as int);
        }
        let n = (self.num as i128) * (other.num as i128);
        let d = (self.den as i128) * (other.den as i128);
        reduce(n, d)
    }

    /// The exact quotient, in lowest terms, or `None` when it does not fit.
    /// The divisor must not be zero.
    pub fn div(self, other: Rational) -> (r: Option<Rational>)
        requires
            self.wf(),
            other.wf(),
            other@.n != 0,
        ensures
            ({
                let e = frac_div(self@, other@);
                match r {
                    Some(q) => q.wf() && frac_fits(e) && q@ == frac_norm(e) && frac_eq(q@, e),
                    None => !frac_fits(e),
                }
            }),
    {
        proof {
            lemma_mul_i32_bound(self.num as int, other.den as int);
            lemma_mul_i32_bound(self.den as int, other.num as int);
        }
        let n0 = (self.num as i128) * (other.den as i128);
        if other.num >= 0 {
            proof {
                lemma_pos_mul_pos(self.den as int, other.num as int);
            }
            let d = (self.den as i128) * (other.num as i128);
            reduce(n0, d)
        } else {
            proof {
                lemma_pos_mul_pos(self.den as int, -(other.num as int));
                lemma_mul_i32_bound(self.den as int, -(other.num as int));
            }
            let d = (self.den as i128) * (-(other.num as i128));
            reduce(-n0, d)
        }
    }
}

} // verus!
