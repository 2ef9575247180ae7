//! Decimal rendering: integers, and fixed-point views of rationals.
//!
//! Fixed-point rendering rounds to the nearest multiple of the shown
//! precision, with ties going away from zero; a value whose rounded
//! magnitude is zero is rendered without a sign.

use crate::rational::{Frac, Rational};
use vstd::math::abs;
use vstd::prelude::*;

verus! {

/// The character of a single decimal digit.
pub open spec fn digit_char(n: nat) -> char {
    if n == 0 {
        '0'
    } else if n == 1 {
        '1'
    } else if n == 2 {
        '2'
    } else if n == 3 {
        '3'
    } else if n == 4 {
        '4'
    } else if n == 5 {
        '5'
    } else if n == 6 {
        '6'
    } else if n == 7 {
        '7'
    } else if n == 8 {
        '8'
    } else {
        '9'
    }
}

/// The decimal digits of a natural number, most significant first.
pub open spec fn dec_str(n: nat) -> Seq<char>
    decreases n,
{
    if n < 10 {
        seq![digit_char(n)]
    } else {
        dec_str(n / 10).push(digit_char(n % 10))
    }
}

/// The decimal rendering of an integer, with a leading minus sign when
/// negative.
pub open spec fn int_str(v: int) -> Seq<char> {
    if v < 0 {
        seq!['-'] + dec_str(abs(v))
    } else {
        dec_str(abs(v))
    }
}

/// The magnitude scaled by `pow` and rounded to the nearest integer, ties
/// away from zero: `round(pow * |n| / d)`.
pub open spec fn scaled_magnitude(f: Frac, pow: int) -> int {
    (2 * pow * abs(f.n) + f.d) / (2 * f.d)
}

/// The two-decimal fixed-point rendering of a fraction.
pub open spec fn fixed2_str(f: Frac) -> Seq<char> {
    let cents = scaled_magnitude(f, 100);
    let sign: Seq<char> = if f.n < 0 && cents != 0 {
        seq!['-']
    } else {
        Seq::empty()
    };
    sign + dec_str((cents / 100) as nat) + seq!['.', digit_char(((cents / 10) % 10) as nat), digit_char((cents % 10) as nat)]
}

/// The one-decimal fixed-point rendering of a fraction.
pub open spec fn fixed1_str(f: Frac) -> Seq<char> {
    let tenths = scaled_magnitude(f, 10);
    let sign: Seq<char> = if f.n < 0 && tenths != 0 {
        seq!['-']
    } else {
        Seq::empty()
    };
    sign + dec_str((tenths / 10) as nat) + seq!['.', digit_char((tenths % 10) as nat)]
}

/// The rendering of a rational: the integer itself for a whole value,
/// `numerator/denominator` otherwise.
pub open spec fn rational_str(f: Frac) -> Seq<char> {
    if f.d == 1 {
        int_str(f.n)
    } else {
        int_str(f.n) + seq!['/'] + dec_str(f.d as nat)
    }
}

/// One decimal digit as a string slice.
fn digit_str(d: u128) -> (s: &'static str)
    requires
        d < 10,
    ensures
        s@ == seq![digit_char(d as nat)],
{
    proof {
        reveal_strlit("0");
        reveal_strlit("1");
        reveal_strlit("2");
        reveal_strlit("3");
        reveal_strlit("4");
        reveal_strlit("5");
        reveal_strlit("6");
        reveal_strlit("7");
        reveal_strlit("8");
        reveal_strlit("9");
    }
    let s = match d {
        0 => "0",
        1 => "1",
        2 => "2",
        3 => "3",
        4 => "4",
        5 => "5",
        6 => "6",
        7 => "7",
        8 => "8",
        _ => "9",
    };
    proof {
        assert(s@ =~= seq![digit_char(d as nat)]);
    }
    s
}

/// The decimal digits of a natural number, most significant first.
pub fn dec_string(n: u128) -> (s: String)
    ensures
        s@ == dec_str(n as nat),
    decreases n,
{
    if n < 10 {
        digit_str(n).to_owned()
    } else {
        let mut s = dec_string(n / 10);
        s.append(digit_str(n % 10));
        proof {
            assert(s@ =~= dec_str(n as nat));
        }
        s
    }
}

/// The decimal rendering of an integer, with a leading minus sign when
/// negative.
pub fn int_string(v: i128) -> (s: String)
    ensures
        s@ == int_str(v as int),
{
    if v >= 0 {
        let s = dec_string(v as u128);
        proof {
            assert(s@ =~= int_str(v as int));
        }
        s
    } else {
        let mag: u128 = if v == i128::MIN {
            0x8000_0000_0000_0000_0000_0000_0000_0000u128
        } else {
            (-v) as u128
        };
        assert(mag as int == abs(v as int));
        proof {
            reveal_strlit("-");
        }
        let mut s = "-".to_owned();
        let digits = dec_string(mag);
        s.append(digits.as_str());
        proof {
            assert(s@ =~= int_str(v as int));
        }
        s
    }
}

/// The magnitude of the stored numerator.
fn num_magnitude(a: Rational) -> (m: u64)
    ensures
        m as int == abs(a@.n),
{
    if a.num < 0 {
        (-(a.num as i64)) as u64
    } else {
        a.num as u64
    }
}

/// The two-decimal fixed-point rendering of a rational.
pub fn fixed2_string(a: Rational) -> (s: String)
    requires
        a.wf(),
    ensures
        s@ == fixed2_str(a@),
{
    let mag = num_magnitude(a);
    let d = a.den as u64;
    let cents = (200 * mag + d) / (2 * d);
    assert(cents as int == scaled_magnitude(a@, 100));
    proof {
        reveal_strlit("-");
        reveal_strlit("");
        reveal_strlit(".");
    }
    let mut s = if a.num < 0 && cents != 0 {
        "-".to_owned()
    } else {
        "".to_owned()
    };
    let whole = dec_string((cents / 100) as u128);
    s.append(whole.as_str());
    s.append(".");
    s.append(digit_str(((cents / 10) % 10) as u128));
    s.append(digit_str((cents % 10) as u128));
    proof {
        assert(s@ =~= fixed2_str(a@));
    }
    s
}

/// The one-decimal fixed-point rendering of a rational.
pub fn fixed1_string(a: Rational) -> (s: String)
    requires
        a.wf(),
    ensures
        s@ == fixed1_str(a@),
{
    let mag = num_magnitude(a);
    let d = a.den as u64;
    let tenths = (20 * mag + d) / (2 * d);
    assert(tenths as int == scaled_magnitude(a@, 10));
    proof {
        reveal_strlit("-");
        reveal_strlit("");
        reveal_strlit(".");
    }
    let mut s = if a.num < 0 && tenths != 0 {
        "-".to_owned()
    } else {
        "".to_owned()
    };
    let whole = dec_string((tenths / 10) as u128);
    s.append(whole.as_str());
    s.append(".");
    s.append(digit_str((tenths % 10) as u128));
    proof {
        assert(s@ =~= fixed1_str(a@));
    }
    s
}

/// The rendering of a rational: the integer itself for a whole value,
/// `numerator/denominator` otherwise.
pub fn rational_string(a: Rational) -> (s: String)
    requires
        a.wf(),
    ensures
        s@ == rational_str(a@),
{
    if a.den == 1 {
        int_string(a.num as i128)
    } else {
        proof {
            reveal_strlit("/");
        }
        let mut s = int_string(a.num as i128);
        s.append("/");
        let den = dec_string(a.den as u128);
        s.append(den.as_str());
        proof {
            assert(s@ =~= rational_str(a@));
        }
        s
    }
}

} // verus!
