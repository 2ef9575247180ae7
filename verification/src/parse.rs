//! Parsing of decimal number strings into exact rationals.
//!
//! The accepted grammar is digits with one optional decimal point: at
//! least one and at most ten integer digits, and, after the point, at
//! least one and at most nine fractional digits.

use crate::rational::{frac_eq, frac_fits, frac_norm, lemma_mul_range, reduce, Frac, Rational};
use vstd::prelude::*;

verus! {

/// Whether a character is a decimal digit.
pub open spec fn is_digit(c: char) -> bool {
    48 <= c as u32 <= 57
}

/// The value of a decimal digit character.
pub open spec fn digit_val(c: char) -> int {
    c as u32 - 48
}

/// Whether every character is a decimal digit.
pub open spec fn all_digits(s: Seq<char>) -> bool {
    forall|i: int| 0 <= i < s.len() ==> is_digit(#[trigger] s[i])
}

/// The number a digit string denotes, most significant digit first.
pub open spec fn digits_val(s: Seq<char>) -> int
    decreases s.len(),
{
    if s.len() == 0 {
        0
    } else {
        digits_val(s.drop_last()) * 10 + digit_val(s.last())
    }
}

/// Ten to the `k`.
pub open spec fn pow10(k: nat) -> int
    decreases k,
{
    if k == 0 {
        1
    } else {
        10 * pow10((k - 1) as nat)
    }
}

/// The powers of ten up to the ten integer digits the grammar admits.
proof fn lemma_pow10_values()
    ensures
        pow10(0) == 1,
        pow10(1) == 10,
        pow10(2) == 100,
        pow10(3) == 1000,
        pow10(4) == 10000,
        pow10(5) == 100000,
        pow10(6) == 1000000,
        pow10(7) == 10000000,
        pow10(8) == 100000000,
        pow10(9) == 1000000000,
        pow10(10) == 10000000000,
{
    assert(pow10(0) == 1);
    assert(pow10(1) == 10);
    assert(pow10(2) == 100);
    assert(pow10(3) == 1000);
    assert(pow10(4) == 10000);
    assert(pow10(5) == 100000);
    assert(pow10(6) == 1000000);
    assert(pow10(7) == 10000000);
    assert(pow10(8) == 100000000);
    assert(pow10(9) == 1000000000);
    assert(pow10(10) == 10000000000);
}

/// The first position of a character in a string, or -1 when absent.
pub open spec fn find_char(s: Seq<char>, c: char) -> int
    decreases s.len(),
{
    if s.len() == 0 {
        -1
    } else if s[0] == c {
        0
    } else if find_char(s.drop_first(), c) < 0 {
        -1
    } else {
        find_char(s.drop_first(), c) + 1
    }
}

/// `find_char` returns the position of the first occurrence.
proof fn lemma_find_char_at(s: Seq<char>, c: char, j: int)
    requires
        0 <= j < s.len(),
        s[j] == c,
        forall|k: int| 0 <= k < j ==> s[k] != c,
    ensures
        find_char(s, c) == j,
    decreases j,
{
    if j > 0 {
        let t = s.drop_first();
        assert(t[j - 1] == s[j]);
        assert forall|k: int| 0 <= k < j - 1 implies t[k] != c by {
            assert(t[k] == s[k + 1]);
        }
        lemma_find_char_at(t, c, j - 1);
    }
}

/// `find_char` returns -1 exactly on strings without the character.
proof fn lemma_find_char_none(s: Seq<char>, c: char)
    requires
        forall|k: int| 0 <= k < s.len() ==> s[k] != c,
    ensures
        find_char(s, c) == -1,
    decreases s.len(),
{
    if s.len() > 0 {
        let t = s.drop_first();
        assert forall|k: int| 0 <= k < t.len() implies t[k] != c by {
            assert(t[k] == s[k + 1]);
        }
        lemma_find_char_none(t, c);
    }
}

/// The string without leading spaces.
pub open spec fn trim_front(s: Seq<char>) -> Seq<char>
    decreases s.len(),
{
    if s.len() > 0 && s[0] == ' ' {
        trim_front(s.drop_first())
    } else {
        s
    }
}

/// The string without trailing spaces.
pub open spec fn trim_back(s: Seq<char>) -> Seq<char>
    decreases s.len(),
{
    if s.len() > 0 && s.last() == ' ' {
        trim_back(s.drop_last())
    } else {
        s
    }
}

/// The string without leading and trailing spaces.
pub open spec fn trim_spaces(s: Seq<char>) -> Seq<char> {
    trim_back(trim_front(s))
}

/// The exact value of a decimal number string, by the grammar above:
/// `digits` denotes an integer, `digits.digits` a scaled decimal.
pub open spec fn number_val(s: Seq<char>) -> Option<Frac> {
    let dot = find_char(s, '.');
    if dot < 0 {
        if 1 <= s.len() <= 10 && all_digits(s) {
            Some(Frac { n: digits_val(s), d: 1 })
        } else {
            None
        }
    } else {
        let ip = s.subrange(0, dot);
        let fp = s.subrange(dot + 1, s.len() as int);
        if 1 <= ip.len() <= 10 && 1 <= fp.len() <= 9 && all_digits(ip) && all_digits(fp) {
            Some(
                Frac {
                    n: digits_val(ip) * pow10(fp.len()) + digits_val(fp),
                    d: pow10(fp.len()),
                },
            )
        } else {
            None
        }
    }
}

/// The characters of a string, in order.
pub fn chars_of(s: &str) -> (v: Vec<char>)
    ensures
        v@ == s@,
{
    let n = s.unicode_len();
    let mut v: Vec<char> = Vec::new();
    let mut i: usize = 0;
    while i < n
        invariant
            i <= n,
            n == s@.len(),
            v@ == s@.subrange(0, i as int),
        decreases n - i,
    {
        v.push(s.get_char(i));
        proof {
            assert(v@ =~= s@.subrange(0, i as int + 1));
        }
        i += 1;
    }
    proof {
        assert(v@ =~= s@);
    }
    v
}

/// Whether a character is a decimal digit.
pub fn char_is_digit(c: char) -> (b: bool)
    ensures
        b == is_digit(c),
{
    let u = c as u32;
    48 <= u && u <= 57
}

/// A copy of the given character range.
pub fn subvec(v: &Vec<char>, from: usize, to: usize) -> (t: Vec<char>)
    requires
        from <= to <= v@.len(),
    ensures
        t@ == v@.subrange(from as int, to as int),
{
    let mut t: Vec<char> = Vec::new();
    let mut i = from;
    while i < to
        invariant
            from <= i <= to <= v@.len(),
            t@ == v@.subrange(from as int, i as int),
        decreases to - i,
    {
        t.push(v[i]);
        proof {
            assert(t@ =~= v@.subrange(from as int, i as int + 1));
        }
        i += 1;
    }
    t
}

/// A copy of the string without leading and trailing spaces.
pub fn trim_vec(v: &Vec<char>) -> (t: Vec<char>)
    ensures
        t@ == trim_spaces(v@),
{
    let n = v.len();
    proof {
        assert(v@.subrange(0, n as int) =~= v@);
    }
    let mut lo: usize = 0;
    while lo < n && v[lo] == ' '
        invariant
            lo <= n,
            n == v@.len(),
            trim_front(v@) == trim_front(v@.subrange(lo as int, n as int)),
        decreases n - lo,
    {
        proof {
            assert(v@.subrange(lo as int, n as int).drop_first() =~= v@.subrange(
                lo as int + 1,
                n as int,
            ));
        }
        lo += 1;
    }
    assert(trim_front(v@) == v@.subrange(lo as int, n as int));
    let mut hi: usize = n;
    while hi > lo && v[hi - 1] == ' '
        invariant
            lo <= hi <= n,
            n == v@.len(),
            trim_back(v@.subrange(lo as int, n as int)) == trim_back(
                v@.subrange(lo as int, hi as int),
            ),
        decreases hi,
    {
        proof {
            assert(v@.subrange(lo as int, hi as int).drop_last() =~= v@.subrange(
                lo as int,
                hi as int - 1,
            ));
        }
        hi -= 1;
    }
    assert(trim_spaces(v@) == v@.subrange(lo as int, hi as int));
    subvec(v, lo, hi)
}

/// Reads a digit range as a number; at most ten digits.
fn parse_digits(v: &Vec<char>, from: usize, to: usize) -> (r: Option<u64>)
    requires
        from <= to <= v@.len(),
        to - from <= 10,
    ensures
        ({
            let s = v@.subrange(from as int, to as int);
            match r {
                Some(x) => all_digits(s) && x as int == digits_val(s) && x < 10_000_000_000u64,
                None => !all_digits(s),
            }
        }),
{
    proof {
        lemma_pow10_values();
    }
    let mut acc: u64 = 0;
    let mut i = from;
    while i < to
        invariant
            from <= i <= to <= v@.len(),
            to - from <= 10,
            all_digits(v@.subrange(from as int, i as int)),
            acc as int == digits_val(v@.subrange(from as int, i as int)),
            (acc as int) < pow10((i - from) as nat),
            pow10(10) == 10_000_000_000,
        decreases to - i,
    {
        let c = v[i];
        if !char_is_digit(c) {
            proof {
                assert(v@.subrange(from as int, to as int)[i as int - from as int] == c);
            }
            return None;
        }
        proof {
            lemma_pow10_values();
            lemma_pow10_le((i - from) as nat, 9);
            assert(pow10(((i - from) + 1) as nat) == 10 * pow10((i - from) as nat));
        }
        let d = (c as u32 - 48) as u64;
        acc = acc * 10 + d;
        proof {
            let s1 = v@.subrange(from as int, i as int + 1);
            assert(s1.drop_last() =~= v@.subrange(from as int, i as int));
            assert(s1.last() == c);
            assert forall|k: int| 0 <= k < s1.len() implies is_digit(s1[k]) by {
                if k < s1.len() - 1 {
                    assert(s1[k] == v@.subrange(from as int, i as int)[k]);
                }
            }
        }
        i += 1;
    }
    proof {
        lemma_pow10_le((i - from) as nat, 10);
    }
    Some(acc)
}

/// Powers of ten do not decrease.
proof fn lemma_pow10_le(a: nat, b: nat)
    requires
        a <= b,
    ensures
        1 <= pow10(a) <= pow10(b),
    decreases b,
{
    if a == b {
        if a == 0 {
        } else {
            lemma_pow10_le((a - 1) as nat, (a - 1) as nat);
        }
    } else {
        lemma_pow10_le(a, (b - 1) as nat);
    }
}

/// Ten to the `k`, for the fractional precisions the grammar admits.
fn pow10_u64(k: usize) -> (p: u64)
    requires
        k <= 9,
    ensures
        p as int == pow10(k as nat),
        1 <= p <= 1_000_000_000,
{
    proof {
        lemma_pow10_values();
    }
    match k {
        0 => 1,
        1 => 10,
        2 => 100,
        3 => 1000,
        4 => 10000,
        5 => 100000,
        6 => 1000000,
        7 => 10000000,
        8 => 100000000,
        _ => 1000000000,
    }
}

/// The first position of a character, or the length when absent.
fn find_in_vec(v: &Vec<char>, c: char) -> (j: usize)
    ensures
        j <= v@.len(),
        j < v@.len() ==> find_char(v@, c) == j && v@[j as int] == c,
        j == v@.len() ==> find_char(v@, c) == -1,
{
    let n = v.len();
    let mut j: usize = 0;
    while j < n
        invariant
            j <= n,
            n == v@.len(),
            forall|k: int| 0 <= k < j ==> v@[k] != c,
        decreases n - j,
    {
        if v[j] == c {
            proof {
                lemma_find_char_at(v@, c, j as int);
            }
            return j;
        }
        j += 1;
    }
    proof {
        lemma_find_char_none(v@, c);
    }
    n
}

/// Parses a decimal number string into an exact rational in lowest
/// terms.  Returns `None` when the string does not fit the grammar or
/// when the canonical value does not fit the stored range.
pub fn parse_number(v: &Vec<char>) -> (r: Option<Rational>)
    ensures
        ({
            match number_val(v@) {
                Some(f) => match r {
                    Some(q) => frac_fits(f) && q.wf() && q@ == frac_norm(f) && frac_eq(q@, f),
                    None => !frac_fits(f),
                },
                None => r is None,
            }
        }),
{
    proof {
        lemma_pow10_values();
    }
    let n = v.len();
    let dot = find_in_vec(v, '.');
    if dot == n {
        // No decimal point: a plain digit string.
        if n < 1 || n > 10 {
            return None;
        }
        proof {
            assert(v@.subrange(0, n as int) =~= v@);
        }
        match parse_digits(v, 0, n) {
            None => None,
            Some(x) => reduce(x as i128, 1),
        }
    } else {
        let k = n - (dot + 1);
        if dot < 1 || dot > 10 || k < 1 || k > 9 {
            return None;
        }
        let ip = match parse_digits(v, 0, dot) {
            None => { return None; },
            Some(x) => x,
        };
        let fp = match parse_digits(v, dot + 1, n) {
            None => { return None; },
            Some(x) => x,
        };
        let p = pow10_u64(k);
        proof {
            lemma_mul_range(ip as int, p as int, 10_000_000_000, 1_000_000_000);
        }
        let num = (ip as u128) * (p as u128) + (fp as u128);
        reduce(num as i128, p as i128)
    }
}

} // verus!
