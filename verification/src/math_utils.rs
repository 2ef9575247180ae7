//! The precision guard: lossless conversion from the integer domain into
//! the real domain.
//!
//! The real domain holds a rational exactly only while its components stay
//! in `i32` range, so an integer crosses over losslessly if and only if it
//! lies in that range; any other integer is rejected rather than silently
//! truncated.

use crate::rational::{frac_of_int, Rational};
use vstd::prelude::*;

verus! {

/// Error: an integer cannot cross into the real domain without loss.
#[derive(Clone, Copy, Debug, PartialEq, Eq, Structural)]
pub struct PrecisonLossError;

/// The integers that the real domain represents exactly.
pub open spec fn real_exact_int(v: int) -> bool {
    i32::MIN <= v <= i32::MAX
}

/// Converts an integer to an exact real value.  Succeeds, exactly, if and
/// only if the integer lies in the exactly representable range of the real
/// domain; every other integer fails with `PrecisonLossError`.
pub fn checked_to_real(v: i128) -> (r: Result<Rational, PrecisonLossError>)
    ensures
        match r {
            Ok(q) => real_exact_int(v as int) && q.wf() && q@ == frac_of_int(v as int),
            Err(e) => !real_exact_int(v as int) && e == PrecisonLossError,
        },
{
    if -0x8000_0000i128 <= v && v <= 0x7fff_ffffi128 {
        Ok(Rational::from_int(v as i32))
    } else {
        Err(PrecisonLossError)
    }
}

} // verus!
