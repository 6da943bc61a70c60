//! Fixed-point helpers shared by the controllers.
use vstd::prelude::*;

verus! {

/// `x` limited to `[lo, hi]`: first capped at `hi`, then raised to `lo`.
/// When `lo <= hi` this is the usual clamp.
pub open spec fn clamp(x: int, lo: int, hi: int) -> int {
    let capped = if x > hi { hi } else { x };
    if capped < lo { lo } else { capped }
}

/// Quotient of `a` by a positive `b`, rounded toward zero.
pub open spec fn div_toward_zero(a: int, b: int) -> int {
    if a >= 0 { a / b } else { -((-a) / b) }
}

/// Absolute value.
pub open spec fn abs(x: int) -> int {
    if x < 0 { -x } else { x }
}

pub proof fn lemma_clamp_bounds(x: int, lo: int, hi: int)
    requires
        lo <= hi,
    ensures
        lo <= clamp(x, lo, hi) <= hi,
        lo <= x <= hi ==> clamp(x, lo, hi) == x,
{
}

pub fn clamp_i128(x: i128, lo: i128, hi: i128) -> (r: i128)
    ensures
        r == clamp(x as int, lo as int, hi as int),
{
    let capped = if x > hi { hi } else { x };
    if capped < lo { lo } else { capped }
}

pub fn div_toward_zero_i128(a: i128, b: i128) -> (r: i128)
    requires
        b > 0,
        a > i128::MIN,
    ensures
        r == div_toward_zero(a as int, b as int),
        abs(r as int) <= abs(a as int),
{
    if a >= 0 {
        proof {
            vstd::arithmetic::div_mod::lemma_div_is_ordered_by_denominator(a as int, 1, b as int);
        }
        a / b
    } else {
        let m = -a;
        proof {
            vstd::arithmetic::div_mod::lemma_div_is_ordered_by_denominator(m as int, 1, b as int);
        }
        -(m / b)
    }
}

} // verus!
