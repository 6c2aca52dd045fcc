//! Fixed-point scalars.
//!
//! A plane coordinate, zoom factor or pan offset is stored as a signed
//! multiple of `1 / SCALE`; the value `SCALE` itself therefore denotes `1`
//! on the complex plane.

use vstd::prelude::*;
use vstd::arithmetic::div_mod::{
    lemma_div_by_multiple, lemma_div_is_ordered, lemma_div_nonincreasing, lemma_div_pos_is_pos,
};

verus! {

/// Number of fixed-point units per plane unit.
pub const SCALE: i64 = 65536;

/// Division that truncates toward zero, the rounding used for every
/// fixed-point quotient of the engine.
pub open spec fn div_trunc(a: int, d: int) -> int
    recommends
        d > 0,
{
    if a >= 0 {
        a / d
    } else {
        -((-a) / d)
    }
}

/// Truncating division never grows a value's magnitude.
pub proof fn lemma_div_trunc_bounds(a: int, d: int)
    requires
        d > 0,
    ensures
        a >= 0 ==> 0 <= div_trunc(a, d) <= a,
        a < 0 ==> a <= div_trunc(a, d) <= 0,
{
    if a >= 0 {
        lemma_div_pos_is_pos(a, d);
        lemma_div_nonincreasing(a, d);
    } else {
        lemma_div_pos_is_pos(-a, d);
        lemma_div_nonincreasing(-a, d);
    }
}

/// A value within `bound` times the divisor divides to within `bound`.
pub proof fn lemma_div_trunc_magnitude(a: int, d: int, bound: int)
    requires
        d > 0,
        0 <= bound,
        -(bound * d) <= a <= bound * d,
    ensures
        -bound <= div_trunc(a, d) <= bound,
{
    lemma_div_by_multiple(bound, d);
    if a >= 0 {
        lemma_div_pos_is_pos(a, d);
        lemma_div_is_ordered(a, bound * d, d);
    } else {
        lemma_div_pos_is_pos(-a, d);
        lemma_div_is_ordered(-a, bound * d, d);
    }
}

/// Divide a scaled value by `SCALE`, truncating toward zero.
pub fn scale_down(a: i64) -> (r: i64)
    requires
        i64::MIN < a,
    ensures
        r == div_trunc(a as int, SCALE as int),
        a >= 0 ==> 0 <= r <= a,
        a < 0 ==> a <= r <= 0,
{
    proof {
        lemma_div_trunc_bounds(a as int, SCALE as int);
    }
    if a >= 0 {
        ((a as u64) / (SCALE as u64)) as i64
    } else {
        let m: u64 = ((-a) as u64) / (SCALE as u64);
        -(m as i64)
    }
}

} // verus!
