//! Escape-iteration evaluator.
//!
//! For a sample point `c` of the complex plane, iterate `z <- z*z + c` from
//! `z = 0` until the squared magnitude of `z` strictly exceeds the escape
//! radius (`|z|^2 > 4` in plane units) or the iteration cap is reached.  The
//! cap itself is a meaningful result: it marks a point that never escaped,
//! and a point cycling exactly on the boundary circle never does.

use vstd::prelude::*;
use crate::fixed::{div_trunc, lemma_div_trunc_magnitude, scale_down, SCALE};

verus! {

/// Iteration cap of the evaluator.
pub const MAX_ITERATIONS: u32 = 1000;

/// Largest magnitude of a sample-point component the evaluator accepts:
/// one recurrence step below the edge of the 64-bit fixed-point range.
pub const C_LIMIT: i64 = 9223372036853727232;

/// Squared magnitude of a fixed-point complex value, in units of `SCALE^2`.
pub open spec fn mag2(re: int, im: int) -> int {
    re * re + im * im
}

/// Whether a value lies strictly outside the escape disk of radius 2.
pub open spec fn escaped(re: int, im: int) -> bool {
    mag2(re, im) > 4 * (SCALE as int) * (SCALE as int)
}

/// Real part of one recurrence step `z*z + c`, rescaled to fixed point.
pub open spec fn step_re(z_re: int, z_im: int, c_re: int) -> int {
    div_trunc(z_re * z_re - z_im * z_im, SCALE as int) + c_re
}

/// Imaginary part of one recurrence step `z*z + c`, rescaled to fixed point.
pub open spec fn step_im(z_re: int, z_im: int, c_im: int) -> int {
    div_trunc(2 * z_re * z_im, SCALE as int) + c_im
}

/// Iteration count the recurrence reaches when started at `z` with `iter`
/// steps already taken.
pub open spec fn escape_from(z_re: int, z_im: int, c_re: int, c_im: int, iter: nat) -> nat
    decreases MAX_ITERATIONS - iter,
{
    if iter >= MAX_ITERATIONS {
        MAX_ITERATIONS as nat
    } else if escaped(z_re, z_im) {
        iter
    } else {
        escape_from(
            step_re(z_re, z_im, c_re),
            step_im(z_re, z_im, c_im),
            c_re,
            c_im,
            iter + 1,
        )
    }
}

/// The escape-iteration count of a sample point.
pub open spec fn escape_spec(c_re: int, c_im: int) -> nat {
    escape_from(0, 0, c_re, c_im, 0)
}

/// A square is never negative.
proof fn lemma_square_nonneg(x: int)
    by (nonlinear_arith)
    ensures
        x * x >= 0,
{
}

/// A component strictly past twice the scale already has an escaping square.
proof fn lemma_big_square(x: int)
    by (nonlinear_arith)
    requires
        x > 131072 || x < -131072,
    ensures
        x * x > 17179869184,
{
}

/// Bounds of products of components within twice the scale.
proof fn lemma_small_product(x: int, y: int)
    by (nonlinear_arith)
    requires
        -131072 <= x <= 131072,
        -131072 <= y <= 131072,
    ensures
        -17179869184 <= x * y <= 17179869184,
{
}

/// Compute the escape-iteration count of the sample point `c`.
///
/// The result is a pure function of the arguments: every call with the same
/// point returns exactly `escape_spec` of it.
pub fn escape_count(c_re: i64, c_im: i64) -> (iterations: u32)
    requires
        -C_LIMIT <= c_re <= C_LIMIT,
        -C_LIMIT <= c_im <= C_LIMIT,
    ensures
        iterations == escape_spec(c_re as int, c_im as int),
        iterations <= MAX_ITERATIONS,
{
    let mut z_re: i64 = 0;
    let mut z_im: i64 = 0;
    let mut iter: u32 = 0;
    loop
        invariant_except_break
            iter <= MAX_ITERATIONS,
            -C_LIMIT <= c_re <= C_LIMIT,
            -C_LIMIT <= c_im <= C_LIMIT,
            escape_from(z_re as int, z_im as int, c_re as int, c_im as int, iter as nat)
                == escape_spec(c_re as int, c_im as int),
        ensures
            iter <= MAX_ITERATIONS,
            iter == escape_spec(c_re as int, c_im as int),
        decreases MAX_ITERATIONS - iter,
    {
        if iter >= MAX_ITERATIONS {
            break ;
        }
        if z_re > 2 * SCALE || z_re < -(2 * SCALE) || z_im > 2 * SCALE || z_im < -(2 * SCALE) {
            proof {
                if z_re > 131072 || z_re < -131072 {
                    lemma_big_square(z_re as int);
                    lemma_square_nonneg(z_im as int);
                } else {
                    lemma_big_square(z_im as int);
                    lemma_square_nonneg(z_re as int);
                }
                assert(escaped(z_re as int, z_im as int));
            }
            break ;
        }
        proof {
            lemma_small_product(z_re as int, z_re as int);
            lemma_small_product(z_im as int, z_im as int);
            lemma_small_product(z_re as int, z_im as int);
            lemma_square_nonneg(z_re as int);
            lemma_square_nonneg(z_im as int);
        }
        let zr2: i64 = z_re * z_re;
        let zi2: i64 = z_im * z_im;
        if zr2 + zi2 > 4 * SCALE * SCALE {
            break ;
        }
        let ghost zr0 = z_re as int;
        let ghost zi0 = z_im as int;
        proof {
            assert(!escaped(zr0, zi0));
            assert(escape_from(zr0, zi0, c_re as int, c_im as int, iter as nat) == escape_from(
                step_re(zr0, zi0, c_re as int),
                step_im(zr0, zi0, c_im as int),
                c_re as int,
                c_im as int,
                (iter + 1) as nat,
            ));
        }
        let diff: i64 = zr2 - zi2;
        let prod: i64 = 2 * (z_re * z_im);
        proof {
            lemma_div_trunc_magnitude(diff as int, SCALE as int, 262144);
            lemma_div_trunc_magnitude(prod as int, SCALE as int, 524288);
        }
        z_re = scale_down(diff) + c_re;
        z_im = scale_down(prod) + c_im;
        proof {
            assert(2 * zr0 * zi0 == 2 * (zr0 * zi0)) by (nonlinear_arith);
            assert(z_re as int == step_re(zr0, zi0, c_re as int));
            assert(z_im as int == step_im(zr0, zi0, c_im as int));
        }
        iter = iter + 1;
    }
    iter
}

/// Law: the origin never escapes, so its count is the iteration cap.
pub proof fn lemma_origin_never_escapes()
    ensures
        escape_spec(0, 0) == MAX_ITERATIONS,
{
    lemma_origin_stays(0);
}

/// At the origin every recurrence step stays at the origin.
proof fn lemma_origin_stays(iter: nat)
    requires
        iter <= MAX_ITERATIONS,
    ensures
        escape_from(0, 0, 0, 0, iter) == MAX_ITERATIONS,
    decreases MAX_ITERATIONS - iter,
{
    if iter < MAX_ITERATIONS {
        assert(!escaped(0, 0));
        assert(step_re(0, 0, 0) == 0);
        assert(step_im(0, 0, 0) == 0);
        lemma_origin_stays(iter + 1);
    }
}

/// Law: a sample point outside the escape disk leaves the recurrence on its
/// first step, well below the iteration cap.
pub proof fn lemma_far_point_escapes(c_re: int, c_im: int)
    requires
        mag2(c_re, c_im) > 4 * (SCALE as int) * (SCALE as int),
    ensures
        escape_spec(c_re, c_im) == 1,
        1 < MAX_ITERATIONS,
{
    assert(!escaped(0, 0));
    assert(step_re(0, 0, c_re) == c_re);
    assert(step_im(0, 0, c_im) == c_im);
    assert(escaped(c_re, c_im));
    assert(escape_spec(c_re, c_im) == escape_from(c_re, c_im, c_re, c_im, 1));
    assert(escape_from(c_re, c_im, c_re, c_im, 1) == 1);
}

} // verus!
