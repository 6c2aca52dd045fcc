//! Color mapper.
//!
//! An escape-iteration count is mapped to an RGB triple by a fixed smooth
//! polynomial in `t = iterations / max_iterations`:
//!
//! ```text
//! r = 9.0  * (1-t) * t^3 * 255
//! g = 15.0 * (1-t)^2 * t^2 * 255
//! b = 8.5  * (1-t)^3 * t * 255
//! ```
//!
//! evaluated exactly over the integers (8.5 as the ratio 17/2) and clamped to
//! the channel range instead of narrowed with wraparound.

use vstd::prelude::*;
use vstd::arithmetic::div_mod::lemma_div_of0;

verus! {

/// Largest iteration cap the color mapper accepts; keeps the fourth power of
/// the cap comfortably inside 128-bit arithmetic.
pub const MAX_COLOR_CAP: u32 = 1000000;

/// A channel value clamped to the 8-bit range.
pub open spec fn clamp255(v: int) -> int {
    if v > 255 {
        255
    } else {
        v
    }
}

/// Red channel: `9 * (1-t) * t^3 * 255`, as an exact integer quotient.
pub open spec fn red_spec(i: int, m: int) -> int {
    clamp255((2295 * (m - i) * i * i * i) / (m * m * m * m))
}

/// Green channel: `15 * (1-t)^2 * t^2 * 255`, as an exact integer quotient.
pub open spec fn green_spec(i: int, m: int) -> int {
    clamp255((3825 * (m - i) * (m - i) * i * i) / (m * m * m * m))
}

/// Blue channel: `8.5 * (1-t)^3 * t * 255`, as an exact integer quotient.
pub open spec fn blue_spec(i: int, m: int) -> int {
    clamp255((4335 * (m - i) * (m - i) * (m - i) * i) / (2 * (m * m * m * m)))
}

/// Bounds of every partial product of the three channel polynomials.
proof fn lemma_channel_bounds(i: int, m: int)
    by (nonlinear_arith)
    requires
        0 <= i <= m,
        1 <= m <= 1000000,
    ensures
        0 <= 2295 * (m - i) <= 4335000000000000000000000000,
        0 <= 2295 * (m - i) * i <= 4335000000000000000000000000,
        0 <= 2295 * (m - i) * i * i <= 4335000000000000000000000000,
        0 <= 2295 * (m - i) * i * i * i <= 4335000000000000000000000000,
        0 <= 3825 * (m - i) <= 4335000000000000000000000000,
        0 <= 3825 * (m - i) * (m - i) <= 4335000000000000000000000000,
        0 <= 3825 * (m - i) * (m - i) * i <= 4335000000000000000000000000,
        0 <= 3825 * (m - i) * (m - i) * i * i <= 4335000000000000000000000000,
        0 <= 4335 * (m - i) <= 4335000000000000000000000000,
        0 <= 4335 * (m - i) * (m - i) <= 4335000000000000000000000000,
        0 <= 4335 * (m - i) * (m - i) * (m - i) <= 4335000000000000000000000000,
        0 <= 4335 * (m - i) * (m - i) * (m - i) * i <= 4335000000000000000000000000,
        1 <= m * m <= 1000000000000,
        1 <= m * m * m <= 1000000000000000000,
        1 <= m * m * m * m <= 1000000000000000000000000,
{
}

/// Map an iteration count to its RGB color.
///
/// The result of each channel is the exact clamped integer value of the
/// polynomial; in particular both `iterations == 0` and
/// `iterations == max_iterations` give black.
pub fn get_color(iterations: u32, max_iterations: u32) -> (rgb: (u8, u8, u8))
    requires
        1 <= max_iterations <= MAX_COLOR_CAP,
        iterations <= max_iterations,
    ensures
        rgb.0 as int == red_spec(iterations as int, max_iterations as int),
        rgb.1 as int == green_spec(iterations as int, max_iterations as int),
        rgb.2 as int == blue_spec(iterations as int, max_iterations as int),
{
    let m: u128 = max_iterations as u128;
    let i: u128 = iterations as u128;
    proof {
        lemma_channel_bounds(i as int, m as int);
    }
    let rem: u128 = m - i;
    let m4: u128 = m * m * m * m;
    let rnum: u128 = 2295 * rem * i * i * i;
    let gnum: u128 = 3825 * rem * rem * i * i;
    let bnum: u128 = 4335 * rem * rem * rem * i;
    let r = clamp_channel(rnum / m4);
    let g = clamp_channel(gnum / m4);
    let b = clamp_channel(bnum / (2 * m4));
    (r, g, b)
}

/// Map an iteration count to its color packed as `0x00RRGGBB`, the form a
/// 32-bit frame buffer consumes directly.
pub fn packed_color(iterations: u32, max_iterations: u32) -> (packed: u32)
    requires
        1 <= max_iterations <= MAX_COLOR_CAP,
        iterations <= max_iterations,
    ensures
        packed == red_spec(iterations as int, max_iterations as int) * 65536 + green_spec(
            iterations as int,
            max_iterations as int,
        ) * 256 + blue_spec(iterations as int, max_iterations as int),
{
    let (r, g, b) = get_color(iterations, max_iterations);
    (r as u32) * 65536 + (g as u32) * 256 + (b as u32)
}

/// Narrow a channel quotient to 8 bits by clamping, never by wraparound.
fn clamp_channel(v: u128) -> (r: u8)
    ensures
        r as int == clamp255(v as int),
{
    if v > 255 {
        255
    } else {
        v as u8
    }
}

/// Law: the polynomial vanishes at both ends of the range, so the first and
/// the last iteration count are both colored black.
pub proof fn lemma_color_black_at_extremes(m: int)
    requires
        1 <= m,
    ensures
        red_spec(0, m) == 0,
        green_spec(0, m) == 0,
        blue_spec(0, m) == 0,
        red_spec(m, m) == 0,
        green_spec(m, m) == 0,
        blue_spec(m, m) == 0,
{
    assert(m * m * m * m >= 1) by (nonlinear_arith)
        requires
            m >= 1,
    ;
    lemma_div_of0(m * m * m * m);
    lemma_div_of0(2 * (m * m * m * m));
    assert(2295 * (m - 0) * 0 * 0 * 0 == 0);
    assert(3825 * (m - 0) * (m - 0) * 0 * 0 == 0);
    assert(4335 * (m - 0) * (m - 0) * (m - 0) * 0 == 0);
    assert(2295 * (m - m) * m * m * m == 0) by (nonlinear_arith);
    assert(3825 * (m - m) * (m - m) * m * m == 0) by (nonlinear_arith);
    assert(4335 * (m - m) * (m - m) * (m - m) * m == 0) by (nonlinear_arith);
}

} // verus!
