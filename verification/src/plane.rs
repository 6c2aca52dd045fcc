//! Complex-plane mapper.
//!
//! Converts a pixel coordinate plus a viewport snapshot into a fixed-point
//! sample point.  The plane is centered on the pan offset and the visible
//! half-extent of each axis is `1 / zoom` plane units, so a larger zoom shows
//! a narrower region.

use vstd::prelude::*;
use vstd::arithmetic::div_mod::{
    lemma_div_is_ordered, lemma_div_is_ordered_by_denominator, lemma_div_multiples_vanish,
    lemma_div_pos_is_pos,
};
use vstd::arithmetic::mul::{lemma_mul_inequality, lemma_mul_strictly_positive};
use crate::escape::C_LIMIT;
use crate::fixed::{div_trunc, SCALE};
use crate::viewport::{Viewport, MAX_DIM, PAN_LIMIT, ZOOM_MAX};

verus! {

/// Fixed-point offset of an axis position from the viewport center:
/// `(pos - extent/2) / (0.5 * zoom * extent)` in plane units, scaled.
pub open spec fn axis_offset_spec(pos: int, extent: int, zoom: int) -> int
    recommends
        0 < extent,
        0 < zoom,
{
    div_trunc((SCALE as int) * (SCALE as int) * (2 * pos - extent), zoom * extent)
}

/// Real part of the sample point of pixel column `x`.
pub open spec fn map_re_spec(vp: Viewport, x: int) -> int {
    vp.pan_x + axis_offset_spec(x, vp.width as int, vp.zoom as int)
}

/// Imaginary part of the sample point of pixel row `y`.
pub open spec fn map_im_spec(vp: Viewport, y: int) -> int {
    vp.pan_y + axis_offset_spec(y, vp.height as int, vp.zoom as int)
}

/// Map a pixel coordinate of the viewport onto the complex plane.
///
/// The sample point always lies inside the range the escape evaluator
/// accepts.
pub fn map_pixel(vp: &Viewport, x: u32, y: u32) -> (c: (i64, i64))
    requires
        vp.well_formed(),
        x < vp.width,
        y < vp.height,
    ensures
        c.0 == map_re_spec(*vp, x as int),
        c.1 == map_im_spec(*vp, y as int),
        -C_LIMIT <= c.0 <= C_LIMIT,
        -C_LIMIT <= c.1 <= C_LIMIT,
{
    let re = axis_coord(x, vp.width, vp.zoom, vp.pan_x);
    let im = axis_coord(y, vp.height, vp.zoom, vp.pan_y);
    (re, im)
}

/// One axis of the pixel-to-plane mapping.
fn axis_coord(pos: u32, extent: u32, zoom: i64, pan: i64) -> (r: i64)
    requires
        pos < extent,
        1 <= extent <= MAX_DIM,
        1 <= zoom <= ZOOM_MAX,
        -PAN_LIMIT <= pan <= PAN_LIMIT,
    ensures
        r == pan + axis_offset_spec(pos as int, extent as int, zoom as int),
        -C_LIMIT <= r <= C_LIMIT,
{
    let two_pos: u64 = 2 * (pos as u64);
    let ext: u64 = extent as u64;
    let neg: bool = two_pos < ext;
    let mag: u64 = if neg {
        ext - two_pos
    } else {
        two_pos - ext
    };
    proof {
        lemma_mul_strictly_positive(zoom as int, extent as int);
        lemma_mul_inequality(zoom as int, ZOOM_MAX as int, extent as int);
    }
    let num: u128 = 4294967296u128 * (mag as u128);
    let den: u128 = (zoom as u128) * (extent as u128);
    let q128: u128 = num / den;
    proof {
        lemma_axis_quotient_bound(mag as int, extent as int, zoom as int);
    }
    let q: i64 = q128 as i64;
    let off: i64 = if neg {
        -q
    } else {
        q
    };
    proof {
        assert((SCALE as int) * (SCALE as int) == 4294967296);
        assert(den as int == (zoom as int) * (extent as int));
        assert(num as int == 4294967296 * (mag as int));
        assert(q128 as int == (4294967296 * (mag as int)) / ((zoom as int) * (extent as int)));
        if neg {
            assert((SCALE as int) * (SCALE as int) * (2 * pos - extent) == -(4294967296 * (
            mag as int)));
            assert(off == axis_offset_spec(pos as int, extent as int, zoom as int));
        } else {
            assert((SCALE as int) * (SCALE as int) * (2 * pos - extent) == 4294967296 * (
            mag as int));
            assert(off == axis_offset_spec(pos as int, extent as int, zoom as int));
        }
    }
    pan + off
}

/// The scaled quotient of the axis mapping never exceeds one squared scale:
/// the offset stays within `1 / zoom` plane units of the center.
proof fn lemma_axis_quotient_bound(mag: int, extent: int, zoom: int)
    requires
        0 <= mag <= extent,
        1 <= extent,
        1 <= zoom,
    ensures
        0 <= (4294967296 * mag) / (zoom * extent) <= 4294967296,
{
    let num = 4294967296 * mag;
    let den = zoom * extent;
    lemma_mul_strictly_positive(zoom, extent);
    lemma_div_pos_is_pos(num, den);
    lemma_mul_inequality(1, zoom, extent);
    assert(extent <= den);
    lemma_div_is_ordered_by_denominator(num, extent, den);
    assert(num / den <= num / extent);
    assert(num <= 4294967296 * extent);
    lemma_div_is_ordered(num, 4294967296 * extent, extent);
    assert(4294967296 * extent == extent * 4294967296);
    lemma_div_multiples_vanish(4294967296, extent);
    assert((extent * 4294967296) / extent == 4294967296);
}

} // verus!
