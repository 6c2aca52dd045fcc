//! Frame renderer.
//!
//! A render pass is a pure function of the viewport snapshot: every pixel is
//! mapped onto the plane, evaluated and colored independently, and the rows
//! of the grid are assembled in order from an arbitrary row partition.  The
//! assembled buffer is therefore bit-identical whatever the worker count the
//! partition was made for — concurrent workers computing disjoint row ranges
//! produce exactly the frame this module computes.

use vstd::prelude::*;
use vstd::arithmetic::div_mod::{lemma_fundamental_div_mod, lemma_fundamental_div_mod_converse};
use vstd::arithmetic::mul::{
    lemma_mul_is_commutative, lemma_mul_is_distributive_add_other_way,
};
use crate::color::{blue_spec, get_color, green_spec, red_spec};
use crate::escape::{escape_count, escape_spec, MAX_ITERATIONS};
use crate::partition::{is_row_partition, lemma_range_within, make_partition, RowRange};
use crate::plane::{map_im_spec, map_pixel, map_re_spec};
use crate::viewport::Viewport;

verus! {

/// One RGB pixel of a frame buffer.
#[derive(Clone, Copy, Debug, PartialEq, Eq, Structural)]
pub struct Pixel {
    pub r: u8,
    pub g: u8,
    pub b: u8,
}

/// The color a render pass owes to pixel `(x, y)` of a viewport: sample the
/// plane, count escape iterations, color the count.
pub open spec fn pixel_spec(vp: Viewport, x: int, y: int) -> Pixel {
    let it = escape_spec(map_re_spec(vp, x), map_im_spec(vp, y)) as int;
    Pixel {
        r: red_spec(it, MAX_ITERATIONS as int) as u8,
        g: green_spec(it, MAX_ITERATIONS as int) as u8,
        b: blue_spec(it, MAX_ITERATIONS as int) as u8,
    }
}

/// The row-major pixels of rows `[y0, y1)` of a viewport.
pub open spec fn rows_spec(vp: Viewport, y0: int, y1: int) -> Seq<Pixel> {
    Seq::new(
        ((y1 - y0) * vp.width) as nat,
        |k: int| pixel_spec(vp, k % (vp.width as int), y0 + k / (vp.width as int)),
    )
}

/// The complete frame buffer a render pass owes to a viewport.
pub open spec fn frame_spec(vp: Viewport) -> Seq<Pixel> {
    rows_spec(vp, 0, vp.height as int)
}

/// A complete frame buffer: the row-major pixels of one render pass.
pub struct Frame {
    pub width: u32,
    pub height: u32,
    pub pixels: Vec<Pixel>,
}

impl Frame {
    /// A dense grid: exactly one pixel per coordinate.
    pub open spec fn well_formed(self) -> bool {
        self.pixels@.len() == (self.width as int) * (self.height as int)
    }
}

/// Compute the color of one pixel of the viewport.
pub fn render_pixel(vp: &Viewport, x: u32, y: u32) -> (p: Pixel)
    requires
        vp.well_formed(),
        x < vp.width,
        y < vp.height,
    ensures
        p == pixel_spec(*vp, x as int, y as int),
{
    let (c_re, c_im) = map_pixel(vp, x, y);
    let it = escape_count(c_re, c_im);
    let (r, g, b) = get_color(it, MAX_ITERATIONS);
    Pixel { r, g, b }
}

/// Compute the row-major pixels of the rows `[y_start, y_end)`, the work of
/// one member of a worker pool.
pub fn render_section(vp: &Viewport, y_start: u32, y_end: u32) -> (pixels: Vec<Pixel>)
    requires
        vp.well_formed(),
        y_start <= y_end,
        y_end <= vp.height,
    ensures
        pixels@ == rows_spec(*vp, y_start as int, y_end as int),
{
    let w = vp.width;
    let mut pixels: Vec<Pixel> = Vec::new();
    let mut y = y_start;
    while y < y_end
        invariant
            vp.well_formed(),
            y_start <= y <= y_end,
            y_end <= vp.height,
            w == vp.width,
            pixels@.len() == (y - y_start) * w,
            forall|k: int|
                0 <= k < pixels@.len() ==> pixels@[k] == pixel_spec(
                    *vp,
                    k % (w as int),
                    y_start + k / (w as int),
                ),
        decreases y_end - y,
    {
        let mut x: u32 = 0;
        while x < w
            invariant
                vp.well_formed(),
                y_start <= y < y_end,
                y_end <= vp.height,
                w == vp.width,
                x <= w,
                pixels@.len() == (y - y_start) * w + x,
                forall|k: int|
                    0 <= k < pixels@.len() ==> pixels@[k] == pixel_spec(
                        *vp,
                        k % (w as int),
                        y_start + k / (w as int),
                    ),
            decreases w - x,
        {
            let p = render_pixel(vp, x, y);
            proof {
                lemma_fundamental_div_mod_converse(
                    pixels@.len() as int,
                    w as int,
                    (y - y_start) as int,
                    x as int,
                );
            }
            pixels.push(p);
            x = x + 1;
        }
        proof {
            lemma_mul_is_distributive_add_other_way(w as int, (y - y_start) as int, 1);
        }
        y = y + 1;
    }
    proof {
        assert(pixels@ =~= rows_spec(*vp, y_start as int, y_end as int));
    }
    pixels
}

/// Assembling two adjacent row bands in order yields the combined band.
proof fn lemma_rows_concat(vp: Viewport, y0: int, y1: int, y2: int)
    requires
        vp.well_formed(),
        y0 <= y1 <= y2,
    ensures
        rows_spec(vp, y0, y1) + rows_spec(vp, y1, y2) == rows_spec(vp, y0, y2),
{
    let w = vp.width as int;
    let first = rows_spec(vp, y0, y1);
    let second = rows_spec(vp, y1, y2);
    let whole = rows_spec(vp, y0, y2);
    lemma_mul_is_distributive_add_other_way(w, y1 - y0, y2 - y1);
    assert(first.len() + second.len() == whole.len());
    assert forall|k: int| first.len() <= k < whole.len() implies second[k - first.len()]
        == whole[k] by {
        let kp = k - (y1 - y0) * w;
        lemma_fundamental_div_mod(kp, w);
        let q = kp / w;
        let r = kp % w;
        lemma_mul_is_distributive_add_other_way(w, q, y1 - y0);
        lemma_fundamental_div_mod_converse(k, w, q + (y1 - y0), r);
    }
    assert((first + second) =~= whole);
}

/// Render the full frame of a viewport, assembling the bands of a row
/// partition made for `workers` workers.
///
/// The buffer is pinned to `frame_spec` of the viewport alone: the worker
/// count never changes a single pixel of the result.
pub fn render(vp: &Viewport, workers: usize) -> (frame: Frame)
    requires
        vp.well_formed(),
        workers >= 1,
    ensures
        frame.width == vp.width,
        frame.height == vp.height,
        frame.pixels@ == frame_spec(*vp),
        frame.well_formed(),
{
    let ranges = make_partition(vp.height, workers);
    let mut pixels: Vec<Pixel> = Vec::new();
    let mut idx: usize = 0;
    proof {
        assert(rows_spec(*vp, 0, 0) =~= Seq::<Pixel>::empty());
    }
    while idx < ranges.len()
        invariant
            vp.well_formed(),
            is_row_partition(ranges@, vp.height as int),
            idx <= ranges@.len(),
            pixels@ == rows_spec(*vp, 0, covered_rows(ranges@, idx as int)),
            0 <= covered_rows(ranges@, idx as int) <= vp.height,
            idx < ranges@.len() ==> ranges@[idx as int].start == covered_rows(
                ranges@,
                idx as int,
            ),
        decreases ranges@.len() - idx,
    {
        let r = ranges[idx];
        proof {
            lemma_range_within(ranges@, vp.height as int, idx as int);
        }
        let mut sec = render_section(vp, r.start, r.end);
        proof {
            lemma_rows_concat(*vp, 0, r.start as int, r.end as int);
        }
        pixels.append(&mut sec);
        idx = idx + 1;
    }
    proof {
        lemma_mul_is_commutative(vp.height as int, vp.width as int);
    }
    Frame { width: vp.width, height: vp.height, pixels }
}

/// The rows already covered once the first `idx` ranges are assembled.
pub open spec fn covered_rows(ranges: Seq<RowRange>, idx: int) -> int {
    if idx <= 0 {
        0
    } else {
        ranges[idx - 1].end as int
    }
}

/// Relies on num_cpus::get: the number of available hardware threads of the
/// system, which is always at least 1.
#[verifier::external_body]
fn worker_count() -> (n: usize)
    ensures
        1 <= n,
{
    num_cpus::get()
}

/// Render the full frame with one worker range per available hardware
/// thread; the result is the same frame any other worker count yields.
pub fn render_auto(vp: &Viewport) -> (frame: Frame)
    requires
        vp.well_formed(),
    ensures
        frame.width == vp.width,
        frame.height == vp.height,
        frame.pixels@ == frame_spec(*vp),
        frame.well_formed(),
{
    let workers = worker_count();
    render(vp, workers)
}

} // verus!
