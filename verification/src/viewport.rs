//! Viewport state and its controller.
//!
//! A `Viewport` holds the zoom level and pan offset that decide which region
//! of the complex plane maps onto the pixel grid, together with the grid's
//! resolution.  Discrete control events move the viewport; every transition
//! is a pure function from the old state to the new one.

use vstd::prelude::*;
use vstd::arithmetic::div_mod::{
    lemma_div_is_ordered, lemma_div_multiples_vanish, lemma_div_nonincreasing,
    lemma_div_pos_is_pos, lemma_fundamental_div_mod, lemma_mod_division_less_than_divisor,
};
use crate::fixed::SCALE;

verus! {

/// Largest accepted fixed-point zoom factor; past this depth the fixed-point
/// grid is coarser than a pixel anyway.
pub const ZOOM_MAX: i64 = 1099511627776;

/// Largest accepted magnitude of a fixed-point pan offset (256 plane units,
/// far outside the region where the set lives).
pub const PAN_LIMIT: i64 = 16777216;

/// Largest accepted width or height of the pixel grid.
pub const MAX_DIM: u32 = 16384;

/// Numerator of the zoom factor applied by one zoom event (11/10, i.e. 1.1).
pub const ZOOM_NUM: i64 = 11;

/// Denominator of the zoom factor applied by one zoom event.
pub const ZOOM_DEN: i64 = 10;

/// Fixed-point pan step at zoom 1 (one tenth of a plane unit).
pub const PAN_STEP: i64 = 6553;

/// Reason a viewport description is rejected at the boundary.
#[derive(Clone, Copy, Debug, PartialEq, Eq, Structural)]
pub enum ConfigError {
    NonPositiveZoom,
    ZoomTooLarge,
    PanOutOfRange,
    BadDimensions,
}

/// A discrete control event driving the viewport controller.
#[derive(Clone, Copy, Debug, PartialEq, Eq, Structural)]
pub enum ControlEvent {
    ZoomIn,
    ZoomOut,
    PanLeft,
    PanRight,
    PanUp,
    PanDown,
}

/// The region of the complex plane shown by the pixel grid: fixed-point zoom
/// and pan, plus the grid's resolution.
#[derive(Clone, Copy, Debug, PartialEq, Eq, Structural)]
pub struct Viewport {
    pub zoom: i64,
    pub pan_x: i64,
    pub pan_y: i64,
    pub width: u32,
    pub height: u32,
}

impl Viewport {
    /// Invariant of every viewport the engine works on: positive zoom and
    /// dimensions, both within the fixed-point ranges the arithmetic needs.
    pub open spec fn well_formed(self) -> bool {
        &&& 1 <= self.zoom <= ZOOM_MAX
        &&& -PAN_LIMIT <= self.pan_x <= PAN_LIMIT
        &&& -PAN_LIMIT <= self.pan_y <= PAN_LIMIT
        &&& 1 <= self.width <= MAX_DIM
        &&& 1 <= self.height <= MAX_DIM
    }

    /// Validate an externally supplied description and build the viewport,
    /// rejecting it at the boundary instead of letting an invalid state in.
    pub fn new(zoom: i64, pan_x: i64, pan_y: i64, width: u32, height: u32) -> (result: Result<
        Viewport,
        ConfigError,
    >)
        ensures
            result is Ok <==> (1 <= zoom <= ZOOM_MAX && -PAN_LIMIT <= pan_x <= PAN_LIMIT
                && -PAN_LIMIT <= pan_y <= PAN_LIMIT && 1 <= width <= MAX_DIM && 1 <= height
                <= MAX_DIM),
            result is Ok ==> result == Ok::<Viewport, ConfigError>(
                Viewport { zoom, pan_x, pan_y, width, height },
            ),
            result is Ok ==> result->Ok_0.well_formed(),
            zoom <= 0 ==> result == Err::<Viewport, ConfigError>(ConfigError::NonPositiveZoom),
            zoom > ZOOM_MAX ==> result == Err::<Viewport, ConfigError>(ConfigError::ZoomTooLarge),
            1 <= zoom <= ZOOM_MAX && !(-PAN_LIMIT <= pan_x <= PAN_LIMIT && -PAN_LIMIT <= pan_y
                <= PAN_LIMIT) ==> result == Err::<Viewport, ConfigError>(ConfigError::PanOutOfRange),
            1 <= zoom <= ZOOM_MAX && -PAN_LIMIT <= pan_x <= PAN_LIMIT && -PAN_LIMIT <= pan_y
                <= PAN_LIMIT && !(1 <= width <= MAX_DIM && 1 <= height <= MAX_DIM) ==> result
                == Err::<Viewport, ConfigError>(ConfigError::BadDimensions),
    {
        if zoom <= 0 {
            Err(ConfigError::NonPositiveZoom)
        } else if zoom > ZOOM_MAX {
            Err(ConfigError::ZoomTooLarge)
        } else if pan_x < -PAN_LIMIT || pan_x > PAN_LIMIT || pan_y < -PAN_LIMIT || pan_y
            > PAN_LIMIT {
            Err(ConfigError::PanOutOfRange)
        } else if width == 0 || width > MAX_DIM || height == 0 || height > MAX_DIM {
            Err(ConfigError::BadDimensions)
        } else {
            Ok(Viewport { zoom, pan_x, pan_y, width, height })
        }
    }

    /// The default view at startup: zoom 1, centered on the origin.
    pub fn initial(width: u32, height: u32) -> (vp: Viewport)
        requires
            1 <= width <= MAX_DIM,
            1 <= height <= MAX_DIM,
        ensures
            vp == (Viewport { zoom: SCALE, pan_x: 0, pan_y: 0, width, height }),
            vp.well_formed(),
    {
        Viewport { zoom: SCALE, pan_x: 0, pan_y: 0, width, height }
    }

    /// Apply one control event, returning the next viewport state.
    pub fn apply_event(&self, event: ControlEvent) -> (next: Viewport)
        requires
            self.well_formed(),
        ensures
            next == apply_event_spec(*self, event),
            next.well_formed(),
    {
        proof {
            lemma_zoom_step_bounds(self.zoom as int);
            lemma_pan_delta_bounds(self.zoom as int);
        }
        match event {
            ControlEvent::ZoomIn => {
                let grown: u64 = (self.zoom as u64) * 11 / 10;
                let zoom: i64 = if grown > (ZOOM_MAX as u64) {
                    ZOOM_MAX
                } else {
                    grown as i64
                };
                Viewport {
                    zoom,
                    pan_x: self.pan_x,
                    pan_y: self.pan_y,
                    width: self.width,
                    height: self.height,
                }
            },
            ControlEvent::ZoomOut => {
                let shrunk: u64 = (self.zoom as u64) * 10 / 11;
                let zoom: i64 = if shrunk < 1 {
                    1
                } else {
                    shrunk as i64
                };
                Viewport {
                    zoom,
                    pan_x: self.pan_x,
                    pan_y: self.pan_y,
                    width: self.width,
                    height: self.height,
                }
            },
            ControlEvent::PanLeft => {
                let d = self.pan_delta();
                let vp = *self;
                Viewport { pan_x: clamp_pan(vp.pan_x - d), ..vp }
            },
            ControlEvent::PanRight => {
                let d = self.pan_delta();
                let vp = *self;
                Viewport { pan_x: clamp_pan(vp.pan_x + d), ..vp }
            },
            ControlEvent::PanUp => {
                let d = self.pan_delta();
                let vp = *self;
                Viewport { pan_y: clamp_pan(vp.pan_y - d), ..vp }
            },
            ControlEvent::PanDown => {
                let d = self.pan_delta();
                let vp = *self;
                Viewport { pan_y: clamp_pan(vp.pan_y + d), ..vp }
            },
        }
    }

    /// Apply a frame tick's events in order, folding them into the state.
    pub fn apply_events(&self, events: &Vec<ControlEvent>) -> (next: Viewport)
        requires
            self.well_formed(),
        ensures
            next == apply_events_spec(*self, events@),
            next.well_formed(),
    {
        let mut vp = *self;
        let mut i: usize = 0;
        proof {
            assert(events@.skip(0) =~= events@);
        }
        while i < events.len()
            invariant
                self.well_formed(),
                vp.well_formed(),
                i <= events.len(),
                apply_events_spec(vp, events@.skip(i as int)) == apply_events_spec(
                    *self,
                    events@,
                ),
            decreases events.len() - i,
        {
            proof {
                assert(events@.skip(i as int)[0] == events@[i as int]);
                assert(events@.skip(i as int).skip(1) =~= events@.skip(i as int + 1));
            }
            vp = vp.apply_event(events[i]);
            i = i + 1;
        }
        proof {
            assert(events@.skip(events@.len() as int) =~= Seq::<ControlEvent>::empty());
        }
        vp
    }

    /// Fixed-point pan step for the current zoom: panning covers a tenth of
    /// the visible region whatever the magnification.
    fn pan_delta(&self) -> (d: i64)
        requires
            self.well_formed(),
        ensures
            d == pan_delta_spec(self.zoom as int),
            0 <= d <= PAN_STEP * SCALE,
    {
        proof {
            lemma_pan_delta_bounds(self.zoom as int);
        }
        ((PAN_STEP as u64 * SCALE as u64) / (self.zoom as u64)) as i64
    }
}

/// Keep a pan offset inside the accepted fixed-point range.
fn clamp_pan(p: i64) -> (r: i64)
    ensures
        r == clamp_pan_spec(p as int),
{
    if p < -PAN_LIMIT {
        -PAN_LIMIT
    } else if p > PAN_LIMIT {
        PAN_LIMIT
    } else {
        p
    }
}

/// Zoom level after one `ZoomIn`: multiplied by 11/10, capped at `ZOOM_MAX`.
pub open spec fn zoom_in_spec(zoom: int) -> int {
    let grown = (zoom * ZOOM_NUM) / (ZOOM_DEN as int);
    if grown > ZOOM_MAX {
        ZOOM_MAX as int
    } else {
        grown
    }
}

/// Zoom level after one `ZoomOut`: divided by 11/10, floored at 1.
pub open spec fn zoom_out_spec(zoom: int) -> int {
    let shrunk = (zoom * ZOOM_DEN) / (ZOOM_NUM as int);
    if shrunk < 1 {
        1
    } else {
        shrunk
    }
}

/// Fixed-point pan step for a zoom level.
pub open spec fn pan_delta_spec(zoom: int) -> int {
    (PAN_STEP * SCALE) / zoom
}

/// A pan offset clamped to the accepted range.
pub open spec fn clamp_pan_spec(p: int) -> int {
    if p < -PAN_LIMIT {
        -PAN_LIMIT as int
    } else if p > PAN_LIMIT {
        PAN_LIMIT as int
    } else {
        p
    }
}

/// The transition function of the viewport controller.
pub open spec fn apply_event_spec(vp: Viewport, event: ControlEvent) -> Viewport {
    match event {
        ControlEvent::ZoomIn => Viewport { zoom: zoom_in_spec(vp.zoom as int) as i64, ..vp },
        ControlEvent::ZoomOut => Viewport { zoom: zoom_out_spec(vp.zoom as int) as i64, ..vp },
        ControlEvent::PanLeft => Viewport {
            pan_x: clamp_pan_spec(vp.pan_x - pan_delta_spec(vp.zoom as int)) as i64,
            ..vp
        },
        ControlEvent::PanRight => Viewport {
            pan_x: clamp_pan_spec(vp.pan_x + pan_delta_spec(vp.zoom as int)) as i64,
            ..vp
        },
        ControlEvent::PanUp => Viewport {
            pan_y: clamp_pan_spec(vp.pan_y - pan_delta_spec(vp.zoom as int)) as i64,
            ..vp
        },
        ControlEvent::PanDown => Viewport {
            pan_y: clamp_pan_spec(vp.pan_y + pan_delta_spec(vp.zoom as int)) as i64,
            ..vp
        },
    }
}

/// Events of one frame tick folded into the state in order.
pub open spec fn apply_events_spec(vp: Viewport, events: Seq<ControlEvent>) -> Viewport
    decreases events.len(),
{
    if events.len() == 0 {
        vp
    } else {
        apply_events_spec(apply_event_spec(vp, events[0]), events.skip(1))
    }
}

/// Both zoom transitions keep a well-formed zoom level inside `[1, ZOOM_MAX]`,
/// and neither moves it past the old level in the wrong direction.
proof fn lemma_zoom_step_bounds(zoom: int)
    requires
        1 <= zoom <= ZOOM_MAX,
    ensures
        zoom <= zoom_in_spec(zoom) <= ZOOM_MAX,
        1 <= zoom_out_spec(zoom) <= zoom,
{
    lemma_div_multiples_vanish(zoom, 10);
    assert(zoom * 10 == 10 * zoom);
    lemma_div_is_ordered(zoom * 10, zoom * ZOOM_NUM, 10);
    lemma_div_multiples_vanish(zoom, 11);
    assert(zoom * 11 == 11 * zoom);
    lemma_div_is_ordered(zoom * ZOOM_DEN, zoom * 11, 11);
    lemma_div_pos_is_pos(zoom * ZOOM_DEN, 11);
}

/// The pan step is never negative and never exceeds its zoom-1 value.
proof fn lemma_pan_delta_bounds(zoom: int)
    requires
        1 <= zoom,
    ensures
        0 <= pan_delta_spec(zoom) <= PAN_STEP * SCALE,
{
    lemma_div_pos_is_pos(PAN_STEP * SCALE, zoom);
    lemma_div_nonincreasing(PAN_STEP * SCALE, zoom);
}

/// Law: zooming in and then back out restores the zoom level to within one
/// fixed-point unit and leaves the pan and the resolution untouched.
pub proof fn lemma_zoom_round_trip(vp: Viewport)
    requires
        vp.well_formed(),
        (vp.zoom * ZOOM_NUM) / (ZOOM_DEN as int) <= ZOOM_MAX,
    ensures
        ({
            let back = apply_event_spec(apply_event_spec(vp, ControlEvent::ZoomIn),
                ControlEvent::ZoomOut);
            &&& vp.zoom - 1 <= back.zoom <= vp.zoom
            &&& back.pan_x == vp.pan_x
            &&& back.pan_y == vp.pan_y
            &&& back.width == vp.width
            &&& back.height == vp.height
        }),
{
    let z = vp.zoom as int;
    lemma_zoom_step_bounds(z);
    let a = (z * ZOOM_NUM) / (ZOOM_DEN as int);
    assert(zoom_in_spec(z) == a);
    lemma_fundamental_div_mod(z * 11, 10);
    lemma_mod_division_less_than_divisor(z * 11, 10);
    let r1 = (z * 11) % 10;
    assert(z * 11 == 10 * a + r1);
    // after zooming back out the quotient lands between z - 1 and z
    let b = (a * ZOOM_DEN) / (ZOOM_NUM as int);
    assert(a * 10 == 11 * z - r1);
    assert(11 * z - r1 <= 11 * z);
    lemma_div_is_ordered(a * 10, 11 * z, 11);
    lemma_div_multiples_vanish(z, 11);
    assert(b <= z);
    assert(11 * (z - 1) <= 11 * z - r1);
    lemma_div_is_ordered(11 * (z - 1), a * 10, 11);
    lemma_div_multiples_vanish(z - 1, 11);
    assert(z - 1 <= b);
    lemma_zoom_step_bounds(a);
}

/// Law: panning left and then right by the same step restores the viewport
/// exactly, as long as the left pan stays inside the accepted range.
pub proof fn lemma_pan_round_trip(vp: Viewport)
    requires
        vp.well_formed(),
        -PAN_LIMIT <= vp.pan_x - pan_delta_spec(vp.zoom as int),
    ensures
        apply_event_spec(apply_event_spec(vp, ControlEvent::PanLeft), ControlEvent::PanRight)
            == vp,
{
    lemma_pan_delta_bounds(vp.zoom as int);
}

} // verus!
