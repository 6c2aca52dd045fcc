use mandelbrot::bitmap::bitmap_bytes;
use mandelbrot::color::{get_color, packed_color};
use mandelbrot::escape::{escape_count, MAX_ITERATIONS};
use mandelbrot::fixed::SCALE;
use mandelbrot::partition::make_partition;
use mandelbrot::plane::map_pixel;
use mandelbrot::render::{render, render_auto, render_pixel, render_section, Frame, Pixel};
use mandelbrot::viewport::{ConfigError, ControlEvent, Viewport, PAN_LIMIT, ZOOM_MAX};

#[test]
fn escape_origin_hits_cap() {
    assert_eq!(escape_count(0, 0), MAX_ITERATIONS);
}

#[test]
fn escape_pure_function() {
    let first = escape_count(32768, -49152);
    let second = escape_count(32768, -49152);
    assert_eq!(first, second);
}

#[test]
fn escape_far_point_first_step() {
    let iterations = escape_count(3 * SCALE, 3 * SCALE);
    assert_eq!(iterations, 1);
    assert!(iterations <= 2);
}

#[test]
fn escape_boundary_point_never_escapes() {
    // c = -2 cycles exactly on the boundary circle |z| = 2 and is in the set.
    assert_eq!(escape_count(-2 * SCALE, 0), MAX_ITERATIONS);
}

#[test]
fn escape_inside_two_cycle() {
    assert_eq!(escape_count(-SCALE, 0), MAX_ITERATIONS);
}

#[test]
fn escape_known_path() {
    assert_eq!(escape_count(SCALE / 2, 0), 5);
}

#[test]
fn color_black_at_zero_and_cap() {
    assert_eq!(get_color(0, MAX_ITERATIONS), (0, 0, 0));
    assert_eq!(get_color(MAX_ITERATIONS, MAX_ITERATIONS), (0, 0, 0));
}

#[test]
fn color_quarter_exact() {
    assert_eq!(get_color(250, 1000), (26, 134, 228));
}

#[test]
fn color_half_exact() {
    assert_eq!(get_color(500, 1000), (143, 239, 135));
}

#[test]
fn color_first_step_exact() {
    assert_eq!(get_color(1, 1000), (0, 0, 2));
}

#[test]
fn packed_color_combines_channels() {
    assert_eq!(packed_color(250, 1000), 26 * 65536 + 134 * 256 + 228);
    assert_eq!(packed_color(0, 1000), 0);
    assert_eq!(packed_color(1000, 1000), 0);
}

#[test]
fn partition_exact_thirds() {
    let ranges = make_partition(10, 3);
    assert_eq!(ranges.len(), 3);
    assert_eq!((ranges[0].start, ranges[0].end), (0, 3));
    assert_eq!((ranges[1].start, ranges[1].end), (3, 6));
    assert_eq!((ranges[2].start, ranges[2].end), (6, 10));
}

#[test]
fn partition_covers_each_row_once() {
    let height = 5;
    let ranges = make_partition(height, 8);
    assert_eq!(ranges.len(), 8);
    for y in 0..height {
        let holders = ranges
            .iter()
            .filter(|r| r.start <= y && y < r.end)
            .count();
        assert_eq!(holders, 1);
    }
}

#[test]
fn partition_single_worker() {
    let ranges = make_partition(600, 1);
    assert_eq!(ranges.len(), 1);
    assert_eq!((ranges[0].start, ranges[0].end), (0, 600));
}

#[test]
fn viewport_rejects_bad_configs() {
    assert_eq!(
        Viewport::new(0, 0, 0, 800, 600),
        Err(ConfigError::NonPositiveZoom)
    );
    assert_eq!(
        Viewport::new(-5, 0, 0, 800, 600),
        Err(ConfigError::NonPositiveZoom)
    );
    assert_eq!(
        Viewport::new(ZOOM_MAX + 1, 0, 0, 800, 600),
        Err(ConfigError::ZoomTooLarge)
    );
    assert_eq!(
        Viewport::new(SCALE, PAN_LIMIT + 1, 0, 800, 600),
        Err(ConfigError::PanOutOfRange)
    );
    assert_eq!(
        Viewport::new(SCALE, 0, 0, 0, 600),
        Err(ConfigError::BadDimensions)
    );
}

#[test]
fn viewport_accepts_valid_config() {
    let vp = Viewport::new(SCALE, -SCALE, SCALE, 800, 600).unwrap();
    assert_eq!(vp.zoom, SCALE);
    assert_eq!(vp.pan_x, -SCALE);
    assert_eq!(vp.pan_y, SCALE);
    assert_eq!(vp.width, 800);
    assert_eq!(vp.height, 600);
}

#[test]
fn zoom_round_trip_within_one_unit() {
    let vp = Viewport::initial(800, 600);
    let zoomed = vp.apply_event(ControlEvent::ZoomIn);
    assert_eq!(zoomed.zoom, 72089);
    let back = zoomed.apply_event(ControlEvent::ZoomOut);
    assert_eq!(back.zoom, 65535);
    assert!(vp.zoom - 1 <= back.zoom && back.zoom <= vp.zoom);
}

#[test]
fn pan_round_trip_exact() {
    let vp = Viewport::initial(800, 600);
    let left = vp.apply_event(ControlEvent::PanLeft);
    assert_eq!(left.pan_x, -6553);
    let back = left.apply_event(ControlEvent::PanRight);
    assert_eq!(back, vp);
}

#[test]
fn events_fold_in_order() {
    let vp = Viewport::initial(800, 600);
    let events = vec![
        ControlEvent::ZoomIn,
        ControlEvent::ZoomIn,
        ControlEvent::PanLeft,
    ];
    let moved = vp.apply_events(&events);
    assert_eq!(moved.zoom, 79297);
    assert_eq!(moved.pan_x, -5415);
    assert_eq!(moved.pan_y, 0);
}

#[test]
fn render_deterministic_across_workers() {
    let vp = Viewport::initial(64, 48);
    let one = render(&vp, 1);
    let eight = render(&vp, 8);
    assert_eq!(one.pixels, eight.pixels);
    assert_eq!(one.pixels.len(), 64 * 48);
}

#[test]
fn render_auto_matches_fixed_worker_count() {
    let vp = Viewport::initial(32, 24);
    let auto = render_auto(&vp);
    let single = render(&vp, 1);
    assert_eq!(auto.pixels, single.pixels);
}

#[test]
fn center_pixel_of_default_view_is_black() {
    let vp = Viewport::initial(800, 600);
    let (re, im) = map_pixel(&vp, 400, 300);
    assert_eq!((re, im), (0, 0));
    assert_eq!(escape_count(re, im), MAX_ITERATIONS);
    let row = render_section(&vp, 300, 301);
    assert_eq!(row.len(), 800);
    assert_eq!(row[400], Pixel { r: 0, g: 0, b: 0 });
}

#[test]
fn pixel_mapped_far_outside_escapes_quickly() {
    let vp = Viewport::new(SCALE, 3 * SCALE, 3 * SCALE, 800, 600).unwrap();
    let (re, im) = map_pixel(&vp, 400, 300);
    assert_eq!((re, im), (3 * SCALE, 3 * SCALE));
    let iterations = escape_count(re, im);
    assert!(iterations <= 2);
    let pixel = render_pixel(&vp, 400, 300);
    assert_eq!(pixel, Pixel { r: 0, g: 0, b: 2 });
}

#[test]
fn bitmap_layout_of_small_frame() {
    let pixels = vec![
        Pixel { r: 1, g: 2, b: 3 },
        Pixel { r: 4, g: 5, b: 6 },
        Pixel { r: 7, g: 8, b: 9 },
        Pixel { r: 10, g: 11, b: 12 },
    ];
    let frame = Frame {
        width: 2,
        height: 2,
        pixels,
    };
    let bytes = bitmap_bytes(&frame);
    assert_eq!(bytes.len(), 54 + 12);
    assert_eq!(&bytes[0..2], &[66u8, 77][..]);
    assert_eq!(&bytes[2..10], &[0u8; 8][..]);
    assert_eq!(&bytes[10..14], &[54u8, 0, 0, 0][..]);
    assert_eq!(&bytes[14..18], &[40u8, 0, 0, 0][..]);
    assert_eq!(&bytes[18..22], &[2u8, 0, 0, 0][..]);
    assert_eq!(&bytes[22..26], &[2u8, 0, 0, 0][..]);
    assert_eq!(&bytes[26..30], &[1u8, 0, 24, 0][..]);
    assert_eq!(&bytes[30..54], &[0u8; 24][..]);
    assert_eq!(&bytes[54..57], &[3u8, 2, 1][..]);
    assert_eq!(&bytes[57..60], &[6u8, 5, 4][..]);
    assert_eq!(&bytes[60..63], &[9u8, 8, 7][..]);
    assert_eq!(&bytes[63..66], &[12u8, 11, 10][..]);
}

#[test]
fn bitmap_length_matches_render() {
    let vp = Viewport::initial(16, 8);
    let frame = render(&vp, 3);
    let bytes = bitmap_bytes(&frame);
    assert_eq!(bytes.len(), 54 + 3 * 16 * 8);
}
