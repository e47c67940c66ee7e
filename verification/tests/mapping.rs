//! Tests of the fixed-point arithmetic and the pixel/plane mapping.

use fractal_zoom::coords::{div_toward_zero, PixelCoord, PlanePoint, Resolution, SCALE};
use fractal_zoom::view::ViewState;

fn demo_view() -> ViewState {
    // Center (0, 0), extent 6.4 x 3.6 plane units, 100 x 100 pixels.
    ViewState::from_xywh(
        0,
        0,
        6_400_000_000_000,
        3_600_000_000_000,
        Resolution { width: 100, height: 100 },
    )
}

#[test]
fn scale_is_a_trillion() {
    assert_eq!(SCALE, 1_000_000_000_000);
}

#[test]
fn division_rounds_toward_zero() {
    assert_eq!(div_toward_zero(7, 2), 3);
    assert_eq!(div_toward_zero(-7, 2), -3);
    assert_eq!(div_toward_zero(99, 100), 0);
    assert_eq!(div_toward_zero(-99, 100), 0);
    assert_eq!(div_toward_zero(0, 5), 0);
}

#[test]
fn screen_to_plane_hits_exact_points() {
    let v = demo_view();
    // Top-left pixel maps to the lower-left corner of the view span.
    let p = v.screen_to_plane(PixelCoord { x: 0, y: 0 });
    assert_eq!(p, PlanePoint { x: -3_200_000_000_000, y: -1_800_000_000_000 });
    // The middle pixel maps to the center.
    let p = v.screen_to_plane(PixelCoord { x: 50, y: 50 });
    assert_eq!(p, PlanePoint { x: 0, y: 0 });
    // One pixel step moves by size / resolution.
    let p = v.screen_to_plane(PixelCoord { x: 1, y: 0 });
    assert_eq!(p.x, -3_200_000_000_000 + 64_000_000_000);
}

#[test]
fn round_trip_stays_within_one_pixel() {
    let v = demo_view();
    for x in [0u32, 1, 17, 50, 73, 99] {
        for y in [0u32, 1, 29, 50, 99] {
            let plane = v.screen_to_plane(PixelCoord { x, y });
            let (sx, sy) = v.plane_to_screen(plane);
            assert!((sx - x as i64).abs() <= 1, "x {} came back as {}", x, sx);
            assert!((sy - y as i64).abs() <= 1, "y {} came back as {}", y, sy);
        }
    }
}

#[test]
fn round_trip_off_center_view() {
    // A shifted, deeply zoomed view; pixels still round-trip.
    let v = ViewState::from_xywh(
        -743_643_887_037_151,
        131_825_904_205_330,
        40_000_000,
        22_500_000,
        Resolution { width: 1_920, height: 1_080 },
    );
    for x in [0u32, 7, 960, 1_919] {
        for y in [0u32, 540, 1_079] {
            let plane = v.screen_to_plane(PixelCoord { x, y });
            let (sx, sy) = v.plane_to_screen(plane);
            assert!((sx - x as i64).abs() <= 1);
            assert!((sy - y as i64).abs() <= 1);
        }
    }
}
