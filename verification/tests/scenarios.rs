//! Scenario tests of the zoom state machine over many ticks.

use fractal_zoom::coords::{PixelCoord, PlanePoint, Resolution};
use fractal_zoom::frame::Frame;
use fractal_zoom::view::{RenderError, RenderParams, ViewState, ZoomMode, WIDTH_LOWER, WIDTH_UPPER};

fn demo_view(resolution: Resolution) -> ViewState {
    ViewState::from_xywh(0, 0, 6_400_000_000_000, 3_600_000_000_000, resolution)
}

#[test]
fn zoom_in_crosses_the_lower_bound() {
    // Zooming in from width 6.4 with a pinned target: the width falls
    // below 0.00004 within ceil(log(0.00004 / 6.4) / log(0.99)) = 1193
    // steps, and the controller then switches to zooming out.
    let mut v = demo_view(Resolution { width: 8, height: 8 });
    v.zoom_target = Some(PlanePoint { x: 0, y: 0 });
    let mut steps: u32 = 0;
    while v.mode == ZoomMode::ZoomingIn {
        assert!(steps <= 1_194, "the width never crossed the lower bound");
        v.tick();
        steps += 1;
    }
    // ceil(log(0.00004 / 6.4) / log(0.99)) = 1193 shrink steps cross
    // the bound; the mode flips at the start of the following tick.
    assert!(v.size.x < WIDTH_LOWER);
    assert_eq!(steps, 1_194);
    assert!(v.size.x > 0 && v.size.y > 0);
}

#[test]
fn zoom_out_recovers_past_the_upper_bound() {
    // Zooming out from a width below the lower bound: the width grows
    // past 6.4 within about log(6.4 / 0.000039) / log(1.02) = 607
    // steps, and the controller switches back to zooming in.
    let mut v = demo_view(Resolution { width: 8, height: 8 });
    v.size = PlanePoint { x: 39_000_000, y: 22_000_000 };
    v.mode = ZoomMode::ZoomingOut;
    let mut steps: u32 = 0;
    while v.mode == ZoomMode::ZoomingOut {
        assert!(steps <= 650, "the width never crossed the upper bound");
        v.tick();
        steps += 1;
    }
    assert!(v.size.x > WIDTH_UPPER);
    assert_eq!(steps, 607);
}

#[test]
fn one_zoom_out_tick_from_the_start() {
    // From the initial view, one zoom-out tick grows 6.4 x 3.6 to
    // 6.528 x 3.672 and leaves the cache empty.
    let mut v = demo_view(Resolution { width: 100, height: 100 });
    v.mode = ZoomMode::ZoomingOut;
    v.tick();
    assert_eq!(v.size, PlanePoint { x: 6_528_000_000_000, y: 3_672_000_000_000 });
    assert_eq!(v.center, PlanePoint { x: 0, y: 0 });
    assert!(v.cached_frame.is_none());
    assert_eq!(v.frame_counter, 1);
    // The grown width already exceeds the upper bound, so the
    // controller switches back to zooming in.
    assert_eq!(v.mode, ZoomMode::ZoomingIn);
}

#[test]
fn selection_tick_retargets_and_zooms() {
    // A rendered frame with one bright pixel: the 120th tick selects
    // it, maps it into the plane, and starts zooming toward it.
    let mut v = demo_view(Resolution { width: 4, height: 4 });
    let render = |p: RenderParams| -> Result<Frame, RenderError> {
        let pixels = (p.resolution.width * p.resolution.height) as usize;
        let mut data = vec![0u8; pixels * 4];
        data[4 * 5] = 255;  // pixel (1, 1) in row order; (1, 3) flipped
        Ok(Frame::from_rgba(p.resolution.width, p.resolution.height, data)
            .expect("consistent dimensions"))
    };
    v.ensure_rendered(render).expect("render succeeds");
    let expected_target = v.screen_to_plane(PixelCoord { x: 1, y: 3 });
    let old_size = v.size;

    v.frame_counter = 119;
    v.tick();

    assert_eq!(v.frame_counter, 120);
    assert_eq!(v.zoom_target, Some(expected_target));
    assert!(v.cached_frame.is_none(), "the zoom step must clear the cache");
    assert!(v.size.x < old_size.x && v.size.y < old_size.y);
    assert_eq!(v.mode, ZoomMode::ZoomingIn);
}

#[test]
fn off_period_tick_keeps_the_target() {
    let mut v = demo_view(Resolution { width: 4, height: 4 });
    let render = |p: RenderParams| -> Result<Frame, RenderError> {
        let pixels = (p.resolution.width * p.resolution.height) as usize;
        Ok(Frame::from_rgba(p.resolution.width, p.resolution.height, vec![0u8; pixels * 4])
            .expect("consistent dimensions"))
    };
    v.ensure_rendered(render).expect("render succeeds");
    v.tick();
    // No target yet and no selection due: nothing moves, the cache
    // survives the tick.
    assert_eq!(v.zoom_target, None);
    assert!(v.cached_frame.is_some());
    assert_eq!(v.center, PlanePoint { x: 0, y: 0 });
    assert_eq!(v.size, PlanePoint { x: 6_400_000_000_000, y: 3_600_000_000_000 });
}

#[test]
fn blend_moves_center_three_percent() {
    let mut v = demo_view(Resolution { width: 8, height: 8 });
    v.zoom_towards(PlanePoint { x: 1_000_000_000_000, y: -2_000_000_000_000 });
    assert_eq!(v.center, PlanePoint { x: 30_000_000_000, y: -60_000_000_000 });
    assert_eq!(v.size, PlanePoint { x: 6_336_000_000_000, y: 3_564_000_000_000 });
}
