//! Tests of the view cache lifecycle and the render trigger.

use std::cell::Cell;

use fractal_zoom::coords::{PlanePoint, Resolution};
use fractal_zoom::frame::Frame;
use fractal_zoom::view::{RenderError, RenderParams, ViewState};

fn blank_render(p: RenderParams) -> Result<Frame, RenderError> {
    let pixels = (p.resolution.width * p.resolution.height) as usize;
    Ok(Frame::from_rgba(p.resolution.width, p.resolution.height, vec![0u8; pixels * 4])
        .expect("consistent dimensions"))
}

fn demo_view() -> ViewState {
    ViewState::from_xywh(
        0,
        0,
        6_400_000_000_000,
        3_600_000_000_000,
        Resolution { width: 8, height: 8 },
    )
}

#[test]
fn render_params_carry_the_view() {
    let v = demo_view();
    let p = v.render_params();
    assert_eq!(p.center, PlanePoint { x: 0, y: 0 });
    assert_eq!(p.size, PlanePoint { x: 6_400_000_000_000, y: 3_600_000_000_000 });
    assert_eq!(p.resolution, Resolution { width: 8, height: 8 });
    assert_eq!(p.iterations, 256);
}

#[test]
fn mutations_invalidate_the_cache() {
    let mut v = demo_view();
    assert!(v.cached_frame.is_none());

    v.ensure_rendered(blank_render).expect("render succeeds");
    assert!(v.cached_frame.is_some());

    v.zoom_out();
    assert!(v.cached_frame.is_none(), "zooming out must clear the cache");

    v.ensure_rendered(blank_render).expect("render succeeds");
    assert!(v.cached_frame.is_some());

    v.zoom_towards(PlanePoint { x: 100_000_000_000, y: 0 });
    assert!(v.cached_frame.is_none(), "zooming in must clear the cache");
}

#[test]
fn render_runs_only_once_per_view() {
    let mut v = demo_view();
    let calls = Cell::new(0u32);
    let counted = |p: RenderParams| {
        calls.set(calls.get() + 1);
        blank_render(p)
    };

    let first = v.ensure_rendered(counted).expect("render succeeds");
    assert!(first, "an empty cache forces a render");
    assert_eq!(calls.get(), 1);

    let counted = |p: RenderParams| {
        calls.set(calls.get() + 1);
        blank_render(p)
    };
    let second = v.ensure_rendered(counted).expect("cache hit");
    assert!(!second, "a cached frame suppresses the render");
    assert_eq!(calls.get(), 1, "the renderer ran twice for one view");

    // Only a mutation makes the next call render again.
    v.zoom_out();
    let counted = |p: RenderParams| {
        calls.set(calls.get() + 1);
        blank_render(p)
    };
    assert!(v.ensure_rendered(counted).expect("render succeeds"));
    assert_eq!(calls.get(), 2);
}

#[test]
fn render_failure_leaves_the_cache_empty() {
    let mut v = demo_view();
    let failing = |_p: RenderParams| Err(RenderError { device_lost: true });
    assert_eq!(v.ensure_rendered(failing), Err(RenderError { device_lost: true }));
    assert!(v.cached_frame.is_none(), "a failed render must not fill the cache");

    // The next attempt retries and can succeed.
    assert!(v.ensure_rendered(blank_render).expect("retry succeeds"));
    assert!(v.cached_frame.is_some());
}

#[test]
fn interrupt_exits_only_after_a_few_ticks() {
    let mut v = demo_view();
    assert!(!v.interrupt_should_exit());
    v.frame_counter = 10;
    assert!(!v.interrupt_should_exit());
    v.frame_counter = 11;
    assert!(v.interrupt_should_exit());
}

#[test]
fn tick_ready_checks_the_state() {
    let mut v = demo_view();
    assert!(v.tick_ready());
    v.size.x = 0;
    assert!(!v.tick_ready());
    v.size.x = 6_400_000_000_000;
    assert!(v.tick_ready());
    v.frame_counter = u64::MAX;
    assert!(!v.tick_ready());
}
