//! The view state and the zoom state machine.
//!
//! `ViewState` owns the viewport onto the plane: center and extent in
//! fixed-point ticks, the fixed render resolution, the cached frame of
//! the last render, the current zoom target and the zoom mode.  Every
//! mutation of center or size clears the cache in the same step, so a
//! stale frame can never be displayed.

use vstd::prelude::*;
use vstd::arithmetic::div_mod::{
    lemma_div_is_ordered, lemma_div_by_multiple, lemma_div_pos_is_pos,
    lemma_fundamental_div_mod_converse,
};
use crate::coords::{
    PlanePoint, PixelCoord, Resolution, SIZE_LIMIT, CENTER_LIMIT, COORD_LIMIT, RES_LIMIT, div_trunc,
    div_toward_zero, screen_to_plane_axis, plane_to_screen_axis, screen_to_plane_coord,
    plane_to_screen_coord, lemma_round_trip_axis, lemma_screen_to_plane_axis_bounds,
};
use crate::frame::Frame;
use crate::select::{select_zoom_target, selectable, lemma_selectable_bounds};

verus! {

/// Width, in ticks, above which a zoom-out phase ends.
pub const WIDTH_UPPER: i64 = 6_400_000_000_000;

/// Width, in ticks, below which a zoom-in phase ends.
pub const WIDTH_LOWER: i64 = 40_000_000;

/// A new zoom target is selected every this many ticks.
pub const SELECT_PERIOD: u64 = 120;

/// Iteration count handed to the renderer, a fixed constant.
pub const ITERATIONS: u32 = 256;

/// Ticks after which an interrupt is allowed to end the run.
pub const EXIT_TICKS: u64 = 10;

/// Largest extent `tick` accepts, chosen so one zoom-out step stays
/// within `SIZE_LIMIT`.
pub const SIZE_STEP_LIMIT: i64 = 9_800_000_000_000;

/// The two phases of the perpetual zoom cycle.
#[derive(Clone, Copy, Debug, PartialEq, Eq, Structural)]
pub enum ZoomMode {
    ZoomingIn,
    ZoomingOut,
}

/// The render failed in the external device; the cache stays empty so
/// the next draw retries.
#[derive(Clone, Copy, Debug, PartialEq, Eq, Structural)]
pub struct RenderError {
    pub device_lost: bool,
}

/// The view parameters handed to the external renderer: they fully
/// determine a rendered frame.
#[derive(Clone, Copy, Debug, PartialEq, Eq, Structural)]
pub struct RenderParams {
    pub center: PlanePoint,
    pub size: PlanePoint,
    pub resolution: Resolution,
    pub iterations: u32,
}

/// One axis of a zoom-out step: the extent grown by two percent,
/// rounded down.
pub open spec fn grow_extent(v: int) -> int {
    v * 102 / 100
}

/// One axis of a zoom-in step: the extent shrunk by one percent,
/// rounded down.
pub open spec fn shrink_extent(v: int) -> int {
    v * 99 / 100
}

/// One axis of the center blend: 97 parts old center, 3 parts target,
/// rounded toward zero.
pub open spec fn blend_coord(c: int, t: int) -> int {
    div_trunc(97 * c + 3 * t, 100)
}

/// The viewport and the zoom state machine driving it.
#[derive(Debug)]
pub struct ViewState {
    pub center: PlanePoint,
    pub size: PlanePoint,
    pub resolution: Resolution,
    pub cached_frame: Option<Frame>,
    pub zoom_target: Option<PlanePoint>,
    pub mode: ZoomMode,
    pub frame_counter: u64,
}

impl ViewState {
    /// Structural well-formedness: extents positive and bounded, the
    /// resolution positive and bounded, and a cached frame, if any,
    /// exactly matching the resolution.
    pub open spec fn wf(self) -> bool {
        &&& 0 < self.size.x <= SIZE_LIMIT
        &&& 0 < self.size.y <= SIZE_LIMIT
        &&& 0 < self.resolution.width <= RES_LIMIT
        &&& 0 < self.resolution.height <= RES_LIMIT
        &&& (self.cached_frame matches Some(f) ==> f.wf() && f.width == self.resolution.width
            && f.height == self.resolution.height)
    }

    /// The center and any stored target are within the coordinate
    /// range the zoom arithmetic accepts.
    pub open spec fn in_range(self) -> bool {
        &&& -CENTER_LIMIT <= self.center.x <= CENTER_LIMIT
        &&& -CENTER_LIMIT <= self.center.y <= CENTER_LIMIT
        &&& (self.zoom_target matches Some(t) ==> -COORD_LIMIT <= t.x <= COORD_LIMIT
            && -COORD_LIMIT <= t.y <= COORD_LIMIT)
    }

    /// The parameters a render of this view takes.
    pub open spec fn spec_render_params(self) -> RenderParams {
        RenderParams {
            center: self.center,
            size: self.size,
            resolution: self.resolution,
            iterations: ITERATIONS,
        }
    }

    /// The plane point under pixel `p` of this view.
    pub open spec fn spec_screen_to_plane(self, p: PixelCoord) -> PlanePoint {
        PlanePoint {
            x: screen_to_plane_axis(
                self.center.x as int,
                self.size.x as int,
                self.resolution.width as int,
                p.x as int,
            ) as i64,
            y: screen_to_plane_axis(
                self.center.y as int,
                self.size.y as int,
                self.resolution.height as int,
                p.y as int,
            ) as i64,
        }
    }

    /// A fresh view: the given center and extent, an empty cache, no
    /// target yet, zooming in, at tick zero.
    pub fn from_xywh(x: i64, y: i64, w: i64, h: i64, resolution: Resolution) -> (r: ViewState)
        requires
            0 < w <= SIZE_LIMIT,
            0 < h <= SIZE_LIMIT,
            -CENTER_LIMIT <= x <= CENTER_LIMIT,
            -CENTER_LIMIT <= y <= CENTER_LIMIT,
            0 < resolution.width <= RES_LIMIT,
            0 < resolution.height <= RES_LIMIT,
        ensures
            r.center == (PlanePoint { x, y }),
            r.size == (PlanePoint { x: w, y: h }),
            r.resolution == resolution,
            r.cached_frame is None,
            r.zoom_target is None,
            r.mode == ZoomMode::ZoomingIn,
            r.frame_counter == 0,
            r.wf(),
            r.in_range(),
    {
        ViewState {
            center: PlanePoint { x, y },
            size: PlanePoint { x: w, y: h },
            resolution,
            cached_frame: None,
            zoom_target: None,
            mode: ZoomMode::ZoomingIn,
            frame_counter: 0,
        }
    }

    /// The plane point under pixel `p`.  Pixels on the far edge map to
    /// the far side of the view; the mapping is linear in `p`.
    pub fn screen_to_plane(&self, p: PixelCoord) -> (r: PlanePoint)
        requires
            self.wf(),
            -COORD_LIMIT <= self.center.x <= COORD_LIMIT,
            -COORD_LIMIT <= self.center.y <= COORD_LIMIT,
            p.x <= self.resolution.width,
            p.y <= self.resolution.height,
        ensures
            r == self.spec_screen_to_plane(p),
            self.center.x - self.size.x / 2 <= r.x <= self.center.x - self.size.x / 2
                + self.size.x,
            self.center.y - self.size.y / 2 <= r.y <= self.center.y - self.size.y / 2
                + self.size.y,
    {
        let rx: i64 = screen_to_plane_coord(self.center.x, self.size.x, self.resolution.width, p.x);
        let ry: i64 = screen_to_plane_coord(
            self.center.y,
            self.size.y,
            self.resolution.height,
            p.y,
        );
        PlanePoint { x: rx, y: ry }
    }

    /// The pixel under plane point `p`, as a possibly out-of-bounds
    /// signed pair; inverse of `screen_to_plane` up to rounding.
    pub fn plane_to_screen(&self, p: PlanePoint) -> (r: (i64, i64))
        requires
            self.wf(),
            -COORD_LIMIT <= self.center.x <= COORD_LIMIT,
            -COORD_LIMIT <= self.center.y <= COORD_LIMIT,
            self.center.x - 2 * self.size.x <= p.x <= self.center.x + 2 * self.size.x,
            self.center.y - 2 * self.size.y <= p.y <= self.center.y + 2 * self.size.y,
        ensures
            r.0 == plane_to_screen_axis(
                self.center.x as int,
                self.size.x as int,
                self.resolution.width as int,
                p.x as int,
            ),
            r.1 == plane_to_screen_axis(
                self.center.y as int,
                self.size.y as int,
                self.resolution.height as int,
                p.y as int,
            ),
    {
        let sx: i64 = plane_to_screen_coord(self.center.x, self.size.x, self.resolution.width, p.x);
        let sy: i64 = plane_to_screen_coord(
            self.center.y,
            self.size.y,
            self.resolution.height,
            p.y,
        );
        (sx, sy)
    }

    /// The parameters a render of this view takes.
    pub fn render_params(&self) -> (r: RenderParams)
        ensures
            r == self.spec_render_params(),
    {
        RenderParams {
            center: self.center,
            size: self.size,
            resolution: self.resolution,
            iterations: ITERATIONS,
        }
    }

    /// Grow both extents by the zoom-out factor and clear the cache;
    /// the center and everything else stay.  The width never shrinks,
    /// and grows strictly once it is at least 50 ticks.
    pub fn zoom_out(&mut self)
        requires
            old(self).wf(),
        ensures
            final(self).size.x == grow_extent(old(self).size.x as int),
            final(self).size.y == grow_extent(old(self).size.y as int),
            final(self).size.x >= old(self).size.x,
            final(self).size.y >= old(self).size.y,
            old(self).size.x >= 50 ==> final(self).size.x > old(self).size.x,
            final(self).cached_frame is None,
            final(self).center == old(self).center,
            final(self).resolution == old(self).resolution,
            final(self).zoom_target == old(self).zoom_target,
            final(self).mode == old(self).mode,
            final(self).frame_counter == old(self).frame_counter,
    {
        proof {
            Self::lemma_grow_extent_bounds(self.size.x as int);
            Self::lemma_grow_extent_bounds(self.size.y as int);
        }
        let gx: i64 = (((self.size.x as u64) * 102) / 100) as i64;
        let gy: i64 = (((self.size.y as u64) * 102) / 100) as i64;
        self.size = PlanePoint { x: gx, y: gy };
        self.cached_frame = None;
    }

    /// Bounds of one grown extent: it never shrinks, grows strictly
    /// from 50 ticks up, and stays comfortably inside `i64`.
    proof fn lemma_grow_extent_bounds(v: int)
        requires
            0 < v <= SIZE_LIMIT,
        ensures
            v <= grow_extent(v) <= 2 * SIZE_LIMIT,
            v >= 50 ==> grow_extent(v) > v,
            v <= SIZE_STEP_LIMIT ==> grow_extent(v) <= SIZE_LIMIT,
    {
        lemma_div_by_multiple(v, 100);
        lemma_div_is_ordered(v * 100, v * 102, 100);
        lemma_div_is_ordered(v * 102, 2 * SIZE_LIMIT * 100, 100);
        lemma_div_by_multiple(2 * SIZE_LIMIT, 100);
        if v <= SIZE_STEP_LIMIT {
            lemma_div_is_ordered(v * 102, SIZE_STEP_LIMIT * 102, 100);
        }
        if v >= 50 {
            lemma_div_by_multiple(v + 1, 100);
            lemma_div_is_ordered((v + 1) * 100, v * 102, 100);
        }
    }

    /// Bounds of one shrunk extent: it never grows, stays positive
    /// from 2 ticks up, and shrinks strictly while positive.
    proof fn lemma_shrink_extent_bounds(v: int)
        requires
            0 < v <= SIZE_LIMIT,
        ensures
            0 <= shrink_extent(v) < v,
            v >= 2 ==> shrink_extent(v) >= 1,
    {
        lemma_div_pos_is_pos(v * 99, 100);
        lemma_fundamental_div_mod_converse(v * 100 - 1, 100, v - 1, 99);
        lemma_div_is_ordered(v * 99, v * 100 - 1, 100);
        if v >= 2 {
            lemma_div_is_ordered(100, v * 99, 100);
            lemma_div_by_multiple(1, 100);
        }
    }

    /// Magnitude bound of one blended coordinate: the blend is a
    /// convex combination, so it cannot leave the interval spanned by
    /// the larger magnitude of the two inputs.
    proof fn lemma_blend_coord_bound(c: int, t: int, m: int)
        requires
            -m <= c <= m,
            -m <= t <= m,
            0 <= m,
        ensures
            -m <= blend_coord(c, t) <= m,
    {
        let n = 97 * c + 3 * t;
        assert(-(m * 100) <= n <= m * 100);
        if n >= 0 {
            lemma_div_pos_is_pos(n, 100);
            lemma_div_is_ordered(n, m * 100, 100);
            lemma_div_by_multiple(m, 100);
        } else {
            lemma_div_pos_is_pos(-n, 100);
            lemma_div_is_ordered(-n, m * 100, 100);
            lemma_div_by_multiple(m, 100);
        }
    }

    /// Zoom one step toward `target`: blend the center 97/3 toward it,
    /// shrink both extents by one percent, and clear the cache.
    pub fn zoom_towards(&mut self, target: PlanePoint)
        requires
            old(self).wf(),
            old(self).size.x >= 2,
            old(self).size.y >= 2,
            -COORD_LIMIT <= old(self).center.x <= COORD_LIMIT,
            -COORD_LIMIT <= old(self).center.y <= COORD_LIMIT,
            -COORD_LIMIT <= target.x <= COORD_LIMIT,
            -COORD_LIMIT <= target.y <= COORD_LIMIT,
        ensures
            final(self).center.x == blend_coord(old(self).center.x as int, target.x as int),
            final(self).center.y == blend_coord(old(self).center.y as int, target.y as int),
            final(self).size.x == shrink_extent(old(self).size.x as int),
            final(self).size.y == shrink_extent(old(self).size.y as int),
            1 <= final(self).size.x < old(self).size.x,
            1 <= final(self).size.y < old(self).size.y,
            -COORD_LIMIT <= final(self).center.x <= COORD_LIMIT,
            -COORD_LIMIT <= final(self).center.y <= COORD_LIMIT,
            final(self).cached_frame is None,
            final(self).resolution == old(self).resolution,
            final(self).zoom_target == old(self).zoom_target,
            final(self).mode == old(self).mode,
            final(self).frame_counter == old(self).frame_counter,
    {
        proof {
            Self::lemma_blend_coord_bound(
                self.center.x as int,
                target.x as int,
                COORD_LIMIT as int,
            );
            Self::lemma_blend_coord_bound(
                self.center.y as int,
                target.y as int,
                COORD_LIMIT as int,
            );
            Self::lemma_shrink_extent_bounds(self.size.x as int);
            Self::lemma_shrink_extent_bounds(self.size.y as int);
        }
        let nx: i64 = self.center.x * 97 + target.x * 3;
        let ny: i64 = self.center.y * 97 + target.y * 3;
        let cx: i64 = div_toward_zero(nx, 100);
        let cy: i64 = div_toward_zero(ny, 100);
        let sx: i64 = (((self.size.x as u64) * 99) / 100) as i64;
        let sy: i64 = (((self.size.y as u64) * 99) / 100) as i64;
        self.center = PlanePoint { x: cx, y: cy };
        self.size = PlanePoint { x: sx, y: sy };
        self.cached_frame = None;
    }

    /// Render the view through `render_fn` unless a cached frame is
    /// already present.  Returns `Ok(true)` when a render ran and its
    /// frame was stored, `Ok(false)` when the cache made it
    /// unnecessary, and the renderer's error unchanged when it failed,
    /// in which case the cache stays empty so the next call retries.
    pub fn ensure_rendered<F: FnOnce(RenderParams) -> Result<
        Frame,
        RenderError,
    >>(&mut self, render_fn: F) -> (r: Result<bool, RenderError>)
        requires
            old(self).wf(),
            call_requires(render_fn, (old(self).spec_render_params(),)),
            forall|out: Result<Frame, RenderError>|
                call_ensures(render_fn, (old(self).spec_render_params(),), out) ==> (out matches Ok(
                    f,
                ) ==> f.wf() && f.width == old(self).resolution.width && f.height == old(
                    self,
                ).resolution.height),
        ensures
            final(self).center == old(self).center,
            final(self).size == old(self).size,
            final(self).resolution == old(self).resolution,
            final(self).zoom_target == old(self).zoom_target,
            final(self).mode == old(self).mode,
            final(self).frame_counter == old(self).frame_counter,
            final(self).wf(),
            old(self).cached_frame is Some ==> *final(self) == *old(self) && r == Ok::<
                bool,
                RenderError,
            >(false),
            old(self).cached_frame is None ==> match r {
                Ok(b) => b && (final(self).cached_frame matches Some(f) && call_ensures(
                    render_fn,
                    (old(self).spec_render_params(),),
                    Ok(f),
                )),
                Err(e) => final(self).cached_frame is None && call_ensures(
                    render_fn,
                    (old(self).spec_render_params(),),
                    Err(e),
                ),
            },
    {
        if self.cached_frame.is_some() {
            return Ok(false);
        }
        let params = self.render_params();
        match render_fn(params) {
            Ok(f) => {
                self.cached_frame = Some(f);
                Ok(true)
            },
            Err(e) => Err(e),
        }
    }

    /// An interrupt (any user input) may end the run only once the
    /// demo has played for a few ticks.
    pub fn interrupt_should_exit(&self) -> (r: bool)
        ensures
            r == (self.frame_counter > EXIT_TICKS),
    {
        self.frame_counter > EXIT_TICKS
    }

    /// This tick runs the selector: its counter lands on the selection
    /// period and a rendered frame is available to scan.
    pub open spec fn tick_selects(self) -> bool {
        &&& (self.frame_counter + 1) % (SELECT_PERIOD as int) == 0
        &&& self.cached_frame is Some
    }

    /// One step of the zoom state machine.
    ///
    /// Zooming out: grow the view and clear the cache; switch to
    /// zooming in once the width passes the upper bound.  Zooming in:
    /// arm the switch to zooming out once the width is under the lower
    /// bound; on every selection tick with a rendered frame, pick a
    /// new target from the frame and map it into the plane; then, if a
    /// target is set, blend the center toward it, shrink the view and
    /// clear the cache.
    ///
    /// The center may leave `in_range` by up to the view's extent;
    /// callers outside verified code re-check `tick_ready` each tick.
    pub fn tick(&mut self)
        requires
            old(self).wf(),
            old(self).in_range(),
            old(self).size.x >= 2,
            old(self).size.y >= 2,
            old(self).size.x <= SIZE_STEP_LIMIT,
            old(self).size.y <= SIZE_STEP_LIMIT,
            old(self).frame_counter < u64::MAX,
        ensures
            final(self).wf(),
            final(self).resolution == old(self).resolution,
            final(self).frame_counter == old(self).frame_counter + 1,
            -COORD_LIMIT <= final(self).center.x <= COORD_LIMIT,
            -COORD_LIMIT <= final(self).center.y <= COORD_LIMIT,
            final(self).zoom_target matches Some(t) ==> -COORD_LIMIT <= t.x <= COORD_LIMIT
                && -COORD_LIMIT <= t.y <= COORD_LIMIT,
            old(self).mode == ZoomMode::ZoomingOut ==> ({
                &&& final(self).size.x == grow_extent(old(self).size.x as int)
                &&& final(self).size.y == grow_extent(old(self).size.y as int)
                &&& final(self).center == old(self).center
                &&& final(self).zoom_target == old(self).zoom_target
                &&& final(self).cached_frame is None
                &&& final(self).mode == (if grow_extent(old(self).size.x as int) > WIDTH_UPPER {
                    ZoomMode::ZoomingIn
                } else {
                    ZoomMode::ZoomingOut
                })
            }),
            old(self).mode == ZoomMode::ZoomingIn ==> ({
                &&& final(self).mode == (if old(self).size.x < WIDTH_LOWER {
                    ZoomMode::ZoomingOut
                } else {
                    ZoomMode::ZoomingIn
                })
                &&& (if old(self).tick_selects() {
                    old(self).cached_frame matches Some(fr) && (exists|c: PixelCoord|
                        selectable(fr, c) && final(self).zoom_target == Some(
                            old(self).spec_screen_to_plane(c),
                        ))
                } else {
                    final(self).zoom_target == old(self).zoom_target
                })
                &&& (final(self).zoom_target matches Some(t) ==> ({
                    &&& final(self).center.x == blend_coord(old(self).center.x as int, t.x as int)
                    &&& final(self).center.y == blend_coord(old(self).center.y as int, t.y as int)
                    &&& final(self).size.x == shrink_extent(old(self).size.x as int)
                    &&& final(self).size.y == shrink_extent(old(self).size.y as int)
                    &&& final(self).cached_frame is None
                }))
                &&& (final(self).zoom_target is None ==> final(self).center == old(self).center
                    && final(self).size == old(self).size && final(self).cached_frame == old(
                    self,
                ).cached_frame)
            }),
    {
        self.frame_counter = self.frame_counter + 1;

        if self.mode == ZoomMode::ZoomingOut {
            self.zoom_out();
            if self.size.x > WIDTH_UPPER {
                self.mode = ZoomMode::ZoomingIn;
            }
            proof {
                Self::lemma_grow_extent_bounds(old(self).size.x as int);
                Self::lemma_grow_extent_bounds(old(self).size.y as int);
            }
            return ;
        }
        if self.size.x < WIDTH_LOWER {
            self.mode = ZoomMode::ZoomingOut;
        }
        let mut sel: Option<PixelCoord> = None;
        if self.frame_counter % SELECT_PERIOD == 0 {
            match &self.cached_frame {
                Some(fr) => {
                    proof {
                        assert(fr.pixel_count() > 0) by (nonlinear_arith)
                            requires
                                fr.width > 0,
                                fr.height > 0,
                                fr.pixel_count() == fr.width * fr.height,
                        ;
                    }
                    sel = select_zoom_target(fr);
                    proof {
                        assert(sel is Some);
                        match sel {
                            Some(p) => lemma_selectable_bounds(*fr, p),
                            None => (),
                        }
                    }
                },
                None => {},
            }
        }
        if let Some(p) = sel {
            proof {
                assert(0 <= self.size.x / 2 <= self.size.x) by {
                    lemma_div_pos_is_pos(self.size.x as int, 2);
                    lemma_div_is_ordered(self.size.x as int, (self.size.x as int) * 2, 2);
                    lemma_div_by_multiple(self.size.x as int, 2);
                }
                assert(0 <= self.size.y / 2 <= self.size.y) by {
                    lemma_div_pos_is_pos(self.size.y as int, 2);
                    lemma_div_is_ordered(self.size.y as int, (self.size.y as int) * 2, 2);
                    lemma_div_by_multiple(self.size.y as int, 2);
                }
            }
            let t = self.screen_to_plane(p);
            self.zoom_target = Some(t);
            proof {
                match old(self).cached_frame {
                    Some(fr) => {
                        assert(selectable(fr, p));
                        assert(self.zoom_target == Some(old(self).spec_screen_to_plane(p)));
                    },
                    None => {
                        assert(false);
                    },
                }
            }
        }
        let tgt: Option<PlanePoint> = self.zoom_target;
        if let Some(t) = tgt {
            self.zoom_towards(t);
        }
    }

    /// Runtime check of everything `tick` requires of the state, for
    /// callers outside verified code.
    pub fn tick_ready(&self) -> (r: bool)
        ensures
            r == (self.wf() && self.in_range() && self.size.x >= 2 && self.size.y >= 2
                && self.size.x <= SIZE_STEP_LIMIT && self.size.y <= SIZE_STEP_LIMIT
                && self.frame_counter < u64::MAX),
    {
        let sizes_ok: bool = 2 <= self.size.x && self.size.x <= SIZE_STEP_LIMIT && 2 <= self.size.y
            && self.size.y <= SIZE_STEP_LIMIT;
        let res_ok: bool = 0 < self.resolution.width && self.resolution.width <= RES_LIMIT && 0
            < self.resolution.height && self.resolution.height <= RES_LIMIT;
        let center_ok: bool = -CENTER_LIMIT <= self.center.x && self.center.x <= CENTER_LIMIT
            && -CENTER_LIMIT <= self.center.y && self.center.y <= CENTER_LIMIT;
        let target_ok: bool = match &self.zoom_target {
            Some(t) => -COORD_LIMIT <= t.x && t.x <= COORD_LIMIT && -COORD_LIMIT <= t.y && t.y
                <= COORD_LIMIT,
            None => true,
        };
        let cache_ok: bool = match &self.cached_frame {
            Some(f) => {
                if f.width == self.resolution.width && f.height == self.resolution.height
                    && f.width <= RES_LIMIT && f.height <= RES_LIMIT {
                    proof {
                        assert((f.width as u64) * (f.height as u64) <= 100_000u64 * 100_000u64)
                            by (nonlinear_arith)
                            requires
                                f.width <= 100_000u64,
                                f.height <= 100_000u64,
                        ;
                    }
                    let pixels: u64 = (f.width as u64) * (f.height as u64);
                    (f.data.len() as u64) == 4 * pixels
                } else {
                    false
                }
            },
            None => true,
        };
        let counter_ok: bool = self.frame_counter < u64::MAX;
        sizes_ok && res_ok && center_ok && target_ok && cache_ok && counter_ok
    }
}

/// Round-trip law of the two mappings: a pixel within the resolution,
/// mapped into the plane and back, lands on the same pixel up to one
/// pixel of rounding loss, whenever each pixel covers at least one
/// coordinate tick on each axis.
pub proof fn lemma_plane_screen_round_trip(v: ViewState, p: PixelCoord)
    requires
        v.wf(),
        -COORD_LIMIT <= v.center.x <= COORD_LIMIT,
        -COORD_LIMIT <= v.center.y <= COORD_LIMIT,
        (p.x as int) < v.resolution.width,
        (p.y as int) < v.resolution.height,
        v.resolution.width <= v.size.x,
        v.resolution.height <= v.size.y,
    ensures
        ({
            let q = v.spec_screen_to_plane(p);
            &&& p.x - 1 <= plane_to_screen_axis(
                v.center.x as int,
                v.size.x as int,
                v.resolution.width as int,
                q.x as int,
            ) <= p.x
            &&& p.y - 1 <= plane_to_screen_axis(
                v.center.y as int,
                v.size.y as int,
                v.resolution.height as int,
                q.y as int,
            ) <= p.y
        }),
{
    lemma_screen_to_plane_axis_bounds(
        v.center.x as int,
        v.size.x as int,
        v.resolution.width as int,
        p.x as int,
    );
    lemma_screen_to_plane_axis_bounds(
        v.center.y as int,
        v.size.y as int,
        v.resolution.height as int,
        p.y as int,
    );
    lemma_round_trip_axis(
        v.center.x as int,
        v.size.x as int,
        v.resolution.width as int,
        p.x as int,
    );
    lemma_round_trip_axis(
        v.center.y as int,
        v.size.y as int,
        v.resolution.height as int,
        p.y as int,
    );
}

} // verus!
