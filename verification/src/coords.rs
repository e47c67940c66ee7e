//! Fixed-point plane coordinates and the pixel/plane mapping.
//!
//! Plane coordinates are held as `i64` values in ticks of `1 / SCALE`
//! of a plane unit, so the extent `6.4` plane units is `6.4 * SCALE`
//! ticks.  All view arithmetic (mapping, zooming, blending) is exact
//! integer arithmetic on ticks.

use vstd::prelude::*;
use vstd::arithmetic::div_mod::{
    lemma_fundamental_div_mod, lemma_mod_division_less_than_divisor, lemma_div_is_ordered,
    lemma_div_pos_is_pos, lemma_div_multiples_vanish, lemma_div_by_multiple,
};

verus! {

/// Number of fixed-point ticks per plane unit.
pub const SCALE: i64 = 1_000_000_000_000;

/// Largest extent (width or height) a view may have, in ticks.
pub const SIZE_LIMIT: i64 = 10_000_000_000_000;

/// Largest magnitude a plane coordinate may have, in ticks.
pub const CENTER_LIMIT: i64 = 10_000_000_000_000_000;

/// Largest magnitude the coordinate arithmetic accepts; a mapped
/// point of an in-range view always stays within it.
pub const COORD_LIMIT: i64 = CENTER_LIMIT + SIZE_LIMIT;

/// Largest pixel count a render target may have along one axis.
pub const RES_LIMIT: u32 = 100_000;

/// A point (or a width/height extent) in the complex plane, in ticks.
#[derive(Clone, Copy, Debug, PartialEq, Eq, Structural)]
pub struct PlanePoint {
    pub x: i64,
    pub y: i64,
}

/// A pixel position on the render target.
#[derive(Clone, Copy, Debug, PartialEq, Eq, Structural)]
pub struct PixelCoord {
    pub x: u32,
    pub y: u32,
}

/// Fixed pixel dimensions of the render target.
#[derive(Clone, Copy, Debug, PartialEq, Eq, Structural)]
pub struct Resolution {
    pub width: u32,
    pub height: u32,
}

/// Division that rounds toward zero, as Rust's `/` does on machine
/// integers.  (`/` on `int` is Euclidean division, which differs on
/// negative dividends.)
pub open spec fn div_trunc(n: int, d: int) -> int {
    if n >= 0 {
        n / d
    } else {
        -((-n) / d)
    }
}

/// One axis of the pixel-to-plane mapping: the plane coordinate of
/// pixel `p` on an axis with center `c`, extent `s` and `res` pixels.
pub open spec fn screen_to_plane_axis(c: int, s: int, res: int, p: int) -> int {
    c - s / 2 + (p * s) / res
}

/// One axis of the plane-to-pixel mapping: the pixel under the plane
/// coordinate `v` on an axis with center `c`, extent `s` and `res`
/// pixels.  Inverse of `screen_to_plane_axis` up to rounding.
pub open spec fn plane_to_screen_axis(c: int, s: int, res: int, v: int) -> int {
    div_trunc((v - c + s / 2) * res, s)
}

/// Truncating division of a signed value by a positive divisor.
pub fn div_toward_zero(n: i64, d: i64) -> (r: i64)
    requires
        d > 0,
        n > i64::MIN,
    ensures
        r == div_trunc(n as int, d as int),
{
    if n >= 0 {
        let q: u64 = (n as u64) / (d as u64);
        proof {
            lemma_div_is_ordered(q as int, n as int, 1);
            assert(q <= n as u64) by (nonlinear_arith)
                requires
                    q == (n as u64) / (d as u64),
                    d as u64 >= 1,
            ;
        }
        q as i64
    } else {
        let m: u64 = (-n) as u64;
        let q: u64 = m / (d as u64);
        proof {
            assert(q <= m) by (nonlinear_arith)
                requires
                    q == m / (d as u64),
                    d as u64 >= 1,
            ;
        }
        -(q as i64)
    }
}

/// Plane coordinate of pixel `p` along one axis.
pub fn screen_to_plane_coord(c: i64, s: i64, res: u32, p: u32) -> (r: i64)
    requires
        0 < s <= SIZE_LIMIT,
        0 < res <= RES_LIMIT,
        p <= res,
        -COORD_LIMIT <= c <= COORD_LIMIT,
    ensures
        r == screen_to_plane_axis(c as int, s as int, res as int, p as int),
        c - s / 2 <= r <= c - s / 2 + s,
{
    proof {
        assert((p as u64) * (s as u64) <= (res as u64) * (s as u64) <= 100_000u64
            * 10_000_000_000_000u64) by (nonlinear_arith)
            requires
                p <= res,
                res <= 100_000u64,
                0 < s <= 10_000_000_000_000i64,
        ;
    }
    let num: u64 = (p as u64) * (s as u64);
    let q: u64 = num / (res as u64);
    proof {
        lemma_div_pos_is_pos(num as int, res as int);
        assert(q * res <= num) by {
            lemma_fundamental_div_mod(num as int, res as int);
            lemma_mod_division_less_than_divisor(num as int, res as int);
        }
        assert(q <= s) by (nonlinear_arith)
            requires
                q * res <= num,
                num == (p as u64) * (s as u64),
                p <= res,
                0 < res,
                0 < s,
        ;
    }
    let half: i64 = ((s as u64) / 2) as i64;
    c - half + (q as i64)
}

/// Pixel under plane coordinate `v` along one axis.  Out-of-view
/// coordinates extrapolate linearly; the result may lie outside
/// `0 .. res`.
pub fn plane_to_screen_coord(c: i64, s: i64, res: u32, v: i64) -> (r: i64)
    requires
        0 < s <= SIZE_LIMIT,
        0 < res <= RES_LIMIT,
        -COORD_LIMIT <= c <= COORD_LIMIT,
        c - 2 * s <= v <= c + 2 * s,
    ensures
        r == plane_to_screen_axis(c as int, s as int, res as int, v as int),
{
    let half: i64 = ((s as u64) / 2) as i64;
    let t: i64 = v - c + half;
    proof {
        assert(-3 * (SIZE_LIMIT as int) <= t as int <= 3 * (SIZE_LIMIT as int));
        assert((t as int) * (res as int) <= 3 * (SIZE_LIMIT as int) * (RES_LIMIT as int)
            && (t as int) * (res as int) >= -3 * (SIZE_LIMIT as int) * (RES_LIMIT as int))
            by (nonlinear_arith)
            requires
                -3 * (SIZE_LIMIT as int) <= t as int <= 3 * (SIZE_LIMIT as int),
                0 < res <= RES_LIMIT,
        ;
    }
    let num: i64 = t * (res as i64);
    div_toward_zero(num, s)
}

/// The mapped plane coordinate of a pixel on the axis stays within
/// the view's span on that axis.
pub proof fn lemma_screen_to_plane_axis_bounds(c: int, s: int, res: int, p: int)
    requires
        0 < s,
        0 < res,
        0 <= p <= res,
    ensures
        c - s / 2 <= screen_to_plane_axis(c, s, res, p) <= c - s / 2 + s,
{
    let q = (p * s) / res;
    assert(p * s >= 0) by (nonlinear_arith)
        requires
            p >= 0,
            s > 0,
    ;
    lemma_div_pos_is_pos(p * s, res);
    assert(p * s <= s * res) by (nonlinear_arith)
        requires
            0 <= p <= res,
            s > 0,
    ;
    lemma_div_is_ordered(p * s, s * res, res);
    lemma_div_by_multiple(s, res);
}

/// Round-trip law along one axis: mapping a pixel into the plane and
/// back lands on the same pixel, up to one pixel of rounding loss,
/// whenever each pixel covers at least one tick (`res <= s`).
pub proof fn lemma_round_trip_axis(c: int, s: int, res: int, p: int)
    requires
        0 < res <= s,
        0 <= p < res,
    ensures
        p - 1 <= plane_to_screen_axis(c, s, res, screen_to_plane_axis(c, s, res, p)) <= p,
{
    let q = (p * s) / res;
    let v = screen_to_plane_axis(c, s, res, p);
    assert(v - c + s / 2 == q);
    assert(p * s >= 0) by (nonlinear_arith)
        requires
            p >= 0,
            s > 0,
    ;
    lemma_div_pos_is_pos(p * s, res);
    assert(q * res >= 0) by (nonlinear_arith)
        requires
            q >= 0,
            res > 0,
    ;
    assert(plane_to_screen_axis(c, s, res, v) == (q * res) / s);
    lemma_fundamental_div_mod(p * s, res);
    lemma_mod_division_less_than_divisor(p * s, res);
    assert(q * res == p * s - (p * s) % res) by (nonlinear_arith)
        requires
            p * s == res * q + (p * s) % res,
    ;
    // Upper bound: q * res <= p * s, so (q * res) / s <= (p * s) / s == p.
    lemma_div_is_ordered(q * res, p * s, s);
    lemma_div_multiples_vanish(p, s);
    assert(s * p == p * s) by (nonlinear_arith);
    assert((q * res) / s <= p);
    // Lower bound: q * res >= p * s - res + 1 >= (p - 1) * s + 1.
    assert(q * res >= (p - 1) * s + 1) by (nonlinear_arith)
        requires
            q * res == p * s - (p * s) % res,
            (p * s) % res < res,
            res <= s,
    ;
    lemma_div_is_ordered((p - 1) * s + 1, q * res, s);
    lemma_div_multiples_vanish(p - 1, s);
    assert(s * (p - 1) == (p - 1) * s) by (nonlinear_arith);
    lemma_div_is_ordered((p - 1) * s, (p - 1) * s + 1, s);
    assert((q * res) / s >= p - 1);
}

} // verus!
