//! The zoom-target selector.
//!
//! Scans a rendered frame for the brightest pixels, taking the red
//! channel as the brightness proxy, and picks one of them uniformly at
//! random.  The linear pixel index is converted to a screen coordinate
//! with the vertical axis flipped, because the renderer's row order is
//! inverted relative to the plane mapping's orientation.

use vstd::prelude::*;
use vstd::arithmetic::div_mod::{
    lemma_mod_division_less_than_divisor, lemma_div_multiples_vanish, lemma_multiply_divide_lt,
    lemma_div_pos_is_pos,
};
use crate::coords::PixelCoord;
use crate::frame::Frame;

verus! {

/// `m` is the largest red value over all pixels of `f`.
pub open spec fn is_max_red(f: Frame, m: u8) -> bool {
    &&& exists|i: int| 0 <= i < f.pixel_count() && f.red(i) == m
    &&& forall|j: int| 0 <= j < f.pixel_count() ==> f.red(j) <= m
}

/// Pixel index `i` attains the maximum red value of `f`.
pub open spec fn is_max_index(f: Frame, i: int) -> bool {
    &&& 0 <= i < f.pixel_count()
    &&& forall|j: int| 0 <= j < f.pixel_count() ==> f.red(j) <= f.red(i)
}

/// The screen coordinate of linear pixel index `i`, with the vertical
/// axis flipped from buffer row order to plane orientation.
pub open spec fn flipped_coord(f: Frame, i: int) -> PixelCoord {
    PixelCoord {
        x: (i % (f.width as int)) as u32,
        y: (f.height - i / (f.width as int)) as u32,
    }
}

/// `c` is a coordinate the selector may return for `f`: the flipped
/// coordinate of some pixel of maximal red value.
pub open spec fn selectable(f: Frame, c: PixelCoord) -> bool {
    exists|i: int| is_max_index(f, i) && c == flipped_coord(f, i)
}

/// Relies on `rand::random_range`: a uniformly random value in
/// `0 .. n`.  It panics only on an empty range, which the precondition
/// rules out.
#[verifier::external_body]
fn random_below(n: usize) -> (r: usize)
    requires
        n > 0,
    ensures
        r < n,
{
    rand::random_range(0..n)
}

/// Largest red value over all pixels of a non-empty frame.
pub fn max_red(frame: &Frame) -> (r: u8)
    requires
        frame.wf(),
        frame.pixel_count() > 0,
    ensures
        is_max_red(*frame, r),
{
    let count: usize = frame.data.len() / 4;
    proof {
        lemma_div_multiples_vanish(frame.pixel_count(), 4);
    }
    let mut m: u8 = frame.data[0];
    proof {
        assert(frame.red(0) == m);
    }
    let mut i: usize = 1;
    while i < count
        invariant
            frame.wf(),
            count == frame.pixel_count(),
            frame.data@.len() <= usize::MAX,
            1 <= i <= count,
            exists|k: int| 0 <= k < i && frame.red(k) == m,
            forall|j: int| 0 <= j < i ==> frame.red(j) <= m,
        decreases count - i,
    {
        let b: u8 = frame.data[4 * i];
        if b > m {
            m = b;
            assert(frame.red(i as int) == m);
        }
        i = i + 1;
    }
    m
}

/// All linear pixel indices of `f` whose red value equals `m`, in
/// increasing order.
pub fn collect_max_indices(frame: &Frame, m: u8) -> (r: Vec<usize>)
    requires
        frame.wf(),
    ensures
        forall|j: int|
            0 <= j < r@.len() ==> (r@[j] as int) < frame.pixel_count() && frame.red(
                r@[j] as int,
            ) == m,
        forall|i: usize| (i as int) < frame.pixel_count() && frame.red(i as int) == m
            ==> r@.contains(i),
        forall|j1: int, j2: int| 0 <= j1 < j2 < r@.len() ==> r@[j1] < r@[j2],
        is_max_red(*frame, m) ==> r@.len() > 0,
{
    let count: usize = frame.data.len() / 4;
    proof {
        lemma_div_multiples_vanish(frame.pixel_count(), 4);
    }
    let mut r: Vec<usize> = Vec::new();
    let mut i: usize = 0;
    while i < count
        invariant
            frame.wf(),
            count == frame.pixel_count(),
            frame.data@.len() <= usize::MAX,
            0 <= i <= count,
            forall|j: int|
                0 <= j < r@.len() ==> (r@[j] as int) < i && frame.red(r@[j] as int) == m,
            forall|k: usize| (k as int) < i && frame.red(k as int) == m ==> r@.contains(k),
            forall|j1: int, j2: int| 0 <= j1 < j2 < r@.len() ==> r@[j1] < r@[j2],
        decreases count - i,
    {
        let b: u8 = frame.data[4 * i];
        let ghost prev = r@;
        if b == m {
            r.push(i);
        }
        proof {
            assert forall|k: usize| prev.contains(k) implies r@.contains(k) by {
                let idx = choose|idx: int| 0 <= idx < prev.len() && prev[idx] == k;
                assert(r@[idx] == k);
            }
            if frame.red(i as int) == m {
                assert(r@[r@.len() - 1] == i);
                assert(r@.contains(i));
            }
        }
        i = i + 1;
    }
    proof {
        if is_max_red(*frame, m) {
            let k = choose|k: int| 0 <= k < frame.pixel_count() && frame.red(k) == m;
            assert(r@.contains(k as usize));
        }
    }
    r
}

/// Pick a zoom target from a rendered frame: one of the pixels of
/// maximal red value, uniformly at random, as a vertically flipped
/// screen coordinate.  Returns `None` exactly when the frame is empty.
pub fn select_zoom_target(frame: &Frame) -> (r: Option<PixelCoord>)
    requires
        frame.wf(),
    ensures
        r is Some <==> frame.pixel_count() > 0,
        r matches Some(c) ==> selectable(*frame, c),
{
    let count: usize = frame.data.len() / 4;
    proof {
        lemma_div_multiples_vanish(frame.pixel_count(), 4);
    }
    if count == 0 {
        return None;
    }
    let m: u8 = max_red(frame);
    let indices: Vec<usize> = collect_max_indices(frame, m);
    let pick: usize = indices[random_below(indices.len())];
    proof {
        assert(frame.width > 0 && frame.height > 0) by (nonlinear_arith)
            requires
                frame.pixel_count() == frame.width * frame.height,
                frame.pixel_count() > 0,
        ;
        lemma_mod_division_less_than_divisor(pick as int, frame.width as int);
        assert((pick as int) < (frame.width as int) * (frame.height as int)) by (nonlinear_arith)
            requires
                (pick as int) < frame.pixel_count(),
                frame.pixel_count() == frame.width * frame.height,
        ;
        lemma_multiply_divide_lt(pick as int, frame.width as int, frame.height as int);
    }
    let w: usize = frame.width as usize;
    let x: u32 = (pick % w) as u32;
    let y: u32 = frame.height - (pick / w) as u32;
    let c = PixelCoord { x, y };
    proof {
        assert(is_max_index(*frame, pick as int));
        assert(c == flipped_coord(*frame, pick as int));
    }
    Some(c)
}

/// Any coordinate the selector can return lies on the render target:
/// `x` within the row, `y` within `1 ..= height` after the flip.
pub proof fn lemma_selectable_bounds(f: Frame, c: PixelCoord)
    requires
        f.wf(),
        selectable(f, c),
    ensures
        (c.x as int) < f.width,
        1 <= c.y <= f.height,
{
    let i = choose|i: int| is_max_index(f, i) && c == flipped_coord(f, i);
    assert(f.width > 0 && f.height > 0) by (nonlinear_arith)
        requires
            f.pixel_count() == f.width * f.height,
            f.pixel_count() > 0,
    ;
    lemma_mod_division_less_than_divisor(i, f.width as int);
    assert(i < (f.width as int) * (f.height as int)) by (nonlinear_arith)
        requires
            i < f.pixel_count(),
            f.pixel_count() == f.width * f.height,
    ;
    lemma_multiply_divide_lt(i, f.width as int, f.height as int);
    lemma_div_pos_is_pos(i, f.width as int);
}

/// If a single pixel index holds a strictly maximal red value, the
/// selector can only return that pixel's flipped coordinate.
pub proof fn lemma_unique_maximum_selected(f: Frame, k: int, c: PixelCoord)
    requires
        f.wf(),
        0 <= k < f.pixel_count(),
        forall|j: int| 0 <= j < f.pixel_count() && j != k ==> f.red(j) < f.red(k),
        selectable(f, c),
    ensures
        c == flipped_coord(f, k),
{
    let i = choose|i: int| is_max_index(f, i) && c == flipped_coord(f, i);
    if i != k {
        assert(f.red(i) < f.red(k));
        assert(f.red(k) <= f.red(i));
        assert(false);
    }
}

} // verus!
