//! The world/screen transform and the auto-fit rule.
use vstd::prelude::*;

verus! {

/// The zoom value that stands for a scale of one (zoom is held in thousandths).
pub const ZOOM_UNIT: i64 = 1000;

/// Smallest zoom the view may take (a scale of 0.1).
pub const MIN_ZOOM: i64 = 100;

/// Largest zoom the view may take (a scale of 4.0).
pub const MAX_ZOOM: i64 = 4000;

/// Bound on the magnitude of world coordinates and sizes.
pub const WORLD_LIMIT: i64 = 1_000_000_000_000;

/// Bound on the magnitude of pointer positions, viewport origins and sizes (milli-pixels).
pub const SCREEN_LIMIT: i64 = 1_000_000_000_000;

/// Bound on the magnitude of a pan offset (milli-pixels).
pub const PAN_LIMIT: i64 = 10_000_000_000_000_000;

pub open spec fn valid_zoom(z: int) -> bool {
    MIN_ZOOM <= z <= MAX_ZOOM
}

pub open spec fn in_world(v: int) -> bool {
    -WORLD_LIMIT <= v <= WORLD_LIMIT
}

pub open spec fn valid_pan(pan: (i64, i64)) -> bool {
    -PAN_LIMIT <= pan.0 <= PAN_LIMIT && -PAN_LIMIT <= pan.1 <= PAN_LIMIT
}

/// Screen coordinate of world coordinate `w` along one axis.
pub open spec fn to_screen(pan: int, zoom: int, w: int) -> int {
    pan + w * zoom
}

/// World coordinate of screen coordinate `s` along one axis, rounded down.
pub open spec fn to_world(pan: int, zoom: int, s: int) -> int {
    (s - pan) / zoom
}

/// Mapping a world coordinate to the screen and back gives it again.
pub proof fn lemma_round_trip(pan: int, zoom: int, w: int)
    requires
        zoom > 0,
    ensures
        to_world(pan, zoom, to_screen(pan, zoom, w)) == w,
{
    vstd::arithmetic::div_mod::lemma_div_multiples_vanish(w, zoom);
    assert(w * zoom == zoom * w) by (nonlinear_arith);
}

pub open spec fn min_int(a: int, b: int) -> int {
    if a <= b { a } else { b }
}

pub open spec fn clamp_zoom(z: int) -> int {
    if z < MIN_ZOOM { MIN_ZOOM as int } else if z > MAX_ZOOM { MAX_ZOOM as int } else { z }
}

/// Zoom that fits content of size `cw` x `ch` (world units) into a viewport of
/// `vw` x `vh` (milli-pixels): shrink to the tighter axis when the content
/// does not fit at scale one, else keep scale one; then clamp.
pub open spec fn fit_zoom(vw: int, vh: int, cw: int, ch: int) -> int {
    if vw < cw * ZOOM_UNIT || vh < ch * ZOOM_UNIT {
        clamp_zoom(min_int(vw / cw, vh / ch))
    } else {
        clamp_zoom(ZOOM_UNIT as int)
    }
}

/// Pan along one axis that puts the content's center `(lo + hi) / 2` at the
/// viewport's center `v / 2` under zoom `z`.
pub open spec fn fit_pan(v: int, lo: int, hi: int, z: int) -> int {
    (v - (lo + hi) * z) / 2
}

/// Every auto-fit yields a zoom within the allowed range.
pub proof fn lemma_fit_zoom_bounded(vw: int, vh: int, cw: int, ch: int)
    requires
        vw > 0,
        vh > 0,
        cw > 0,
        ch > 0,
    ensures
        valid_zoom(fit_zoom(vw, vh, cw, ch)),
{
}

/// Dividing by a positive divisor never moves a value away from zero.
pub proof fn lemma_div_magnitude(a: int, d: int)
    requires
        d >= 1,
    ensures
        a >= 0 ==> 0 <= a / d <= a,
        a < 0 ==> a <= a / d < 0,
{
    let q = a / d;
    vstd::arithmetic::div_mod::lemma_fundamental_div_mod(a, d);
    vstd::arithmetic::div_mod::lemma_mod_bound(a, d);
    if q < 0 {
        assert(d * (q + 1) <= q + 1) by (nonlinear_arith)
            requires
                d >= 1,
                q + 1 <= 0,
        ;
        assert(d * q + d == d * (q + 1)) by (nonlinear_arith);
    } else {
        assert(d * q >= q) by (nonlinear_arith)
            requires
                d >= 1,
                q >= 0,
        ;
    }
}

/// `a / d` rounded down, for a positive divisor.
pub fn floor_div(a: i64, d: i64) -> (q: i64)
    requires
        d > 0,
    ensures
        q == a as int / d as int,
{
    proof {
        lemma_div_magnitude(a as int, d as int);
    }
    a.checked_div_euclid(d).unwrap()
}

/// A world magnitude scaled by a valid zoom stays within `WORLD_LIMIT * MAX_ZOOM`.
pub proof fn lemma_scaled_bound(v: int, z: int)
    requires
        in_world(v),
        valid_zoom(z),
    ensures
        -WORLD_LIMIT * MAX_ZOOM <= v * z <= WORLD_LIMIT * MAX_ZOOM,
{
    assert(-WORLD_LIMIT * MAX_ZOOM <= v * z <= WORLD_LIMIT * MAX_ZOOM) by (nonlinear_arith)
        requires
            -WORLD_LIMIT <= v <= WORLD_LIMIT,
            MIN_ZOOM <= z <= MAX_ZOOM,
    ;
}

} // verus!
