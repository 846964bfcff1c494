//! The geometry kernel: orientation test, segment-intersection test,
//! Euclidean distance, and the center-line velocity reflection.
//!
//! Everything is exact integer arithmetic.  Reflection divides by the
//! squared center distance, rounding toward zero; its contract pins the
//! result completely, and `lemma_reflect_head_on` shows that a head-on
//! approach flips the subject's velocity exactly.

use vstd::prelude::*;
use crate::math::{
    isqrt, lemma_sqrt_floor_lt, lemma_sqrt_floor_props, lemma_tdiv_magnitude,
    lemma_tdiv_mul_exact, sqrt_floor, tdiv, tdiv_i128, wide_mul,
};
use crate::vector::{in_coord_bounds, speed_bounded, Vector};
use crate::{MAX_COORD, MAX_RADIUS, MAX_SPEED};

verus! {

/// Both components are small enough for a translated perimeter point: a
/// world position offset by at most a bounding radius.
pub open spec fn pt_bounded(v: Vector) -> bool {
    -(MAX_COORD + MAX_RADIUS) <= v.x <= MAX_COORD + MAX_RADIUS
        && -(MAX_COORD + MAX_RADIUS) <= v.y <= MAX_COORD + MAX_RADIUS
}

/// The turn made at `q` when walking `p -> q -> r`.
#[derive(Clone, Copy, Debug, PartialEq, Eq, Structural)]
pub enum Orientation {
    Collinear,
    Clockwise,
    CounterClockwise,
}

/// The 2D cross product whose sign classifies the turn `p -> q -> r`.
pub open spec fn cross_spec(p: Vector, q: Vector, r: Vector) -> int {
    (q.y - p.y) * (r.x - q.x) - (q.x - p.x) * (r.y - q.y)
}

/// The orientation of the walk `p -> q -> r`: an exactly zero cross
/// product is collinear, a positive one a clockwise turn (in screen
/// coordinates, y growing downward), a negative one counterclockwise.
pub open spec fn orientation_spec(p: Vector, q: Vector, r: Vector) -> Orientation {
    let c = cross_spec(p, q, r);
    if c == 0 {
        Orientation::Collinear
    } else if c > 0 {
        Orientation::Clockwise
    } else {
        Orientation::CounterClockwise
    }
}

/// The exact orientation test.
pub fn orientation(p: Vector, q: Vector, r: Vector) -> (o: Orientation)
    requires
        pt_bounded(p),
        pt_bounded(q),
        pt_bounded(r),
    ensures
        o == orientation_spec(p, q, r),
{
    let a = wide_mul(q.y - p.y, r.x - q.x);
    let b = wide_mul(q.x - p.x, r.y - q.y);
    proof {
        assert(-0x3851_1320_9804_0000int <= a <= 0x3851_1320_9804_0000int
            && -0x3851_1320_9804_0000int <= b <= 0x3851_1320_9804_0000int) by (nonlinear_arith)
            requires
                a == (q.y - p.y) * (r.x - q.x) && b == (q.x - p.x) * (r.y - q.y)
                    && -2_002_000_000 <= q.y - p.y <= 2_002_000_000
                    && -2_002_000_000 <= r.x - q.x <= 2_002_000_000
                    && -2_002_000_000 <= q.x - p.x <= 2_002_000_000
                    && -2_002_000_000 <= r.y - q.y <= 2_002_000_000;
    }
    let val = a - b;
    if val == 0 {
        Orientation::Collinear
    } else if val > 0 {
        Orientation::Clockwise
    } else {
        Orientation::CounterClockwise
    }
}

/// `q` lies inside the axis-aligned bounding box of `p` and `r`.  This is
/// only a box test; it identifies a point of the segment `p`-`r` when the
/// three points are already known to be collinear.
pub open spec fn within_bbox(p: Vector, q: Vector, r: Vector) -> bool {
    (p.x <= q.x || r.x <= q.x) && (q.x <= p.x || q.x <= r.x) && (p.y <= q.y || r.y <= q.y) && (
    q.y <= p.y || q.y <= r.y)
}

/// The bounding-box membership test.
pub fn on_segment(p: Vector, q: Vector, r: Vector) -> (b: bool)
    ensures
        b == within_bbox(p, q, r),
{
    (p.x <= q.x || r.x <= q.x) && (q.x <= p.x || q.x <= r.x) && (p.y <= q.y || r.y <= q.y) && (
    q.y <= p.y || q.y <= r.y)
}

/// The four-orientation segment-intersection criterion for the closed
/// segments `p1`-`q1` and `p2`-`q2`: either the endpoints of each segment
/// lie on opposite sides of the other segment's line, or some endpoint is
/// collinear with and inside the box of the other segment.
pub open spec fn segments_intersect_spec(p1: Vector, q1: Vector, p2: Vector, q2: Vector) -> bool {
    let o1 = orientation_spec(p1, q1, p2);
    let o2 = orientation_spec(p1, q1, q2);
    let o3 = orientation_spec(p2, q2, p1);
    let o4 = orientation_spec(p2, q2, q1);
    ||| (o1 != o2 && o3 != o4)
    ||| (o1 == Orientation::Collinear && within_bbox(p1, p2, q1))
    ||| (o2 == Orientation::Collinear && within_bbox(p1, q2, q1))
    ||| (o3 == Orientation::Collinear && within_bbox(p2, p1, q2))
    ||| (o4 == Orientation::Collinear && within_bbox(p2, q1, q2))
}

/// Whether the closed segments `p1`-`q1` and `p2`-`q2` intersect.
pub fn lines_intersect(p1: Vector, q1: Vector, p2: Vector, q2: Vector) -> (b: bool)
    requires
        pt_bounded(p1),
        pt_bounded(q1),
        pt_bounded(p2),
        pt_bounded(q2),
    ensures
        b == segments_intersect_spec(p1, q1, p2, q2),
{
    let o1 = orientation(p1, q1, p2);
    let o2 = orientation(p1, q1, q2);
    let o3 = orientation(p2, q2, p1);
    let o4 = orientation(p2, q2, q1);

    if o1 != o2 && o3 != o4 {
        return true;
    }
    if o1 == Orientation::Collinear && on_segment(p1, p2, q1) {
        return true;
    }
    if o2 == Orientation::Collinear && on_segment(p1, q2, q1) {
        return true;
    }
    if o3 == Orientation::Collinear && on_segment(p2, p1, q2) {
        return true;
    }
    if o4 == Orientation::Collinear && on_segment(p2, q1, q2) {
        return true;
    }
    false
}

/// The squared Euclidean distance between two points.
pub open spec fn dist_sq_spec(a: Vector, b: Vector) -> int {
    (a.x - b.x) * (a.x - b.x) + (a.y - b.y) * (a.y - b.y)
}

/// The squared Euclidean distance, exactly.
pub fn dist_sq(a: &Vector, b: &Vector) -> (d: i64)
    requires
        in_coord_bounds(*a),
        in_coord_bounds(*b),
    ensures
        d == dist_sq_spec(*a, *b),
        d >= 0,
{
    let px = wide_mul(a.x - b.x, a.x - b.x);
    let py = wide_mul(a.y - b.y, a.y - b.y);
    proof {
        assert(0 <= px <= 0x3782_dace_9d90_0000int && 0 <= py <= 0x3782_dace_9d90_0000int)
            by (nonlinear_arith)
            requires
                px == (a.x - b.x) * (a.x - b.x) && py == (a.y - b.y) * (a.y - b.y)
                    && -2_000_000_000 <= a.x - b.x <= 2_000_000_000
                    && -2_000_000_000 <= a.y - b.y <= 2_000_000_000;
    }
    (px + py) as i64
}

/// The Euclidean distance rounded down to an integer.
pub fn euc_distance(p1: &Vector, p2: &Vector) -> (d: i64)
    requires
        in_coord_bounds(*p1),
        in_coord_bounds(*p2),
    ensures
        d == sqrt_floor(dist_sq_spec(*p1, *p2)),
        d >= 0,
        d * d <= dist_sq_spec(*p1, *p2) < (d + 1) * (d + 1),
{
    let ds = dist_sq(p1, p2);
    let r = isqrt(ds as u64);
    proof {
        assert(r as int <= 0x1_0000_0000int) by (nonlinear_arith)
            requires (r as int) * (r as int) <= ds as int && ds <= 0x7fff_ffff_ffff_ffffint;
    }
    r as i64
}

/// Comparing the rounded distance against a non-negative bound is the
/// same as comparing the squared distance against the squared bound, so
/// nothing is lost by the rounding in overlap tests.
pub proof fn lemma_distance_lt(a: Vector, b: Vector, r: int)
    requires
        0 <= r,
        dist_sq_spec(a, b) >= 0,
    ensures
        sqrt_floor(dist_sq_spec(a, b)) < r <==> dist_sq_spec(a, b) < r * r,
{
    lemma_sqrt_floor_lt(dist_sq_spec(a, b), r);
}

/// The numerator of the reflection quotient: the relative velocity
/// projected (unnormalized) on the center line.
pub open spec fn reflect_num_spec(sp: Vector, sd: Vector, op: Vector, od: Vector) -> int {
    (sd.x - od.x) * (sp.x - op.x) + (sd.y - od.y) * (sp.y - op.y)
}

/// What reflecting `sd` against the body at `op` moving with `od`
/// returns, as exact mathematical integers.  With `d` the center-line
/// vector `sp - op` and `n = d / |d|` its unit vector, the real-valued
/// model is `sd - n * (sd . n - od . n)`, which equals
/// `sd - d * ((sd - od) . d) / |d|^2`; the division rounds toward zero.
pub open spec fn reflect_spec(sp: Vector, sd: Vector, op: Vector, od: Vector) -> (int, int) {
    let dx = sp.x - op.x;
    let dy = sp.y - op.y;
    let num = reflect_num_spec(sp, sd, op, od);
    let den = dist_sq_spec(sp, op);
    (sd.x - tdiv(dx * num, den), sd.y - tdiv(dy * num, den))
}

/// Both components of the reflected velocity stay inside the velocity
/// range, so the reflection can be represented.
pub open spec fn reflect_fits(sp: Vector, sd: Vector, op: Vector, od: Vector) -> bool {
    let (rx, ry) = reflect_spec(sp, sd, op, od);
    -MAX_SPEED <= rx <= MAX_SPEED && -MAX_SPEED <= ry <= MAX_SPEED
}

/// Velocity reflection along the line connecting the two centers.  The
/// two positions must differ (a zero center line has no direction).
/// Returns `None` exactly when the reflected velocity would leave the
/// velocity range; the caller then skips the response.
pub fn reflect(subject_pos: Vector, subject_dir: Vector, object_pos: Vector, object_dir: Vector)
    -> (r: Option<Vector>)
    requires
        in_coord_bounds(subject_pos),
        in_coord_bounds(object_pos),
        speed_bounded(subject_dir),
        speed_bounded(object_dir),
        subject_pos != object_pos,
    ensures
        r is Some <==> reflect_fits(subject_pos, subject_dir, object_pos, object_dir),
        r is Some ==> r == Some(
            Vector {
                x: reflect_spec(subject_pos, subject_dir, object_pos, object_dir).0 as i64,
                y: reflect_spec(subject_pos, subject_dir, object_pos, object_dir).1 as i64,
            },
        ),
{
    let dx = subject_pos.x - object_pos.x;
    let dy = subject_pos.y - object_pos.y;
    let den = dist_sq(&subject_pos, &object_pos);
    proof {
        assert(den > 0) by (nonlinear_arith)
            requires
                den == (subject_pos.x - object_pos.x) * (subject_pos.x - object_pos.x) + (
                subject_pos.y - object_pos.y) * (subject_pos.y - object_pos.y) && !(subject_pos.x
                    == object_pos.x && subject_pos.y == object_pos.y);
    }
    let nx = wide_mul(subject_dir.x - object_dir.x, dx);
    let ny = wide_mul(subject_dir.y - object_dir.y, dy);
    proof {
        assert(-0x0e35_fa93_1a00_0000int <= nx <= 0x0e35_fa93_1a00_0000int
            && -0x0e35_fa93_1a00_0000int <= ny <= 0x0e35_fa93_1a00_0000int) by (nonlinear_arith)
            requires
                nx == (subject_dir.x - object_dir.x) * (subject_pos.x - object_pos.x) && ny == (
                subject_dir.y - object_dir.y) * (subject_pos.y - object_pos.y)
                    && -2_000_000 <= subject_dir.x - object_dir.x <= 2_000_000
                    && -2_000_000 <= subject_dir.y - object_dir.y <= 2_000_000
                    && -2_000_000_000 <= subject_pos.x - object_pos.x <= 2_000_000_000
                    && -2_000_000_000 <= subject_pos.y - object_pos.y <= 2_000_000_000;
    }
    let num = (nx + ny) as i64;
    let wx = wide_mul(dx, num);
    let wy = wide_mul(dy, num);
    proof {
        assert(-8_200_000_000_000_000_000_000_000_000int <= wx
            <= 8_200_000_000_000_000_000_000_000_000int
            && -8_200_000_000_000_000_000_000_000_000int <= wy
            <= 8_200_000_000_000_000_000_000_000_000int) by (nonlinear_arith)
            requires
                wx == dx * num && wy == dy * num && -2_000_000_000 <= dx <= 2_000_000_000
                    && -2_000_000_000 <= dy <= 2_000_000_000
                    && -4_100_000_000_000_000_000 <= num <= 4_100_000_000_000_000_000;
        lemma_tdiv_magnitude(wx as int, den as int);
        lemma_tdiv_magnitude(wy as int, den as int);
    }
    let tx = tdiv_i128(wx, den as i128);
    let ty = tdiv_i128(wy, den as i128);
    let rx = subject_dir.x as i128 - tx;
    let ry = subject_dir.y as i128 - ty;
    if -(MAX_SPEED as i128) <= rx && rx <= MAX_SPEED as i128 && -(MAX_SPEED as i128) <= ry && ry
        <= MAX_SPEED as i128 {
        Some(Vector { x: rx as i64, y: ry as i64 })
    } else {
        None
    }
}

/// Head-on elastic case: when both bodies move along the line connecting
/// their centers with equal and opposite velocities (`sd = t * d`,
/// `od = -t * d` for the center line `d` and some integer rate `t`),
/// reflection flips the subject's velocity exactly; no rounding is lost.
pub proof fn lemma_reflect_head_on(sp: Vector, sd: Vector, op: Vector, od: Vector, t: int)
    requires
        !(sp.x == op.x && sp.y == op.y),
        sd.x == t * (sp.x - op.x),
        sd.y == t * (sp.y - op.y),
        od.x == -t * (sp.x - op.x),
        od.y == -t * (sp.y - op.y),
    ensures
        reflect_spec(sp, sd, op, od).0 == -sd.x,
        reflect_spec(sp, sd, op, od).1 == -sd.y,
{
    let dx = sp.x - op.x;
    let dy = sp.y - op.y;
    let den = dist_sq_spec(sp, op);
    let num = reflect_num_spec(sp, sd, op, od);
    assert(den > 0) by (nonlinear_arith)
        requires
            den == (sp.x - op.x) * (sp.x - op.x) + (sp.y - op.y) * (sp.y - op.y) && !(sp.x == op.x
                && sp.y == op.y);
    assert(num == 2 * t * den) by (nonlinear_arith)
        requires
            num == (sd.x - od.x) * (sp.x - op.x) + (sd.y - od.y) * (sp.y - op.y) && den == (sp.x
                - op.x) * (sp.x - op.x) + (sp.y - op.y) * (sp.y - op.y) && sd.x == t * (sp.x - op.x)
                && sd.y == t * (sp.y - op.y) && od.x == -t * (sp.x - op.x) && od.y == -t * (sp.y
                - op.y);
    assert(dx * num == (2 * t * dx) * den) by (nonlinear_arith)
        requires num == 2 * t * den;
    assert(dy * num == (2 * t * dy) * den) by (nonlinear_arith)
        requires num == 2 * t * den;
    lemma_tdiv_mul_exact(2 * t * dx, den);
    lemma_tdiv_mul_exact(2 * t * dy, den);
    assert(sd.x - 2 * t * dx == -sd.x) by (nonlinear_arith)
        requires sd.x == t * dx;
    assert(sd.y - 2 * t * dy == -sd.y) by (nonlinear_arith)
        requires sd.y == t * dy;
}

} // verus!
