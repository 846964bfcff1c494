//! The 2D vector primitive of the simulation.
//!
//! Components are plain `i64` world units.  `norm` is fixed-point: it
//! scales a vector to a length close to `NORM_UNIT` instead of 1, so the
//! result stays an integer vector.

use vstd::prelude::*;
use crate::math::{
    wide_mul,
    isqrt, lemma_sqrt_floor_unique, lemma_tdiv_magnitude, sqrt_floor, tdiv, tdiv_i128,
};
use crate::{MAX_COORD, MAX_SPEED};

verus! {

/// Fixed-point scale of a normalized vector: `norm` returns a vector
/// whose Euclidean length is close to this many units.
pub const NORM_UNIT: i64 = 1000;

#[derive(Clone, Copy, Debug, PartialEq, Eq, Structural)]
pub struct Vector {
    pub x: i64,
    pub y: i64,
}

/// Both components are inside the world's coordinate range.
pub open spec fn in_coord_bounds(v: Vector) -> bool {
    -MAX_COORD <= v.x <= MAX_COORD && -MAX_COORD <= v.y <= MAX_COORD
}

/// Both components are inside the velocity range.
pub open spec fn speed_bounded(v: Vector) -> bool {
    -MAX_SPEED <= v.x <= MAX_SPEED && -MAX_SPEED <= v.y <= MAX_SPEED
}

/// The squared Euclidean length of a vector.
pub open spec fn norm_sq_spec(v: Vector) -> int {
    v.x * v.x + v.y * v.y
}

/// What `norm` computes: the vector scaled by `NORM_UNIT` and divided,
/// component by component and rounding toward zero, by the integer square
/// root of its squared length.
pub open spec fn norm_spec(v: Vector) -> (int, int) {
    let m = sqrt_floor(norm_sq_spec(v));
    (tdiv(v.x * NORM_UNIT, m), tdiv(v.y * NORM_UNIT, m))
}

impl Vector {
    /// Component-wise sum.
    pub fn add(&self, vector: &Vector) -> (r: Vector)
        requires
            i64::MIN <= self.x + vector.x <= i64::MAX,
            i64::MIN <= self.y + vector.y <= i64::MAX,
        ensures
            r.x == self.x + vector.x,
            r.y == self.y + vector.y,
    {
        Vector { x: self.x + vector.x, y: self.y + vector.y }
    }

    /// Component-wise difference.
    pub fn sub(&self, vector: &Vector) -> (r: Vector)
        requires
            i64::MIN <= self.x - vector.x <= i64::MAX,
            i64::MIN <= self.y - vector.y <= i64::MAX,
        ensures
            r.x == self.x - vector.x,
            r.y == self.y - vector.y,
    {
        Vector { x: self.x - vector.x, y: self.y - vector.y }
    }

    /// The dot product.
    pub fn dot(&self, vector: &Vector) -> (r: i64)
        requires
            in_coord_bounds(*self),
            in_coord_bounds(*vector),
        ensures
            r == self.x * vector.x + self.y * vector.y,
    {
        let px = wide_mul(self.x, vector.x);
        let py = wide_mul(self.y, vector.y);
        proof {
            assert(-0x0de0_b6b3_a764_0000int <= px <= 0x0de0_b6b3_a764_0000int
                && -0x0de0_b6b3_a764_0000int <= py <= 0x0de0_b6b3_a764_0000int)
                by (nonlinear_arith)
                requires
                    -MAX_COORD <= self.x <= MAX_COORD && -MAX_COORD <= vector.x <= MAX_COORD
                        && -MAX_COORD <= self.y <= MAX_COORD && -MAX_COORD <= vector.y
                        <= MAX_COORD && px == self.x * vector.x && py == self.y * vector.y
                        && MAX_COORD == 1_000_000_000i64;
        }
        (px + py) as i64
    }

    /// Scaling by an integer factor.
    pub fn mul(&self, scalar: i64) -> (r: Vector)
        requires
            i64::MIN <= self.x * scalar <= i64::MAX,
            i64::MIN <= self.y * scalar <= i64::MAX,
        ensures
            r.x == self.x * scalar,
            r.y == self.y * scalar,
    {
        let px = wide_mul(self.x, scalar);
        let py = wide_mul(self.y, scalar);
        Vector { x: px as i64, y: py as i64 }
    }

    /// The squared Euclidean length.
    pub fn norm_sq(&self) -> (r: i64)
        requires
            in_coord_bounds(*self),
        ensures
            r == norm_sq_spec(*self),
            r >= 0,
    {
        let px = wide_mul(self.x, self.x);
        let py = wide_mul(self.y, self.y);
        proof {
            assert(0 <= px <= 0x0de0_b6b3_a764_0000int && 0 <= py <= 0x0de0_b6b3_a764_0000int)
                by (nonlinear_arith)
                requires
                    -MAX_COORD <= self.x <= MAX_COORD && -MAX_COORD <= self.y <= MAX_COORD
                        && px == self.x * self.x && py == self.y * self.y
                        && MAX_COORD == 1_000_000_000i64;
        }
        (px + py) as i64
    }

    /// Fixed-point normalization: the result points the same way as
    /// `self` and has length close to `NORM_UNIT`.  Must not be called on
    /// the zero vector (its direction is undefined).
    pub fn norm(&self) -> (r: Vector)
        requires
            in_coord_bounds(*self),
            !(self.x == 0 && self.y == 0),
        ensures
            r.x == norm_spec(*self).0,
            r.y == norm_spec(*self).1,
    {
        let ns = self.norm_sq();
        proof {
            assert(norm_sq_spec(*self) >= 1) by (nonlinear_arith)
                requires !(self.x == 0 && self.y == 0);
        }
        let m = isqrt(ns as u64);
        proof {
            assert(m >= 1) by (nonlinear_arith)
                requires
                    (m as int) * (m as int) <= ns && 1 <= ns
                        && ns < (m as int + 1) * (m as int + 1);
            lemma_tdiv_magnitude(self.x * NORM_UNIT, m as int);
            lemma_tdiv_magnitude(self.y * NORM_UNIT, m as int);
        }
        let wx = wide_mul(self.x, NORM_UNIT);
        let wy = wide_mul(self.y, NORM_UNIT);
        let rx = tdiv_i128(wx, m as i128);
        let ry = tdiv_i128(wy, m as i128);
        Vector { x: rx as i64, y: ry as i64 }
    }
}

/// The fixed-point normalization is the mathematical normalization
/// scaled by `NORM_UNIT`, up to less than one unit of truncation per
/// component: with `m` the rounded length of `v` (so `m^2 <= |v|^2 <
/// (m+1)^2`), each component of `m * norm(v)` lands within `m` of
/// `NORM_UNIT * v`.  In particular the result's length approaches
/// `NORM_UNIT` as `v` grows; only very short vectors normalize coarsely.
pub proof fn lemma_norm_componentwise_error(v: Vector)
    requires
        in_coord_bounds(v),
        !(v.x == 0 && v.y == 0),
    ensures
        ({
            let m = sqrt_floor(norm_sq_spec(v));
            let r = norm_spec(v);
            &&& 1 <= m
            &&& m * m <= norm_sq_spec(v) < (m + 1) * (m + 1)
            &&& -m < m * r.0 - NORM_UNIT * v.x < m
            &&& -m < m * r.1 - NORM_UNIT * v.y < m
        }),
{
    let ns = norm_sq_spec(v);
    assert(ns >= 1) by (nonlinear_arith)
        requires ns == v.x * v.x + v.y * v.y && !(v.x == 0 && v.y == 0);
    crate::math::lemma_sqrt_floor_props(ns);
    let m = sqrt_floor(ns);
    assert(1 <= m) by (nonlinear_arith)
        requires 0 <= m && 1 <= ns && ns < (m + 1) * (m + 1);
    crate::math::lemma_tdiv_error(v.x * NORM_UNIT, m);
    crate::math::lemma_tdiv_error(v.y * NORM_UNIT, m);
    assert(m * tdiv(v.x * NORM_UNIT, m) == tdiv(v.x * NORM_UNIT, m) * m) by (nonlinear_arith);
    assert(m * tdiv(v.y * NORM_UNIT, m) == tdiv(v.y * NORM_UNIT, m) * m) by (nonlinear_arith);
    assert(v.x * NORM_UNIT == NORM_UNIT * v.x) by (nonlinear_arith);
    assert(v.y * NORM_UNIT == NORM_UNIT * v.y) by (nonlinear_arith);
}

/// A vector along the x axis normalizes to exactly `NORM_UNIT` times the
/// unit vector of its sign: for those inputs the fixed-point length is
/// exact, not approximate.
pub proof fn lemma_norm_exact_on_axis(v: Vector)
    requires
        in_coord_bounds(v),
        v.y == 0,
        v.x != 0,
    ensures
        v.x > 0 ==> norm_spec(v) == (NORM_UNIT as int, 0int),
        v.x < 0 ==> norm_spec(v) == (-NORM_UNIT as int, 0int),
{
    let a = if v.x >= 0 { v.x as int } else { -v.x as int };
    assert(norm_sq_spec(v) == a * a) by (nonlinear_arith)
        requires v.y == 0 && a == (if v.x >= 0 { v.x as int } else { -v.x as int });
    assert(a * a < (a + 1) * (a + 1)) by (nonlinear_arith)
        requires a >= 0;
    lemma_sqrt_floor_unique(a * a, a);
    if v.x > 0 {
        assert(v.x * NORM_UNIT == (NORM_UNIT as int) * a) by (nonlinear_arith)
            requires a == v.x as int;
        crate::math::lemma_tdiv_mul_exact(NORM_UNIT as int, a);
    } else {
        assert(v.x * NORM_UNIT == (-NORM_UNIT as int) * a) by (nonlinear_arith)
            requires a == -v.x as int;
        crate::math::lemma_tdiv_mul_exact(-NORM_UNIT as int, a);
    }
    crate::math::lemma_tdiv_of_zero(a);
}

} // verus!
