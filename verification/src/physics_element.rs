//! The physics view of a body: position, velocity, bounding circle and
//! closed polygon perimeter.

use vstd::prelude::*;
use crate::math::{floor_div, lemma_floor_div_bounds, lemma_floor_div_unique};
use crate::vector::{in_coord_bounds, speed_bounded, Vector};
use crate::MAX_RADIUS;

verus! {

/// A moving body as the collision step sees it.  The perimeter holds the
/// polygon vertices relative to `position`, in walking order, with the
/// first vertex repeated at the end (a closed loop).
#[derive(Clone, Debug)]
pub struct PhysicsElement {
    pub direction: Vector,
    pub position: Vector,
    pub bounding_circle_radius: i64,
    pub perimeter: Vec<Vector>,
}

/// A perimeter vertex stays inside the box of the bounding radius, so a
/// translated vertex stays a representable point.
pub open spec fn offset_bounded(v: Vector, r: i64) -> bool {
    -r <= v.x <= r && -r <= v.y <= r
}

impl PhysicsElement {
    /// Well-formedness: bounded position and velocity, a positive bounded
    /// radius, and a closed perimeter with at least three vertices (four
    /// entries counting the repeated closing one), each inside the
    /// bounding radius.  The narrow phase walks vertex pairs, so fewer
    /// than two edges would make a body untestable.
    pub open spec fn valid(self) -> bool {
        &&& in_coord_bounds(self.position)
        &&& speed_bounded(self.direction)
        &&& 0 < self.bounding_circle_radius <= MAX_RADIUS
        &&& self.perimeter@.len() >= 4
        &&& self.perimeter@.first() == self.perimeter@.last()
        &&& forall|i: int|
            0 <= i < self.perimeter@.len() ==> offset_bounded(
                #[trigger] self.perimeter@[i],
                self.bounding_circle_radius,
            )
    }

    /// The runtime check for `valid`, for callers that take bodies from
    /// outside the library.
    pub fn is_valid(&self) -> (b: bool)
        ensures
            b == self.valid(),
    {
        if !(-crate::MAX_COORD <= self.position.x && self.position.x <= crate::MAX_COORD
            && -crate::MAX_COORD <= self.position.y && self.position.y <= crate::MAX_COORD) {
            return false;
        }
        if !(-crate::MAX_SPEED <= self.direction.x && self.direction.x <= crate::MAX_SPEED
            && -crate::MAX_SPEED <= self.direction.y && self.direction.y <= crate::MAX_SPEED) {
            return false;
        }
        if !(0 < self.bounding_circle_radius && self.bounding_circle_radius <= MAX_RADIUS) {
            return false;
        }
        if self.perimeter.len() < 4 {
            return false;
        }
        if *self.perimeter.first().unwrap() != *self.perimeter.last().unwrap() {
            return false;
        }
        let r = self.bounding_circle_radius;
        let n = self.perimeter.len();
        let mut i: usize = 0;
        while i < n
            invariant
                n == self.perimeter@.len(),
                i <= n,
                0 < r == self.bounding_circle_radius,
                forall|k: int| 0 <= k < i ==> offset_bounded(#[trigger] self.perimeter@[k], r),
            decreases n - i,
        {
            let v = self.perimeter[i];
            if !(-r <= v.x && v.x <= r && -r <= v.y && v.y <= r) {
                return false;
            }
            i += 1;
        }
        true
    }

    /// A field-by-field copy of this body.
    pub fn duplicate(&self) -> (r: PhysicsElement)
        ensures
            same_element(r, *self),
    {
        let n = self.perimeter.len();
        let mut perimeter: Vec<Vector> = Vec::new();
        let mut i: usize = 0;
        while i < n
            invariant
                n == self.perimeter@.len(),
                i <= n,
                perimeter@ == self.perimeter@.take(i as int),
            decreases n - i,
        {
            perimeter.push(self.perimeter[i]);
            proof {
                assert(perimeter@ =~= self.perimeter@.take(i + 1 as int));
            }
            i += 1;
        }
        proof {
            assert(perimeter@ =~= self.perimeter@);
        }
        PhysicsElement {
            direction: self.direction,
            position: self.position,
            bounding_circle_radius: self.bounding_circle_radius,
            perimeter,
        }
    }

    /// The grid cell holding this body's center: flooring division of
    /// each coordinate by the cell size.  Flooring (not rounding toward
    /// zero) keeps negative coordinates in their own cells instead of
    /// collapsing them into cell zero.
    pub fn calc_grid_coords(&self, cell_size: i64) -> (c: (i64, i64))
        requires
            0 < cell_size,
            in_coord_bounds(self.position),
        ensures
            c.0 == cell_coord(self.position.x as int, cell_size as int),
            c.1 == cell_coord(self.position.y as int, cell_size as int),
    {
        let gx = floor_div(self.position.x, cell_size);
        let gy = floor_div(self.position.y, cell_size);
        (gx, gy)
    }
}

/// Equality of two bodies field by field, with the perimeter compared as
/// a sequence of vertices.
pub open spec fn same_element(a: PhysicsElement, b: PhysicsElement) -> bool {
    &&& a.position == b.position
    &&& a.direction == b.direction
    &&& a.bounding_circle_radius == b.bounding_circle_radius
    &&& a.perimeter@ == b.perimeter@
}

/// The index of the grid cell whose half-open interval
/// `[cs * c, cs * (c + 1))` contains the coordinate `p`.
pub open spec fn cell_coord(p: int, cs: int) -> int {
    p / cs
}

/// A bounded coordinate has a bounded cell index, whatever the cell size.
pub proof fn lemma_cell_coord_range(p: int, cs: int)
    requires
        0 < cs,
        -crate::MAX_COORD <= p <= crate::MAX_COORD,
    ensures
        -crate::MAX_COORD <= cell_coord(p, cs) <= crate::MAX_COORD,
{
    crate::math::lemma_floor_div_bounds(p, cs);
    let c = cell_coord(p, cs);
    assert(-crate::MAX_COORD <= c <= crate::MAX_COORD) by (nonlinear_arith)
        requires
            0 < cs && -1_000_000_000 <= p <= 1_000_000_000 && cs * c <= p < cs * (c + 1)
                && crate::MAX_COORD == 1_000_000_000i64;
}

/// Every coordinate lies inside the interval of the cell assigned to it.
pub proof fn lemma_cell_coord_in_cell(p: int, cs: int)
    requires
        0 < cs,
    ensures
        cs * cell_coord(p, cs) <= p < cs * (cell_coord(p, cs) + 1),
{
    lemma_floor_div_bounds(p, cs);
}

/// No coordinate lies inside the interval of two cells: a point exactly
/// on a cell boundary belongs to the cell it opens, and to no other.
pub proof fn lemma_cell_assignment_unique(p: int, cs: int, c: int)
    requires
        0 < cs,
        cs * c <= p < cs * (c + 1),
    ensures
        c == cell_coord(p, cs),
{
    lemma_floor_div_unique(p, cs, c);
}

} // verus!
