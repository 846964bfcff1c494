//! A floe: a pentagon-shaped drifting body.  The shape is cosmetic: five
//! vertices at fixed bearings, each a random distance from the center,
//! always inside the bounding circle of `size`.

use vstd::prelude::*;
use crate::math::{lemma_tdiv_scale_shrinks_signed, tdiv_i128, wide_mul};
use crate::physics_element::{offset_bounded, PhysicsElement};
use crate::rng::random_in_range;
use crate::vector::{in_coord_bounds, speed_bounded, Vector};
use crate::MAX_RADIUS;

verus! {

/// One drifting floe.  `size` is its bounding-circle radius; after
/// registration `physics_id` holds its arena index in the physics
/// manager.
#[derive(Clone, Debug)]
pub struct Ice {
    pub direction: Vector,
    pub position: Vector,
    pub size: i64,
    pub perimeter: Vec<Vector>,
    pub physics_id: Option<usize>,
}

impl Ice {
    /// Well-formedness: a positive bounded size, bounded position and
    /// velocity, and a closed perimeter whose vertices stay inside the
    /// bounding circle's box.
    pub open spec fn wf(self) -> bool {
        &&& 0 < self.size <= MAX_RADIUS
        &&& in_coord_bounds(self.position)
        &&& speed_bounded(self.direction)
        &&& self.perimeter@.len() >= 4
        &&& self.perimeter@.first() == self.perimeter@.last()
        &&& forall|i: int|
            0 <= i < self.perimeter@.len() ==> offset_bounded(
                #[trigger] self.perimeter@[i],
                self.size,
            )
    }

    /// Creates a floe at `position` moving with `direction`.  Each of the
    /// five perimeter vertices points at a fixed bearing (72 degrees
    /// apart, in a fixed-point table scaled by 1000) and sits a random
    /// distance between half the size and the full size from the center;
    /// the first vertex is repeated to close the loop.
    pub fn new(position: Vector, direction: Vector, size: i64) -> (ice: Ice)
        requires
            0 < size <= MAX_RADIUS,
            in_coord_bounds(position),
            speed_bounded(direction),
        ensures
            ice.wf(),
            ice.position == position,
            ice.direction == direction,
            ice.size == size,
            ice.physics_id is None,
    {
        let mut perimeter: Vec<Vector> = Vec::new();
        let mut i: usize = 0;
        while i < 5
            invariant
                0 < size <= MAX_RADIUS,
                i <= 5,
                perimeter@.len() == i,
                forall|k: int|
                    0 <= k < i ==> offset_bounded(#[trigger] perimeter@[k], size),
            decreases 5 - i,
        {
            let (bx, by): (i64, i64) = if i == 0 {
                (0, -1000)
            } else if i == 1 {
                (-951, -309)
            } else if i == 2 {
                (-587, 809)
            } else if i == 3 {
                (587, 809)
            } else {
                (951, -309)
            };
            let lo = crate::math::floor_div(size, 2);
            proof {
                crate::math::lemma_floor_div_bounds(size as int, 2);
            }
            let dist = if lo < size {
                random_in_range(lo, size)
            } else {
                lo
            };
            proof {
                assert(0 <= dist <= size);
                lemma_tdiv_scale_shrinks_signed(dist as int, bx as int, 1000);
                lemma_tdiv_scale_shrinks_signed(dist as int, by as int, 1000);
            }
            let ox = tdiv_i128(wide_mul(dist, bx), 1000) as i64;
            let oy = tdiv_i128(wide_mul(dist, by), 1000) as i64;
            perimeter.push(Vector { x: ox, y: oy });
            i += 1;
        }
        let closing = perimeter[0];
        perimeter.push(closing);
        Ice { direction, position, size, perimeter, physics_id: None }
    }

    /// The floe as the collision step sees it: same center, velocity and
    /// perimeter, with `size` as the bounding radius.
    pub fn build_physics_element(&self) -> (pe: PhysicsElement)
        requires
            self.wf(),
        ensures
            pe.valid(),
            pe.position == self.position,
            pe.direction == self.direction,
            pe.bounding_circle_radius == self.size,
            pe.perimeter@ == self.perimeter@,
    {
        let n = self.perimeter.len();
        let mut perimeter: Vec<Vector> = Vec::new();
        let mut i: usize = 0;
        while i < n
            invariant
                n == self.perimeter@.len(),
                i <= n,
                perimeter@ == self.perimeter@.take(i as int),
            decreases n - i,
        {
            perimeter.push(self.perimeter[i]);
            proof {
                assert(perimeter@ =~= self.perimeter@.take(i + 1 as int));
            }
            i += 1;
        }
        proof {
            assert(perimeter@ =~= self.perimeter@);
        }
        PhysicsElement {
            direction: self.direction,
            position: self.position,
            bounding_circle_radius: self.size,
            perimeter,
        }
    }
}

} // verus!
