//! The player-steered vessel: a fixed hull polygon around a center, with
//! a velocity nudged by directional input.

use vstd::prelude::*;
use crate::math::floor_div;
use crate::physics_element::{same_element, PhysicsElement};
use crate::vector::{in_coord_bounds, speed_bounded, Vector};
use crate::MAX_RADIUS;

verus! {

/// The vessel.  `size` scales the hull; the hull reaches at most three
/// sizes from the center (the bow), so the bounding-circle radius is
/// `3 * size`.
#[derive(Clone, Debug)]
pub struct Boat {
    pub direction: Vector,
    pub position: Vector,
    pub size: i64,
    pub perimeter: Vec<Vector>,
}

/// The eight perimeter entries of the hull for a given size: bow tip,
/// both beams, the stern, and the first vertex repeated to close the
/// loop.  The half-size beam points use flooring division.
pub open spec fn boat_perimeter_spec(s: int) -> Seq<Vector> {
    seq![
        Vector { x: -s as i64, y: -s as i64 },
        Vector { x: 0i64, y: (-3 * s) as i64 },
        Vector { x: s as i64, y: -s as i64 },
        Vector { x: s as i64, y: s as i64 },
        Vector { x: (s / 2) as i64, y: (2 * s) as i64 },
        Vector { x: -(s / 2) as i64, y: (2 * s) as i64 },
        Vector { x: -s as i64, y: s as i64 },
        Vector { x: -s as i64, y: -s as i64 },
    ]
}

impl Boat {
    /// Well-formedness: a positive size whose tripled hull extent stays a
    /// legal radius, bounded position and velocity, and exactly the hull
    /// perimeter of `size`.
    pub open spec fn wf(self) -> bool {
        &&& 0 < self.size
        &&& 3 * self.size <= MAX_RADIUS
        &&& in_coord_bounds(self.position)
        &&& speed_bounded(self.direction)
        &&& self.perimeter@ == boat_perimeter_spec(self.size as int)
    }

    /// A vessel at rest at `position`.
    pub fn new(position: Vector, size: i64) -> (boat: Boat)
        requires
            0 < size,
            3 * size <= MAX_RADIUS,
            in_coord_bounds(position),
        ensures
            boat.wf(),
            boat.position == position,
            boat.size == size,
            boat.direction == (Vector { x: 0i64, y: 0i64 }),
    {
        let mut boat = Boat {
            direction: Vector { x: 0, y: 0 },
            position,
            size,
            perimeter: Vec::new(),
        };
        boat.init_perimeter();
        boat
    }

    /// Fills in the hull polygon for the current size.
    fn init_perimeter(&mut self)
        requires
            0 < old(self).size,
            3 * old(self).size <= MAX_RADIUS,
        ensures
            final(self).perimeter@ == boat_perimeter_spec(old(self).size as int),
            final(self).direction == old(self).direction,
            final(self).position == old(self).position,
            final(self).size == old(self).size,
    {
        let s = self.size;
        let s3 = 3 * s;
        let half = floor_div(s, 2);
        let mut perimeter: Vec<Vector> = Vec::new();
        perimeter.push(Vector { x: -s, y: -s });
        perimeter.push(Vector { x: 0, y: -s3 });
        perimeter.push(Vector { x: s, y: -s });
        perimeter.push(Vector { x: s, y: s });
        perimeter.push(Vector { x: half, y: 2 * s });
        perimeter.push(Vector { x: -half, y: 2 * s });
        perimeter.push(Vector { x: -s, y: s });
        perimeter.push(Vector { x: -s, y: -s });
        proof {
            assert(perimeter@ =~= boat_perimeter_spec(s as int));
        }
        self.perimeter = perimeter;
    }

    /// The vessel as the collision step sees it: same center and
    /// velocity, the hull as perimeter, and `3 * size` as the bounding
    /// radius.
    pub fn build_physics_element(&self) -> (pe: PhysicsElement)
        requires
            self.wf(),
        ensures
            pe.valid(),
            pe.position == self.position,
            pe.direction == self.direction,
            pe.bounding_circle_radius == 3 * self.size,
            pe.perimeter@ == self.perimeter@,
    {
        let n = self.perimeter.len();
        let mut perimeter: Vec<Vector> = Vec::new();
        let mut i: usize = 0;
        while i < n
            invariant
                n == self.perimeter@.len(),
                i <= n,
                perimeter@ == self.perimeter@.take(i as int),
            decreases n - i,
        {
            perimeter.push(self.perimeter[i]);
            proof {
                assert(perimeter@ =~= self.perimeter@.take(i + 1 as int));
            }
            i += 1;
        }
        proof {
            assert(perimeter@ =~= self.perimeter@);
        }
        let pe = PhysicsElement {
            direction: self.direction,
            position: self.position,
            bounding_circle_radius: 3 * self.size,
            perimeter,
        };
        proof {
            crate::math::lemma_floor_div_bounds(self.size as int, 2);
            assert forall|k: int|
                0 <= k < pe.perimeter@.len() implies crate::physics_element::offset_bounded(
                #[trigger] pe.perimeter@[k],
                pe.bounding_circle_radius,
            ) by {
                assert(pe.perimeter@[k] == boat_perimeter_spec(self.size as int)[k]);
            }
        }
        pe
    }
}

} // verus!
