//! The world: the floes, the vessel, the physics arena and the fixed
//! configuration, with input handling, random initialization by bounded
//! rejection sampling, and the per-frame step.

use vstd::prelude::*;
use crate::boat::Boat;
use crate::geometry::{dist_sq, dist_sq_spec};
use crate::ice::Ice;
use crate::keyboard_state::KeyboardState;
use crate::math::{floor_div, wide_mul};
use crate::physics_element::{same_element, PhysicsElement};
use crate::physics_manager::{
    lemma_step_vessel_congruence, step_element_spec, PhysicsManager, SimConfig,
};
use crate::rng::random_in_range;
use crate::vector::{in_coord_bounds, speed_bounded, Vector};
use crate::{MAX_COORD, MAX_SPEED};

verus! {

/// The named configuration of a world.
#[derive(Clone, Copy, Debug)]
pub struct WorldConfig {
    /// The collision-step parameters.
    pub sim: SimConfig,
    /// Smallest floe bounding radius placed at initialization.
    pub min_floe_size: i64,
    /// One past the largest floe bounding radius placed at
    /// initialization.
    pub max_floe_size: i64,
    /// The vessel's hull scale; its bounding radius is three times this.
    pub vessel_size: i64,
    /// The velocity increment one directional input adds per step.
    pub vessel_accel: i64,
}

impl WorldConfig {
    /// Floe sizes fit under the collision step's radius bound, the vessel
    /// does too, and the acceleration is a representable velocity.
    pub open spec fn wf(self) -> bool {
        &&& self.sim.wf()
        &&& 2 <= self.min_floe_size < self.max_floe_size <= self.sim.max_radius
        &&& 0 < self.vessel_size
        &&& 3 * self.vessel_size <= self.sim.max_radius
        &&& 0 < self.vessel_accel <= MAX_SPEED
    }

    /// The runtime check for `wf`, for configurations taken from outside
    /// the library.
    pub fn is_wf(&self) -> (b: bool)
        ensures
            b == self.wf(),
    {
        self.sim.is_wf() && 2 <= self.min_floe_size && self.min_floe_size < self.max_floe_size
            && self.max_floe_size <= self.sim.max_radius && 0 < self.vessel_size
            && self.vessel_size <= crate::MAX_RADIUS && 3 * self.vessel_size
            <= self.sim.max_radius && 0 < self.vessel_accel && self.vessel_accel <= MAX_SPEED
    }
}

/// Initialization failure: no non-overlapping placement was found within
/// the attempt budget.
#[derive(Clone, Copy, Debug, PartialEq, Eq, Structural)]
pub enum InitError {
    PlacementFailed,
}

/// A velocity nudged by `(dx, dy)`; the nudge is skipped when it would
/// leave the velocity range.
pub open spec fn nudged(d: Vector, dx: int, dy: int) -> Vector {
    if -MAX_SPEED <= d.x + dx <= MAX_SPEED && -MAX_SPEED <= d.y + dy <= MAX_SPEED {
        Vector { x: (d.x + dx) as i64, y: (d.y + dy) as i64 }
    } else {
        d
    }
}

/// The vessel velocity after one frame's directional inputs, one
/// acceleration increment per active flag, in the order up, left, down,
/// right.
pub open spec fn input_applied(d: Vector, ks: KeyboardState, accel: int) -> Vector {
    let d1 = if ks.w { nudged(d, 0, -accel) } else { d };
    let d2 = if ks.a { nudged(d1, -accel, 0) } else { d1 };
    let d3 = if ks.s { nudged(d2, 0, accel) } else { d2 };
    if ks.d { nudged(d3, accel, 0) } else { d3 }
}

/// A position advanced by one velocity step; the move is skipped when it
/// would leave the coordinate range.
pub open spec fn integrated(p: Vector, d: Vector) -> Vector {
    if -MAX_COORD <= p.x + d.x <= MAX_COORD && -MAX_COORD <= p.y + d.y <= MAX_COORD {
        Vector { x: (p.x + d.x) as i64, y: (p.y + d.y) as i64 }
    } else {
        p
    }
}

/// The same world with only the vessel's velocity replaced.
pub open spec fn with_boat_direction(w: World, d: Vector) -> World {
    World {
        size_x: w.size_x,
        size_y: w.size_y,
        ices: w.ices,
        boat: Boat {
            direction: d,
            position: w.boat.position,
            size: w.boat.size,
            perimeter: w.boat.perimeter,
        },
        physics_manager: w.physics_manager,
        config: w.config,
    }
}

/// The vessel as the step specification sees it, from the vessel's state
/// and a velocity.
pub open spec fn vessel_element(b: Boat, d: Vector) -> PhysicsElement {
    PhysicsElement {
        direction: d,
        position: b.position,
        bounding_circle_radius: (3 * b.size) as i64,
        perimeter: b.perimeter,
    }
}

/// Floe `j` was placed correctly: it is well formed, its size is in the
/// configured range, its bounding circle clears every earlier floe's, and
/// it clears the vessel's spawn zone (three vessel radii plus its own
/// size).
pub open spec fn placed_ok(w: World, j: int) -> bool {
    let ice = w.ices@[j];
    &&& ice.wf()
    &&& w.config.min_floe_size <= ice.size < w.config.max_floe_size
    &&& forall|l: int|
        0 <= l < j ==> dist_sq_spec((#[trigger] w.ices@[l]).position, ice.position) >= (w.ices@[l].size
            + ice.size) * (w.ices@[l].size + ice.size)
    &&& dist_sq_spec(w.boat.position, ice.position) >= (3 * w.boat.size + ice.size) * (3
        * w.boat.size + ice.size)
}

/// The simulation world.
pub struct World {
    pub size_x: i64,
    pub size_y: i64,
    pub ices: Vec<Ice>,
    pub boat: Boat,
    pub physics_manager: PhysicsManager,
    pub config: WorldConfig,
}

impl World {
    /// Well-formed configuration and vessel, positive bounded extent,
    /// well-formed floes, and a physics arena consistent with the
    /// configuration.
    pub open spec fn inv(self) -> bool {
        &&& self.config.wf()
        &&& 0 < self.size_x <= MAX_COORD
        &&& 0 < self.size_y <= MAX_COORD
        &&& self.boat.wf()
        &&& self.physics_manager.inv()
        &&& self.physics_manager.config == self.config.sim
        &&& forall|k: int| 0 <= k < self.ices@.len() ==> (#[trigger] self.ices@[k]).wf()
    }

    /// An empty world with the vessel resting at the center.
    pub fn new(size_x: i64, size_y: i64, config: WorldConfig) -> (w: World)
        requires
            config.wf(),
            0 < size_x <= MAX_COORD,
            0 < size_y <= MAX_COORD,
        ensures
            w.inv(),
            w.size_x == size_x,
            w.size_y == size_y,
            w.config == config,
            w.ices@.len() == 0,
            w.physics_manager.elements@.len() == 0,
            w.boat.position == (Vector {
                x: (size_x as int / 2) as i64,
                y: (size_y as int / 2) as i64,
            }),
            w.boat.direction == (Vector { x: 0i64, y: 0i64 }),
            w.boat.size == config.vessel_size,
    {
        let cx = floor_div(size_x, 2);
        let cy = floor_div(size_y, 2);
        proof {
            crate::math::lemma_floor_div_bounds(size_x as int, 2);
            crate::math::lemma_floor_div_bounds(size_y as int, 2);
        }
        let boat = Boat::new(Vector { x: cx, y: cy }, config.vessel_size);
        let pm = PhysicsManager::new(config.sim);
        World { size_x, size_y, ices: Vec::new(), boat, physics_manager: pm, config }
    }

    /// Nudges the vessel's velocity, skipping a nudge that would leave
    /// the velocity range.
    fn nudge_boat(&mut self, dx: i64, dy: i64)
        requires
            old(self).inv(),
            -MAX_SPEED <= dx <= MAX_SPEED,
            -MAX_SPEED <= dy <= MAX_SPEED,
        ensures
            *final(self) == with_boat_direction(
                *old(self),
                nudged(old(self).boat.direction, dx as int, dy as int),
            ),
            final(self).inv(),
    {
        let nx = self.boat.direction.x + dx;
        let ny = self.boat.direction.y + dy;
        if -MAX_SPEED <= nx && nx <= MAX_SPEED && -MAX_SPEED <= ny && ny <= MAX_SPEED {
            self.boat.direction = Vector { x: nx, y: ny };
        }
    }

    /// Accelerates the vessel up (negative y).
    pub fn key_w(&mut self)
        requires
            old(self).inv(),
        ensures
            *final(self) == with_boat_direction(
                *old(self),
                nudged(old(self).boat.direction, 0, -old(self).config.vessel_accel as int),
            ),
            final(self).inv(),
    {
        let a = self.config.vessel_accel;
        self.nudge_boat(0, -a);
    }

    /// Accelerates the vessel left.
    pub fn key_a(&mut self)
        requires
            old(self).inv(),
        ensures
            *final(self) == with_boat_direction(
                *old(self),
                nudged(old(self).boat.direction, -old(self).config.vessel_accel as int, 0),
            ),
            final(self).inv(),
    {
        let a = self.config.vessel_accel;
        self.nudge_boat(-a, 0);
    }

    /// Accelerates the vessel down (positive y).
    pub fn key_s(&mut self)
        requires
            old(self).inv(),
        ensures
            *final(self) == with_boat_direction(
                *old(self),
                nudged(old(self).boat.direction, 0, old(self).config.vessel_accel as int),
            ),
            final(self).inv(),
    {
        let a = self.config.vessel_accel;
        self.nudge_boat(0, a);
    }

    /// Accelerates the vessel right.
    pub fn key_d(&mut self)
        requires
            old(self).inv(),
        ensures
            *final(self) == with_boat_direction(
                *old(self),
                nudged(old(self).boat.direction, old(self).config.vessel_accel as int, 0),
            ),
            final(self).inv(),
    {
        let a = self.config.vessel_accel;
        self.nudge_boat(a, 0);
    }

    /// Applies one frame's directional flags to the vessel's velocity.
    fn respond_to_input(&mut self, keyboard_state: &KeyboardState)
        requires
            old(self).inv(),
        ensures
            *final(self) == with_boat_direction(
                *old(self),
                input_applied(
                    old(self).boat.direction,
                    *keyboard_state,
                    old(self).config.vessel_accel as int,
                ),
            ),
            final(self).inv(),
    {
        if keyboard_state.w {
            self.key_w();
        }
        if keyboard_state.a {
            self.key_a();
        }
        if keyboard_state.s {
            self.key_s();
        }
        if keyboard_state.d {
            self.key_d();
        }
    }

    /// One simulation step: the input flags nudge the vessel's velocity,
    /// every floe is stepped against the pre-step snapshot with the
    /// vessel's start-of-step (post-input, pre-move) state as reflecting
    /// object, and the vessel's position integrates its velocity.
    pub fn tick(&mut self, keyboard_state: &KeyboardState)
        requires
            old(self).inv(),
        ensures
            final(self).inv(),
            final(self).size_x == old(self).size_x,
            final(self).size_y == old(self).size_y,
            final(self).config == old(self).config,
            final(self).ices == old(self).ices,
            final(self).boat.size == old(self).boat.size,
            final(self).boat.perimeter == old(self).boat.perimeter,
            final(self).boat.direction == input_applied(
                old(self).boat.direction,
                *keyboard_state,
                old(self).config.vessel_accel as int,
            ),
            final(self).boat.position == integrated(
                old(self).boat.position,
                final(self).boat.direction,
            ),
            final(self).physics_manager.config == old(self).physics_manager.config,
            final(self).physics_manager.elements@.len() == old(
                self,
            ).physics_manager.elements@.len(),
            forall|i: int|
                0 <= i < old(self).physics_manager.elements@.len() ==> same_element(
                    #[trigger] final(self).physics_manager.elements@[i],
                    step_element_spec(
                        old(self).physics_manager.elements@,
                        Option::Some(
                            vessel_element(old(self).boat, final(self).boat.direction),
                        ),
                        old(self).config.sim,
                        i,
                    ),
                ),
    {
        self.respond_to_input(keyboard_state);
        let vessel = self.boat.build_physics_element();
        let ghost vspec = vessel_element(old(self).boat, self.boat.direction);
        self.physics_manager.tick(Some(&vessel));
        proof {
            assert forall|i: int|
                0 <= i < old(self).physics_manager.elements@.len() implies same_element(
                #[trigger] self.physics_manager.elements@[i],
                step_element_spec(
                    old(self).physics_manager.elements@,
                    Option::Some(vspec),
                    old(self).config.sim,
                    i,
                ),
            ) by {
                lemma_step_vessel_congruence(
                    old(self).physics_manager.elements@,
                    vessel,
                    vspec,
                    old(self).config.sim,
                    i,
                );
            }
        }
        let npx = self.boat.position.x + self.boat.direction.x;
        let npy = self.boat.position.y + self.boat.direction.y;
        if -MAX_COORD <= npx && npx <= MAX_COORD && -MAX_COORD <= npy && npy <= MAX_COORD {
            self.boat.position = Vector { x: npx, y: npy };
        }
    }

    /// The camera offset: the vessel's position relative to the center of
    /// a `size_x` by `size_y` viewport.
    pub fn get_offset(&self) -> (r: Vector)
        requires
            self.inv(),
        ensures
            r.x == self.boat.position.x - self.size_x as int / 2,
            r.y == self.boat.position.y - self.size_y as int / 2,
    {
        let cx = floor_div(self.size_x, 2);
        let cy = floor_div(self.size_y, 2);
        proof {
            crate::math::lemma_floor_div_bounds(self.size_x as int, 2);
            crate::math::lemma_floor_div_bounds(self.size_y as int, 2);
        }
        self.boat.position.sub(&Vector { x: cx, y: cy })
    }

    /// The indices of the floes whose bounding circle overlaps the given
    /// floe's: the placement feasibility check of initialization.
    fn find_collisions_init(ices: &Vec<Ice>, ice: &Ice) -> (r: Vec<usize>)
        requires
            ice.wf(),
            forall|k: int| 0 <= k < ices@.len() ==> (#[trigger] ices@[k]).wf(),
        ensures
            forall|l: int|
                0 <= l < ices@.len() ==> (r@.contains(l as usize) <==> dist_sq_spec(
                    (#[trigger] ices@[l]).position,
                    ice.position,
                ) < (ices@[l].size + ice.size) * (ices@[l].size + ice.size)),
    {
        let n = ices.len();
        let mut r: Vec<usize> = Vec::new();
        let mut l: usize = 0;
        while l < n
            invariant
                n == ices@.len(),
                l <= n,
                ice.wf(),
                forall|k: int| 0 <= k < ices@.len() ==> (#[trigger] ices@[k]).wf(),
                forall|l0: int|
                    0 <= l0 < l ==> (r@.contains(l0 as usize) <==> dist_sq_spec(
                        (#[trigger] ices@[l0]).position,
                        ice.position,
                    ) < (ices@[l0].size + ice.size) * (ices@[l0].size + ice.size)),
                forall|w: int| 0 <= w < r@.len() ==> (#[trigger] r@[w]) < l,
            decreases n - l,
        {
            let ghost pre = r@;
            let sum = ices[l].size + ice.size;
            let ds = dist_sq(&ices[l].position, &ice.position);
            if (ds as i128) < wide_mul(sum, sum) {
                r.push(l);
                proof {
                    assert forall|l0: int|
                        0 <= l0 < l + 1 implies (r@.contains(l0 as usize) <==> dist_sq_spec(
                        (#[trigger] ices@[l0]).position,
                        ice.position,
                    ) < (ices@[l0].size + ice.size) * (ices@[l0].size + ice.size)) by {
                        if l0 < l {
                            assert(r@.contains(l0 as usize) <==> pre.contains(l0 as usize)) by {
                                if pre.contains(l0 as usize) {
                                    let w = choose|w: int|
                                        0 <= w < pre.len() && pre[w] == l0 as usize;
                                    assert(r@[w] == l0 as usize);
                                }
                                if r@.contains(l0 as usize) {
                                    let w = choose|w: int|
                                        0 <= w < r@.len() && r@[w] == l0 as usize;
                                    assert(w < pre.len());
                                    assert(pre[w] == l0 as usize);
                                }
                            }
                        } else {
                            assert(r@[r@.len() - 1] == l as usize);
                        }
                    }
                }
            } else {
                proof {
                    assert forall|l0: int|
                        0 <= l0 < l + 1 implies (r@.contains(l0 as usize) <==> dist_sq_spec(
                        (#[trigger] ices@[l0]).position,
                        ice.position,
                    ) < (ices@[l0].size + ice.size) * (ices@[l0].size + ice.size)) by {
                        if l0 == l {
                            if r@.contains(l0 as usize) {
                                let w = choose|w: int| 0 <= w < r@.len() && r@[w] == l0 as usize;
                                assert(r@[w] < l);
                            }
                        }
                    }
                }
            }
            l += 1;
        }
        r
    }

    /// Populates the world with `num_bergs` floes by bounded rejection
    /// sampling: each attempt draws a size, a position in the world's
    /// horizontal band and a small velocity, and keeps the floe only when
    /// its bounding circle clears every placed floe and the vessel's
    /// spawn zone (`placed_ok`).  At most `max_attempts` draws are made;
    /// when they run out first, the floes placed so far stay and
    /// `PlacementFailed` is reported instead of looping forever.
    pub fn init_with_random_ice(&mut self, num_bergs: u32, max_attempts: u32) -> (r: Result<
        (),
        InitError,
    >)
        requires
            old(self).inv(),
            old(self).size_x > 2 * (old(self).config.max_floe_size + 10),
        ensures
            final(self).inv(),
            final(self).size_x == old(self).size_x,
            final(self).size_y == old(self).size_y,
            final(self).config == old(self).config,
            final(self).boat == old(self).boat,
            forall|k: int|
                0 <= k < old(self).ices@.len() ==> #[trigger] final(self).ices@[k] == old(
                    self,
                ).ices@[k],
            old(self).ices@.len() <= final(self).ices@.len() <= old(self).ices@.len()
                + num_bergs,
            r is Ok <==> final(self).ices@.len() == old(self).ices@.len() + num_bergs,
            forall|j: int|
                old(self).ices@.len() <= j < final(self).ices@.len() ==> placed_ok(
                    *final(self),
                    j,
                ),
            final(self).physics_manager.config == old(self).physics_manager.config,
            final(self).physics_manager.elements@.len() == old(
                self,
            ).physics_manager.elements@.len() + (final(self).ices@.len() - old(
                self,
            ).ices@.len()),
            forall|j: int|
                old(self).ices@.len() <= j < final(self).ices@.len() ==> {
                    let ice = #[trigger] final(self).ices@[j];
                    let id = old(self).physics_manager.elements@.len() + (j - old(
                        self,
                    ).ices@.len());
                    &&& ice.physics_id == Some(id as usize)
                    &&& final(self).physics_manager.elements@[id].position == ice.position
                    &&& final(self).physics_manager.elements@[id].direction == ice.direction
                    &&& final(self).physics_manager.elements@[id].bounding_circle_radius
                        == ice.size
                },
    {
        let ghost w0 = *old(self);
        let ghost old_ices_len = old(self).ices@.len();
        let ghost old_pm_len = old(self).physics_manager.elements@.len();
        let mut placed: u32 = 0;
        let mut attempts: u32 = 0;
        while placed < num_bergs && attempts < max_attempts
            invariant
                self.inv(),
                self.size_x == w0.size_x,
                self.size_y == w0.size_y,
                self.config == w0.config,
                self.boat == w0.boat,
                w0.size_x > 2 * (w0.config.max_floe_size + 10),
                placed <= num_bergs,
                attempts <= max_attempts,
                self.ices@.len() == old_ices_len + placed,
                self.physics_manager.config == w0.physics_manager.config,
                self.physics_manager.elements@.len() == old_pm_len + placed,
                forall|k: int| 0 <= k < old_ices_len ==> #[trigger] self.ices@[k] == w0.ices@[k],
                forall|j: int|
                    old_ices_len <= j < self.ices@.len() ==> placed_ok(*self, j),
                forall|j: int|
                    old_ices_len <= j < self.ices@.len() ==> {
                        let ice = #[trigger] self.ices@[j];
                        let id = old_pm_len + (j - old_ices_len);
                        &&& ice.physics_id == Some(id as usize)
                        &&& self.physics_manager.elements@[id as int].position == ice.position
                        &&& self.physics_manager.elements@[id as int].direction == ice.direction
                        &&& self.physics_manager.elements@[id as int].bounding_circle_radius
                            == ice.size
                    },
            decreases max_attempts - attempts,
        {
            attempts += 1;
            let size = random_in_range(self.config.min_floe_size, self.config.max_floe_size);
            let margin: i64 = 10;
            let x = random_in_range(size + margin, self.size_x - (size + margin));
            let y = random_in_range(-self.size_y, self.size_y);
            let sp = floor_div(self.config.min_floe_size, 2);
            proof {
                crate::math::lemma_floor_div_bounds(self.config.min_floe_size as int, 2);
            }
            let dx = random_in_range(-sp, sp + 1);
            let dy = random_in_range(-sp, sp + 1);
            let mut berg = Ice::new(Vector { x, y }, Vector { x: dx, y: dy }, size);
            let thr = 3 * self.boat.size + size;
            let dsb = dist_sq(&self.boat.position, &berg.position);
            if (dsb as i128) >= wide_mul(thr, thr) {
                let collisions = Self::find_collisions_init(&self.ices, &berg);
                if collisions.len() == 0 {
                    proof {
                        assert forall|l: int|
                            0 <= l < self.ices@.len() implies dist_sq_spec(
                            (#[trigger] self.ices@[l]).position,
                            berg.position,
                        ) >= (self.ices@[l].size + berg.size) * (self.ices@[l].size + berg.size) by {
                            if dist_sq_spec(self.ices@[l].position, berg.position) < (
                            self.ices@[l].size + berg.size) * (self.ices@[l].size + berg.size) {
                                assert(collisions@.contains(l as usize));
                                let w = choose|w: int|
                                    0 <= w < collisions@.len() && collisions@[w] == l as usize;
                                assert(false);
                            }
                        }
                    }
                    let pe = berg.build_physics_element();
                    let ghost pre = *self;
                    let pid_opt = self.physics_manager.register_element(pe);
                    if let Some(pid) = pid_opt {
                        berg.physics_id = Some(pid);
                        let ghost berg_g = berg;
                        self.ices.push(berg);
                        placed += 1;
                        proof {
                            let cur = *self;
                            let newlen = cur.ices@.len() as int;
                            assert forall|j: int|
                                old_ices_len <= j < newlen implies placed_ok(cur, j) by {
                                if j < newlen - 1 {
                                    assert(placed_ok(pre, j));
                                    assert(cur.ices@[j] == pre.ices@[j]);
                                    assert forall|l: int|
                                        0 <= l < j implies dist_sq_spec(
                                        (#[trigger] cur.ices@[l]).position,
                                        cur.ices@[j].position,
                                    ) >= (cur.ices@[l].size + cur.ices@[j].size) * (cur.ices@[l].size
                                        + cur.ices@[j].size) by {
                                        assert(cur.ices@[l] == pre.ices@[l]);
                                    }
                                } else {
                                    assert(cur.ices@[j] == berg_g);
                                    assert forall|l: int|
                                        0 <= l < j implies dist_sq_spec(
                                        (#[trigger] cur.ices@[l]).position,
                                        cur.ices@[j].position,
                                    ) >= (cur.ices@[l].size + cur.ices@[j].size) * (cur.ices@[l].size
                                        + cur.ices@[j].size) by {
                                        assert(cur.ices@[l] == pre.ices@[l]);
                                    }
                                }
                            }
                        }
                    } else {
                        proof {
                            assert(false);
                        }
                    }
                }
            }
        }
        if placed == num_bergs {
            Ok(())
        } else {
            Err(InitError::PlacementFailed)
        }
    }

    /// Places two fixed large floes closing head-on along the x axis: a
    /// deterministic smoke-test layout.
    pub fn init_test(&mut self)
        requires
            old(self).inv(),
            old(self).config.sim.max_radius >= 300,
        ensures
            final(self).inv(),
            final(self).size_x == old(self).size_x,
            final(self).size_y == old(self).size_y,
            final(self).config == old(self).config,
            final(self).boat == old(self).boat,
            final(self).ices@.len() == old(self).ices@.len() + 2,
            final(self).physics_manager.elements@.len() == old(
                self,
            ).physics_manager.elements@.len() + 2,
            ({
                let n = old(self).ices@.len() as int;
                let m = old(self).physics_manager.elements@.len() as int;
                let a = final(self).ices@[n];
                let b = final(self).ices@[n + 1];
                &&& a.position == (Vector { x: 1200i64, y: 1200i64 })
                &&& a.direction == (Vector { x: -2i64, y: 0i64 })
                &&& a.size == 300
                &&& a.physics_id == Some(m as usize)
                &&& b.position == (Vector { x: 400i64, y: 1200i64 })
                &&& b.direction == (Vector { x: 2i64, y: 0i64 })
                &&& b.size == 300
                &&& b.physics_id == Some((m + 1) as usize)
                &&& final(self).physics_manager.elements@[m].position == a.position
                &&& final(self).physics_manager.elements@[m].direction == a.direction
                &&& final(self).physics_manager.elements@[m].bounding_circle_radius == 300
                &&& final(self).physics_manager.elements@[m + 1].position == b.position
                &&& final(self).physics_manager.elements@[m + 1].direction == b.direction
                &&& final(self).physics_manager.elements@[m + 1].bounding_circle_radius == 300
            }),
    {
        let mut ice = Ice::new(Vector { x: 1200, y: 1200 }, Vector { x: -2, y: 0 }, 300);
        let pe = ice.build_physics_element();
        if let Some(id) = self.physics_manager.register_element(pe) {
            ice.physics_id = Some(id);
        } else {
            proof {
                assert(false);
            }
        }
        self.ices.push(ice);

        let mut ice2 = Ice::new(Vector { x: 400, y: 1200 }, Vector { x: 2, y: 0 }, 300);
        let pe2 = ice2.build_physics_element();
        if let Some(id2) = self.physics_manager.register_element(pe2) {
            ice2.physics_id = Some(id2);
        } else {
            proof {
                assert(false);
            }
        }
        self.ices.push(ice2);
    }
}

} // verus!
