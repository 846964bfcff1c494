//! The collision/simulation step: broad-phase candidate gathering over
//! the grid, narrow-phase confirmation by edge intersection, velocity
//! reflection, drag, and position integration.
//!
//! `tick` rebuilds the grid from a pre-step snapshot and writes updated
//! bodies into a fresh buffer, so every body's responses are computed
//! against the same consistent pre-step state, in index order.

use vstd::prelude::*;
use crate::geometry::{
    reflect_num_spec,
    dist_sq, dist_sq_spec, lines_intersect, reflect, reflect_fits, reflect_spec,
    segments_intersect_spec,
};
use crate::grid::{
    build_grid, cell_indices, cell_of, get_grid_region_elems, grid_wf, Grid,
};
use crate::math::{lemma_tdiv_of_zero, lemma_tdiv_scale_shrinks, tdiv, tdiv_i128, wide_mul};
use crate::physics_element::{
    cell_coord, lemma_cell_coord_in_cell, lemma_cell_coord_range, same_element, PhysicsElement,
};
use crate::vector::{in_coord_bounds, speed_bounded, Vector};
use crate::{MAX_COORD, MAX_RADIUS, MAX_SPEED};

verus! {

/// The fixed parameters of the collision step.
#[derive(Clone, Copy, Debug)]
pub struct SimConfig {
    /// Side length of a square broad-phase grid cell.
    pub cell_size: i64,
    /// Largest bounding-circle radius any registered body may have.
    pub max_radius: i64,
    /// Drag numerator: every step multiplies each velocity by
    /// `drag_num / drag_den`, rounding toward zero.
    pub drag_num: i64,
    /// Drag denominator.
    pub drag_den: i64,
}

impl SimConfig {
    /// The load-bearing relation of the broad phase: the cell size must
    /// exceed twice the largest radius, or the conditional neighbor scan
    /// of `candidate_seq` could miss overlapping bodies
    /// (`lemma_broad_phase_sound` proves it cannot under this bound).
    /// The drag ratio lies strictly between zero and one.
    pub open spec fn wf(self) -> bool {
        &&& 0 < self.max_radius <= MAX_RADIUS
        &&& 2 * self.max_radius < self.cell_size <= MAX_COORD
        &&& 0 < self.drag_num < self.drag_den <= MAX_COORD
    }

    /// The runtime check for `wf`, for configurations taken from outside
    /// the library.
    pub fn is_wf(&self) -> (b: bool)
        ensures
            b == self.wf(),
    {
        0 < self.max_radius && self.max_radius <= MAX_RADIUS && 2 * self.max_radius
            < self.cell_size && self.cell_size <= MAX_COORD && 0 < self.drag_num && self.drag_num
            < self.drag_den && self.drag_den <= MAX_COORD
    }
}

/// The bounding circles of the two bodies overlap strictly.
pub open spec fn circles_overlap(a: PhysicsElement, b: PhysicsElement) -> bool {
    dist_sq_spec(a.position, b.position) < (a.bounding_circle_radius + b.bounding_circle_radius) * (
    a.bounding_circle_radius + b.bounding_circle_radius)
}

/// Perimeter vertex `i` of a body, translated to world space.
pub open spec fn world_point(el: PhysicsElement, i: int) -> Vector {
    Vector {
        x: (el.position.x + el.perimeter@[i].x) as i64,
        y: (el.position.y + el.perimeter@[i].y) as i64,
    }
}

/// Edge `i` of body `a` intersects edge `k` of body `b`, both taken in
/// world space.
pub open spec fn edges_intersect(a: PhysicsElement, b: PhysicsElement, i: int, k: int) -> bool {
    segments_intersect_spec(
        world_point(a, i),
        world_point(a, i + 1),
        world_point(b, k),
        world_point(b, k + 1),
    )
}

/// Narrow-phase confirmation: some edge of `a` crosses some edge of `b`.
pub open spec fn narrow_collision(a: PhysicsElement, b: PhysicsElement) -> bool {
    exists|i: int, k: int|
        0 <= i < a.perimeter@.len() - 1 && 0 <= k < b.perimeter@.len() - 1 && edges_intersect(
            a,
            b,
            i,
            k,
        )
}

/// Body `a` responds to body `b`: overlapping bounding circles, distinct
/// centers (a shared center leaves the reflection normal undefined, so
/// that degenerate instant is skipped), and narrow-phase confirmation.
pub open spec fn responds_to(a: PhysicsElement, b: PhysicsElement) -> bool {
    &&& circles_overlap(a, b)
    &&& a.position != b.position
    &&& narrow_collision(a, b)
}

/// Compares every edge of `el_a` against every edge of `el_b` in world
/// space: the exact narrow phase.
pub fn is_real_collision(el_a: &PhysicsElement, el_b: &PhysicsElement) -> (r: bool)
    requires
        el_a.valid(),
        el_b.valid(),
    ensures
        r == narrow_collision(*el_a, *el_b),
{
    let na = el_a.perimeter.len();
    let nb = el_b.perimeter.len();
    let mut i: usize = 0;
    while i < na - 1
        invariant
            el_a.valid(),
            el_b.valid(),
            na == el_a.perimeter@.len(),
            nb == el_b.perimeter@.len(),
            i <= na - 1,
            forall|i0: int, k0: int|
                0 <= i0 < i && 0 <= k0 < nb - 1 ==> !edges_intersect(*el_a, *el_b, i0, k0),
        decreases na - 1 - i,
    {
        let a1 = el_a.position.add(&el_a.perimeter[i]);
        let a2 = el_a.position.add(&el_a.perimeter[i + 1]);
        let mut k: usize = 0;
        while k < nb - 1
            invariant
                el_a.valid(),
                el_b.valid(),
                na == el_a.perimeter@.len(),
                nb == el_b.perimeter@.len(),
                i < na - 1,
                k <= nb - 1,
                a1 == world_point(*el_a, i as int),
                a2 == world_point(*el_a, i as int + 1),
                forall|k0: int| 0 <= k0 < k ==> !edges_intersect(*el_a, *el_b, i as int, k0),
            decreases nb - 1 - k,
        {
            let b1 = el_b.position.add(&el_b.perimeter[k]);
            let b2 = el_b.position.add(&el_b.perimeter[k + 1]);
            if lines_intersect(a1, a2, b1, b2) {
                proof {
                    assert(edges_intersect(*el_a, *el_b, i as int, k as int));
                }
                return true;
            }
            k += 1;
        }
        i += 1;
    }
    false
}

/// The left-cell margin: the body's circle reaches far enough toward the
/// low-x edge of its home cell that a body of maximal radius in the left
/// neighbor could touch it.
pub open spec fn margin_low_x(el: PhysicsElement, cs: int, maxr: int) -> bool {
    el.position.x - el.bounding_circle_radius < cell_of(el, cs).0 * cs + maxr
}

/// The right-cell margin.
pub open spec fn margin_high_x(el: PhysicsElement, cs: int, maxr: int) -> bool {
    el.position.x + el.bounding_circle_radius > (cell_of(el, cs).0 + 1) * cs - maxr
}

/// The top-cell margin (low y).
pub open spec fn margin_low_y(el: PhysicsElement, cs: int, maxr: int) -> bool {
    el.position.y - el.bounding_circle_radius < cell_of(el, cs).1 * cs + maxr
}

/// The bottom-cell margin (high y).
pub open spec fn margin_high_y(el: PhysicsElement, cs: int, maxr: int) -> bool {
    el.position.y + el.bounding_circle_radius > (cell_of(el, cs).1 + 1) * cs - maxr
}

/// The broad-phase candidates of body `i`: the home cell's bucket,
/// followed by each edge-adjacent cell's bucket whose margin test passes,
/// followed by each corner cell's bucket when both of its edges pass.
pub open spec fn candidate_seq(
    elems: Seq<PhysicsElement>,
    cs: int,
    maxr: int,
    i: int,
) -> Seq<usize> {
    let el = elems[i];
    let gx = cell_of(el, cs).0;
    let gy = cell_of(el, cs).1;
    let n = elems.len();
    let x1 = margin_low_x(el, cs, maxr);
    let x2 = margin_high_x(el, cs, maxr);
    let y1 = margin_low_y(el, cs, maxr);
    let y2 = margin_high_y(el, cs, maxr);
    cell_indices(elems, cs, gx, gy, n) + (if x1 {
        cell_indices(elems, cs, gx - 1, gy, n)
    } else {
        Seq::empty()
    }) + (if x2 {
        cell_indices(elems, cs, gx + 1, gy, n)
    } else {
        Seq::empty()
    }) + (if y1 {
        cell_indices(elems, cs, gx, gy - 1, n)
    } else {
        Seq::empty()
    }) + (if y2 {
        cell_indices(elems, cs, gx, gy + 1, n)
    } else {
        Seq::empty()
    }) + (if x1 && y1 {
        cell_indices(elems, cs, gx - 1, gy - 1, n)
    } else {
        Seq::empty()
    }) + (if x1 && y2 {
        cell_indices(elems, cs, gx - 1, gy + 1, n)
    } else {
        Seq::empty()
    }) + (if x2 && y1 {
        cell_indices(elems, cs, gx + 1, gy - 1, n)
    } else {
        Seq::empty()
    }) + (if x2 && y2 {
        cell_indices(elems, cs, gx + 1, gy + 1, n)
    } else {
        Seq::empty()
    })
}

/// Gathers the broad-phase candidates of body `i` from the grid, in the
/// order `candidate_seq` fixes.
fn gather_candidates(
    elems: &Vec<PhysicsElement>,
    grid: &Grid,
    i: usize,
    max_radius: i64,
) -> (r: Vec<usize>)
    requires
        grid_wf(*grid, elems@),
        grid.cell_size <= MAX_COORD,
        0 < max_radius <= MAX_RADIUS,
        i < elems@.len(),
        elems@[i as int].valid(),
    ensures
        r@ == candidate_seq(elems@, grid.cell_size as int, max_radius as int, i as int),
{
    let ghost cs = grid.cell_size as int;
    let ghost maxr = max_radius as int;
    let ghost el = elems@[i as int];
    let cell_size = grid.cell_size;
    let (gx, gy) = elems[i].calc_grid_coords(cell_size);
    proof {
        lemma_cell_coord_in_cell(el.position.x as int, cs);
        lemma_cell_coord_in_cell(el.position.y as int, cs);
        lemma_cell_coord_range(el.position.x as int, cs);
        lemma_cell_coord_range(el.position.y as int, cs);
    }
    let px = elems[i].position.x;
    let py = elems[i].position.y;
    let rad = elems[i].bounding_circle_radius;

    let x1 = ((px - rad) as i128) < wide_mul(gx, cell_size) + max_radius as i128;
    let x2 = ((px + rad) as i128) > wide_mul(gx + 1, cell_size) - max_radius as i128;
    let y1 = ((py - rad) as i128) < wide_mul(gy, cell_size) + max_radius as i128;
    let y2 = ((py + rad) as i128) > wide_mul(gy + 1, cell_size) - max_radius as i128;
    proof {
        assert(x1 == margin_low_x(el, cs, maxr));
        assert(x2 == margin_high_x(el, cs, maxr));
        assert(y1 == margin_low_y(el, cs, maxr));
        assert(y2 == margin_high_y(el, cs, maxr));
    }

    let ghost n = elems@.len();
    let ghost e0 = cell_indices(elems@, cs, gx as int, gy as int, n);
    let ghost e1 = if margin_low_x(el, cs, maxr) {
        cell_indices(elems@, cs, gx - 1, gy as int, n)
    } else {
        Seq::<usize>::empty()
    };
    let ghost e2 = if margin_high_x(el, cs, maxr) {
        cell_indices(elems@, cs, gx + 1, gy as int, n)
    } else {
        Seq::<usize>::empty()
    };
    let ghost e3 = if margin_low_y(el, cs, maxr) {
        cell_indices(elems@, cs, gx as int, gy - 1, n)
    } else {
        Seq::<usize>::empty()
    };
    let ghost e4 = if margin_high_y(el, cs, maxr) {
        cell_indices(elems@, cs, gx as int, gy + 1, n)
    } else {
        Seq::<usize>::empty()
    };
    let ghost e5 = if margin_low_x(el, cs, maxr) && margin_low_y(el, cs, maxr) {
        cell_indices(elems@, cs, gx - 1, gy - 1, n)
    } else {
        Seq::<usize>::empty()
    };
    let ghost e6 = if margin_low_x(el, cs, maxr) && margin_high_y(el, cs, maxr) {
        cell_indices(elems@, cs, gx - 1, gy + 1, n)
    } else {
        Seq::<usize>::empty()
    };
    let ghost e7 = if margin_high_x(el, cs, maxr) && margin_low_y(el, cs, maxr) {
        cell_indices(elems@, cs, gx + 1, gy - 1, n)
    } else {
        Seq::<usize>::empty()
    };
    let ghost e8 = if margin_high_x(el, cs, maxr) && margin_high_y(el, cs, maxr) {
        cell_indices(elems@, cs, gx + 1, gy + 1, n)
    } else {
        Seq::<usize>::empty()
    };

    let mut r = get_grid_region_elems(grid, gx, gy, Ghost(elems@));
    if x1 {
        let mut t = get_grid_region_elems(grid, gx - 1, gy, Ghost(elems@));
        r.append(&mut t);
    }
    proof {
        assert(r@ =~= e0 + e1);
    }
    if x2 {
        let mut t = get_grid_region_elems(grid, gx + 1, gy, Ghost(elems@));
        r.append(&mut t);
    }
    proof {
        assert(r@ =~= e0 + e1 + e2);
    }
    if y1 {
        let mut t = get_grid_region_elems(grid, gx, gy - 1, Ghost(elems@));
        r.append(&mut t);
    }
    proof {
        assert(r@ =~= e0 + e1 + e2 + e3);
    }
    if y2 {
        let mut t = get_grid_region_elems(grid, gx, gy + 1, Ghost(elems@));
        r.append(&mut t);
    }
    proof {
        assert(r@ =~= e0 + e1 + e2 + e3 + e4);
    }
    if x1 && y1 {
        let mut t = get_grid_region_elems(grid, gx - 1, gy - 1, Ghost(elems@));
        r.append(&mut t);
    }
    proof {
        assert(r@ =~= e0 + e1 + e2 + e3 + e4 + e5);
    }
    if x1 && y2 {
        let mut t = get_grid_region_elems(grid, gx - 1, gy + 1, Ghost(elems@));
        r.append(&mut t);
    }
    proof {
        assert(r@ =~= e0 + e1 + e2 + e3 + e4 + e5 + e6);
    }
    if x2 && y1 {
        let mut t = get_grid_region_elems(grid, gx + 1, gy - 1, Ghost(elems@));
        r.append(&mut t);
    }
    proof {
        assert(r@ =~= e0 + e1 + e2 + e3 + e4 + e5 + e6 + e7);
    }
    if x2 && y2 {
        let mut t = get_grid_region_elems(grid, gx + 1, gy + 1, Ghost(elems@));
        r.append(&mut t);
    }
    proof {
        assert(r@ =~= e0 + e1 + e2 + e3 + e4 + e5 + e6 + e7 + e8);
        assert(r@ =~= candidate_seq(elems@, cs, maxr, i as int));
    }
    r
}

/// Every entry of the sequence is below `n`.
pub open spec fn all_below(s: Seq<usize>, n: int) -> bool {
    forall|w: int| 0 <= w < s.len() ==> (#[trigger] s[w]) < n
}

proof fn lemma_all_below_concat(s1: Seq<usize>, s2: Seq<usize>, n: int)
    requires
        all_below(s1, n),
        all_below(s2, n),
    ensures
        all_below(s1 + s2, n),
{
    assert forall|w: int| 0 <= w < (s1 + s2).len() implies ((s1 + s2)[w]) < n by {
        if w < s1.len() {
            assert((s1 + s2)[w] == s1[w]);
        } else {
            assert((s1 + s2)[w] == s2[w - s1.len()]);
        }
    }
}

proof fn lemma_contains_concat<T>(s1: Seq<T>, s2: Seq<T>, x: T)
    requires
        s1.contains(x) || s2.contains(x),
    ensures
        (s1 + s2).contains(x),
{
    if s1.contains(x) {
        let w = choose|w: int| 0 <= w < s1.len() && s1[w] == x;
        assert((s1 + s2)[w] == x);
    } else {
        let w = choose|w: int| 0 <= w < s2.len() && s2[w] == x;
        assert((s1 + s2)[s1.len() + w] == x);
    }
}

/// Every broad-phase candidate is an index into the snapshot.
proof fn lemma_candidate_seq_below(elems: Seq<PhysicsElement>, cs: int, maxr: int, i: int)
    requires
        0 <= i < elems.len(),
        elems.len() <= usize::MAX,
    ensures
        all_below(candidate_seq(elems, cs, maxr, i), elems.len() as int),
{
    let el = elems[i];
    let gx = cell_of(el, cs).0;
    let gy = cell_of(el, cs).1;
    let n = elems.len();
    assert forall|ax: int, ay: int| all_below(#[trigger] cell_indices(elems, cs, ax, ay, n), n as int) by {
        crate::grid::lemma_cell_indices_sound(elems, cs, ax, ay, n);
    }
    assert(all_below(Seq::<usize>::empty(), n as int));
    let e0 = cell_indices(elems, cs, gx, gy, n);
    let e1 = if margin_low_x(el, cs, maxr) {
        cell_indices(elems, cs, gx - 1, gy, n)
    } else {
        Seq::<usize>::empty()
    };
    let e2 = if margin_high_x(el, cs, maxr) {
        cell_indices(elems, cs, gx + 1, gy, n)
    } else {
        Seq::<usize>::empty()
    };
    let e3 = if margin_low_y(el, cs, maxr) {
        cell_indices(elems, cs, gx, gy - 1, n)
    } else {
        Seq::<usize>::empty()
    };
    let e4 = if margin_high_y(el, cs, maxr) {
        cell_indices(elems, cs, gx, gy + 1, n)
    } else {
        Seq::<usize>::empty()
    };
    let e5 = if margin_low_x(el, cs, maxr) && margin_low_y(el, cs, maxr) {
        cell_indices(elems, cs, gx - 1, gy - 1, n)
    } else {
        Seq::<usize>::empty()
    };
    let e6 = if margin_low_x(el, cs, maxr) && margin_high_y(el, cs, maxr) {
        cell_indices(elems, cs, gx - 1, gy + 1, n)
    } else {
        Seq::<usize>::empty()
    };
    let e7 = if margin_high_x(el, cs, maxr) && margin_low_y(el, cs, maxr) {
        cell_indices(elems, cs, gx + 1, gy - 1, n)
    } else {
        Seq::<usize>::empty()
    };
    let e8 = if margin_high_x(el, cs, maxr) && margin_high_y(el, cs, maxr) {
        cell_indices(elems, cs, gx + 1, gy + 1, n)
    } else {
        Seq::<usize>::empty()
    };
    lemma_all_below_concat(e0, e1, n as int);
    lemma_all_below_concat(e0 + e1, e2, n as int);
    lemma_all_below_concat(e0 + e1 + e2, e3, n as int);
    lemma_all_below_concat(e0 + e1 + e2 + e3, e4, n as int);
    lemma_all_below_concat(e0 + e1 + e2 + e3 + e4, e5, n as int);
    lemma_all_below_concat(e0 + e1 + e2 + e3 + e4 + e5, e6, n as int);
    lemma_all_below_concat(e0 + e1 + e2 + e3 + e4 + e5 + e6, e7, n as int);
    lemma_all_below_concat(e0 + e1 + e2 + e3 + e4 + e5 + e6 + e7, e8, n as int);
}

/// A velocity as a pair of mathematical integers.
pub open spec fn dir_of(v: Vector) -> (int, int) {
    (v.x as int, v.y as int)
}

/// One candidate response: when body `j` is a confirmed collision partner
/// of `el`, the direction becomes the reflection of `el`'s start-of-step
/// direction off `j` (kept only when it fits the velocity range);
/// otherwise the direction `cur` carried so far stays.
pub open spec fn response_step(
    elems: Seq<PhysicsElement>,
    el: PhysicsElement,
    i_self: int,
    j: int,
    cur: (int, int),
) -> (int, int) {
    if 0 <= j < elems.len() && j != i_self && responds_to(el, elems[j]) {
        if reflect_fits(el.position, el.direction, elems[j].position, elems[j].direction) {
            reflect_spec(el.position, el.direction, elems[j].position, elems[j].direction)
        } else {
            cur
        }
    } else {
        cur
    }
}

/// The direction of `el` after the first `k` broad-phase candidates have
/// been processed in order, starting from `base`.
pub open spec fn dir_after(
    elems: Seq<PhysicsElement>,
    el: PhysicsElement,
    i_self: int,
    cands: Seq<usize>,
    base: (int, int),
    k: nat,
) -> (int, int)
    decreases k,
{
    if k == 0 {
        base
    } else {
        response_step(
            elems,
            el,
            i_self,
            cands[k - 1] as int,
            dir_after(elems, el, i_self, cands, base, (k - 1) as nat),
        )
    }
}

/// The vessel response, taken before the floe candidates: a bounding
/// circle overlap with the vessel (no narrow phase) reflects the floe's
/// direction off the vessel's start-of-step state.
pub open spec fn vessel_response(el: PhysicsElement, vessel: Option<PhysicsElement>) -> (int, int) {
    match vessel {
        Option::Some(v) => {
            if circles_overlap(el, v) && el.position != v.position {
                if reflect_fits(el.position, el.direction, v.position, v.direction) {
                    reflect_spec(el.position, el.direction, v.position, v.direction)
                } else {
                    dir_of(el.direction)
                }
            } else {
                dir_of(el.direction)
            }
        },
        Option::None => dir_of(el.direction),
    }
}

/// Drag: both components scaled by `num / den`, rounding toward zero.
pub open spec fn drag_spec(d: (int, int), num: int, den: int) -> (int, int) {
    (tdiv(d.0 * num, den), tdiv(d.1 * num, den))
}

/// The full per-body step: vessel response, candidate responses in
/// order, drag, then position integration.  When the integrated position
/// would leave the world's coordinate range the body is left unchanged
/// (that step's mutation is skipped for this body alone).
pub open spec fn step_element_spec(
    elems: Seq<PhysicsElement>,
    vessel: Option<PhysicsElement>,
    cfg: SimConfig,
    i: int,
) -> PhysicsElement {
    let el = elems[i];
    let base = vessel_response(el, vessel);
    let cands = candidate_seq(elems, cfg.cell_size as int, cfg.max_radius as int, i);
    let refl = dir_after(elems, el, i, cands, base, cands.len());
    let dragged = drag_spec(refl, cfg.drag_num as int, cfg.drag_den as int);
    let npx = el.position.x + dragged.0;
    let npy = el.position.y + dragged.1;
    if -MAX_COORD <= npx <= MAX_COORD && -MAX_COORD <= npy <= MAX_COORD {
        PhysicsElement {
            direction: Vector { x: dragged.0 as i64, y: dragged.1 as i64 },
            position: Vector { x: npx as i64, y: npy as i64 },
            bounding_circle_radius: el.bounding_circle_radius,
            perimeter: el.perimeter,
        }
    } else {
        el
    }
}

/// The candidate fold never leaves the velocity range.
proof fn lemma_dir_after_bounded(
    elems: Seq<PhysicsElement>,
    el: PhysicsElement,
    i_self: int,
    cands: Seq<usize>,
    base: (int, int),
    k: nat,
)
    requires
        -MAX_SPEED <= base.0 <= MAX_SPEED,
        -MAX_SPEED <= base.1 <= MAX_SPEED,
    ensures
        -MAX_SPEED <= dir_after(elems, el, i_self, cands, base, k).0 <= MAX_SPEED,
        -MAX_SPEED <= dir_after(elems, el, i_self, cands, base, k).1 <= MAX_SPEED,
    decreases k,
{
    if k > 0 {
        lemma_dir_after_bounded(elems, el, i_self, cands, base, (k - 1) as nat);
    }
}

/// The vessel response never leaves the velocity range when the floe's
/// own velocity is in it.
proof fn lemma_vessel_response_bounded(el: PhysicsElement, vessel: Option<PhysicsElement>)
    requires
        speed_bounded(el.direction),
    ensures
        -MAX_SPEED <= vessel_response(el, vessel).0 <= MAX_SPEED,
        -MAX_SPEED <= vessel_response(el, vessel).1 <= MAX_SPEED,
{
}

/// The conversion of an optional borrowed vessel into the snapshot value
/// the step specification speaks of.
pub open spec fn vessel_snapshot(v: Option<&PhysicsElement>) -> Option<PhysicsElement> {
    match v {
        Option::Some(r) => Option::Some(*r),
        Option::None => Option::None,
    }
}

/// Computes one body's step against the snapshot `elems` and its grid.
fn step_element(
    elems: &Vec<PhysicsElement>,
    grid: &Grid,
    i: usize,
    vessel: Option<&PhysicsElement>,
    config: &SimConfig,
) -> (r: PhysicsElement)
    requires
        config.wf(),
        grid_wf(*grid, elems@),
        grid.cell_size == config.cell_size,
        i < elems@.len(),
        forall|k: int| 0 <= k < elems@.len() ==> (#[trigger] elems@[k]).valid(),
        vessel matches Option::Some(v) ==> v.valid(),
    ensures
        same_element(r, step_element_spec(elems@, vessel_snapshot(vessel), *config, i as int)),
        r.valid(),
        r.bounding_circle_radius == elems@[i as int].bounding_circle_radius,
{
    let ghost elsg = elems@[i as int];
    let el = &elems[i];

    let mut cur: Vector = el.direction;
    match vessel {
        Option::Some(v) => {
            let rsum = el.bounding_circle_radius + v.bounding_circle_radius;
            let ds = dist_sq(&el.position, &v.position);
            if (ds as i128) < wide_mul(rsum, rsum) && !(el.position.x == v.position.x
                && el.position.y == v.position.y) {
                match reflect(el.position, el.direction, v.position, v.direction) {
                    Option::Some(nd) => {
                        cur = nd;
                    },
                    Option::None => {},
                }
            }
        },
        Option::None => {},
    }
    let ghost base = vessel_response(elsg, vessel_snapshot(vessel));
    proof {
        assert((cur.x as int, cur.y as int) == base);
        lemma_vessel_response_bounded(elsg, vessel_snapshot(vessel));
    }

    let n_total = elems.len();
    let cands = gather_candidates(elems, grid, i, config.max_radius);
    proof {
        lemma_candidate_seq_below(
            elems@,
            config.cell_size as int,
            config.max_radius as int,
            i as int,
        );
    }
    let ncand = cands.len();
    let mut k: usize = 0;
    while k < ncand
        invariant
            config.wf(),
            i < elems@.len(),
            forall|a: int| 0 <= a < elems@.len() ==> (#[trigger] elems@[a]).valid(),
            elsg == elems@[i as int],
            *el == elsg,
            ncand == cands@.len(),
            n_total == elems@.len(),
            all_below(cands@, n_total as int),
            k <= ncand,
            speed_bounded(cur),
            (cur.x as int, cur.y as int) == dir_after(
                elems@,
                elsg,
                i as int,
                cands@,
                base,
                k as nat,
            ),
        decreases ncand - k,
    {
        let j = cands[k];
        let ghost prev = (cur.x as int, cur.y as int);
        proof {
            assert(cands@[k as int] < elems@.len());
        }
        if j != i {
            let other = &elems[j];
            proof {
                assert(other.valid());
            }
            let rsum = el.bounding_circle_radius + other.bounding_circle_radius;
            let ds = dist_sq(&el.position, &other.position);
            if (ds as i128) < wide_mul(rsum, rsum) {
                if !(el.position.x == other.position.x && el.position.y == other.position.y) {
                    if is_real_collision(el, other) {
                        match reflect(el.position, el.direction, other.position, other.direction) {
                            Option::Some(nd) => {
                                cur = nd;
                            },
                            Option::None => {},
                        }
                    }
                }
            }
        }
        proof {
            assert((cur.x as int, cur.y as int) == response_step(
                elems@,
                elsg,
                i as int,
                cands@[k as int] as int,
                prev,
            ));
        }
        k += 1;
    }
    proof {
        lemma_tdiv_scale_shrinks(cur.x as int, config.drag_num as int, config.drag_den as int);
        lemma_tdiv_scale_shrinks(cur.y as int, config.drag_num as int, config.drag_den as int);
    }
    let wdx = wide_mul(cur.x, config.drag_num);
    let wdy = wide_mul(cur.y, config.drag_num);
    proof {
        assert(-1_000_000_000_000_000int <= wdx <= 1_000_000_000_000_000int
            && -1_000_000_000_000_000int <= wdy <= 1_000_000_000_000_000int) by (nonlinear_arith)
            requires
                wdx == cur.x * config.drag_num && wdy == cur.y * config.drag_num
                    && -1_000_000 <= cur.x <= 1_000_000 && -1_000_000 <= cur.y <= 1_000_000
                    && 0 < config.drag_num <= 1_000_000_000;
    }
    let ndx = tdiv_i128(wdx, config.drag_den as i128) as i64;
    let ndy = tdiv_i128(wdy, config.drag_den as i128) as i64;
    let ndir = Vector { x: ndx, y: ndy };

    let npx = el.position.x + ndx;
    let npy = el.position.y + ndy;
    if -MAX_COORD <= npx && npx <= MAX_COORD && -MAX_COORD <= npy && npy <= MAX_COORD {
        let copied = el.duplicate();
        let out = PhysicsElement {
            direction: ndir,
            position: Vector { x: npx, y: npy },
            bounding_circle_radius: copied.bounding_circle_radius,
            perimeter: copied.perimeter,
        };
        out
    } else {
        el.duplicate()
    }
}

/// The arena of simulated bodies and the per-step collision logic.  A
/// body's identity is its arena index: bodies are never removed, so the
/// index is stable, and self-collision is ruled out by index, never by
/// position (two distinct bodies may momentarily share a position).
pub struct PhysicsManager {
    pub elements: Vec<PhysicsElement>,
    pub config: SimConfig,
}

impl PhysicsManager {
    /// Every registered body is valid and within the configured radius
    /// bound, and the configuration itself is well formed.
    pub open spec fn inv(self) -> bool {
        &&& self.config.wf()
        &&& forall|k: int|
            0 <= k < self.elements@.len() ==> (#[trigger] self.elements@[k]).valid()
                && self.elements@[k].bounding_circle_radius <= self.config.max_radius
    }

    /// An empty arena under the given configuration.
    pub fn new(config: SimConfig) -> (pm: PhysicsManager)
        requires
            config.wf(),
        ensures
            pm.inv(),
            pm.config == config,
            pm.elements@.len() == 0,
    {
        PhysicsManager { elements: Vec::new(), config }
    }

    /// Registers a body and returns its stable id (the arena index), or
    /// nothing when the body is rejected: a degenerate perimeter or an
    /// out-of-range field is refused at registration time rather than
    /// failing mid-step.
    pub fn register_element(&mut self, element: PhysicsElement) -> (r: Option<usize>)
        requires
            old(self).inv(),
        ensures
            final(self).inv(),
            final(self).config == old(self).config,
            r is Some <==> element.valid() && element.bounding_circle_radius
                <= old(self).config.max_radius,
            r is Some ==> r == Some(old(self).elements@.len() as usize) && final(self).elements@
                == old(self).elements@.push(element),
            r is None ==> final(self).elements@ == old(self).elements@,
    {
        if element.is_valid() && element.bounding_circle_radius <= self.config.max_radius {
            let id = self.elements.len();
            self.elements.push(element);
            Some(id)
        } else {
            None
        }
    }

    /// The body registered under `physics_id`, if any.
    pub fn get_element(&self, physics_id: usize) -> (r: Option<&PhysicsElement>)
        ensures
            r is Some <==> physics_id < self.elements@.len(),
            r matches Some(e) ==> *e == self.elements@[physics_id as int],
    {
        if physics_id < self.elements.len() {
            Some(&self.elements[physics_id])
        } else {
            None
        }
    }

    /// Mutable access to the body registered under `physics_id`.  Writing
    /// through the result can break `inv`; re-establish it (for instance
    /// with `PhysicsElement::is_valid`) before the next `tick`.
    pub fn get_element_mut(&mut self, physics_id: usize) -> (r: Option<&mut PhysicsElement>)
        ensures
            r is Some <==> physics_id < old(self).elements@.len(),
            r matches Some(e) ==> *e == old(self).elements@[physics_id as int]
                && final(self).elements@ == old(self).elements@.update(
                physics_id as int,
                *final(e),
            ) && final(self).config == old(self).config,
            r is None ==> *final(self) == *old(self),
    {
        if physics_id < self.elements.len() {
            Some(&mut self.elements[physics_id])
        } else {
            None
        }
    }

    /// The broad-phase candidate indices of body `i`, as one step would
    /// gather them: the grid is built from the current state and queried
    /// around `i`'s cell.  `lemma_broad_phase_sound` shows the result
    /// holds every body whose bounding circle overlaps `i`'s.
    pub fn broad_phase_candidates(&self, i: usize) -> (r: Vec<usize>)
        requires
            self.inv(),
            i < self.elements@.len(),
        ensures
            r@ == candidate_seq(
                self.elements@,
                self.config.cell_size as int,
                self.config.max_radius as int,
                i as int,
            ),
    {
        proof {
            assert forall|k: int|
                0 <= k < self.elements@.len() implies in_coord_bounds(
                (#[trigger] self.elements@[k]).position,
            ) by {
                assert(self.elements@[k].valid());
            }
        }
        let grid = build_grid(&self.elements, self.config.cell_size);
        gather_candidates(&self.elements, &grid, i, self.config.max_radius)
    }

    /// One simulation step over all registered bodies.  The grid is built
    /// from the pre-step snapshot, every body is stepped against that
    /// snapshot (with `vessel`, when given, as the start-of-step vessel
    /// state), and the buffer of stepped bodies replaces the old state at
    /// the end: no body ever observes a half-updated neighbor.
    pub fn tick(&mut self, vessel: Option<&PhysicsElement>)
        requires
            old(self).inv(),
            vessel matches Option::Some(v) ==> v.valid(),
        ensures
            final(self).inv(),
            final(self).config == old(self).config,
            final(self).elements@.len() == old(self).elements@.len(),
            forall|i: int|
                0 <= i < old(self).elements@.len() ==> same_element(
                    #[trigger] final(self).elements@[i],
                    step_element_spec(
                        old(self).elements@,
                        vessel_snapshot(vessel),
                        old(self).config,
                        i,
                    ),
                ),
    {
        proof {
            assert forall|k: int|
                0 <= k < self.elements@.len() implies in_coord_bounds(
                (#[trigger] self.elements@[k]).position,
            ) by {
                assert(self.elements@[k].valid());
            }
        }
        let grid = build_grid(&self.elements, self.config.cell_size);
        let n = self.elements.len();
        let mut new_elements: Vec<PhysicsElement> = Vec::new();
        let mut i: usize = 0;
        while i < n
            invariant
                self.elements@ == old(self).elements@,
                self.config == old(self).config,
                self.inv(),
                n == self.elements@.len(),
                grid_wf(grid, self.elements@),
                grid.cell_size == self.config.cell_size,
                vessel matches Option::Some(v) ==> v.valid(),
                i <= n,
                new_elements@.len() == i,
                forall|k: int|
                    0 <= k < i ==> same_element(
                        #[trigger] new_elements@[k],
                        step_element_spec(
                            self.elements@,
                            vessel_snapshot(vessel),
                            self.config,
                            k,
                        ),
                    ),
                forall|k: int|
                    0 <= k < i ==> (#[trigger] new_elements@[k]).valid()
                        && new_elements@[k].bounding_circle_radius <= self.config.max_radius,
            decreases n - i,
        {
            let stepped = step_element(&self.elements, &grid, i, vessel, &self.config);
            new_elements.push(stepped);
            i += 1;
        }
        self.elements = new_elements;
    }
}

proof fn lemma_contains_nine(
    e0: Seq<usize>,
    e1: Seq<usize>,
    e2: Seq<usize>,
    e3: Seq<usize>,
    e4: Seq<usize>,
    e5: Seq<usize>,
    e6: Seq<usize>,
    e7: Seq<usize>,
    e8: Seq<usize>,
    x: usize,
)
    requires
        e0.contains(x) || e1.contains(x) || e2.contains(x) || e3.contains(x) || e4.contains(x)
            || e5.contains(x) || e6.contains(x) || e7.contains(x) || e8.contains(x),
    ensures
        (e0 + e1 + e2 + e3 + e4 + e5 + e6 + e7 + e8).contains(x),
{
    if e0.contains(x) || e1.contains(x) {
        lemma_contains_concat(e0, e1, x);
    }
    if (e0 + e1).contains(x) || e2.contains(x) {
        lemma_contains_concat(e0 + e1, e2, x);
    }
    if (e0 + e1 + e2).contains(x) || e3.contains(x) {
        lemma_contains_concat(e0 + e1 + e2, e3, x);
    }
    if (e0 + e1 + e2 + e3).contains(x) || e4.contains(x) {
        lemma_contains_concat(e0 + e1 + e2 + e3, e4, x);
    }
    if (e0 + e1 + e2 + e3 + e4).contains(x) || e5.contains(x) {
        lemma_contains_concat(e0 + e1 + e2 + e3 + e4, e5, x);
    }
    if (e0 + e1 + e2 + e3 + e4 + e5).contains(x) || e6.contains(x) {
        lemma_contains_concat(e0 + e1 + e2 + e3 + e4 + e5, e6, x);
    }
    if (e0 + e1 + e2 + e3 + e4 + e5 + e6).contains(x) || e7.contains(x) {
        lemma_contains_concat(e0 + e1 + e2 + e3 + e4 + e5 + e6, e7, x);
    }
    lemma_contains_concat(e0 + e1 + e2 + e3 + e4 + e5 + e6 + e7, e8, x);
}

/// Broad-phase soundness: when the cell size exceeds twice the largest
/// radius (part of `SimConfig::wf`), every body whose bounding circle
/// overlaps body `i`'s appears among `i`'s broad-phase candidates.  The
/// narrow phase only ever filters candidates, so under this bound the
/// conditional neighbor scan misses no true collision.
pub proof fn lemma_broad_phase_sound(elems: Seq<PhysicsElement>, cfg: SimConfig, i: int, j: int)
    requires
        cfg.wf(),
        0 <= i < elems.len(),
        0 <= j < elems.len(),
        elems.len() <= usize::MAX,
        elems[i].valid(),
        elems[j].valid(),
        elems[i].bounding_circle_radius <= cfg.max_radius,
        elems[j].bounding_circle_radius <= cfg.max_radius,
        circles_overlap(elems[i], elems[j]),
    ensures
        candidate_seq(elems, cfg.cell_size as int, cfg.max_radius as int, i).contains(j as usize),
{
    let cs = cfg.cell_size as int;
    let maxr = cfg.max_radius as int;
    let n = elems.len();
    let a = elems[i];
    let b = elems[j];
    let pax = a.position.x as int;
    let pay = a.position.y as int;
    let pbx = b.position.x as int;
    let pby = b.position.y as int;
    let ra = a.bounding_circle_radius as int;
    let rb = b.bounding_circle_radius as int;

    assert(-(ra + rb) < pax - pbx < ra + rb && -(ra + rb) < pay - pby < ra + rb)
        by (nonlinear_arith)
        requires
            (pax - pbx) * (pax - pbx) + (pay - pby) * (pay - pby) < (ra + rb) * (ra + rb) && 0 < ra
                && 0 < rb;

    let gxa = cell_coord(pax, cs);
    let gya = cell_coord(pay, cs);
    let gxb = cell_coord(pbx, cs);
    let gyb = cell_coord(pby, cs);
    lemma_cell_coord_in_cell(pax, cs);
    lemma_cell_coord_in_cell(pay, cs);
    lemma_cell_coord_in_cell(pbx, cs);
    lemma_cell_coord_in_cell(pby, cs);

    assert(gxa - 1 <= gxb <= gxa + 1) by (nonlinear_arith)
        requires
            0 < cs && -cs < pax - pbx < cs && cs * gxa <= pax < cs * (gxa + 1) && cs * gxb <= pbx
                < cs * (gxb + 1);
    assert(gya - 1 <= gyb <= gya + 1) by (nonlinear_arith)
        requires
            0 < cs && -cs < pay - pby < cs && cs * gya <= pay < cs * (gya + 1) && cs * gyb <= pby
                < cs * (gyb + 1);

    if gxb == gxa - 1 {
        assert(pax - ra < gxa * cs + maxr) by (nonlinear_arith)
            requires
                cs * gxb <= pbx < cs * (gxb + 1) && gxb == gxa - 1 && pax - pbx < ra + rb && rb
                    <= maxr;
        assert(margin_low_x(a, cs, maxr));
    }
    if gxb == gxa + 1 {
        assert(pax + ra > (gxa + 1) * cs - maxr) by (nonlinear_arith)
            requires
                cs * gxb <= pbx < cs * (gxb + 1) && gxb == gxa + 1 && pbx - pax < ra + rb && rb
                    <= maxr;
        assert(margin_high_x(a, cs, maxr));
    }
    if gyb == gya - 1 {
        assert(pay - ra < gya * cs + maxr) by (nonlinear_arith)
            requires
                cs * gyb <= pby < cs * (gyb + 1) && gyb == gya - 1 && pay - pby < ra + rb && rb
                    <= maxr;
        assert(margin_low_y(a, cs, maxr));
    }
    if gyb == gya + 1 {
        assert(pay + ra > (gya + 1) * cs - maxr) by (nonlinear_arith)
            requires
                cs * gyb <= pby < cs * (gyb + 1) && gyb == gya + 1 && pby - pay < ra + rb && rb
                    <= maxr;
        assert(margin_high_y(a, cs, maxr));
    }

    crate::grid::lemma_cell_indices_complete(elems, cs, gxb, gyb, n, j);

    let e0 = cell_indices(elems, cs, gxa, gya, n);
    let e1 = if margin_low_x(a, cs, maxr) {
        cell_indices(elems, cs, gxa - 1, gya, n)
    } else {
        Seq::<usize>::empty()
    };
    let e2 = if margin_high_x(a, cs, maxr) {
        cell_indices(elems, cs, gxa + 1, gya, n)
    } else {
        Seq::<usize>::empty()
    };
    let e3 = if margin_low_y(a, cs, maxr) {
        cell_indices(elems, cs, gxa, gya - 1, n)
    } else {
        Seq::<usize>::empty()
    };
    let e4 = if margin_high_y(a, cs, maxr) {
        cell_indices(elems, cs, gxa, gya + 1, n)
    } else {
        Seq::<usize>::empty()
    };
    let e5 = if margin_low_x(a, cs, maxr) && margin_low_y(a, cs, maxr) {
        cell_indices(elems, cs, gxa - 1, gya - 1, n)
    } else {
        Seq::<usize>::empty()
    };
    let e6 = if margin_low_x(a, cs, maxr) && margin_high_y(a, cs, maxr) {
        cell_indices(elems, cs, gxa - 1, gya + 1, n)
    } else {
        Seq::<usize>::empty()
    };
    let e7 = if margin_high_x(a, cs, maxr) && margin_low_y(a, cs, maxr) {
        cell_indices(elems, cs, gxa + 1, gya - 1, n)
    } else {
        Seq::<usize>::empty()
    };
    let e8 = if margin_high_x(a, cs, maxr) && margin_high_y(a, cs, maxr) {
        cell_indices(elems, cs, gxa + 1, gya + 1, n)
    } else {
        Seq::<usize>::empty()
    };

    let jx = j as usize;
    if gxb == gxa && gyb == gya {
        assert(e0.contains(jx));
    } else if gxb == gxa - 1 && gyb == gya {
        assert(e1.contains(jx));
    } else if gxb == gxa + 1 && gyb == gya {
        assert(e2.contains(jx));
    } else if gxb == gxa && gyb == gya - 1 {
        assert(e3.contains(jx));
    } else if gxb == gxa && gyb == gya + 1 {
        assert(e4.contains(jx));
    } else if gxb == gxa - 1 && gyb == gya - 1 {
        assert(e5.contains(jx));
    } else if gxb == gxa - 1 && gyb == gya + 1 {
        assert(e6.contains(jx));
    } else if gxb == gxa + 1 && gyb == gya - 1 {
        assert(e7.contains(jx));
    } else {
        assert(gxb == gxa + 1 && gyb == gya + 1);
        assert(e8.contains(jx));
    }
    lemma_contains_nine(e0, e1, e2, e3, e4, e5, e6, e7, e8, jx);
    assert(candidate_seq(elems, cs, maxr, i) == e0 + e1 + e2 + e3 + e4 + e5 + e6 + e7 + e8);
}

/// The step reads only the vessel's position, velocity and radius (the
/// vessel response uses no narrow phase), so two vessel values agreeing
/// on those fields drive identical steps.
pub proof fn lemma_step_vessel_congruence(
    elems: Seq<PhysicsElement>,
    v1: PhysicsElement,
    v2: PhysicsElement,
    cfg: SimConfig,
    i: int,
)
    requires
        v1.position == v2.position,
        v1.direction == v2.direction,
        v1.bounding_circle_radius == v2.bounding_circle_radius,
    ensures
        step_element_spec(elems, Option::Some(v1), cfg, i) == step_element_spec(
            elems,
            Option::Some(v2),
            cfg,
            i,
        ),
{
    let el = elems[i];
    assert(circles_overlap(el, v1) == circles_overlap(el, v2));
    assert(vessel_response(el, Option::Some(v1)) == vessel_response(el, Option::Some(v2)));
}

/// Reflection of a resting body off a resting body leaves it at rest.
proof fn lemma_reflect_spec_at_rest(sp: Vector, sd: Vector, op: Vector, od: Vector)
    requires
        sd == (Vector { x: 0i64, y: 0i64 }),
        od == (Vector { x: 0i64, y: 0i64 }),
        sp != op,
    ensures
        reflect_spec(sp, sd, op, od) == (0int, 0int),
        reflect_fits(sp, sd, op, od),
{
    let dx = sp.x - op.x;
    let dy = sp.y - op.y;
    let den = dist_sq_spec(sp, op);
    assert(den > 0) by (nonlinear_arith)
        requires
            den == (sp.x - op.x) * (sp.x - op.x) + (sp.y - op.y) * (sp.y - op.y) && !(sp.x == op.x
                && sp.y == op.y);
    assert(reflect_num_spec(sp, sd, op, od) == 0) by (nonlinear_arith)
        requires sd.x == 0 && sd.y == 0 && od.x == 0 && od.y == 0;
    assert(dx * 0 == 0) by (nonlinear_arith);
    assert(dy * 0 == 0) by (nonlinear_arith);
    lemma_tdiv_of_zero(den);
}

/// The candidate fold keeps a resting body at rest when every body in the
/// snapshot is at rest.
proof fn lemma_dir_after_at_rest(
    elems: Seq<PhysicsElement>,
    el: PhysicsElement,
    i_self: int,
    cands: Seq<usize>,
    k: nat,
)
    requires
        el.direction == (Vector { x: 0i64, y: 0i64 }),
        forall|m: int|
            0 <= m < elems.len() ==> (#[trigger] elems[m]).direction == (Vector { x: 0i64, y: 0i64 }),
    ensures
        dir_after(elems, el, i_self, cands, (0int, 0int), k) == (0int, 0int),
    decreases k,
{
    if k > 0 {
        lemma_dir_after_at_rest(elems, el, i_self, cands, (k - 1) as nat);
        let j = cands[k - 1] as int;
        if 0 <= j < elems.len() && j != i_self && responds_to(el, elems[j]) {
            lemma_reflect_spec_at_rest(el.position, el.direction, elems[j].position, elems[j].direction);
        }
    }
}

/// The rest state is a fixed point of the step: with zero velocity
/// everywhere (the vessel included) a body is returned unchanged by
/// `step_element_spec` — drag on a zero velocity is zero, a reflection
/// between resting bodies is zero, and integration adds zero.  Any number
/// of steps therefore leaves the whole state untouched.
pub proof fn lemma_rest_is_fixed_point(
    elems: Seq<PhysicsElement>,
    vessel: Option<PhysicsElement>,
    cfg: SimConfig,
    i: int,
)
    requires
        cfg.wf(),
        0 <= i < elems.len(),
        elems[i].valid(),
        forall|m: int|
            0 <= m < elems.len() ==> (#[trigger] elems[m]).direction == (Vector { x: 0i64, y: 0i64 }),
        vessel matches Option::Some(v) ==> v.direction == (Vector { x: 0i64, y: 0i64 }),
    ensures
        step_element_spec(elems, vessel, cfg, i) == elems[i],
{
    let el = elems[i];
    let base = vessel_response(el, vessel);
    assert(base == (0int, 0int)) by {
        match vessel {
            Option::Some(v) => {
                if circles_overlap(el, v) && el.position != v.position {
                    lemma_reflect_spec_at_rest(el.position, el.direction, v.position, v.direction);
                }
            },
            Option::None => {},
        }
    }
    let cands = candidate_seq(elems, cfg.cell_size as int, cfg.max_radius as int, i);
    lemma_dir_after_at_rest(elems, el, i, cands, cands.len());
    lemma_tdiv_of_zero(cfg.drag_den as int);
    assert(0 * cfg.drag_num == 0) by (nonlinear_arith);
    assert(step_element_spec(elems, vessel, cfg, i) == elems[i]);
}

} // verus!
