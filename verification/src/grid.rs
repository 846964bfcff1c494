//! The broad-phase spatial index: bodies bucketed by grid cell.
//!
//! The grid is rebuilt from scratch every step from a snapshot of the
//! body list; buckets hold body indices into that snapshot, in increasing
//! order.  `grid_wf` ties every bucket to the mathematical bucket
//! `cell_indices`, and the two lemmas at the bottom say the buckets hold
//! exactly the right indices.

use vstd::prelude::*;
use crate::physics_element::{cell_coord, PhysicsElement};
use crate::vector::in_coord_bounds;

verus! {

/// One bucket: the body indices whose center falls in cell `(cx, cy)`.
#[derive(Clone, Debug)]
pub struct GridCell {
    pub cx: i64,
    pub cy: i64,
    pub members: Vec<usize>,
}

/// The broad-phase index over one snapshot of the body list.
#[derive(Clone, Debug)]
pub struct Grid {
    pub cell_size: i64,
    pub cells: Vec<GridCell>,
}

/// The cell holding a body's center.
pub open spec fn cell_of(el: PhysicsElement, cs: int) -> (int, int) {
    (cell_coord(el.position.x as int, cs), cell_coord(el.position.y as int, cs))
}

/// The indices below `n` of the bodies whose center falls in cell
/// `(gx, gy)`, in increasing order.
pub open spec fn cell_indices(
    elems: Seq<PhysicsElement>,
    cs: int,
    gx: int,
    gy: int,
    n: nat,
) -> Seq<usize>
    decreases n,
{
    if n == 0 {
        Seq::empty()
    } else {
        cell_indices(elems, cs, gx, gy, (n - 1) as nat) + (if cell_of(
            elems[n - 1],
            cs,
        ) == (gx, gy) {
            seq![(n - 1) as usize]
        } else {
            Seq::empty()
        })
    }
}

/// Some bucket of this cell list carries the key `(gx, gy)`.
pub open spec fn cells_have(cells: Seq<GridCell>, gx: int, gy: int) -> bool {
    exists|k: int|
        0 <= k < cells.len() && (#[trigger] cells[k]).cx == gx && cells[k].cy == gy
}

/// The grid is a faithful index of the snapshot `elems`: bucket keys are
/// distinct, every bucket holds exactly the indices of the bodies
/// centered in its cell, and a cell with no bucket holds no body.
pub open spec fn grid_wf(g: Grid, elems: Seq<PhysicsElement>) -> bool {
    &&& 0 < g.cell_size
    &&& forall|i: int, j: int|
        0 <= i < j < g.cells@.len() ==> !((#[trigger] g.cells@[i]).cx == (
        #[trigger] g.cells@[j]).cx && g.cells@[i].cy == g.cells@[j].cy)
    &&& forall|k: int|
        0 <= k < g.cells@.len() ==> (#[trigger] g.cells@[k]).members@ == cell_indices(
            elems,
            g.cell_size as int,
            g.cells@[k].cx as int,
            g.cells@[k].cy as int,
            elems.len(),
        )
    &&& forall|gx: int, gy: int|
        !cells_have(g.cells@, gx, gy) ==> #[trigger] cell_indices(
            elems,
            g.cell_size as int,
            gx,
            gy,
            elems.len(),
        ) == Seq::<usize>::empty()
}

/// Builds the broad-phase index of a snapshot: an O(N) full rebuild, one
/// bucket append per body.
pub fn build_grid(elems: &Vec<PhysicsElement>, cell_size: i64) -> (g: Grid)
    requires
        0 < cell_size,
        forall|i: int| 0 <= i < elems@.len() ==> in_coord_bounds((#[trigger] elems@[i]).position),
    ensures
        grid_wf(g, elems@),
        g.cell_size == cell_size,
{
    let ghost cs = cell_size as int;
    let mut cells: Vec<GridCell> = Vec::new();
    let n = elems.len();
    let mut i: usize = 0;
    while i < n
        invariant
            i <= n,
            n == elems@.len(),
            0 < cell_size,
            cs == cell_size as int,
            forall|a: int| 0 <= a < elems@.len() ==> in_coord_bounds((#[trigger] elems@[a]).position),
            forall|a: int, b: int|
                0 <= a < b < cells@.len() ==> !((#[trigger] cells@[a]).cx == (
                #[trigger] cells@[b]).cx && cells@[a].cy == cells@[b].cy),
            forall|k: int|
                0 <= k < cells@.len() ==> (#[trigger] cells@[k]).members@ == cell_indices(
                    elems@,
                    cs,
                    cells@[k].cx as int,
                    cells@[k].cy as int,
                    i as nat,
                ),
            forall|gx: int, gy: int|
                !cells_have(cells@, gx, gy) ==> #[trigger] cell_indices(elems@, cs, gx, gy, i as nat)
                    == Seq::<usize>::empty(),
        decreases n - i,
    {
        let idx = i;
        i += 1;
        let (gx, gy) = elems[idx].calc_grid_coords(cell_size);
        let ghost pre_cells = cells@;

        let m = cells.len();
        let mut found: usize = 0;
        let mut hit: bool = false;
        while !hit && found < m
            invariant
                m == cells@.len(),
                found <= m,
                forall|a: int|
                    0 <= a < found ==> !((#[trigger] cells@[a]).cx == gx && cells@[a].cy == gy),
                hit ==> found < m && cells@[found as int].cx == gx && cells@[found as int].cy
                    == gy,
            decreases m - found + (if hit { 0int } else { 1int }),
        {
            if cells[found].cx == gx && cells[found].cy == gy {
                hit = true;
            } else {
                found += 1;
            }
        }

        if hit {
            let mut cell = cells.remove(found);
            cell.members.push(idx);
            cells.push(cell);
            proof {
                let newc = cells@;
                assert forall|a: int, b: int|
                    0 <= a < b < newc.len() implies !((#[trigger] newc[a]).cx == (
                    #[trigger] newc[b]).cx && newc[a].cy == newc[b].cy) by {
                    if b < newc.len() - 1 {
                        let a0 = if a < found { a } else { a + 1 };
                        let b0 = if b < found { b } else { b + 1 };
                        assert(newc[a] == pre_cells[a0] && newc[b] == pre_cells[b0]);
                    } else {
                        let a0 = if a < found { a } else { a + 1 };
                        assert(newc[a] == pre_cells[a0]);
                        assert(newc[b].cx == pre_cells[found as int].cx
                            && newc[b].cy == pre_cells[found as int].cy);
                    }
                }
                assert forall|c: int|
                    0 <= c < newc.len() implies (#[trigger] newc[c]).members@ == cell_indices(
                    elems@,
                    cs,
                    newc[c].cx as int,
                    newc[c].cy as int,
                    i as nat,
                ) by {
                    if c < newc.len() - 1 {
                        let c0 = if c < found { c } else { c + 1 };
                        assert(newc[c] == pre_cells[c0]);
                        assert(!(newc[c].cx == gx && newc[c].cy == gy));
                        assert(cell_indices(elems@, cs, newc[c].cx as int, newc[c].cy as int, i as nat)
                            =~= cell_indices(elems@, cs, newc[c].cx as int, newc[c].cy as int, idx as nat));
                    } else {
                        assert(newc[c].cx == gx && newc[c].cy == gy);
                        assert(newc[c].members@ =~= pre_cells[found as int].members@ + seq![idx]);
                        assert(cell_indices(elems@, cs, gx as int, gy as int, i as nat)
                            =~= cell_indices(elems@, cs, gx as int, gy as int, idx as nat) + seq![idx]);
                    }
                }
                assert forall|ax: int, ay: int|
                    !cells_have(newc, ax, ay) implies #[trigger] cell_indices(
                    elems@,
                    cs,
                    ax,
                    ay,
                    i as nat,
                ) == Seq::<usize>::empty() by {
                    assert forall|a: int|
                        0 <= a < pre_cells.len() implies !((#[trigger] pre_cells[a]).cx == ax
                        && pre_cells[a].cy == ay) by {
                        let a1 = if a < found { a } else if a == found { newc.len() - 1 } else {
                            a - 1
                        };
                        if a == found {
                            assert(newc[a1].cx == pre_cells[a].cx && newc[a1].cy == pre_cells[a].cy);
                        } else {
                            assert(newc[a1] == pre_cells[a]);
                        }
                    }
                    assert(!cells_have(pre_cells, ax, ay));
                    assert(!(gx == ax && gy == ay)) by {
                        assert(newc[newc.len() - 1].cx == gx && newc[newc.len() - 1].cy == gy);
                    }
                    assert(cell_indices(elems@, cs, ax, ay, i as nat)
                        =~= cell_indices(elems@, cs, ax, ay, idx as nat));
                }
            }
        } else {
            let mut members: Vec<usize> = Vec::new();
            members.push(idx);
            cells.push(GridCell { cx: gx, cy: gy, members });
            proof {
                let newc = cells@;
                assert(!cells_have(pre_cells, gx as int, gy as int));
                assert(cell_indices(elems@, cs, gx as int, gy as int, idx as nat)
                    == Seq::<usize>::empty());
                assert forall|c: int|
                    0 <= c < newc.len() implies (#[trigger] newc[c]).members@ == cell_indices(
                    elems@,
                    cs,
                    newc[c].cx as int,
                    newc[c].cy as int,
                    i as nat,
                ) by {
                    if c < newc.len() - 1 {
                        assert(newc[c] == pre_cells[c]);
                        assert(!(newc[c].cx == gx && newc[c].cy == gy));
                        assert(cell_indices(elems@, cs, newc[c].cx as int, newc[c].cy as int, i as nat)
                            =~= cell_indices(elems@, cs, newc[c].cx as int, newc[c].cy as int, idx as nat));
                    } else {
                        assert(newc[c].members@ =~= seq![idx]);
                        assert(cell_indices(elems@, cs, gx as int, gy as int, i as nat)
                            =~= Seq::<usize>::empty() + seq![idx]);
                        assert(Seq::<usize>::empty() + seq![idx] =~= seq![idx]);
                    }
                }
                assert forall|ax: int, ay: int|
                    !cells_have(newc, ax, ay) implies #[trigger] cell_indices(
                    elems@,
                    cs,
                    ax,
                    ay,
                    i as nat,
                ) == Seq::<usize>::empty() by {
                    assert forall|a: int|
                        0 <= a < pre_cells.len() implies !((#[trigger] pre_cells[a]).cx == ax
                        && pre_cells[a].cy == ay) by {
                        assert(newc[a] == pre_cells[a]);
                    }
                    assert(!cells_have(pre_cells, ax, ay));
                    assert(!(gx == ax && gy == ay)) by {
                        assert(newc[newc.len() - 1].cx == gx && newc[newc.len() - 1].cy == gy);
                    }
                    assert(cell_indices(elems@, cs, ax, ay, i as nat)
                        =~= cell_indices(elems@, cs, ax, ay, idx as nat));
                }
            }
        }
    }
    Grid { cell_size, cells }
}

/// The indices bucketed in one cell, copied out; the empty list when the
/// cell has no bucket.
pub(crate) fn get_grid_region_elems(
    grid: &Grid,
    grid_x: i64,
    grid_y: i64,
    Ghost(elems): Ghost<Seq<PhysicsElement>>,
) -> (r: Vec<usize>)
    requires
        grid_wf(*grid, elems),
    ensures
        r@ == cell_indices(elems, grid.cell_size as int, grid_x as int, grid_y as int, elems.len()),
{
    let m = grid.cells.len();
    let mut k: usize = 0;
    while k < m
        invariant
            m == grid.cells@.len(),
            k <= m,
            grid_wf(*grid, elems),
            forall|a: int|
                0 <= a < k ==> !((#[trigger] grid.cells@[a]).cx == grid_x && grid.cells@[a].cy
                    == grid_y),
        decreases m - k,
    {
        if grid.cells[k].cx == grid_x && grid.cells[k].cy == grid_y {
            let src = &grid.cells[k].members;
            let len = src.len();
            let mut r: Vec<usize> = Vec::new();
            let mut j: usize = 0;
            while j < len
                invariant
                    len == src@.len(),
                    j <= len,
                    r@ == src@.take(j as int),
                decreases len - j,
            {
                r.push(src[j]);
                proof {
                    assert(r@ =~= src@.take(j + 1 as int));
                }
                j += 1;
            }
            proof {
                assert(r@ =~= src@);
            }
            return r;
        }
        k += 1;
    }
    proof {
        assert(!cells_have(grid.cells@, grid_x as int, grid_y as int));
    }
    Vec::new()
}

/// Completeness: a body centered in a cell appears in that cell's
/// mathematical bucket.
pub proof fn lemma_cell_indices_complete(
    elems: Seq<PhysicsElement>,
    cs: int,
    gx: int,
    gy: int,
    n: nat,
    j: int,
)
    requires
        0 <= j < n <= elems.len(),
        n <= usize::MAX,
        cell_of(elems[j], cs) == (gx, gy),
    ensures
        cell_indices(elems, cs, gx, gy, n).contains(j as usize),
    decreases n,
{
    if j == n - 1 {
        let prev = cell_indices(elems, cs, gx, gy, (n - 1) as nat);
        assert(cell_indices(elems, cs, gx, gy, n) == prev + seq![j as usize]);
        assert(cell_indices(elems, cs, gx, gy, n)[prev.len() as int] == j as usize);
    } else {
        lemma_cell_indices_complete(elems, cs, gx, gy, (n - 1) as nat, j);
        let prev = cell_indices(elems, cs, gx, gy, (n - 1) as nat);
        let w = choose|w: int| 0 <= w < prev.len() && prev[w] == j as usize;
        assert(cell_indices(elems, cs, gx, gy, n)[w] == j as usize);
    }
}

/// Soundness: everything in a cell's mathematical bucket is a valid body
/// index, centered in that cell.
pub proof fn lemma_cell_indices_sound(
    elems: Seq<PhysicsElement>,
    cs: int,
    gx: int,
    gy: int,
    n: nat,
)
    requires
        n <= elems.len(),
        n <= usize::MAX,
    ensures
        forall|w: int|
            0 <= w < cell_indices(elems, cs, gx, gy, n).len() ==> {
                let j = #[trigger] cell_indices(elems, cs, gx, gy, n)[w];
                j < n && cell_of(elems[j as int], cs) == (gx, gy)
            },
    decreases n,
{
    if n > 0 {
        lemma_cell_indices_sound(elems, cs, gx, gy, (n - 1) as nat);
        let prev = cell_indices(elems, cs, gx, gy, (n - 1) as nat);
        let cur = cell_indices(elems, cs, gx, gy, n);
        assert forall|w: int| 0 <= w < cur.len() implies {
            let j = #[trigger] cur[w];
            j < n && cell_of(elems[j as int], cs) == (gx, gy)
        } by {
            if w < prev.len() {
                assert(cur[w] == prev[w]);
            } else {
                assert(cur[w] == (n - 1) as usize);
            }
        }
    }
}

} // verus!
