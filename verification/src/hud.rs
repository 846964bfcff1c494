//! The debug overlay's data: the grid lines of the collision index,
//! offset into the viewport.  Drawing them is the renderer's business;
//! this computes the endpoints.

use vstd::prelude::*;
use crate::vector::{in_coord_bounds, Vector};
use crate::MAX_COORD;

verus! {

/// A line segment to draw, as `(x1, y1, x2, y2)` viewport coordinates.
pub type HudLine = (i64, i64, i64, i64);

/// The overlay handle.
pub struct Hud {}

impl Hud {
    /// A fresh overlay.
    pub fn new() -> (h: Hud) {
        Hud {  }
    }

    /// The endpoints of the collision-grid lines for a viewport of
    /// `width` by `height` whose upper-left corner sits at `offset`:
    /// one vertical line per cell column and one horizontal line per cell
    /// row, for the hundred cells on each side of the origin.
    pub fn collision_grid_lines(
        &self,
        offset: &Vector,
        cell_size: i64,
        width: i64,
        height: i64,
    ) -> (lines: Vec<HudLine>)
        requires
            0 < cell_size <= MAX_COORD,
            in_coord_bounds(*offset),
            0 <= width <= MAX_COORD,
            0 <= height <= MAX_COORD,
        ensures
            lines@.len() == 400,
            forall|k: int|
                0 <= k < 200 ==> #[trigger] lines@[k] == ((cell_size * (k - 100)
                    - offset.x) as i64, 0i64, (cell_size * (k - 100) - offset.x) as i64, height),
            forall|k: int|
                200 <= k < 400 ==> #[trigger] lines@[k] == (0i64, (cell_size * (k - 300)
                    - offset.y) as i64, width, (cell_size * (k - 300) - offset.y) as i64),
    {
        let mut lines: Vec<HudLine> = Vec::new();
        let mut x: i64 = -100;
        while x < 100
            invariant
                -100 <= x <= 100,
                0 < cell_size <= MAX_COORD,
                in_coord_bounds(*offset),
                0 <= height <= MAX_COORD,
                lines@.len() == x + 100,
                forall|k: int|
                    0 <= k < x + 100 ==> #[trigger] lines@[k] == ((cell_size * (k - 100)
                        - offset.x) as i64, 0i64, (cell_size * (k - 100) - offset.x) as i64,
                    height),
            decreases 100 - x,
        {
            let w = wide_line_coord(cell_size, x, offset.x);
            lines.push((w, 0, w, height));
            x += 1;
        }
        let mut y: i64 = -100;
        while y < 100
            invariant
                -100 <= y <= 100,
                0 < cell_size <= MAX_COORD,
                in_coord_bounds(*offset),
                0 <= width <= MAX_COORD,
                lines@.len() == 200 + y + 100,
                forall|k: int|
                    0 <= k < 200 ==> #[trigger] lines@[k] == ((cell_size * (k - 100)
                        - offset.x) as i64, 0i64, (cell_size * (k - 100) - offset.x) as i64,
                    height),
                forall|k: int|
                    200 <= k < 200 + y + 100 ==> #[trigger] lines@[k] == (0i64, (cell_size * (k
                        - 300) - offset.y) as i64, width, (cell_size * (k - 300)
                        - offset.y) as i64),
            decreases 100 - y,
        {
            let w = wide_line_coord(cell_size, y, offset.y);
            lines.push((0, w, width, w));
            y += 1;
        }
        lines
    }
}

/// One grid line's viewport coordinate: the cell boundary at index `k`,
/// shifted by the camera offset.
fn wide_line_coord(cell_size: i64, k: i64, off: i64) -> (w: i64)
    requires
        0 < cell_size <= MAX_COORD,
        -100 <= k <= 100,
        -MAX_COORD <= off <= MAX_COORD,
    ensures
        w == cell_size * k - off,
{
    let p = crate::math::wide_mul(cell_size, k);
    proof {
        assert(-100_000_000_000int <= p <= 100_000_000_000int) by (nonlinear_arith)
            requires
                p == cell_size * k && 0 < cell_size <= 1_000_000_000 && -100 <= k <= 100;
    }
    (p - off as i128) as i64
}

} // verus!
