//! Grid bucketing: flooring cell assignment (boundaries and negative
//! coordinates) and the rebuilt index's buckets.

use endurance::grid::build_grid;
use endurance::physics_element::PhysicsElement;
use endurance::vector::Vector;

fn body_at(x: i64, y: i64) -> PhysicsElement {
    PhysicsElement {
        direction: Vector { x: 0, y: 0 },
        position: Vector { x, y },
        bounding_circle_radius: 10,
        perimeter: vec![
            Vector { x: -10, y: -10 },
            Vector { x: 10, y: -10 },
            Vector { x: 10, y: 10 },
            Vector { x: -10, y: 10 },
            Vector { x: -10, y: -10 },
        ],
    }
}

#[test]
fn cell_assignment_floors_toward_negative_infinity() {
    let el = body_at(-1, -150);
    assert_eq!(el.calc_grid_coords(150), (-1, -1));
    let el2 = body_at(-151, 0);
    assert_eq!(el2.calc_grid_coords(150), (-2, 0));
}

#[test]
fn boundary_point_lands_in_exactly_the_cell_it_opens() {
    // x = 150 opens cell 1: it is in cell 1 and in no other
    let el = body_at(150, 0);
    assert_eq!(el.calc_grid_coords(150), (1, 0));
    let just_below = body_at(149, 0);
    assert_eq!(just_below.calc_grid_coords(150), (0, 0));
}

#[test]
fn negative_positions_do_not_collapse_into_cell_zero() {
    let el = body_at(-1, -1);
    assert_eq!(el.calc_grid_coords(150), (-1, -1));
}

#[test]
fn build_grid_buckets_bodies_by_center() {
    let elems = vec![
        body_at(10, 10),    // cell (0, 0)
        body_at(160, 10),   // cell (1, 0)
        body_at(20, 20),    // cell (0, 0)
        body_at(-10, 10),   // cell (-1, 0)
    ];
    let grid = build_grid(&elems, 150);
    let mut seen: u32 = 0;
    for cell in &grid.cells {
        match (cell.cx, cell.cy) {
            (0, 0) => {
                assert_eq!(cell.members, vec![0usize, 2usize]);
                seen += 1;
            }
            (1, 0) => {
                assert_eq!(cell.members, vec![1usize]);
                seen += 1;
            }
            (-1, 0) => {
                assert_eq!(cell.members, vec![3usize]);
                seen += 1;
            }
            other => panic!("unexpected bucket {:?}", other),
        }
    }
    assert_eq!(seen, 3);
}
