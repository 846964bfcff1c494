//! The collision step end to end: narrow phase, broad-phase soundness on
//! random layouts, head-on collision response, vessel response, and the
//! rest state.

use endurance::physics_element::PhysicsElement;
use endurance::physics_manager::{is_real_collision, PhysicsManager, SimConfig};
use endurance::vector::Vector;

fn square(x: i64, y: i64, r: i64, dx: i64, dy: i64) -> PhysicsElement {
    PhysicsElement {
        direction: Vector { x: dx, y: dy },
        position: Vector { x, y },
        bounding_circle_radius: r,
        perimeter: vec![
            Vector { x: -r, y: -r },
            Vector { x: r, y: -r },
            Vector { x: r, y: r },
            Vector { x: -r, y: r },
            Vector { x: -r, y: -r },
        ],
    }
}

fn diamond(x: i64, y: i64, r: i64) -> PhysicsElement {
    PhysicsElement {
        direction: Vector { x: 0, y: 0 },
        position: Vector { x, y },
        bounding_circle_radius: r,
        perimeter: vec![
            Vector { x: r, y: 0 },
            Vector { x: 0, y: r },
            Vector { x: -r, y: 0 },
            Vector { x: 0, y: -r },
            Vector { x: r, y: 0 },
        ],
    }
}

fn test_config() -> SimConfig {
    SimConfig { cell_size: 150, max_radius: 60, drag_num: 1, drag_den: 2 }
}

#[test]
fn narrow_phase_confirms_interpenetrating_squares() {
    let a = square(0, 0, 50, 0, 0);
    let b = square(60, 0, 50, 0, 0);
    assert!(is_real_collision(&a, &b));
}

#[test]
fn narrow_phase_rejects_distant_bodies() {
    let a = square(0, 0, 50, 0, 0);
    let b = square(500, 0, 50, 0, 0);
    assert!(!is_real_collision(&a, &b));
}

#[test]
fn narrow_phase_rejects_circle_overlap_without_edge_contact() {
    // centers are 98.99 apart: bounding circles (sum 100) overlap, but
    // the diamonds reach only 50 along the axes and never touch
    let a = diamond(0, 0, 50);
    let b = diamond(70, 70, 50);
    assert!(!is_real_collision(&a, &b));
}

#[test]
fn head_on_floes_reverse_and_drag_halves_speed() {
    // two floes of radius 50 placed 60 apart closing at speed 2: the
    // step confirms the collision, reverses each velocity along the
    // axis, and drag (1/2) halves the reversed speed
    let mut pm = PhysicsManager::new(test_config());
    assert_eq!(pm.register_element(square(0, 0, 50, 2, 0)), Some(0));
    assert_eq!(pm.register_element(square(60, 0, 50, -2, 0)), Some(1));
    pm.tick(None);
    let a = pm.get_element(0).unwrap();
    let b = pm.get_element(1).unwrap();
    assert_eq!(a.direction, Vector { x: -1, y: 0 });
    assert_eq!(b.direction, Vector { x: 1, y: 0 });
    assert_eq!(a.position, Vector { x: -1, y: 0 });
    assert_eq!(b.position, Vector { x: 61, y: 0 });
}

#[test]
fn vessel_reflects_a_stationary_floe_away() {
    // the vessel approaches from positive x; after the overlapping step
    // the floe's velocity is non-zero and points away from the approach
    let mut pm = PhysicsManager::new(test_config());
    assert_eq!(pm.register_element(square(0, 0, 50, 0, 0)), Some(0));
    let vessel = square(90, 0, 60, -5, 0);
    pm.tick(Some(&vessel));
    let floe = pm.get_element(0).unwrap();
    assert_eq!(floe.direction, Vector { x: -2, y: 0 });
    assert_eq!(floe.position, Vector { x: -2, y: 0 });
}

#[test]
fn rest_state_is_unchanged_by_any_number_of_steps() {
    let mut pm = PhysicsManager::new(test_config());
    // overlapping bodies at rest: reflections of zero velocities stay
    // zero, drag of zero is zero, positions never move
    assert_eq!(pm.register_element(square(0, 0, 50, 0, 0)), Some(0));
    assert_eq!(pm.register_element(square(30, 10, 50, 0, 0)), Some(1));
    assert_eq!(pm.register_element(square(400, -200, 40, 0, 0)), Some(2));
    for _ in 0..10 {
        pm.tick(None);
    }
    assert_eq!(pm.get_element(0).unwrap().position, Vector { x: 0, y: 0 });
    assert_eq!(pm.get_element(1).unwrap().position, Vector { x: 30, y: 10 });
    assert_eq!(pm.get_element(2).unwrap().position, Vector { x: 400, y: -200 });
    assert_eq!(pm.get_element(0).unwrap().direction, Vector { x: 0, y: 0 });
}

#[test]
fn broad_phase_candidates_cover_all_true_collisions() {
    // random layouts: every narrow-phase-confirmed pair must appear in
    // the broad-phase candidate set (no false negatives)
    let mut seed: u64 = 0x2545_F491_4F6C_DD1D;
    let mut next = |range: i64| -> i64 {
        seed = seed.wrapping_mul(6364136223846793005).wrapping_add(1442695040888963407);
        ((seed >> 33) as i64).rem_euclid(range)
    };
    let cfg = SimConfig { cell_size: 100, max_radius: 40, drag_num: 99, drag_den: 100 };
    for _layout in 0..5 {
        let mut pm = PhysicsManager::new(cfg);
        for _ in 0..30 {
            let x = next(1000) - 500;
            let y = next(1000) - 500;
            let r = 8 + next(32);
            assert!(pm.register_element(square(x, y, r, 0, 0)).is_some());
        }
        let n = pm.elements.len();
        for i in 0..n {
            let cands = pm.broad_phase_candidates(i);
            for j in 0..n {
                if i == j {
                    continue;
                }
                let a = pm.get_element(i).unwrap();
                let b = pm.get_element(j).unwrap();
                if is_real_collision(a, b) {
                    assert!(
                        cands.contains(&j),
                        "body {j} collides with {i} but is not a candidate"
                    );
                }
            }
        }
    }
}

#[test]
fn registration_rejects_degenerate_perimeters() {
    let mut pm = PhysicsManager::new(test_config());
    let mut bad = square(0, 0, 50, 0, 0);
    bad.perimeter.truncate(2);
    assert_eq!(pm.register_element(bad), None);
    let mut open_loop = square(0, 0, 50, 0, 0);
    open_loop.perimeter.pop();
    assert_eq!(pm.register_element(open_loop), None);
    let too_big = square(0, 0, 61, 0, 0);
    assert_eq!(pm.register_element(too_big), None);
    assert_eq!(pm.elements.len(), 0);
}

#[test]
fn get_element_mut_writes_through() {
    let mut pm = PhysicsManager::new(test_config());
    assert_eq!(pm.register_element(square(0, 0, 50, 0, 0)), Some(0));
    assert!(pm.get_element(1).is_none());
    if let Some(el) = pm.get_element_mut(0) {
        el.direction = Vector { x: 3, y: 4 };
    } else {
        panic!("element 0 must exist");
    }
    assert_eq!(pm.get_element(0).unwrap().direction, Vector { x: 3, y: 4 });
}
