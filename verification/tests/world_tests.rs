//! The world: construction, input handling, random initialization, the
//! per-frame step, and the overlay helpers.

use endurance::hud::Hud;
use endurance::keyboard_state::{Key, KeyboardState};
use endurance::physics_manager::SimConfig;
use endurance::vector::Vector;
use endurance::world::{InitError, World, WorldConfig};

fn test_config() -> WorldConfig {
    WorldConfig {
        sim: SimConfig { cell_size: 160, max_radius: 75, drag_num: 99, drag_den: 100 },
        min_floe_size: 8,
        max_floe_size: 75,
        vessel_size: 25,
        vessel_accel: 1,
    }
}

fn no_keys() -> KeyboardState {
    KeyboardState { w: false, a: false, s: false, d: false, esc: false }
}

#[test]
fn new_world_parks_the_vessel_at_the_center() {
    let w = World::new(1600, 1600, test_config());
    assert_eq!(w.boat.position, Vector { x: 800, y: 800 });
    assert_eq!(w.boat.direction, Vector { x: 0, y: 0 });
    assert_eq!(w.ices.len(), 0);
}

#[test]
fn directional_keys_nudge_the_vessel_velocity() {
    let mut w = World::new(1600, 1600, test_config());
    w.key_w();
    assert_eq!(w.boat.direction, Vector { x: 0, y: -1 });
    w.key_a();
    assert_eq!(w.boat.direction, Vector { x: -1, y: -1 });
    w.key_s();
    w.key_s();
    assert_eq!(w.boat.direction, Vector { x: -1, y: 1 });
    w.key_d();
    assert_eq!(w.boat.direction, Vector { x: 0, y: 1 });
}

#[test]
fn tick_applies_input_then_moves_the_vessel() {
    let mut w = World::new(1600, 1600, test_config());
    let keys = KeyboardState { w: true, a: false, s: false, d: true, esc: false };
    w.tick(&keys);
    assert_eq!(w.boat.direction, Vector { x: 1, y: -1 });
    assert_eq!(w.boat.position, Vector { x: 801, y: 799 });
    w.tick(&no_keys());
    // no deceleration is applied to the vessel
    assert_eq!(w.boat.direction, Vector { x: 1, y: -1 });
    assert_eq!(w.boat.position, Vector { x: 802, y: 798 });
}

#[test]
fn get_offset_centers_the_viewport_on_the_vessel() {
    let w = World::new(1600, 1200, test_config());
    let off = w.get_offset();
    assert_eq!(off, Vector { x: 0, y: 0 });
    let mut w2 = World::new(1600, 1200, test_config());
    w2.key_d();
    w2.tick(&no_keys());
    assert_eq!(w2.get_offset(), Vector { x: 1, y: 0 });
}

#[test]
fn keyboard_events_fold_into_the_snapshot() {
    let ks = KeyboardState::new();
    let ks = ks.apply_key_event(Key::W, true);
    let ks = ks.apply_key_event(Key::D, true);
    assert_eq!(ks, KeyboardState { w: true, a: false, s: false, d: true, esc: false });
    let ks = ks.apply_key_event(Key::W, false);
    let ks = ks.apply_key_event(Key::Escape, true);
    assert_eq!(ks, KeyboardState { w: false, a: false, s: false, d: true, esc: true });
}

#[test]
fn random_initialization_places_exactly_the_requested_floes() {
    let mut w = World::new(4000, 4000, test_config());
    let r = w.init_with_random_ice(12, 1_000_000);
    assert_eq!(r, Ok(()));
    assert_eq!(w.ices.len(), 12);
    for ice in &w.ices {
        assert!(8 <= ice.size && ice.size < 75);
        assert!(ice.perimeter.len() >= 4);
        assert_eq!(ice.perimeter.first(), ice.perimeter.last());
    }
    // pairwise non-overlap of bounding circles
    for i in 0..w.ices.len() {
        for j in 0..i {
            let a = &w.ices[i];
            let b = &w.ices[j];
            let dx = a.position.x - b.position.x;
            let dy = a.position.y - b.position.y;
            let sum = a.size + b.size;
            assert!(
                dx * dx + dy * dy >= sum * sum,
                "floes {i} and {j} overlap after initialization"
            );
        }
    }
    // the vessel's spawn zone is clear
    for ice in &w.ices {
        let dx = ice.position.x - w.boat.position.x;
        let dy = ice.position.y - w.boat.position.y;
        let thr = 3 * w.boat.size + ice.size;
        assert!(dx * dx + dy * dy >= thr * thr);
    }
}

#[test]
fn initialization_reports_failure_when_no_room_is_left() {
    // a dense request under a tiny attempt budget cannot finish; what
    // was placed is kept and the failure is reported
    let mut w = World::new(200, 2, test_config());
    let r = w.init_with_random_ice(1000, 3);
    assert_eq!(r, Err(InitError::PlacementFailed));
    assert!(w.ices.len() < 1000);
}

#[test]
fn init_test_places_two_head_on_floes() {
    let cfg = WorldConfig {
        sim: SimConfig { cell_size: 700, max_radius: 300, drag_num: 99, drag_den: 100 },
        min_floe_size: 8,
        max_floe_size: 75,
        vessel_size: 25,
        vessel_accel: 1,
    };
    let mut w = World::new(1600, 1600, cfg);
    w.init_test();
    assert_eq!(w.ices.len(), 2);
    assert_eq!(w.ices[0].position, Vector { x: 1200, y: 1200 });
    assert_eq!(w.ices[0].direction, Vector { x: -2, y: 0 });
    assert_eq!(w.ices[0].size, 300);
    assert_eq!(w.ices[0].physics_id, Some(0));
    assert_eq!(w.ices[1].position, Vector { x: 400, y: 1200 });
    assert_eq!(w.ices[1].direction, Vector { x: 2, y: 0 });
    assert_eq!(w.ices[1].physics_id, Some(1));
}

#[test]
fn resting_floes_stay_put_through_world_ticks() {
    let mut w = World::new(4000, 4000, test_config());
    assert_eq!(w.init_with_random_ice(6, 1_000_000), Ok(()));
    let before: Vec<Vector> = (0..6)
        .map(|i| w.physics_manager.get_element(i).unwrap().position)
        .collect();
    let dirs: Vec<Vector> = (0..6)
        .map(|i| w.physics_manager.get_element(i).unwrap().direction)
        .collect();
    // stop every floe, then run with no input: nothing may move
    for i in 0..6 {
        if let Some(el) = w.physics_manager.get_element_mut(i) {
            el.direction = Vector { x: 0, y: 0 };
        }
    }
    let _ = dirs;
    for _ in 0..8 {
        w.tick(&no_keys());
    }
    for i in 0..6 {
        assert_eq!(w.physics_manager.get_element(i).unwrap().position, before[i]);
        assert_eq!(
            w.physics_manager.get_element(i).unwrap().direction,
            Vector { x: 0, y: 0 }
        );
    }
}

#[test]
fn hud_computes_the_grid_line_endpoints() {
    let hud = Hud::new();
    let lines = hud.collision_grid_lines(&Vector { x: 40, y: -10 }, 160, 800, 600);
    assert_eq!(lines.len(), 400);
    // vertical line for cell index 0 (entry 100): x = 0 * 160 - 40
    assert_eq!(lines[100], (-40, 0, -40, 600));
    // first vertical line: cell index -100
    assert_eq!(lines[0], (160 * -100 - 40, 0, 160 * -100 - 40, 600));
    // horizontal line for cell index 0 (entry 300): y = 0 * 160 + 10
    assert_eq!(lines[300], (0, 10, 800, 10));
}
