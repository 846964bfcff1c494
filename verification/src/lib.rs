//! A 2D drift-and-collision simulation over integer coordinates.
//!
//! Many independently moving polygonal bodies ("floes") and one
//! player-steered body (the "vessel") move on an unbounded plane.  Each
//! step buckets the bodies into a square grid (the broad phase), confirms
//! candidate pairs by exact segment intersection (the narrow phase), and
//! reflects the velocities of confirmed pairs along the line connecting
//! their centers.
//!
//! All coordinates, velocities and radii are plain `i64` world units, so
//! every geometric test is exact and every arithmetic step is verified
//! free of overflow.  Fractional constants (the drag factor) are carried
//! as ratios of integers.

use vstd::prelude::*;

pub mod math;
pub mod geometry;
pub mod boat;
pub mod grid;
pub mod hud;
pub mod ice;
pub mod keyboard_state;
pub mod physics_element;
pub mod physics_manager;
pub mod rng;
pub mod vector;
pub mod world;

verus! {

/// Largest magnitude a world coordinate may take.  Keeping positions in
/// this range lets every intermediate geometric product fit in `i128`.
pub const MAX_COORD: i64 = 1_000_000_000;

/// Largest magnitude a velocity component may take.
pub const MAX_SPEED: i64 = 1_000_000;

/// Largest bounding-circle radius a body may declare.
pub const MAX_RADIUS: i64 = 1_000_000;

} // verus!
