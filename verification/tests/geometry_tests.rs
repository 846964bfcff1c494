//! Exact-geometry behavior: orientation, segment intersection, distance,
//! normalization and reflection.

use endurance::geometry::{
    dist_sq, euc_distance, lines_intersect, on_segment, orientation, reflect, Orientation,
};
use endurance::vector::Vector;

fn v(x: i64, y: i64) -> Vector {
    Vector { x, y }
}

#[test]
fn orientation_collinear_on_diagonal() {
    assert_eq!(orientation(v(0, 0), v(1, 1), v(2, 2)), Orientation::Collinear);
}

#[test]
fn orientation_turns_classified_by_cross_sign() {
    // (q.y - p.y)(r.x - q.x) - (q.x - p.x)(r.y - q.y) = -1 < 0
    assert_eq!(orientation(v(0, 0), v(1, 0), v(1, 1)), Orientation::CounterClockwise);
    // mirrored walk turns the other way
    assert_eq!(orientation(v(0, 0), v(1, 0), v(1, -1)), Orientation::Clockwise);
}

#[test]
fn on_segment_is_a_bounding_box_test() {
    assert!(on_segment(v(0, 0), v(5, 5), v(10, 10)));
    assert!(!on_segment(v(0, 0), v(11, 5), v(10, 10)));
    // inside the box though off the diagonal: the box test alone accepts it
    assert!(on_segment(v(0, 0), v(9, 1), v(10, 10)));
}

#[test]
fn segments_crossing_in_an_x_intersect() {
    assert!(lines_intersect(v(0, 0), v(10, 10), v(0, 10), v(10, 0)));
}

#[test]
fn parallel_disjoint_segments_do_not_intersect() {
    assert!(!lines_intersect(v(0, 0), v(10, 0), v(0, 5), v(10, 5)));
}

#[test]
fn collinear_overlapping_segments_intersect() {
    assert!(lines_intersect(v(0, 0), v(10, 0), v(5, 0), v(15, 0)));
}

#[test]
fn collinear_disjoint_segments_do_not_intersect() {
    assert!(!lines_intersect(v(0, 0), v(10, 0), v(11, 0), v(20, 0)));
}

#[test]
fn segments_sharing_one_endpoint_intersect() {
    assert!(lines_intersect(v(0, 0), v(10, 0), v(10, 0), v(20, 5)));
}

#[test]
fn dist_sq_is_exact() {
    assert_eq!(dist_sq(&v(0, 0), &v(3, 4)), 25);
    assert_eq!(dist_sq(&v(-3, -4), &v(0, 0)), 25);
}

#[test]
fn euc_distance_rounds_down() {
    assert_eq!(euc_distance(&v(0, 0), &v(3, 4)), 5);
    assert_eq!(euc_distance(&v(0, 0), &v(1, 1)), 1);
    assert_eq!(euc_distance(&v(-1_000_000_000, 0), &v(1_000_000_000, 0)), 2_000_000_000);
}

#[test]
fn vector_arithmetic_is_componentwise() {
    let a = v(3, -4);
    let b = v(10, 20);
    assert_eq!(a.add(&b), v(13, 16));
    assert_eq!(a.sub(&b), v(-7, -24));
    assert_eq!(a.dot(&b), 3 * 10 + (-4) * 20);
    assert_eq!(a.mul(-3), v(-9, 12));
}

#[test]
fn norm_is_exact_on_pythagorean_vectors() {
    assert_eq!(v(3, 4).norm(), v(600, 800));
    assert_eq!(v(300, 400).norm(), v(600, 800));
}

#[test]
fn norm_is_exact_on_axis_vectors() {
    assert_eq!(v(7, 0).norm(), v(1000, 0));
    assert_eq!(v(-123456, 0).norm(), v(-1000, 0));
    assert_eq!(v(0, 5).norm(), v(0, 1000));
}

#[test]
fn norm_length_is_close_to_the_unit_scale() {
    // vectors of large magnitude normalize to within a tenth of a percent
    for (x, y) in [(1000, 1000), (2000, 5000), (-40000, 9000), (123456, -654321)] {
        let n = v(x, y).norm();
        let len_sq = n.x * n.x + n.y * n.y;
        assert!(len_sq >= 998 * 998, "norm of ({x},{y}) too short: {len_sq}");
        assert!(len_sq <= 1002 * 1002, "norm of ({x},{y}) too long: {len_sq}");
    }
}

#[test]
fn head_on_reflection_flips_velocity_exactly() {
    // two bodies closing along the center line at equal opposite speed
    let r = reflect(v(0, 0), v(2, 0), v(60, 0), v(-2, 0));
    assert_eq!(r, Some(v(-2, 0)));
    let r2 = reflect(v(60, 0), v(-2, 0), v(0, 0), v(2, 0));
    assert_eq!(r2, Some(v(2, 0)));
}

#[test]
fn reflection_off_a_stationary_body_pushes_away() {
    // the moving object approaches from positive x; the subject is pushed
    // toward negative x
    let r = reflect(v(0, 0), v(0, 0), v(90, 0), v(-5, 0));
    assert_eq!(r, Some(v(-5, 0)));
}

#[test]
fn reflection_too_fast_to_represent_is_refused() {
    let r = reflect(
        v(0, 0),
        v(1_000_000, 1_000_000),
        v(-1, -2),
        v(-1_000_000, -1_000_000),
    );
    assert_eq!(r, None);
}
