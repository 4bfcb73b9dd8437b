//! Exact-value tests for the scalar kernel and the geometry queries.

use volley::arith::{clamp_i64, div_trunc, isqrt_i64, mul_div, SCALE};
use volley::geom::{closest_point, dot_product, Circle, Line, Point, Vec2};

#[test]
fn isqrt_small_values() {
    assert_eq!(isqrt_i64(0), 0);
    assert_eq!(isqrt_i64(1), 1);
    assert_eq!(isqrt_i64(3), 1);
    assert_eq!(isqrt_i64(4), 2);
    assert_eq!(isqrt_i64(15), 3);
    assert_eq!(isqrt_i64(16), 4);
    assert_eq!(isqrt_i64(1_000_000), 1000);
    assert_eq!(isqrt_i64(999_999), 999);
}

#[test]
fn isqrt_large_values() {
    assert_eq!(isqrt_i64(i64::MAX), 3037000499);
    let r = isqrt_i64(2_000_000_000_000_000_000);
    assert!(r * r <= 2_000_000_000_000_000_000);
    assert!((r + 1) * (r + 1) > 2_000_000_000_000_000_000);
}

#[test]
fn division_truncates_towards_zero() {
    assert_eq!(div_trunc(7, 2), 3);
    assert_eq!(div_trunc(-7, 2), -3);
    assert_eq!(div_trunc(0, 5), 0);
    assert_eq!(div_trunc(-1, 5), 0);
    assert_eq!(mul_div(3, 14142, 20000), 2);
    assert_eq!(mul_div(-3, 14142, 20000), -2);
}

#[test]
fn clamp_saturates_both_sides() {
    assert_eq!(clamp_i64(5, -3, 3), 3);
    assert_eq!(clamp_i64(-5, -3, 3), -3);
    assert_eq!(clamp_i64(2, -3, 3), 2);
}

#[test]
fn vector_between_and_magnitude() {
    let a = Point { x: 0, y: 0 };
    let b = Point { x: 30000, y: 40000 };
    let v = Vec2::between(&a, &b);
    assert_eq!(v.x, 30000);
    assert_eq!(v.y, 40000);
    // a 3-4-5 triangle: |v| is exactly 50000 scalar units (2.5 court units)
    assert_eq!(v.magnitude(), 50000);
}

#[test]
fn unit_vector_of_a_diagonal() {
    let v = Vec2 { x: 30000, y: 40000 };
    let u = v.to_unit();
    // (0.6, 0.8) in fixed point
    assert_eq!(u.x, 12000);
    assert_eq!(u.y, 16000);
    let z = Vec2 { x: 0, y: 0 };
    let uz = z.to_unit();
    assert_eq!(uz.x, 0);
    assert_eq!(uz.y, 0);
}

#[test]
fn scale_is_fixed_point_multiplication() {
    let v = Vec2 { x: 20000, y: -20000 };
    let half = v.scale(10000);
    assert_eq!(half.x, 10000);
    assert_eq!(half.y, -10000);
}

#[test]
fn dot_product_in_scalar_units() {
    // (1.0, 0.0) . (0.5, 2.0) = 0.5 court units -> 10000 scalar units
    let a = Vec2 { x: 20000, y: 0 };
    let b = Vec2 { x: 10000, y: 40000 };
    assert_eq!(dot_product(&a, &b), 10000);
}

#[test]
fn line_length_and_direction() {
    let l = Line::new(-20000, -18600, 20000, -18600);
    assert_eq!(l.len(), 40000);
    let u = l.to_unit_vector();
    assert_eq!(u.x, SCALE);
    assert_eq!(u.y, 0);
}

#[test]
fn closest_point_projects_onto_the_interior() {
    // horizontal floor, ball centre straight above the middle
    let floor = Line::new(-20000, -18600, 20000, -18600);
    let c = Circle::new(1234, -6000, 2000);
    let p = closest_point(&c, &floor);
    assert_eq!(p.x, 1234);
    assert_eq!(p.y, -18600);
}

#[test]
fn closest_point_clamps_to_the_endpoints() {
    let seg = Line::new(0, 0, 10000, 0);
    // centre to the left of the start
    let a = Circle::new(-5000, 3000, 1000);
    let pa = closest_point(&a, &seg);
    assert_eq!((pa.x, pa.y), (0, 0));
    // centre past the end
    let b = Circle::new(25000, -4000, 1000);
    let pb = closest_point(&b, &seg);
    assert_eq!((pb.x, pb.y), (10000, 0));
}

// The closest point lies on the segment, between start and end
// (proved for every input by `lemma_closest_point_on_segment`; this
// checks one slanted instance).
#[test]
fn closest_point_stays_on_a_slanted_segment() {
    let seg = Line::new(-10000, -10000, 10000, 10000);
    let c = Circle::new(-4000, 6000, 500);
    let p = closest_point(&c, &seg);
    assert!(-10000 <= p.x && p.x <= 10000);
    assert!(-10000 <= p.y && p.y <= 10000);
    // the projection of (-0.2, 0.3) onto the diagonal is (0.05, 0.05)
    assert_eq!((p.x, p.y), (1000, 1000));
}

#[test]
fn circle_distance_to_a_segment() {
    let floor = Line::new(-20000, -18600, 20000, -18600);
    let c = Circle::new(0, -6000, 2000);
    // 0.63 court units above the floor
    assert_eq!(c.distance(&floor), 12600);
    assert_eq!(c.dist_sq(&floor), 12600 * 12600);
}

// Intersection agrees with comparing the distance to the radius
// (proved for every input by `lemma_intersecting_iff_close`; these
// check the strictness at the boundary).
#[test]
fn intersection_is_distance_strictly_below_radius() {
    let floor = Line::new(-20000, -18600, 20000, -18600);
    // centre exactly one radius above the floor: touching, not intersecting
    let touching = Circle::new(0, -16600, 2000);
    assert_eq!(touching.distance(&floor), 2000);
    assert!(!touching.is_intersecting(&floor));
    // one unit lower: intersecting
    let sunk = Circle::new(0, -16601, 2000);
    assert!(sunk.is_intersecting(&floor));
    assert!(sunk.distance(&floor) < 2000);
    // far away
    let high = Circle::new(0, 0, 2000);
    assert!(!high.is_intersecting(&floor));
}

#[test]
fn octagon_approximation_of_a_circle() {
    let c = Circle::new(1000, -2000, 2000);
    let chords = c.approx();
    assert_eq!(chords.len(), 8);
    // r * cos 45 = 2000 * 14142 / 20000 = 1414 (truncated)
    let rc = 1414;
    // first chord: from the top to the upper-right diagonal
    assert_eq!((chords[0].start.x, chords[0].start.y), (1000, 0));
    assert_eq!((chords[0].end.x, chords[0].end.y), (1000 + rc, -2000 + rc));
    // fifth chord: from the bottom to the lower-left diagonal
    assert_eq!((chords[4].start.x, chords[4].start.y), (1000, -4000));
    assert_eq!((chords[4].end.x, chords[4].end.y), (1000 - rc, -2000 - rc));
    // last chord closes the ring at the top
    assert_eq!((chords[7].end.x, chords[7].end.y), (1000, 0));
}

#[test]
fn bounce_off_the_floor_reflects_the_vertical_velocity() {
    let floor = Line::new(-20000, -18600, 20000, -18600);
    let mut ball = Circle::new(0, -17000, 2000);
    ball.velocity = Vec2 { x: 300, y: -700 };
    assert!(ball.is_intersecting(&floor));
    ball.bounce_circle(&floor);
    // the normal is vertical: the reflection is exact
    assert_eq!(ball.velocity.x, 300);
    assert_eq!(ball.velocity.y, 700);
    // the centre is pushed away from the surface
    assert!(ball.center.y > -17000);
    assert_eq!(ball.center.x, 0);
}

#[test]
fn bounce_off_a_wall_reflects_the_horizontal_velocity() {
    let wall = Line::new(20000, -20000, 20000, 480_000);
    let mut ball = Circle::new(18500, 0, 2000);
    ball.velocity = Vec2 { x: 900, y: 250 };
    assert!(ball.is_intersecting(&wall));
    ball.bounce_circle(&wall);
    assert_eq!(ball.velocity.x, -900);
    assert_eq!(ball.velocity.y, 250);
    assert!(ball.center.x < 18500);
}
