//! Tests for the ball integrator: the half-kick gravity step, the
//! energy bookkeeping, the collision resolution, and the end-to-end
//! drop-and-bounce scenario.

use volley::game::GRAVITY;
use volley::geom::{Circle, Line, Vec2};
use volley::physics::{apply, energy, half_apply_gravity, scale_velocity};

/// Twice one ten-thousandth of a court-unit energy, in scaled units:
/// the tolerance the energy rescale must beat (1e-4 * 2 * SCALE^2).
const ENERGY_TOL: i64 = 80_000;

fn court_floor() -> Vec<Line> {
    vec![Line::new(-20000, -18600, 20000, -18600)]
}

#[test]
fn half_kick_pulls_half_the_gravity() {
    let mut ball = Circle::new(0, 0, 2000);
    ball.velocity = Vec2 { x: 120, y: 500 };
    half_apply_gravity(&mut ball, GRAVITY);
    assert_eq!(ball.velocity.y, 475);
    assert_eq!(ball.velocity.x, 120);
    half_apply_gravity(&mut ball, GRAVITY);
    assert_eq!(ball.velocity.y, 450);
}

#[test]
fn energy_is_kinetic_plus_potential() {
    let mut ball = Circle::new(0, -6000, 2000);
    ball.velocity = Vec2 { x: 1000, y: 800 };
    // 2E = vx^2 + vy^2 + 2 g y for gravity (0, -g)
    let expected = 1000 * 1000 + 800 * 800 + 2 * GRAVITY * (-6000);
    assert_eq!(energy(&ball, 0, -GRAVITY), expected);
}

// A tick that meets no obstacle is a pure leapfrog step: position
// advances by the half-kicked velocity, velocity by the full gravity
// (proved for every such state by `lemma_no_collision_tick`; this
// checks one instance, and that the leapfrog conserves energy exactly).
#[test]
fn tick_without_collision_only_drifts_and_kicks() {
    let mut ball = Circle::new(0, -6000, 2000);
    ball.velocity = Vec2 { x: 1000, y: 800 };
    let e_before = energy(&ball, 0, -GRAVITY);
    apply(&mut ball, court_floor(), GRAVITY);
    assert_eq!(ball.velocity.x, 1000);
    assert_eq!(ball.velocity.y, 800 - GRAVITY);
    assert_eq!(ball.center.x, 0 + 1000);
    assert_eq!(ball.center.y, -6000 + (800 - GRAVITY / 2));
    // the symmetric half-kick scheme conserves 2E exactly between bounces
    assert_eq!(energy(&ball, 0, -GRAVITY), e_before);
}

#[test]
fn rescale_restores_the_energy_target() {
    let mut ball = Circle::new(0, -16000, 2000);
    ball.velocity = Vec2 { x: 300, y: 900 };
    // ask for the energy the ball has: the rescale must be almost a no-op
    let target = energy(&ball, 0, -GRAVITY);
    scale_velocity(&mut ball, target, 0, -GRAVITY);
    let after = energy(&ball, 0, -GRAVITY);
    assert!((after - target).abs() <= ENERGY_TOL);
    // a ball at rest has no direction to rescale along and stays at rest
    let mut still = Circle::new(0, -16000, 2000);
    scale_velocity(&mut still, target, 0, -GRAVITY);
    assert_eq!(still.velocity.x, 0);
    assert_eq!(still.velocity.y, 0);
}

#[test]
fn rescale_with_no_kinetic_share_stops_the_ball() {
    let mut ball = Circle::new(0, 10000, 2000);
    ball.velocity = Vec2 { x: 100, y: 0 };
    // a target far below the potential at this height leaves no kinetic
    // share; the ball is brought to rest rather than given an imaginary
    // speed
    scale_velocity(&mut ball, -10_000_000, 0, -GRAVITY);
    assert_eq!(ball.velocity.x, 0);
    assert_eq!(ball.velocity.y, 0);
}

// A ball sunk into a corner overlaps two segments at once; the
// resolution loop bounces off the nearer one, rescans, and ends clear
// of both.
#[test]
fn corner_overlap_resolves_clear_of_both_surfaces() {
    let floor = Line::new(-20000, -18600, 20000, -18600);
    let wall = Line::new(20000, -20000, 20000, 480_000);
    let mut ball = Circle::new(19000, -17500, 2000);
    ball.velocity = Vec2 { x: 900, y: -900 };
    assert!(ball.is_intersecting(&floor));
    assert!(ball.is_intersecting(&wall));
    apply(&mut ball, vec![floor, wall], GRAVITY);
    assert!(!ball.is_intersecting(&floor));
    assert!(!ball.is_intersecting(&wall));
}

// End-to-end drop: a ball released at rest above the floor falls under
// gravity alone, its vertical velocity reverses sign exactly on the
// tick where it first overlaps the floor, and the bounce restores the
// pre-bounce energy within the tolerance.
#[test]
fn dropped_ball_bounces_once_off_the_floor() {
    let mut ball = Circle::new(-10000, -6000, 2000);
    assert_eq!(ball.velocity.y, 0);
    let mut bounce_tick: Option<u32> = None;
    let mut e_before_bounce: i64 = 0;
    for t in 0..200u32 {
        let floor = court_floor();
        let vy_before = ball.velocity.y;
        let e_before = energy(&ball, 0, -GRAVITY);
        apply(&mut ball, floor, GRAVITY);
        if ball.velocity.y > 0 {
            assert!(vy_before <= 0);
            bounce_tick = Some(t);
            e_before_bounce = e_before;
            break;
        }
        // until the bounce the ball only falls
        assert!(ball.velocity.y <= vy_before);
        // and never sinks through the floor by more than its radius
        assert!(ball.center.y >= -18600 - 2000);
    }
    let t = bounce_tick.expect("the ball never bounced");
    assert!(t > 0, "the ball bounced before it could fall");
    // the ball now stands clear of the floor
    assert!(ball.center.y >= -18600 + 2000);
    // the rescale matched the pre-bounce energy within tolerance
    let e_after = energy(&ball, 0, -GRAVITY);
    assert!((e_after - e_before_bounce).abs() <= ENERGY_TOL);
}

// Over many ticks of bouncing, the energy never drifts beyond the
// per-bounce tolerance: the rescale re-targets the pre-bounce energy
// each time.
#[test]
fn energy_stays_bounded_over_many_bounces() {
    let mut ball = Circle::new(0, -6000, 2000);
    ball.velocity = Vec2 { x: 1000, y: 0 };
    let walls = vec![
        Line::new(-20000, -18600, 20000, -18600),
        Line::new(-20000, -20000, -20000, 480_000),
        Line::new(20000, -20000, 20000, 480_000),
    ];
    let e0 = energy(&ball, 0, -GRAVITY);
    for _ in 0..500 {
        let mut segs = Vec::new();
        segs.extend_from_slice(&walls);
        apply(&mut ball, segs, GRAVITY);
        let e = energy(&ball, 0, -GRAVITY);
        assert!((e - e0).abs() <= 20 * ENERGY_TOL);
        // the ball stays inside the court
        assert!(ball.center.x.abs() <= 20000);
        assert!(ball.center.y >= -18600 - 2000);
    }
}
