//! Tests for the world orchestration: construction, the input snapshot,
//! and full ticks of both controllers and the ball.

use volley::game::{
    court_segments, Input, World, GRAVITY, GROUND_Y, MOVE_SPEED, OPPONENT_MAX_X, OPPONENT_MIN_X,
    PLAYER_MAX_X, PLAYER_MIN_X,
};
use volley::physics::energy;

const NO_KEYS: Input = Input { left: false, right: false, jump: false };

#[test]
fn new_world_matches_the_starting_positions() {
    let w = World::new();
    assert_eq!((w.player.x, w.player.y), (-10000, GROUND_Y));
    assert_eq!((w.opponent.x, w.opponent.y), (10000, GROUND_Y));
    assert_eq!((w.player.min_x, w.player.max_x), (PLAYER_MIN_X, PLAYER_MAX_X));
    assert_eq!((w.opponent.min_x, w.opponent.max_x), (OPPONENT_MIN_X, OPPONENT_MAX_X));
    assert_eq!((w.ball.circle.center.x, w.ball.circle.center.y), (-10000, -6000));
    assert_eq!(w.ball.circle.radius, 2000);
    assert_eq!((w.ball.circle.velocity.x, w.ball.circle.velocity.y), (1000, 800));
}

#[test]
fn court_has_floor_walls_and_net() {
    let court = court_segments();
    assert_eq!(court.len(), 6);
    // the floor spans the court at -0.93
    assert_eq!((court[0].start.x, court[0].start.y), (-20000, -18600));
    assert_eq!((court[0].end.x, court[0].end.y), (20000, -18600));
    // the walls stand at the sides
    assert_eq!(court[1].start.x, -20000);
    assert_eq!(court[2].start.x, 20000);
    // the net rises to -0.25 in the middle
    assert_eq!((court[3].start.x, court[3].end.y), (-200, -5000));
    assert_eq!((court[4].start.x, court[4].end.y), (200, -5000));
    assert_eq!((court[5].start.y, court[5].end.y), (-5000, -5000));
}

#[test]
fn tick_without_input_leaves_the_characters_standing() {
    let mut w = World::new();
    w.tick(&NO_KEYS);
    assert_eq!(w.player.x, -10000);
    assert_eq!(w.player.y, GROUND_Y);
    assert_eq!(w.opponent.x, 10000);
    assert_eq!(w.opponent.y, GROUND_Y);
}

#[test]
fn tick_moves_the_player_by_the_run_speed() {
    let mut w = World::new();
    w.tick(&Input { left: false, right: true, jump: false });
    assert_eq!(w.player.x, -10000 + MOVE_SPEED);
    w.tick(&Input { left: true, right: false, jump: false });
    assert_eq!(w.player.x, -10000);
    // both keys held cancel out
    w.tick(&Input { left: true, right: true, jump: false });
    assert_eq!(w.player.x, -10000);
}

#[test]
fn tick_never_moves_the_opponent() {
    let mut w = World::new();
    for _ in 0..50 {
        w.tick(&Input { left: true, right: false, jump: true });
        assert_eq!(w.opponent.x, 10000);
        assert_eq!(w.opponent.y, GROUND_Y);
        assert_eq!(w.opponent.velocity.x, 0);
        assert_eq!(w.opponent.velocity.y, 0);
    }
}

#[test]
fn tick_advances_the_ball_under_gravity() {
    let mut w = World::new();
    w.tick(&NO_KEYS);
    // the serve velocity carries the ball up and right; gravity pulls it
    assert_eq!(w.ball.circle.center.x, -10000 + 1000);
    assert_eq!(w.ball.circle.center.y, -6000 + 800 - GRAVITY / 2);
    assert_eq!(w.ball.circle.velocity.y, 800 - GRAVITY);
}

#[test]
fn ball_stays_in_the_court_for_a_long_rally() {
    let mut w = World::new();
    let e0 = energy(&w.ball.circle, 0, -GRAVITY);
    for _ in 0..1000 {
        w.tick(&NO_KEYS);
        let c = &w.ball.circle;
        assert!(c.center.x >= -20000 - 2000);
        assert!(c.center.x <= 20000 + 2000);
        assert!(c.center.y >= -18600 - 2000);
        // no bounce feeds energy in beyond the rescale tolerance
        let e = energy(c, 0, -GRAVITY);
        assert!((e - e0).abs() <= 50 * 80_000);
    }
}

#[test]
fn jumping_player_rises_and_lands() {
    let mut w = World::new();
    w.tick(&Input { left: false, right: false, jump: true });
    assert!(w.player.y > GROUND_Y);
    let mut landed = false;
    for _ in 0..200 {
        w.tick(&NO_KEYS);
        if w.player.y == GROUND_Y {
            landed = true;
            break;
        }
    }
    assert!(landed);
}
