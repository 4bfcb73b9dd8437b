//! Tests for the character controller: running, jumping, the ground
//! test, and the two clamping laws.

use volley::game::{
    Player, GRAVITY, GROUND_Y, JUMP_SPEED, MOVE_SPEED, PLAYER_MAX_X, PLAYER_MIN_X,
};

fn left_player(x: i64, y: i64) -> Player {
    Player::new(x, y, PLAYER_MIN_X, PLAYER_MAX_X)
}

#[test]
fn new_player_rests_under_gravity() {
    let p = left_player(-10000, GROUND_Y);
    assert_eq!(p.x, -10000);
    assert_eq!(p.y, GROUND_Y);
    assert_eq!(p.velocity.x, 0);
    assert_eq!(p.velocity.y, 0);
    assert_eq!(p.forces.len(), 1);
    assert_eq!(p.forces[0].x, 0);
    assert_eq!(p.forces[0].y, -GRAVITY);
    assert!(p.is_on_ground());
}

#[test]
fn ground_test_tolerance_is_strict() {
    let mut p = left_player(-10000, GROUND_Y);
    p.y = GROUND_Y + 19;
    assert!(p.is_on_ground());
    p.y = GROUND_Y + 20;
    assert!(!p.is_on_ground());
    p.y = GROUND_Y + 2000;
    assert!(!p.is_on_ground());
}

#[test]
fn horizontal_velocity_is_commanded_not_accumulated() {
    let mut p = left_player(-10000, GROUND_Y);
    p.calc_velocity(MOVE_SPEED, false);
    assert_eq!(p.velocity.x, MOVE_SPEED);
    assert_eq!(p.velocity.y, -GRAVITY);
    // commanding again does not add up
    p.calc_velocity(MOVE_SPEED, false);
    assert_eq!(p.velocity.x, MOVE_SPEED);
    // gravity, in contrast, accumulates
    assert_eq!(p.velocity.y, -2 * GRAVITY);
    p.calc_velocity(0, false);
    assert_eq!(p.velocity.x, 0);
}

#[test]
fn jump_from_the_ground_sets_the_jump_speed() {
    let mut p = left_player(-10000, GROUND_Y);
    p.calc_velocity(0, true);
    assert_eq!(p.velocity.y, JUMP_SPEED);
    p.apply_physics();
    assert_eq!(p.y, GROUND_Y + JUMP_SPEED);
    // airborne now: a second jump request is ignored
    p.calc_velocity(0, true);
    assert_eq!(p.velocity.y, JUMP_SPEED - GRAVITY);
}

#[test]
fn position_advances_by_the_velocity() {
    let mut p = left_player(-10000, GROUND_Y + 5000);
    p.calc_velocity(-MOVE_SPEED, false);
    p.apply_physics();
    assert_eq!(p.x, -10000 - MOVE_SPEED);
    assert_eq!(p.y, GROUND_Y + 5000 - GRAVITY);
}

// Ground clamp: released above the ground with no input, the character
// converges to exactly the ground level and reports standing on it
// (proved for every such start by `lemma_ground_clamp`; this checks one
// fall).
#[test]
fn falling_character_lands_exactly_on_the_ground() {
    let mut p = left_player(-10000, GROUND_Y + 9000);
    assert!(!p.is_on_ground());
    let mut landed_at: Option<u32> = None;
    for t in 0..400u32 {
        p.calc_velocity(0, false);
        p.apply_physics();
        assert!(p.y >= GROUND_Y);
        if p.y == GROUND_Y {
            landed_at = Some(t);
            break;
        }
    }
    assert!(landed_at.is_some(), "the character never landed");
    assert!(p.is_on_ground());
    // and it stays put from then on
    p.calc_velocity(0, false);
    p.apply_physics();
    assert_eq!(p.y, GROUND_Y);
    assert!(p.is_on_ground());
}

// Boundary clamp: sustained rightward input never takes the player past
// its half-court bound (proved for every state by
// `lemma_half_court_clamp`; this drives one player to the wall).
#[test]
fn sustained_rightward_input_stops_at_the_half_court_bound() {
    let mut p = left_player(-10000, GROUND_Y);
    for _ in 0..100 {
        p.calc_velocity(MOVE_SPEED, false);
        p.apply_physics();
        assert!(p.x <= PLAYER_MAX_X);
        assert!(p.x >= PLAYER_MIN_X);
    }
    // after 100 ticks of running right it is pinned at the bound
    assert_eq!(p.x, PLAYER_MAX_X);
}

#[test]
fn sustained_leftward_input_stops_at_the_other_bound() {
    let mut p = left_player(-10000, GROUND_Y);
    for _ in 0..100 {
        p.calc_velocity(-MOVE_SPEED, false);
        p.apply_physics();
        assert!(p.x >= PLAYER_MIN_X);
    }
    assert_eq!(p.x, PLAYER_MIN_X);
}

#[test]
fn jump_arc_returns_to_the_ground() {
    let mut p = left_player(-10000, GROUND_Y);
    p.calc_velocity(0, true);
    p.apply_physics();
    let mut peak: i64 = p.y;
    let mut landed = false;
    for _ in 0..200 {
        p.calc_velocity(0, false);
        p.apply_physics();
        if p.y > peak {
            peak = p.y;
        }
        if p.is_on_ground() {
            landed = true;
            break;
        }
    }
    assert!(landed, "the jump never came down");
    // the arc topped out near v^2 / (2 g) above the ground
    assert!(peak > GROUND_Y + 10000);
    assert!(peak <= GROUND_Y + JUMP_SPEED * JUMP_SPEED / (2 * GRAVITY) + JUMP_SPEED);
}
