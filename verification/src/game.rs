//! The playable world: two character bodies under a deterministic
//! controller, one ball under the physics integrator, and the per-tick
//! orchestration that ties an input snapshot to both.
//!
//! All configuration (gravity, court bounds, speeds) is given by named
//! constants in fixed-point scalar units (`arith::SCALE` per court
//! unit); each character carries its own half-court bounds so that the
//! two halves mirror each other.

use vstd::prelude::*;

verus! {

use crate::arith::clamped;
use crate::arith::clamp_i64;
use crate::arith::div_trunc;
use crate::arith::div_tz;
use crate::geom::line_of;
use crate::geom::octagon_spec;
use crate::geom::seg_wf;
use crate::geom::Circle;
use crate::geom::Line;
use crate::geom::Point;
use crate::geom::Vec2;

/// Gravity pull per tick (0.0025 court units per tick squared).
pub const GRAVITY: i64 = 50;

/// Horizontal run speed of a character (0.02 court units per tick).
pub const MOVE_SPEED: i64 = 400;

/// Vertical take-off speed of a jump (0.06 court units per tick).
pub const JUMP_SPEED: i64 = 1200;

/// Height of the ground the characters stand on (-0.8 court units).
pub const GROUND_Y: i64 = -16000;

/// Tolerance of the on-ground test (0.001 court units).
pub const GROUND_EPS: i64 = 20;

/// Ceiling of a character's vertical position; saturation only, far
/// above any reachable jump.
pub const PLAYER_MAX_Y: i64 = 400_000;

/// Left and right bound of the left player's half of the court.
pub const PLAYER_MIN_X: i64 = -17400;

pub const PLAYER_MAX_X: i64 = -2800;

/// Left and right bound of the right player's half, mirroring the left.
pub const OPPONENT_MIN_X: i64 = 2800;

pub const OPPONENT_MAX_X: i64 = 17400;

/// Radius of a character's body collider (0.13 court units).
pub const PLAYER_BODY_RADIUS: i64 = 2600;

/// Radius of the ball (0.1 court units).
pub const BALL_RADIUS: i64 = 2000;

/// Bound on the magnitude of one force component.
pub const FORCE_COMP_CAP: i64 = 2_000;

/// Bound on how many forces a body may carry.
pub const MAX_FORCES: usize = 16;

/// Saturation bound for a character's velocity components.
pub const PLAYER_VEL_CAP: i64 = 2_000_000;

/// A list of constant per-tick accelerations, bounded so that their
/// sums stay small.
pub open spec fn forces_wf(fs: Seq<Vec2>) -> bool {
    &&& fs.len() <= MAX_FORCES
    &&& forall|i: int|
        0 <= i < fs.len() ==> -FORCE_COMP_CAP <= (#[trigger] fs[i]).x <= FORCE_COMP_CAP
            && -FORCE_COMP_CAP <= fs[i].y <= FORCE_COMP_CAP
}

/// The sum of the horizontal force components.
pub open spec fn sum_fx(fs: Seq<Vec2>) -> int
    decreases fs.len(),
{
    if fs.len() == 0 {
        0
    } else {
        sum_fx(fs.drop_last()) + fs.last().x
    }
}

/// The sum of the vertical force components.
pub open spec fn sum_fy(fs: Seq<Vec2>) -> int
    decreases fs.len(),
{
    if fs.len() == 0 {
        0
    } else {
        sum_fy(fs.drop_last()) + fs.last().y
    }
}

/// The sum of the halved (truncated) horizontal force components.
pub open spec fn half_sum_fx(fs: Seq<Vec2>) -> int
    decreases fs.len(),
{
    if fs.len() == 0 {
        0
    } else {
        half_sum_fx(fs.drop_last()) + div_tz(fs.last().x as int, 2)
    }
}

/// The sum of the halved (truncated) vertical force components.
pub open spec fn half_sum_fy(fs: Seq<Vec2>) -> int
    decreases fs.len(),
{
    if fs.len() == 0 {
        0
    } else {
        half_sum_fy(fs.drop_last()) + div_tz(fs.last().y as int, 2)
    }
}

/// Sums of well-formed force lists stay within one force cap per entry.
pub proof fn lemma_force_sums_bounded(fs: Seq<Vec2>)
    requires
        forces_wf(fs),
    ensures
        -FORCE_COMP_CAP * fs.len() <= sum_fx(fs) <= FORCE_COMP_CAP * fs.len(),
        -FORCE_COMP_CAP * fs.len() <= sum_fy(fs) <= FORCE_COMP_CAP * fs.len(),
        -FORCE_COMP_CAP * fs.len() <= half_sum_fx(fs) <= FORCE_COMP_CAP * fs.len(),
        -FORCE_COMP_CAP * fs.len() <= half_sum_fy(fs) <= FORCE_COMP_CAP * fs.len(),
    decreases fs.len(),
{
    if fs.len() > 0 {
        assert(forces_wf(fs.drop_last()));
        lemma_force_sums_bounded(fs.drop_last());
        crate::arith::lemma_div_tz_mag(fs.last().x as int, 2);
        crate::arith::lemma_div_tz_mag(fs.last().y as int, 2);
    }
}

/// A player-controlled body: its position, velocity, the constant
/// accelerations acting on it, and the bounds of its half of the court.
pub struct Player {
    pub x: i64,
    pub y: i64,
    pub velocity: Vec2,
    pub forces: Vec<Vec2>,
    pub min_x: i64,
    pub max_x: i64,
}

/// A character's invariant: bounds span a part of the court, the
/// position is inside them and above the ground, the velocity is
/// saturated, and the forces are bounded.
pub open spec fn player_wf(p: Player) -> bool {
    &&& -20_000 <= p.min_x <= p.max_x <= 20_000
    &&& p.min_x <= p.x <= p.max_x
    &&& GROUND_Y <= p.y <= PLAYER_MAX_Y
    &&& -PLAYER_VEL_CAP <= p.velocity.x <= PLAYER_VEL_CAP
    &&& -PLAYER_VEL_CAP <= p.velocity.y <= PLAYER_VEL_CAP
    &&& forces_wf(p.forces@)
}

/// The character is standing on the ground: its height is within the
/// tolerance of the ground level.
pub open spec fn on_ground_spec(p: Player) -> bool {
    -GROUND_EPS < p.y - GROUND_Y < GROUND_EPS
}

/// The character after its velocity is recomputed for one tick: the
/// horizontal velocity is set to the commanded speed (not accumulated),
/// every force is added in, the result is saturated, and a jump from
/// the ground overrides the vertical velocity with the jump speed.
pub open spec fn steered(p: Player, v_horiz: int, jmp: bool) -> Player {
    let vx = clamped(v_horiz + sum_fx(p.forces@), -PLAYER_VEL_CAP as int, PLAYER_VEL_CAP as int);
    let vy = if on_ground_spec(p) && jmp {
        JUMP_SPEED as int
    } else {
        clamped(
            p.velocity.y + sum_fy(p.forces@),
            -PLAYER_VEL_CAP as int,
            PLAYER_VEL_CAP as int,
        )
    };
    Player {
        x: p.x,
        y: p.y,
        velocity: Vec2 { x: vx as i64, y: vy as i64 },
        forces: p.forces,
        min_x: p.min_x,
        max_x: p.max_x,
    }
}

/// The character after advancing one tick at its current velocity: the
/// horizontal position is clamped to its half-court bounds and the
/// vertical position never goes below the ground.
pub open spec fn stepped(p: Player) -> Player {
    Player {
        x: clamped(p.x + p.velocity.x, p.min_x as int, p.max_x as int) as i64,
        y: clamped(p.y + p.velocity.y, GROUND_Y as int, PLAYER_MAX_Y as int) as i64,
        velocity: p.velocity,
        forces: p.forces,
        min_x: p.min_x,
        max_x: p.max_x,
    }
}

impl Player {
    /// A character at `(x, y)`, at rest under gravity, confined to the
    /// half-court `[min_x, max_x]`.
    pub fn new(x: i64, y: i64, min_x: i64, max_x: i64) -> (p: Player)
        requires
            -20_000 <= min_x <= max_x <= 20_000,
            min_x <= x <= max_x,
            GROUND_Y <= y <= PLAYER_MAX_Y,
        ensures
            p.x == x,
            p.y == y,
            p.velocity == (Vec2 { x: 0, y: 0 }),
            p.forces@.len() == 1,
            p.forces@[0] == (Vec2 { x: 0i64, y: (-GRAVITY) as i64 }),
            p.min_x == min_x,
            p.max_x == max_x,
            player_wf(p),
    {
        let g: i64 = -GRAVITY;
        let forces: Vec<Vec2> = vec![Vec2 { x: 0, y: g }];
        Player { x, y, velocity: Vec2 { x: 0, y: 0 }, forces, min_x, max_x }
    }

    /// Whether the character stands on the ground; a pure function of
    /// its current height.
    pub fn is_on_ground(&self) -> (r: bool)
        requires
            -1_000_000_000 <= self.y <= 1_000_000_000,
        ensures
            r == on_ground_spec(*self),
    {
        let d: i64 = self.y - GROUND_Y;
        -GROUND_EPS < d && d < GROUND_EPS
    }

    /// Recompute the velocity for one tick from the commanded
    /// horizontal speed and the jump flag; see [`steered`].
    pub fn calc_velocity(&mut self, v_horiz: i64, jmp: bool)
        requires
            player_wf(*old(self)),
            -20_000 <= v_horiz <= 20_000,
        ensures
            *final(self) == steered(*old(self), v_horiz as int, jmp),
            player_wf(*final(self)),
    {
        proof {
            lemma_force_sums_bounded(self.forces@);
        }
        let mut sx: i64 = 0;
        let mut sy: i64 = 0;
        let mut j: usize = 0;
        while j < self.forces.len()
            invariant
                j <= self.forces@.len(),
                forces_wf(self.forces@),
                sx == sum_fx(self.forces@.take(j as int)),
                sy == sum_fy(self.forces@.take(j as int)),
                -2_000 * j <= sx <= 2_000 * j,
                -2_000 * j <= sy <= 2_000 * j,
            decreases self.forces@.len() - j,
        {
            let ghost pre = self.forces@.take(j as int);
            let ghost post = self.forces@.take(j as int + 1);
            proof {
                assert(post.drop_last() =~= pre);
                assert(post.last() == self.forces@[j as int]);
            }
            let f: Vec2 = self.forces[j];
            proof {
                assert(f == self.forces@[j as int]);
                assert(-FORCE_COMP_CAP <= f.x <= FORCE_COMP_CAP
                    && -FORCE_COMP_CAP <= f.y <= FORCE_COMP_CAP);
            }
            sx = sx + f.x;
            sy = sy + f.y;
            j = j + 1;
        }
        proof {
            assert(self.forces@.take(self.forces@.len() as int) =~= self.forces@);
        }
        let on_ground: bool = self.is_on_ground();
        self.velocity.x = clamp_i64(v_horiz + sx, -PLAYER_VEL_CAP, PLAYER_VEL_CAP);
        if on_ground && jmp {
            self.velocity.y = JUMP_SPEED;
        } else {
            let vy0: i64 = self.velocity.y + sy;
            self.velocity.y = clamp_i64(vy0, -PLAYER_VEL_CAP, PLAYER_VEL_CAP);
        }
    }

    /// Advance the position by the velocity, clamped to the half-court
    /// bounds and the ground; see [`stepped`].
    pub fn apply_physics(&mut self)
        requires
            player_wf(*old(self)),
        ensures
            *final(self) == stepped(*old(self)),
            player_wf(*final(self)),
    {
        self.x = clamp_i64(self.x + self.velocity.x, self.min_x, self.max_x);
        self.y = clamp_i64(self.y + self.velocity.y, GROUND_Y, PLAYER_MAX_Y);
    }
}

/// Boundary clamp law: whatever is commanded, a tick leaves the
/// character inside its half of the court; by induction no run of
/// ticks ever takes it past its bounds.
pub proof fn lemma_half_court_clamp(p: Player, v_horiz: int, jmp: bool)
    ensures
        p.min_x <= p.max_x ==> p.min_x <= stepped(steered(p, v_horiz, jmp)).x <= p.max_x,
        stepped(steered(p, v_horiz, jmp)).y >= GROUND_Y,
{
}

/// The character under no input: velocity recomputed with zero
/// commanded speed and no jump, then advanced, `n` ticks in a row.
pub open spec fn coast(p: Player, n: nat) -> Player
    decreases n,
{
    if n == 0 {
        p
    } else {
        coast(stepped(steered(p, 0, false)), (n - 1) as nat)
    }
}

/// The ball: its physical circle and the constant accelerations acting
/// on it.  The model keeps a whole list of forces so that additions
/// (wind, say) need no change to the tick contract; play uses a single
/// gravity entry.
pub struct Ball {
    pub circle: Circle,
    pub forces: Vec<Vec2>,
}

/// The ball's invariant: a saturated physical state and bounded forces.
pub open spec fn ball_wf(b: Ball) -> bool {
    &&& crate::physics::state_wf(b.circle)
    &&& forces_wf(b.forces@)
}

/// The ball's circle after one tick against the obstacle set `segs`:
/// half of every force pulled into the velocity, a drift at that
/// velocity, the second halves, then the iterated collision resolution
/// and the saturation of [`crate::physics::apply_spec`], under the
/// total force.
pub open spec fn ball_tick_spec(b: Ball, segs: Seq<Line>) -> Circle {
    let fx = sum_fx(b.forces@);
    let fy = sum_fy(b.forces@);
    let hx = half_sum_fx(b.forces@);
    let hy = half_sum_fy(b.forces@);
    let kicked = Circle {
        center: b.circle.center,
        radius: b.circle.radius,
        velocity: Vec2 {
            x: (b.circle.velocity.x + hx) as i64,
            y: (b.circle.velocity.y + hy) as i64,
        },
    };
    let moved = crate::physics::drifted(kicked);
    let kicked_again = Circle {
        center: moved.center,
        radius: moved.radius,
        velocity: Vec2 {
            x: (moved.velocity.x + hx) as i64,
            y: (moved.velocity.y + hy) as i64,
        },
    };
    crate::physics::saturated(
        crate::physics::resolve_loop(
            kicked_again,
            segs,
            fx,
            fy,
            crate::physics::MAX_PASSES as nat,
        ),
    )
}

impl Ball {
    /// A ball at `(x, y)` with the serve velocity, under gravity.
    pub fn new(x: i64, y: i64) -> (b: Ball)
        requires
            -crate::physics::POS_CAP <= x <= crate::physics::POS_CAP,
            -crate::physics::POS_CAP <= y <= crate::physics::POS_CAP,
        ensures
            b.circle.center.x == x,
            b.circle.center.y == y,
            b.circle.radius == BALL_RADIUS,
            b.circle.velocity.x == 1000,
            b.circle.velocity.y == 800,
            b.forces@.len() == 1,
            b.forces@[0] == (Vec2 { x: 0i64, y: (-GRAVITY) as i64 }),
            ball_wf(b),
    {
        let g: i64 = -GRAVITY;
        let forces: Vec<Vec2> = vec![Vec2 { x: 0, y: g }];
        Ball {
            circle: Circle {
                center: Point { x, y },
                radius: BALL_RADIUS,
                velocity: Vec2 { x: 1000, y: 800 },
            },
            forces,
        }
    }

    /// The four force sums one tick needs: total and halved, per axis.
    fn sum_forces(&self) -> (r: (i64, i64, i64, i64))
        requires
            forces_wf(self.forces@),
        ensures
            r.0 == sum_fx(self.forces@),
            r.1 == sum_fy(self.forces@),
            r.2 == half_sum_fx(self.forces@),
            r.3 == half_sum_fy(self.forces@),
            -32_000 <= r.0 <= 32_000,
            -32_000 <= r.1 <= 32_000,
            -32_000 <= r.2 <= 32_000,
            -32_000 <= r.3 <= 32_000,
    {
        let mut sx: i64 = 0;
        let mut sy: i64 = 0;
        let mut hx: i64 = 0;
        let mut hy: i64 = 0;
        let mut j: usize = 0;
        while j < self.forces.len()
            invariant
                j <= self.forces@.len(),
                forces_wf(self.forces@),
                sx == sum_fx(self.forces@.take(j as int)),
                sy == sum_fy(self.forces@.take(j as int)),
                hx == half_sum_fx(self.forces@.take(j as int)),
                hy == half_sum_fy(self.forces@.take(j as int)),
                -2_000 * j <= sx <= 2_000 * j,
                -2_000 * j <= sy <= 2_000 * j,
                -2_000 * j <= hx <= 2_000 * j,
                -2_000 * j <= hy <= 2_000 * j,
            decreases self.forces@.len() - j,
        {
            let ghost pre = self.forces@.take(j as int);
            let ghost post = self.forces@.take(j as int + 1);
            proof {
                assert(post.drop_last() =~= pre);
                assert(post.last() == self.forces@[j as int]);
            }
            let f: Vec2 = self.forces[j];
            proof {
                assert(f == self.forces@[j as int]);
                assert(-FORCE_COMP_CAP <= f.x <= FORCE_COMP_CAP
                    && -FORCE_COMP_CAP <= f.y <= FORCE_COMP_CAP);
                crate::arith::lemma_div_tz_mag(f.x as int, 2);
                crate::arith::lemma_div_tz_mag(f.y as int, 2);
            }
            sx = sx + f.x;
            sy = sy + f.y;
            hx = hx + div_trunc(f.x, 2);
            hy = hy + div_trunc(f.y, 2);
            j = j + 1;
        }
        proof {
            assert(self.forces@.take(self.forces@.len() as int) =~= self.forces@);
        }
        (sx, sy, hx, hy)
    }

    /// Twice the ball's total mechanical energy under its own forces.
    pub fn energy(&self) -> (e: i64)
        requires
            ball_wf(*self),
        ensures
            e == crate::physics::energy2(
                self.circle,
                sum_fx(self.forces@),
                sum_fy(self.forces@),
            ),
    {
        let sums: (i64, i64, i64, i64) = self.sum_forces();
        crate::physics::energy(&self.circle, sums.0, sums.1)
    }

    /// Advance the ball one tick against the obstacle segments
    /// `particles`; see [`ball_tick_spec`] for the exact law.
    pub fn apply_physics(&mut self, particles: &Vec<Line>)
        requires
            ball_wf(*old(self)),
            forall|i: int| 0 <= i < particles@.len() ==> seg_wf(#[trigger] particles@[i]),
        ensures
            final(self).circle == ball_tick_spec(*old(self), particles@),
            final(self).forces == old(self).forces,
            ball_wf(*final(self)),
    {
        let sums: (i64, i64, i64, i64) = self.sum_forces();
        self.circle.velocity.x = self.circle.velocity.x + sums.2;
        self.circle.velocity.y = self.circle.velocity.y + sums.3;
        self.circle.center.x = self.circle.center.x + self.circle.velocity.x;
        self.circle.center.y = self.circle.center.y + self.circle.velocity.y;
        self.circle.velocity.x = self.circle.velocity.x + sums.2;
        self.circle.velocity.y = self.circle.velocity.y + sums.3;
        crate::physics::resolve_collisions(&mut self.circle, particles, sums.0, sums.1);
        crate::physics::clamp_ball(&mut self.circle);
    }
}

/// Ground clamp law: a character under gravity alone, not rising,
/// reaches exactly the ground level after at most one tick per
/// `GRAVITY` of height above it, and then reports standing on ground.
pub proof fn lemma_ground_clamp(p: Player, n: nat)
    requires
        player_wf(p),
        sum_fx(p.forces@) == 0,
        sum_fy(p.forces@) == -GRAVITY,
        p.velocity.y <= 0,
        p.y - GROUND_Y <= n * GRAVITY,
    ensures
        coast(p, n).y == GROUND_Y,
        on_ground_spec(coast(p, n)),
        player_wf(coast(p, n)),
    decreases n,
{
    if n == 0 {
        assert(p.y == GROUND_Y);
    } else {
        let p1 = stepped(steered(p, 0, false));
        assert(player_wf(p1));
        assert(p1.velocity.y <= 0);
        assert(p1.y - GROUND_Y <= (n - 1) * GRAVITY);
        lemma_ground_clamp(p1, (n - 1) as nat);
    }
}

/// Half-width of the court: the side walls stand one court unit out.
pub const COURT_HALF_WIDTH: i64 = 20000;

/// Height of the floor segment the ball bounces on (-0.93 court
/// units; below the characters' ground so the ball rolls past them).
pub const FLOOR_Y: i64 = -18600;

/// Bottom anchor of the walls and the net (-1.0 court units).
pub const WALL_BOTTOM_Y: i64 = -20000;

/// Top of the side walls (24 court units; tall enough that no
/// court-scale trajectory clears them).
pub const WALL_TOP_Y: i64 = 480_000;

/// Half-width of the net (0.01 court units).
pub const NET_HALF_WIDTH: i64 = 200;

/// Height of the net's top edge (-0.25 court units).
pub const NET_TOP_Y: i64 = -5000;

/// The fixed court boundary: the floor, the two side walls, and the
/// net's two uprights and top edge.
pub open spec fn court_spec() -> Seq<Line> {
    seq![
        line_of(
            -(COURT_HALF_WIDTH as int),
            FLOOR_Y as int,
            COURT_HALF_WIDTH as int,
            FLOOR_Y as int,
        ),
        line_of(
            -(COURT_HALF_WIDTH as int),
            WALL_BOTTOM_Y as int,
            -(COURT_HALF_WIDTH as int),
            WALL_TOP_Y as int,
        ),
        line_of(
            COURT_HALF_WIDTH as int,
            WALL_BOTTOM_Y as int,
            COURT_HALF_WIDTH as int,
            WALL_TOP_Y as int,
        ),
        line_of(
            -(NET_HALF_WIDTH as int),
            WALL_BOTTOM_Y as int,
            -(NET_HALF_WIDTH as int),
            NET_TOP_Y as int,
        ),
        line_of(
            NET_HALF_WIDTH as int,
            WALL_BOTTOM_Y as int,
            NET_HALF_WIDTH as int,
            NET_TOP_Y as int,
        ),
        line_of(
            -(NET_HALF_WIDTH as int),
            NET_TOP_Y as int,
            NET_HALF_WIDTH as int,
            NET_TOP_Y as int,
        ),
    ]
}

/// Build the fixed court boundary segments.
pub fn court_segments() -> (v: Vec<Line>)
    ensures
        v@ == court_spec(),
        v@.len() == 6,
        forall|i: int| 0 <= i < v@.len() ==> seg_wf(#[trigger] v@[i]),
{
    let w: i64 = COURT_HALF_WIDTH;
    let nw: i64 = -COURT_HALF_WIDTH;
    let n: i64 = NET_HALF_WIDTH;
    let nn: i64 = -NET_HALF_WIDTH;
    let v: Vec<Line> = vec![
        Line::new(nw, FLOOR_Y, w, FLOOR_Y),
        Line::new(nw, WALL_BOTTOM_Y, nw, WALL_TOP_Y),
        Line::new(w, WALL_BOTTOM_Y, w, WALL_TOP_Y),
        Line::new(nn, WALL_BOTTOM_Y, nn, NET_TOP_Y),
        Line::new(n, WALL_BOTTOM_Y, n, NET_TOP_Y),
        Line::new(nn, NET_TOP_Y, n, NET_TOP_Y),
    ];
    proof {
        assert(v@ =~= court_spec());
    }
    v
}

/// The circular collider a character presents to the ball.
pub open spec fn collider_spec(p: Player) -> Circle {
    Circle {
        center: Point { x: p.x, y: p.y },
        radius: PLAYER_BODY_RADIUS,
        velocity: Vec2 { x: 0, y: 0 },
    }
}

/// The obstacle set of one tick: the fixed court boundary plus the two
/// characters' body octagons, rebuilt fresh from current positions.
pub open spec fn world_segments(player: Player, opponent: Player) -> Seq<Line> {
    court_spec() + octagon_spec(collider_spec(player)) + octagon_spec(collider_spec(opponent))
}

/// The per-tick input snapshot: which movement keys are held.
#[derive(Clone, Copy, PartialEq, Eq, Structural, Debug)]
pub struct Input {
    pub left: bool,
    pub right: bool,
    pub jump: bool,
}

/// The root aggregate: two characters and the ball.
pub struct World {
    pub player: Player,
    pub opponent: Player,
    pub ball: Ball,
}

/// The world invariant: both characters and the ball are well-formed.
pub open spec fn world_wf(w: World) -> bool {
    &&& player_wf(w.player)
    &&& player_wf(w.opponent)
    &&& ball_wf(w.ball)
}

impl World {
    /// The starting world: the player on the left half, the opponent
    /// mirrored on the right, the ball served above the player.
    pub fn new() -> (w: World)
        ensures
            world_wf(w),
            w.player.x == -10000 && w.player.y == GROUND_Y,
            w.player.min_x == PLAYER_MIN_X && w.player.max_x == PLAYER_MAX_X,
            w.player.velocity == (Vec2 { x: 0, y: 0 }),
            w.player.forces@ =~= seq![Vec2 { x: 0i64, y: (-GRAVITY) as i64 }],
            w.opponent.x == 10000 && w.opponent.y == GROUND_Y,
            w.opponent.min_x == OPPONENT_MIN_X && w.opponent.max_x == OPPONENT_MAX_X,
            w.opponent.velocity == (Vec2 { x: 0, y: 0 }),
            w.opponent.forces@ =~= seq![Vec2 { x: 0i64, y: (-GRAVITY) as i64 }],
            w.ball.circle.center.x == -10000 && w.ball.circle.center.y == -6000,
            w.ball.circle.radius == BALL_RADIUS,
            w.ball.circle.velocity == (Vec2 { x: 1000, y: 800 }),
            w.ball.forces@ =~= seq![Vec2 { x: 0i64, y: (-GRAVITY) as i64 }],
    {
        World {
            player: Player::new(-10000, GROUND_Y, PLAYER_MIN_X, PLAYER_MAX_X),
            opponent: Player::new(10000, GROUND_Y, OPPONENT_MIN_X, OPPONENT_MAX_X),
            ball: Ball::new(-10000, -6000),
        }
    }

    /// Advance the world by one tick: steer and step the player from
    /// the input snapshot, rebuild the obstacle set from the fresh
    /// character positions, and integrate the ball against it.  The
    /// opponent is driven by no input source here and stays put.
    pub fn tick(&mut self, input: &Input)
        requires
            world_wf(*old(self)),
        ensures
            world_wf(*final(self)),
            final(self).opponent == old(self).opponent,
            ({
                let dir: int = (if input.right { 1int } else { 0int })
                    - (if input.left { 1int } else { 0int });
                final(self).player == stepped(
                    steered(old(self).player, MOVE_SPEED * dir, input.jump),
                )
            }),
            final(self).ball.circle == ball_tick_spec(
                old(self).ball,
                world_segments(final(self).player, old(self).opponent),
            ),
            final(self).ball.forces == old(self).ball.forces,
    {
        let mut horiz: i64 = 0;
        if input.right {
            horiz = horiz + 1;
        }
        if input.left {
            horiz = horiz - 1;
        }
        self.player.calc_velocity(MOVE_SPEED * horiz, input.jump);
        self.player.apply_physics();
        let mut segs: Vec<Line> = court_segments();
        let pc: Circle = Circle::new(self.player.x, self.player.y, PLAYER_BODY_RADIUS);
        let mut po: Vec<Line> = pc.approx();
        let ghost player_oct = po@;
        segs.append(&mut po);
        let oc: Circle = Circle::new(self.opponent.x, self.opponent.y, PLAYER_BODY_RADIUS);
        let mut oo: Vec<Line> = oc.approx();
        let ghost opp_oct = oo@;
        segs.append(&mut oo);
        proof {
            assert(segs@ =~= world_segments(self.player, self.opponent));
            assert forall|i: int| 0 <= i < segs@.len() implies seg_wf(#[trigger] segs@[i]) by {
                if i < 6 {
                    assert(segs@[i] == court_spec()[i]);
                } else if i < 14 {
                    assert(segs@[i] == player_oct[i - 6]);
                } else {
                    assert(segs@[i] == opp_oct[i - 14]);
                }
            }
        }
        self.ball.apply_physics(&segs);
    }
}

} // verus!
