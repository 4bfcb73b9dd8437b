//! The ball integrator: symmetric half-kick gravity, drift, and an
//! iterated, energy-conserving collision resolution against a set of
//! obstacle segments.
//!
//! Energy is tracked as twice the mechanical energy in squared scalar
//! units (`2 E = |v|^2 - 2 f . p` for a constant per-tick acceleration
//! `f`), which is an exact integer of the state: kinetic `|v|^2` plus,
//! for gravity `(0, -g)`, the potential `2 g y`.

use vstd::prelude::*;

verus! {

use crate::arith::clamped;
use crate::arith::clamp_i64;
use crate::arith::div_tz;
use crate::arith::is_isqrt;
use crate::arith::isqrt;
use crate::arith::isqrt_i64;
use crate::arith::lemma_div_tz_le_bound;
use crate::arith::lemma_isqrt_exists;
use crate::geom::bounce_spec;
use crate::geom::circle_wf;
use crate::geom::dist_sq_spec;
use crate::geom::is_intersecting_spec;
use crate::geom::seg_wf;
use crate::geom::Circle;
use crate::geom::Line;
use crate::geom::Point;
use crate::geom::Vec2;
use crate::geom::GEOM_BOUND;
use crate::geom::RADIUS_CAP;

/// Saturation bound for the ball's position between ticks.
pub const POS_CAP: i64 = 2_000_000;

/// Saturation bound for the ball's velocity between ticks.
pub const VEL_CAP: i64 = 2_000_000;

/// Bound on a constant per-tick acceleration component.
pub const FORCE_CAP: i64 = 32_000;

/// Cap on collision-resolution passes in one tick; exceeding it leaves
/// the ball at the last resolved position.
pub const MAX_PASSES: u64 = 24;

/// The ball's state between ticks: position and velocity saturated,
/// radius positive and capped.
pub open spec fn state_wf(c: Circle) -> bool {
    &&& -POS_CAP <= c.center.x <= POS_CAP
    &&& -POS_CAP <= c.center.y <= POS_CAP
    &&& -VEL_CAP <= c.velocity.x <= VEL_CAP
    &&& -VEL_CAP <= c.velocity.y <= VEL_CAP
    &&& 0 < c.radius <= RADIUS_CAP
}

/// Twice the kinetic energy: the squared magnitude of the velocity.
pub open spec fn double_kinetic(c: Circle) -> int {
    c.velocity.x * c.velocity.x + c.velocity.y * c.velocity.y
}

/// Twice the potential energy under the constant acceleration
/// `(fx, fy)`: `-2 f . p`.  For gravity `(0, -g)` this is `2 g y`.
pub open spec fn double_potential(c: Circle, fx: int, fy: int) -> int {
    -2 * (fx * c.center.x + fy * c.center.y)
}

/// Twice the total mechanical energy under the constant acceleration
/// `(fx, fy)`.
pub open spec fn energy2(c: Circle, fx: int, fy: int) -> int {
    double_kinetic(c) + double_potential(c, fx, fy)
}

/// The ball after half of the gravity pull `gravity` is applied to its
/// vertical velocity.
pub open spec fn half_kicked(c: Circle, gravity: int) -> Circle {
    Circle {
        center: c.center,
        radius: c.radius,
        velocity: Vec2 { x: c.velocity.x, y: (c.velocity.y - gravity / 2) as i64 },
    }
}

/// The ball after drifting for one tick at its current velocity.
pub open spec fn drifted(c: Circle) -> Circle {
    Circle {
        center: Point {
            x: (c.center.x + c.velocity.x) as i64,
            y: (c.center.y + c.velocity.y) as i64,
        },
        radius: c.radius,
        velocity: c.velocity,
    }
}

/// The ball with velocity rescaled so that twice its total energy
/// returns to `target`: the new speed is the square root of the kinetic
/// share `target` leaves at the current height.  A negative share is
/// treated as zero, and a ball at rest is left at rest (no direction to
/// rescale along).
pub open spec fn rescaled(c: Circle, target: int, fx: int, fy: int) -> Circle {
    let w = double_kinetic(c);
    let k0 = target - double_potential(c, fx, fy);
    let k = if k0 < 0 {
        0
    } else {
        k0
    };
    if w == 0 {
        c
    } else {
        let s = isqrt(k);
        let m = isqrt(w);
        Circle {
            center: c.center,
            radius: c.radius,
            velocity: Vec2 {
                x: div_tz(c.velocity.x * s, m) as i64,
                y: div_tz(c.velocity.y * s, m) as i64,
            },
        }
    }
}

/// The ball with position and velocity saturated to the inter-tick
/// caps.  Far outside any court-scale state; a defensive recovery in
/// the same spirit as the pass cap.
pub open spec fn saturated(c: Circle) -> Circle {
    Circle {
        center: Point {
            x: clamped(c.center.x as int, -POS_CAP as int, POS_CAP as int) as i64,
            y: clamped(c.center.y as int, -POS_CAP as int, POS_CAP as int) as i64,
        },
        radius: c.radius,
        velocity: Vec2 {
            x: clamped(c.velocity.x as int, -VEL_CAP as int, VEL_CAP as int) as i64,
            y: clamped(c.velocity.y as int, -VEL_CAP as int, VEL_CAP as int) as i64,
        },
    }
}

/// Twice the ball's total mechanical energy under the constant
/// acceleration `(fx, fy)`, as an exact integer.
pub fn energy(ball: &Circle, fx: i64, fy: i64) -> (e: i64)
    requires
        -GEOM_BOUND <= ball.center.x <= GEOM_BOUND,
        -GEOM_BOUND <= ball.center.y <= GEOM_BOUND,
        -GEOM_BOUND <= ball.velocity.x <= GEOM_BOUND,
        -GEOM_BOUND <= ball.velocity.y <= GEOM_BOUND,
        -FORCE_CAP <= fx <= FORCE_CAP,
        -FORCE_CAP <= fy <= FORCE_CAP,
    ensures
        e == energy2(*ball, fx as int, fy as int),
        -2_000_000_000_000_000 <= e <= 2_000_000_000_000_000,
{
    proof {
        assert(0 <= ball.velocity.x * ball.velocity.x <= 256_000_000_000_000int
            && 0 <= ball.velocity.y * ball.velocity.y <= 256_000_000_000_000int)
            by (nonlinear_arith)
            requires
                -GEOM_BOUND <= ball.velocity.x <= GEOM_BOUND,
                -GEOM_BOUND <= ball.velocity.y <= GEOM_BOUND,
                GEOM_BOUND == 16_000_000i64,
        ;
        assert(-512_000_000_000int <= fx * ball.center.x <= 512_000_000_000int
            && -512_000_000_000int <= fy * ball.center.y <= 512_000_000_000int)
            by (nonlinear_arith)
            requires
                -GEOM_BOUND <= ball.center.x <= GEOM_BOUND,
                -GEOM_BOUND <= ball.center.y <= GEOM_BOUND,
                -FORCE_CAP <= fx <= FORCE_CAP,
                -FORCE_CAP <= fy <= FORCE_CAP,
                GEOM_BOUND == 16_000_000i64,
                FORCE_CAP == 32_000i64,
        ;
    }
    let kin: i64 = ball.velocity.x * ball.velocity.x + ball.velocity.y * ball.velocity.y;
    let fp: i64 = fx * ball.center.x + fy * ball.center.y;
    kin - 2 * fp
}

/// Pull half of the gravity `gravity` into the ball's vertical
/// velocity; one of the two half-kicks bracketing the drift.
pub fn half_apply_gravity(ball: &mut Circle, gravity: i64)
    requires
        0 <= gravity <= FORCE_CAP,
        -1_000_000_000 <= old(ball).velocity.y <= 1_000_000_000,
    ensures
        *final(ball) == half_kicked(*old(ball), gravity as int),
        final(ball).velocity.y == old(ball).velocity.y - gravity / 2,
{
    ball.velocity.y = ball.velocity.y - gravity / 2;
}

/// Rescale the ball's velocity so that twice its total energy under
/// `(fx, fy)` returns to `target`; see [`rescaled`] for the exact law.
pub fn scale_velocity(ball: &mut Circle, target: i64, fx: i64, fy: i64)
    requires
        -100_000_000 <= old(ball).center.x <= 100_000_000,
        -100_000_000 <= old(ball).center.y <= 100_000_000,
        -100_000_000 <= old(ball).velocity.x <= 100_000_000,
        -100_000_000 <= old(ball).velocity.y <= 100_000_000,
        -FORCE_CAP <= fx <= FORCE_CAP,
        -FORCE_CAP <= fy <= FORCE_CAP,
        -2_000_000_000_000_000 <= target <= 2_000_000_000_000_000,
    ensures
        *final(ball) == rescaled(*old(ball), target as int, fx as int, fy as int),
        final(ball).center == old(ball).center,
        final(ball).radius == old(ball).radius,
{
    proof {
        assert(0 <= ball.velocity.x * ball.velocity.x <= 10_000_000_000_000_000int
            && 0 <= ball.velocity.y * ball.velocity.y <= 10_000_000_000_000_000int)
            by (nonlinear_arith)
            requires
                -100_000_000 <= ball.velocity.x <= 100_000_000,
                -100_000_000 <= ball.velocity.y <= 100_000_000,
        ;
        assert(-3_200_000_000_000int <= fx * ball.center.x <= 3_200_000_000_000int
            && -3_200_000_000_000int <= fy * ball.center.y <= 3_200_000_000_000int)
            by (nonlinear_arith)
            requires
                -100_000_000 <= ball.center.x <= 100_000_000,
                -100_000_000 <= ball.center.y <= 100_000_000,
                -FORCE_CAP <= fx <= FORCE_CAP,
                -FORCE_CAP <= fy <= FORCE_CAP,
                FORCE_CAP == 32_000i64,
        ;
    }
    let w: i64 = ball.velocity.x * ball.velocity.x + ball.velocity.y * ball.velocity.y;
    let fp: i64 = fx * ball.center.x + fy * ball.center.y;
    let k0: i64 = target + 2 * fp;
    let k: i64 = if k0 < 0 {
        0
    } else {
        k0
    };
    if w == 0 {
        return ;
    }
    let s: i64 = isqrt_i64(k);
    let m: i64 = isqrt_i64(w);
    proof {
        assert(m >= 1 && -m <= ball.velocity.x <= m && -m <= ball.velocity.y <= m)
            by (nonlinear_arith)
            requires
                is_isqrt(w as int, m as int),
                w >= 1,
                w == ball.velocity.x * ball.velocity.x + ball.velocity.y * ball.velocity.y,
        ;
        assert(0 <= s <= 45_000_000) by (nonlinear_arith)
            requires
                is_isqrt(k as int, s as int),
                0 <= k <= 2_020_000_000_000_000int,
        ;
        assert(-(s * m) <= ball.velocity.x * s <= s * m
            && -(s * m) <= ball.velocity.y * s <= s * m
            && -0x7fff_ffff_ffff_ffff <= ball.velocity.x * s <= 0x7fff_ffff_ffff_ffff
            && -0x7fff_ffff_ffff_ffff <= ball.velocity.y * s <= 0x7fff_ffff_ffff_ffff)
            by (nonlinear_arith)
            requires
                -m <= ball.velocity.x <= m,
                -m <= ball.velocity.y <= m,
                -100_000_000 <= ball.velocity.x <= 100_000_000,
                -100_000_000 <= ball.velocity.y <= 100_000_000,
                0 <= s <= 45_000_000,
        ;
        lemma_div_tz_le_bound(ball.velocity.x as int * s as int, m as int, s as int);
        lemma_div_tz_le_bound(ball.velocity.y as int * s as int, m as int, s as int);
    }
    let vx: i64 = crate::arith::mul_div(ball.velocity.x, s, m);
    let vy: i64 = crate::arith::mul_div(ball.velocity.y, s, m);
    ball.velocity.x = vx;
    ball.velocity.y = vy;
    proof {
        assert(*ball == rescaled(*old(ball), target as int, fx as int, fy as int));
    }
}

/// The obstacle the resolution pass bounces off: among the segments the
/// ball overlaps, the one closest to its centre, and among equally
/// close ones the earliest in the list.  `None` when the ball overlaps
/// no segment.
pub open spec fn pick_rec(c: Circle, segs: Seq<Line>) -> Option<int>
    decreases segs.len(),
{
    if segs.len() == 0 {
        None
    } else {
        let i = segs.len() - 1;
        let prev = pick_rec(c, segs.drop_last());
        if !is_intersecting_spec(c, segs[i as int]) {
            prev
        } else {
            match prev {
                None => Some(i as int),
                Some(j) => if dist_sq_spec(c, segs[i as int]) < dist_sq_spec(c, segs[j]) {
                    Some(i as int)
                } else {
                    Some(j)
                },
            }
        }
    }
}

/// A picked obstacle is a real, overlapped segment; no pick means no
/// segment is overlapped.
pub proof fn lemma_pick_rec_props(c: Circle, segs: Seq<Line>)
    ensures
        match pick_rec(c, segs) {
            Some(i) => 0 <= i < segs.len() && is_intersecting_spec(c, segs[i]),
            None => forall|j: int|
                0 <= j < segs.len() ==> !is_intersecting_spec(c, #[trigger] segs[j]),
        },
    decreases segs.len(),
{
    if segs.len() > 0 {
        lemma_pick_rec_props(c, segs.drop_last());
        assert(forall|j: int|
            0 <= j < segs.len() - 1 ==> segs.drop_last()[j] == #[trigger] segs[j]);
    }
}

/// One resolution pass against a single overlapped segment: capture the
/// energy, bounce, rescale the velocity back to the captured energy,
/// and saturate.
pub open spec fn resolve_step(c: Circle, l: Line, fx: int, fy: int) -> Circle {
    saturated(rescaled(bounce_spec(c, l), energy2(c, fx, fy), fx, fy))
}

/// The iterated collision resolution: bounce off the closest overlapped
/// segment and rescan, until no segment is overlapped or the pass
/// budget runs out.
pub open spec fn resolve_loop(c: Circle, segs: Seq<Line>, fx: int, fy: int, fuel: nat) -> Circle
    decreases fuel,
{
    if fuel == 0 {
        c
    } else {
        match pick_rec(c, segs) {
            None => c,
            Some(i) => resolve_loop(
                resolve_step(c, segs[i], fx, fy),
                segs,
                fx,
                fy,
                (fuel - 1) as nat,
            ),
        }
    }
}

/// A ball that overlaps nothing is left exactly where it is by the
/// resolution loop, whatever the pass budget.
pub proof fn lemma_resolve_loop_settled(c: Circle, segs: Seq<Line>, fx: int, fy: int, fuel: nat)
    requires
        pick_rec(c, segs) is None,
    ensures
        resolve_loop(c, segs, fx, fy, fuel) == c,
{
}

/// Find the obstacle to bounce off: the overlapped segment closest to
/// the ball's centre, earliest in the list on ties.
fn find_target(ball: &Circle, particles: &Vec<Line>) -> (r: Option<usize>)
    requires
        forall|i: int| 0 <= i < particles@.len() ==> seg_wf(#[trigger] particles@[i]),
        -GEOM_BOUND <= ball.center.x <= GEOM_BOUND,
        -GEOM_BOUND <= ball.center.y <= GEOM_BOUND,
        0 <= ball.radius <= RADIUS_CAP,
    ensures
        match r {
            Some(i) => pick_rec(*ball, particles@) == Some(i as int),
            None => pick_rec(*ball, particles@) is None,
        },
{
    let mut best: Option<usize> = None;
    let mut best_d: i64 = 0;
    let mut j: usize = 0;
    while j < particles.len()
        invariant
            j <= particles@.len(),
            forall|i: int| 0 <= i < particles@.len() ==> seg_wf(#[trigger] particles@[i]),
            -GEOM_BOUND <= ball.center.x <= GEOM_BOUND,
            -GEOM_BOUND <= ball.center.y <= GEOM_BOUND,
            0 <= ball.radius <= RADIUS_CAP,
            match best {
                Some(b) => b < j && pick_rec(*ball, particles@.take(j as int)) == Some(b as int)
                    && best_d == dist_sq_spec(*ball, particles@[b as int]),
                None => pick_rec(*ball, particles@.take(j as int)) is None,
            },
        decreases particles@.len() - j,
    {
        let ghost pre = particles@.take(j as int);
        let ghost post = particles@.take(j as int + 1);
        proof {
            assert(post.drop_last() =~= pre);
            assert(post.last() == particles@[j as int]);
        }
        let inter: bool = ball.is_intersecting(&particles[j]);
        if inter {
            let d: i64 = ball.dist_sq(&particles[j]);
            let replace: bool = match best {
                None => true,
                Some(_) => d < best_d,
            };
            if replace {
                best = Some(j);
                best_d = d;
            }
        }
        j = j + 1;
    }
    proof {
        assert(particles@.take(particles@.len() as int) =~= particles@);
    }
    best
}

/// One executable resolution pass; see [`resolve_step`].
fn resolve_one(ball: &mut Circle, line: &Line, fx: i64, fy: i64)
    requires
        seg_wf(*line),
        circle_wf(*old(ball)),
        is_intersecting_spec(*old(ball), *line),
        -FORCE_CAP <= fx <= FORCE_CAP,
        -FORCE_CAP <= fy <= FORCE_CAP,
    ensures
        *final(ball) == resolve_step(*old(ball), *line, fx as int, fy as int),
        -POS_CAP <= final(ball).center.x <= POS_CAP,
        -POS_CAP <= final(ball).center.y <= POS_CAP,
        -VEL_CAP <= final(ball).velocity.x <= VEL_CAP,
        -VEL_CAP <= final(ball).velocity.y <= VEL_CAP,
        final(ball).radius == old(ball).radius,
{
    let e: i64 = energy(ball, fx, fy);
    ball.bounce_circle(line);
    scale_velocity(ball, e, fx, fy);
    clamp_ball(ball);
}

/// Resolve every collision of the ball with the obstacle set: bounce
/// off the closest overlapped segment, restore the pre-bounce energy,
/// and rescan, up to [`MAX_PASSES`] times; see [`resolve_loop`].
pub fn resolve_collisions(ball: &mut Circle, particles: &Vec<Line>, fx: i64, fy: i64)
    requires
        forall|i: int| 0 <= i < particles@.len() ==> seg_wf(#[trigger] particles@[i]),
        -8_000_000 <= old(ball).center.x <= 8_000_000,
        -8_000_000 <= old(ball).center.y <= 8_000_000,
        -8_000_000 <= old(ball).velocity.x <= 8_000_000,
        -8_000_000 <= old(ball).velocity.y <= 8_000_000,
        0 < old(ball).radius <= RADIUS_CAP,
        -FORCE_CAP <= fx <= FORCE_CAP,
        -FORCE_CAP <= fy <= FORCE_CAP,
    ensures
        *final(ball) == resolve_loop(
            *old(ball),
            particles@,
            fx as int,
            fy as int,
            MAX_PASSES as nat,
        ),
        final(ball).radius == old(ball).radius,
{
    let ghost start = *ball;
    let mut pass: u64 = 0;
    let mut done: bool = false;
    while !done && pass < MAX_PASSES
        invariant
            pass <= MAX_PASSES,
            forall|i: int| 0 <= i < particles@.len() ==> seg_wf(#[trigger] particles@[i]),
            -FORCE_CAP <= fx <= FORCE_CAP,
            -FORCE_CAP <= fy <= FORCE_CAP,
            -8_000_000 <= ball.center.x <= 8_000_000,
            -8_000_000 <= ball.center.y <= 8_000_000,
            -8_000_000 <= ball.velocity.x <= 8_000_000,
            -8_000_000 <= ball.velocity.y <= 8_000_000,
            0 < ball.radius <= RADIUS_CAP,
            ball.radius == start.radius,
            resolve_loop(start, particles@, fx as int, fy as int, MAX_PASSES as nat)
                == resolve_loop(*ball, particles@, fx as int, fy as int, (MAX_PASSES - pass) as nat),
            done ==> pick_rec(*ball, particles@) is None,
        decreases MAX_PASSES - pass + (if done { 0int } else { 1int }),
    {
        let t: Option<usize> = find_target(ball, particles);
        match t {
            None => {
                done = true;
            },
            Some(i) => {
                proof {
                    lemma_pick_rec_props(*ball, particles@);
                }
                resolve_one(ball, &particles[i], fx, fy);
                pass = pass + 1;
            },
        }
    }
    proof {
        if done {
            lemma_resolve_loop_settled(
                *ball,
                particles@,
                fx as int,
                fy as int,
                (MAX_PASSES - pass) as nat,
            );
        }
    }
}

/// The ball after the symmetric gravity step of one tick: half-kick,
/// drift at the kicked velocity, half-kick again.
pub open spec fn moved_spec(c: Circle, gravity: int) -> Circle {
    half_kicked(drifted(half_kicked(c, gravity)), gravity)
}

/// The symmetric half-kick scheme is why the gravity step loses no
/// energy at all: for an even gravity pull, what the two half-kicks
/// take out of the kinetic share, the drift puts into the potential
/// share exactly.  (This ordering — half-kick, drift, half-kick — is
/// deliberate: a whole kick on either side of the drift would not
/// balance.)
pub proof fn lemma_leapfrog_conserves_energy(c: Circle, gravity: int)
    requires
        state_wf(c),
        0 <= gravity <= FORCE_CAP,
        gravity % 2 == 0,
    ensures
        energy2(moved_spec(c, gravity), 0, -gravity) == energy2(c, 0, -gravity),
{
    let h = gravity / 2;
    let vy = c.velocity.y as int;
    let y = c.center.y as int;
    assert(gravity == 2 * h);
    let m = moved_spec(c, gravity);
    assert(m.velocity.y == vy - 2 * h);
    assert(m.velocity.x == c.velocity.x);
    assert(m.center.y == y + (vy - h));
    assert(m.center.x == c.center.x + c.velocity.x);
    assert(double_potential(m, 0, -gravity) == 2 * (gravity * (y + (vy - h))))
        by (nonlinear_arith)
        requires
            double_potential(m, 0, -gravity) == -2 * (0 * m.center.x + (-gravity)
                * m.center.y),
            m.center.y == y + (vy - h),
    ;
    assert(double_potential(c, 0, -gravity) == 2 * (gravity * y)) by (nonlinear_arith)
        requires
            double_potential(c, 0, -gravity) == -2 * (0 * c.center.x + (-gravity)
                * c.center.y),
            c.center.y == y,
    ;
    assert(double_kinetic(m) - double_kinetic(c) == (vy - 2 * h) * (vy - 2 * h) - vy * vy);
    assert((vy - 2 * h) * (vy - 2 * h) - vy * vy == -(2 * (gravity * vy)) + 2 * (gravity * h))
        by (nonlinear_arith)
        requires
            gravity == 2 * h,
    ;
    assert(2 * (gravity * (y + (vy - h))) - 2 * (gravity * y) == 2 * (gravity * vy) - 2 * (
    gravity * h)) by (nonlinear_arith);
}

/// The ball after one full integration tick against the obstacle set
/// `segs`: the symmetric gravity step, then iterated collision
/// resolution, then saturation to the inter-tick caps.
pub open spec fn apply_spec(c: Circle, segs: Seq<Line>, gravity: int) -> Circle {
    saturated(resolve_loop(moved_spec(c, gravity), segs, 0, -gravity, MAX_PASSES as nat))
}

/// Advance the ball by one tick under gravity against the obstacle
/// segments `particles`; see [`apply_spec`] for the exact law.
pub fn apply(ball: &mut Circle, particles: Vec<Line>, gravity: i64)
    requires
        forall|i: int| 0 <= i < particles@.len() ==> seg_wf(#[trigger] particles@[i]),
        state_wf(*old(ball)),
        0 <= gravity <= FORCE_CAP,
    ensures
        *final(ball) == apply_spec(*old(ball), particles@, gravity as int),
        state_wf(*final(ball)),
        final(ball).radius == old(ball).radius,
{
    half_apply_gravity(ball, gravity);
    ball.center.x = ball.center.x + ball.velocity.x;
    ball.center.y = ball.center.y + ball.velocity.y;
    half_apply_gravity(ball, gravity);
    proof {
        assert(*ball == moved_spec(*old(ball), gravity as int));
    }
    resolve_collisions(ball, &particles, 0, -gravity);
    clamp_ball(ball);
}

/// Restitution law for the energy rescale: for a moving ball whose
/// energy target leaves a non-negative kinetic share at its height, and
/// whose target speed `s` is at most twice its current speed,
/// rescaling brings twice the total energy within `10 s + 2` units
/// above and `6 s` units below the target.  At court scale (`s` a few
/// thousand units) this error is far below one part in ten thousand of
/// a court-unit energy (`2 * SCALE * SCALE` units).
pub proof fn lemma_rescale_energy(c: Circle, target: int, fx: int, fy: int)
    requires
        double_kinetic(c) >= 1,
        target - double_potential(c, fx, fy) >= 0,
        isqrt(target - double_potential(c, fx, fy)) <= 2 * isqrt(double_kinetic(c)),
        -1_000_000_000 <= c.velocity.x <= 1_000_000_000,
        -1_000_000_000 <= c.velocity.y <= 1_000_000_000,
    ensures
        ({
            let s = isqrt(target - double_potential(c, fx, fy));
            -(6 * s) <= energy2(rescaled(c, target, fx, fy), fx, fy) - target
                && energy2(rescaled(c, target, fx, fy), fx, fy) - target <= 10 * s + 2
        }),
{
    let vx = c.velocity.x as int;
    let vy = c.velocity.y as int;
    let w = double_kinetic(c);
    let pot = double_potential(c, fx, fy);
    let k = target - pot;
    lemma_isqrt_exists(w);
    lemma_isqrt_exists(k);
    let m = isqrt(w);
    let s = isqrt(k);
    assert(m >= 1) by (nonlinear_arith)
        requires
            is_isqrt(w, m),
            w >= 1,
    ;
    assert(-m <= vx <= m && -m <= vy <= m) by (nonlinear_arith)
        requires
            is_isqrt(w, m),
            w == vx * vx + vy * vy,
    ;
    let qx = div_tz(vx * s, m);
    let qy = div_tz(vy * s, m);
    crate::arith::lemma_div_tz_bounds(vx * s, m);
    crate::arith::lemma_div_tz_bounds(vy * s, m);
    let ex = m * qx - vx * s;
    let ey = m * qy - vy * s;
    assert(-m <= ex <= m && -m <= ey <= m);
    assert(-(s * m) <= vx * s <= s * m && -(s * m) <= vy * s <= s * m) by (nonlinear_arith)
        requires
            -m <= vx <= m,
            -m <= vy <= m,
            s >= 0,
    ;
    crate::arith::lemma_div_tz_le_bound(vx * s, m, s);
    crate::arith::lemma_div_tz_le_bound(vy * s, m, s);
    let ux = vx * s;
    let uy = vy * s;
    assert((m * qx) * (m * qx) == (ux + ex) * (ux + ex));
    assert((m * qy) * (m * qy) == (uy + ey) * (uy + ey));
    assert((m * qx) * (m * qx) == m * m * (qx * qx)) by (nonlinear_arith);
    assert((m * qy) * (m * qy) == m * m * (qy * qy)) by (nonlinear_arith);
    assert((ux + ex) * (ux + ex) == ux * ux + 2 * (ux * ex) + ex * ex) by (nonlinear_arith);
    assert((uy + ey) * (uy + ey) == uy * uy + 2 * (uy * ey) + ey * ey) by (nonlinear_arith);
    assert(2 * (ux * ex) == 2 * s * (vx * ex) && 2 * (uy * ey) == 2 * s * (vy * ey))
        by (nonlinear_arith)
        requires
            ux == vx * s,
            uy == vy * s,
    ;
    assert(m * m * (qx * qx) == (vx * s) * (vx * s) + 2 * s * (vx * ex) + ex * ex);
    assert(m * m * (qy * qy) == (vy * s) * (vy * s) + 2 * s * (vy * ey) + ey * ey);
    assert((vx * s) * (vx * s) + (vy * s) * (vy * s) == w * (s * s)) by (nonlinear_arith)
        requires
            w == vx * vx + vy * vy,
    ;
    assert(m * m * (qx * qx + qy * qy) == m * m * (qx * qx) + m * m * (qy * qy))
        by (nonlinear_arith);
    assert(2 * s * (vx * ex + vy * ey) == 2 * s * (vx * ex) + 2 * s * (vy * ey))
        by (nonlinear_arith);
    assert(m * m * (qx * qx + qy * qy) == w * (s * s) + 2 * s * (vx * ex + vy * ey) + ex * ex
        + ey * ey);
    let p = s * (m * m);
    assert(-(4 * p) <= 2 * s * (vx * ex + vy * ey) <= 4 * p) by (nonlinear_arith)
        requires
            -m <= vx <= m,
            -m <= vy <= m,
            -m <= ex <= m,
            -m <= ey <= m,
            s >= 0,
            p == s * (m * m),
    ;
    assert(0 <= ex * ex + ey * ey <= 2 * (m * m)) by (nonlinear_arith)
        requires
            -m <= ex <= m,
            -m <= ey <= m,
    ;
    assert(m * m * (s * s) <= w * (s * s) && w * (s * s) <= m * m * (s * s) + (2 * m + 1) * (s
        * s)) by (nonlinear_arith)
        requires
            m * m <= w,
            w < (m + 1) * (m + 1),
            s >= 0,
    ;
    assert((2 * m + 1) * (s * s) <= 6 * p) by (nonlinear_arith)
        requires
            s >= 0,
            s <= 2 * m,
            m >= 1,
            p == s * (m * m),
    ;
    assert(m * m * (s * s + 10 * s + 2) == m * m * (s * s) + 10 * p + 2 * (m * m))
        by (nonlinear_arith)
        requires
            p == s * (m * m),
    ;
    assert(m * m * (s * s - 4 * s) == m * m * (s * s) - 4 * p) by (nonlinear_arith)
        requires
            p == s * (m * m),
    ;
    assert(qx * qx + qy * qy <= s * s + 10 * s + 2) by (nonlinear_arith)
        requires
            m * m * (qx * qx + qy * qy) <= m * m * (s * s + 10 * s + 2),
            m >= 1,
    ;
    assert(qx * qx + qy * qy >= s * s - 4 * s) by (nonlinear_arith)
        requires
            m * m * (qx * qx + qy * qy) >= m * m * (s * s - 4 * s),
            m >= 1,
    ;
    assert((s + 1) * (s + 1) == s * s + 2 * s + 1) by (nonlinear_arith);
    assert(w <= 2_000_000_000_000_000_000int) by (nonlinear_arith)
        requires
            w == vx * vx + vy * vy,
            -1_000_000_000 <= vx <= 1_000_000_000,
            -1_000_000_000 <= vy <= 1_000_000_000,
    ;
    assert(m <= 1_500_000_000int) by (nonlinear_arith)
        requires
            is_isqrt(w, m),
            w <= 2_000_000_000_000_000_000int,
    ;
    let r = rescaled(c, target, fx, fy);
    assert(r.velocity.x == qx && r.velocity.y == qy);
    assert(energy2(r, fx, fy) == qx * qx + qy * qy + pot);
}

/// A ball that overlaps no segment is picked no target.
pub proof fn lemma_clear_pick_none(c: Circle, segs: Seq<Line>)
    requires
        forall|j: int| 0 <= j < segs.len() ==> !is_intersecting_spec(c, #[trigger] segs[j]),
    ensures
        pick_rec(c, segs) is None,
    decreases segs.len(),
{
    if segs.len() > 0 {
        assert(forall|j: int|
            0 <= j < segs.len() - 1 ==> segs.drop_last()[j] == #[trigger] segs[j]);
        lemma_clear_pick_none(c, segs.drop_last());
    }
}

/// A tick without collisions only drifts and kicks: when the moved ball
/// overlaps no obstacle and stays within the saturation caps, the tick
/// changes the position by exactly the velocity after the first
/// half-kick, changes the velocity by exactly the two half-kicks, and
/// invokes no bounce.
pub proof fn lemma_no_collision_tick(c: Circle, segs: Seq<Line>, gravity: int)
    requires
        state_wf(c),
        0 <= gravity <= FORCE_CAP,
        -POS_CAP <= c.center.x + c.velocity.x <= POS_CAP,
        -POS_CAP <= c.center.y + c.velocity.y - gravity / 2 <= POS_CAP,
        -VEL_CAP <= c.velocity.y - gravity / 2 - gravity / 2 <= VEL_CAP,
        forall|j: int|
            0 <= j < segs.len() ==> !is_intersecting_spec(
                moved_spec(c, gravity),
                #[trigger] segs[j],
            ),
    ensures
        apply_spec(c, segs, gravity) == moved_spec(c, gravity),
        apply_spec(c, segs, gravity).velocity.x == c.velocity.x,
        apply_spec(c, segs, gravity).velocity.y == c.velocity.y - gravity / 2 - gravity / 2,
        apply_spec(c, segs, gravity).center.x == c.center.x + c.velocity.x,
        apply_spec(c, segs, gravity).center.y == c.center.y + c.velocity.y - gravity / 2,
        apply_spec(c, segs, gravity).radius == c.radius,
{
    let m = moved_spec(c, gravity);
    lemma_clear_pick_none(m, segs);
    lemma_resolve_loop_settled(m, segs, 0, -gravity, MAX_PASSES as nat);
    assert(saturated(m) == m);
}

/// Saturate the ball's position and velocity to the inter-tick caps.
pub fn clamp_ball(ball: &mut Circle)
    ensures
        *final(ball) == saturated(*old(ball)),
        -POS_CAP <= final(ball).center.x <= POS_CAP,
        -POS_CAP <= final(ball).center.y <= POS_CAP,
        -VEL_CAP <= final(ball).velocity.x <= VEL_CAP,
        -VEL_CAP <= final(ball).velocity.y <= VEL_CAP,
        final(ball).radius == old(ball).radius,
{
    ball.center.x = clamp_i64(ball.center.x, -POS_CAP, POS_CAP);
    ball.center.y = clamp_i64(ball.center.y, -POS_CAP, POS_CAP);
    ball.velocity.x = clamp_i64(ball.velocity.x, -VEL_CAP, VEL_CAP);
    ball.velocity.y = clamp_i64(ball.velocity.y, -VEL_CAP, VEL_CAP);
}

} // verus!
