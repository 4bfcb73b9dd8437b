//! Geometry kernel: vectors, points, line segments and circles on the
//! fixed-point court grid, with the distance, closest-point, intersection
//! and bounce-reflection queries the physics integrator is built on.
//!
//! Contracts are stated over exact integer formulas: each operation's
//! result is pinned down to the last unit, including the truncating
//! roundings.

use vstd::prelude::*;

verus! {

use crate::arith::clamp_i64;
use crate::arith::clamped;
use crate::arith::div_trunc;
use crate::arith::div_tz;
use crate::arith::is_isqrt;
use crate::arith::isqrt;
use crate::arith::isqrt_i64;
use crate::arith::lemma_div_tz_between;
use crate::arith::lemma_div_tz_bounds;
use crate::arith::lemma_isqrt_exists;
use crate::arith::lemma_isqrt_lt_iff;
use crate::arith::mul_div;
use crate::arith::SCALE;
use vstd::math::abs;

/// Bound on segment endpoint coordinates: the static court geometry
/// lives within 25 court units of the origin.
pub const SEG_BOUND: i64 = 500_000;

/// Bound on circle centres and velocities accepted by the geometry
/// queries; generous enough for any state the integrator can reach.
pub const GEOM_BOUND: i64 = 16_000_000;

/// Bound on circle radii: no body is larger than 5 court units.
pub const RADIUS_CAP: i64 = 100_000;

/// A displacement or velocity, in fixed-point scalar units.
#[derive(Clone, Copy, PartialEq, Eq, Structural, Debug)]
pub struct Vec2 {
    pub x: i64,
    pub y: i64,
}

/// A location on the court, in fixed-point scalar units.
#[derive(Clone, Copy, PartialEq, Eq, Structural, Debug)]
pub struct Point {
    pub x: i64,
    pub y: i64,
}

/// A static, infinitely thin obstacle segment.
#[derive(Clone, Copy, PartialEq, Eq, Structural, Debug)]
pub struct Line {
    pub start: Point,
    pub end: Point,
}

/// The ball's physical state: a circle with a velocity.
#[derive(Clone, Copy, PartialEq, Eq, Structural, Debug)]
pub struct Circle {
    pub center: Point,
    pub radius: i64,
    pub velocity: Vec2,
}

/// The segment's endpoints lie within the static-geometry bound.
pub open spec fn seg_wf(l: Line) -> bool {
    &&& -SEG_BOUND <= l.start.x <= SEG_BOUND
    &&& -SEG_BOUND <= l.start.y <= SEG_BOUND
    &&& -SEG_BOUND <= l.end.x <= SEG_BOUND
    &&& -SEG_BOUND <= l.end.y <= SEG_BOUND
}

/// The circle's centre and velocity lie within the query bound and its
/// radius is positive and capped.
pub open spec fn circle_wf(c: Circle) -> bool {
    &&& -GEOM_BOUND <= c.center.x <= GEOM_BOUND
    &&& -GEOM_BOUND <= c.center.y <= GEOM_BOUND
    &&& -GEOM_BOUND <= c.velocity.x <= GEOM_BOUND
    &&& -GEOM_BOUND <= c.velocity.y <= GEOM_BOUND
    &&& 0 < c.radius <= RADIUS_CAP
}

/// The dot product of two displacement vectors, as an exact integer.
pub open spec fn dot(ax: int, ay: int, bx: int, by: int) -> int {
    ax * bx + ay * by
}

impl Vec2 {
    /// The displacement from `a` to `b`.
    pub fn between(a: &Point, b: &Point) -> (v: Vec2)
        requires
            -GEOM_BOUND <= a.x <= GEOM_BOUND,
            -GEOM_BOUND <= a.y <= GEOM_BOUND,
            -GEOM_BOUND <= b.x <= GEOM_BOUND,
            -GEOM_BOUND <= b.y <= GEOM_BOUND,
        ensures
            v.x == b.x - a.x,
            v.y == b.y - a.y,
    {
        Vec2 { x: b.x - a.x, y: b.y - a.y }
    }

    /// The vector's length, rounded down to a whole scalar unit.
    pub fn magnitude(&self) -> (m: i64)
        requires
            -GEOM_BOUND <= self.x <= GEOM_BOUND,
            -GEOM_BOUND <= self.y <= GEOM_BOUND,
        ensures
            m == isqrt(dot(self.x as int, self.y as int, self.x as int, self.y as int)),
            is_isqrt(dot(self.x as int, self.y as int, self.x as int, self.y as int), m as int),
    {
        proof {
            assert(0 <= self.x * self.x <= 256_000_000_000_000int
                && 0 <= self.y * self.y <= 256_000_000_000_000int) by (nonlinear_arith)
                requires
                    -GEOM_BOUND <= self.x <= GEOM_BOUND,
                    -GEOM_BOUND <= self.y <= GEOM_BOUND,
                    GEOM_BOUND == 16_000_000i64,
            ;
        }
        let q: i64 = self.x * self.x + self.y * self.y;
        isqrt_i64(q)
    }

    /// The vector scaled to unit length (one court unit, `SCALE` scalar
    /// units).  The zero vector has no direction and is returned
    /// unchanged; callers that cannot accept that fallback test for it.
    pub fn to_unit(&self) -> (u: Vec2)
        requires
            -GEOM_BOUND <= self.x <= GEOM_BOUND,
            -GEOM_BOUND <= self.y <= GEOM_BOUND,
        ensures
            self.x == 0 && self.y == 0 ==> u == *self,
            !(self.x == 0 && self.y == 0) ==> {
                let m = isqrt(dot(self.x as int, self.y as int, self.x as int, self.y as int));
                u.x == div_tz(self.x * SCALE, m) && u.y == div_tz(self.y * SCALE, m)
            },
    {
        if self.x == 0 && self.y == 0 {
            return *self;
        }
        let m: i64 = self.magnitude();
        proof {
            let ghost n = dot(self.x as int, self.y as int, self.x as int, self.y as int);
            assert(n >= 1) by (nonlinear_arith)
                requires
                    n == self.x * self.x + self.y * self.y,
                    !(self.x == 0 && self.y == 0),
            ;
            assert(m >= 1) by (nonlinear_arith)
                requires
                    is_isqrt(n, m as int),
                    n >= 1,
            ;
        }
        Vec2 { x: mul_div(self.x, SCALE, m), y: mul_div(self.y, SCALE, m) }
    }

    /// The vector scaled by the fixed-point factor `factor` (`SCALE`
    /// meaning one).
    pub fn scale(&self, factor: i64) -> (v: Vec2)
        requires
            -GEOM_BOUND <= self.x <= GEOM_BOUND,
            -GEOM_BOUND <= self.y <= GEOM_BOUND,
            -GEOM_BOUND <= factor <= GEOM_BOUND,
        ensures
            v.x == div_tz(self.x * factor, SCALE as int),
            v.y == div_tz(self.y * factor, SCALE as int),
    {
        proof {
            assert(-0x7fff_ffff_ffff_ffff <= self.x * factor <= 0x7fff_ffff_ffff_ffff
                && -0x7fff_ffff_ffff_ffff <= self.y * factor <= 0x7fff_ffff_ffff_ffff)
                by (nonlinear_arith)
                requires
                    -GEOM_BOUND <= self.x <= GEOM_BOUND,
                    -GEOM_BOUND <= self.y <= GEOM_BOUND,
                    -GEOM_BOUND <= factor <= GEOM_BOUND,
                    GEOM_BOUND == 16_000_000i64,
            ;
        }
        Vec2 { x: mul_div(self.x, factor, SCALE), y: mul_div(self.y, factor, SCALE) }
    }
}

/// The dot product of two vectors, as a fixed-point scalar (the raw
/// product of two scaled values carries a factor `SCALE` too many, which
/// the division removes).
pub fn dot_product(a: &Vec2, b: &Vec2) -> (d: i64)
    requires
        -GEOM_BOUND <= a.x <= GEOM_BOUND,
        -GEOM_BOUND <= a.y <= GEOM_BOUND,
        -GEOM_BOUND <= b.x <= GEOM_BOUND,
        -GEOM_BOUND <= b.y <= GEOM_BOUND,
    ensures
        d == div_tz(dot(a.x as int, a.y as int, b.x as int, b.y as int), SCALE as int),
{
    proof {
        assert(-256_000_000_000_000int <= a.x * b.x <= 256_000_000_000_000int
            && -256_000_000_000_000int <= a.y * b.y <= 256_000_000_000_000int)
            by (nonlinear_arith)
            requires
                -GEOM_BOUND <= a.x <= GEOM_BOUND,
                -GEOM_BOUND <= a.y <= GEOM_BOUND,
                -GEOM_BOUND <= b.x <= GEOM_BOUND,
                -GEOM_BOUND <= b.y <= GEOM_BOUND,
                GEOM_BOUND == 16_000_000i64,
        ;
    }
    let p: i64 = a.x * b.x + a.y * b.y;
    div_trunc(p, SCALE)
}

/// The distance between two points, rounded down to a whole scalar unit.
pub fn distance(a: &Point, b: &Point) -> (d: i64)
    requires
        -8_000_000 <= a.x <= 8_000_000,
        -8_000_000 <= a.y <= 8_000_000,
        -8_000_000 <= b.x <= 8_000_000,
        -8_000_000 <= b.y <= 8_000_000,
    ensures
        is_isqrt(
            dot(a.x - b.x, a.y - b.y, a.x - b.x, a.y - b.y),
            d as int,
        ),
        d == isqrt(dot(a.x - b.x, a.y - b.y, a.x - b.x, a.y - b.y)),
{
    let v: Vec2 = Vec2::between(b, a);
    v.magnitude()
}

impl Line {
    /// The segment from `(x1, y1)` to `(x2, y2)`.
    pub fn new(x1: i64, y1: i64, x2: i64, y2: i64) -> (l: Line)
        ensures
            l.start.x == x1,
            l.start.y == y1,
            l.end.x == x2,
            l.end.y == y2,
    {
        Line { start: Point { x: x1, y: y1 }, end: Point { x: x2, y: y2 } }
    }

    /// The unit vector pointing from the segment's start to its end
    /// (zero for a degenerate segment).
    pub fn to_unit_vector(&self) -> (u: Vec2)
        requires
            seg_wf(*self),
        ensures
            ({
                let dx = self.end.x - self.start.x;
                let dy = self.end.y - self.start.y;
                if dx == 0 && dy == 0 {
                    u.x == 0 && u.y == 0
                } else {
                    let m = isqrt(dot(dx, dy, dx, dy));
                    u.x == div_tz(dx * SCALE, m) && u.y == div_tz(dy * SCALE, m)
                }
            }),
    {
        let v: Vec2 = Vec2::between(&self.start, &self.end);
        v.to_unit()
    }

    /// The segment's length, rounded down to a whole scalar unit.
    pub fn len(&self) -> (d: i64)
        requires
            seg_wf(*self),
        ensures
            d == isqrt(
                dot(
                    self.start.x - self.end.x,
                    self.start.y - self.end.y,
                    self.start.x - self.end.x,
                    self.start.y - self.end.y,
                ),
            ),
    {
        distance(&self.start, &self.end)
    }
}

/// The point of the segment `l` closest to the centre of `c`: the
/// centre's projection onto the segment's line, clamped to the segment,
/// with each coordinate rounded towards the segment's start.  For a
/// degenerate (zero-length) segment the start point stands in.
pub open spec fn closest_point_spec(c: Circle, l: Line) -> (int, int) {
    let dx = l.end.x - l.start.x;
    let dy = l.end.y - l.start.y;
    let dd = dx * dx + dy * dy;
    if dd == 0 {
        (l.start.x as int, l.start.y as int)
    } else {
        let q = clamped(
            dot(c.center.x - l.start.x, c.center.y - l.start.y, dx, dy),
            0,
            dd,
        );
        (l.start.x + div_tz(dx * q, dd), l.start.y + div_tz(dy * q, dd))
    }
}

/// The squared distance from the centre of `c` to the closest point of
/// the segment `l`.
pub open spec fn dist_sq_spec(c: Circle, l: Line) -> int {
    let p = closest_point_spec(c, l);
    let ex = c.center.x - p.0;
    let ey = c.center.y - p.1;
    ex * ex + ey * ey
}

/// The circle overlaps the segment: the distance from its centre to the
/// segment is strictly below its radius (compared exactly, on squares).
pub open spec fn is_intersecting_spec(c: Circle, l: Line) -> bool {
    dist_sq_spec(c, l) < c.radius * c.radius
}

/// The closest point lies on the segment: each of its coordinates is
/// between the corresponding coordinates of the two endpoints.
pub proof fn lemma_closest_point_on_segment(c: Circle, l: Line)
    ensures
        ({
            let p = closest_point_spec(c, l);
            &&& (l.start.x <= p.0 <= l.end.x) || (l.end.x <= p.0 <= l.start.x)
            &&& (l.start.y <= p.1 <= l.end.y) || (l.end.y <= p.1 <= l.start.y)
        }),
{
    let dx = l.end.x - l.start.x;
    let dy = l.end.y - l.start.y;
    let dd = dx * dx + dy * dy;
    assert(dx * dx >= 0 && dy * dy >= 0) by (nonlinear_arith);
    if dd != 0 {
        let q = clamped(dot(c.center.x - l.start.x, c.center.y - l.start.y, dx, dy), 0, dd);
        lemma_div_tz_between(dx, q, dd);
        lemma_div_tz_between(dy, q, dd);
    }
}

/// The closest point also lies on the segment's carrying line up to
/// rounding: the cross product of the segment's direction with the
/// offset from the start — zero for an exact projection — stays below
/// one rounding unit per direction component.
pub proof fn lemma_closest_point_near_line(c: Circle, l: Line)
    ensures
        ({
            let dx = l.end.x - l.start.x;
            let dy = l.end.y - l.start.y;
            let p = closest_point_spec(c, l);
            let cross = dx * (p.1 - l.start.y) - dy * (p.0 - l.start.x);
            -(abs(dx) + abs(dy)) <= cross <= abs(dx) + abs(dy)
        }),
{
    let dx = l.end.x - l.start.x;
    let dy = l.end.y - l.start.y;
    let dd = dx * dx + dy * dy;
    if dd == 0 {
        assert(dx == 0 && dy == 0) by (nonlinear_arith)
            requires
                dx * dx + dy * dy == 0,
        ;
    } else {
        assert(dd > 0) by (nonlinear_arith)
            requires
                dd == dx * dx + dy * dy,
                dd != 0,
        ;
        let q = clamped(dot(c.center.x - l.start.x, c.center.y - l.start.y, dx, dy), 0, dd);
        let tx = div_tz(dx * q, dd);
        let ty = div_tz(dy * q, dd);
        lemma_div_tz_bounds(dx * q, dd);
        lemma_div_tz_bounds(dy * q, dd);
        let ex = dd * tx - dx * q;
        let ey = dd * ty - dy * q;
        assert(-dd < ex < dd && -dd < ey < dd);
        assert(dd * (dx * ty - dy * tx) == dx * (dd * ty) - dy * (dd * tx)) by (nonlinear_arith);
        assert(dx * (dy * q + ey) - dy * (dx * q + ex) == dx * ey - dy * ex) by (nonlinear_arith);
        let adx = abs(dx) as int;
        let ady = abs(dy) as int;
        assert(-((adx + ady) * dd) <= dx * ey - dy * ex <= (adx + ady) * dd) by (nonlinear_arith)
            requires
                -adx <= dx <= adx,
                -ady <= dy <= ady,
                -dd < ex < dd,
                -dd < ey < dd,
                dd > 0,
        ;
        assert(-(adx + ady) <= dx * ty - dy * tx <= adx + ady) by (nonlinear_arith)
            requires
                -((adx + ady) * dd) <= dd * (dx * ty - dy * tx) <= (adx + ady) * dd,
                dd > 0,
        ;
        let p = closest_point_spec(c, l);
        assert(p.0 - l.start.x == tx && p.1 - l.start.y == ty);
    }
}

/// A circle intersects a segment exactly when the rounded distance from
/// its centre to the segment is strictly below its radius.
pub proof fn lemma_intersecting_iff_close(c: Circle, l: Line)
    requires
        c.radius >= 0,
    ensures
        is_intersecting_spec(c, l) <==> isqrt(dist_sq_spec(c, l)) < c.radius,
{
    let p = closest_point_spec(c, l);
    let ex = c.center.x - p.0;
    let ey = c.center.y - p.1;
    assert(ex * ex >= 0 && ey * ey >= 0) by (nonlinear_arith);
    lemma_isqrt_exists(dist_sq_spec(c, l));
    lemma_isqrt_lt_iff(dist_sq_spec(c, l), isqrt(dist_sq_spec(c, l)), c.radius as int);
}

/// The point of the segment `line` closest to the centre of `circle`.
pub fn closest_point(circle: &Circle, line: &Line) -> (p: Point)
    requires
        seg_wf(*line),
        -GEOM_BOUND <= circle.center.x <= GEOM_BOUND,
        -GEOM_BOUND <= circle.center.y <= GEOM_BOUND,
    ensures
        p.x == closest_point_spec(*circle, *line).0,
        p.y == closest_point_spec(*circle, *line).1,
        (line.start.x <= p.x <= line.end.x) || (line.end.x <= p.x <= line.start.x),
        (line.start.y <= p.y <= line.end.y) || (line.end.y <= p.y <= line.start.y),
{
    proof {
        lemma_closest_point_on_segment(*circle, *line);
    }
    let dx: i64 = line.end.x - line.start.x;
    let dy: i64 = line.end.y - line.start.y;
    proof {
        assert(0 <= dx * dx <= 1_000_000_000_000int
            && 0 <= dy * dy <= 1_000_000_000_000int) by (nonlinear_arith)
            requires
                -1_000_000 <= dx <= 1_000_000,
                -1_000_000 <= dy <= 1_000_000,
        ;
    }
    let dd: i64 = dx * dx + dy * dy;
    if dd == 0 {
        return Point { x: line.start.x, y: line.start.y };
    }
    let wx: i64 = circle.center.x - line.start.x;
    let wy: i64 = circle.center.y - line.start.y;
    proof {
        assert(-16_500_000_000_000int <= wx * dx <= 16_500_000_000_000int
            && -16_500_000_000_000int <= wy * dy <= 16_500_000_000_000int)
            by (nonlinear_arith)
            requires
                -16_500_000 <= wx <= 16_500_000,
                -16_500_000 <= wy <= 16_500_000,
                -1_000_000 <= dx <= 1_000_000,
                -1_000_000 <= dy <= 1_000_000,
        ;
    }
    let q0: i64 = wx * dx + wy * dy;
    let q: i64 = clamp_i64(q0, 0, dd);
    proof {
        assert(-0x7fff_ffff_ffff_ffff <= dx * q <= 0x7fff_ffff_ffff_ffff
            && -0x7fff_ffff_ffff_ffff <= dy * q <= 0x7fff_ffff_ffff_ffff)
            by (nonlinear_arith)
            requires
                -1_000_000 <= dx <= 1_000_000,
                -1_000_000 <= dy <= 1_000_000,
                0 <= q <= 8_000_000_000_000int,
        ;
        lemma_div_tz_between(dx as int, q as int, dd as int);
        lemma_div_tz_between(dy as int, q as int, dd as int);
    }
    let px: i64 = line.start.x + mul_div(dx, q, dd);
    let py: i64 = line.start.y + mul_div(dy, q, dd);
    Point { x: px, y: py }
}

/// Cosine (and sine) of 45 degrees in fixed point, for the octagon
/// approximation of a circle.
pub const OCTAGON_COS: i64 = 14142;

/// A segment built in spec code from exact integer coordinates.
pub open spec fn line_of(x1: int, y1: int, x2: int, y2: int) -> Line {
    Line {
        start: Point { x: x1 as i64, y: y1 as i64 },
        end: Point { x: x2 as i64, y: y2 as i64 },
    }
}

/// The octagon approximating a circle: eight chords at 45-degree
/// increments, walked clockwise from the top.
pub open spec fn octagon_spec(c: Circle) -> Seq<Line> {
    let x = c.center.x as int;
    let y = c.center.y as int;
    let r = c.radius as int;
    let rc = div_tz(r * OCTAGON_COS, SCALE as int);
    seq![
        line_of(x, y + r, x + rc, y + rc),
        line_of(x + rc, y + rc, x + r, y),
        line_of(x + r, y, x + rc, y - rc),
        line_of(x + rc, y - rc, x, y - r),
        line_of(x, y - r, x - rc, y - rc),
        line_of(x - rc, y - rc, x - r, y),
        line_of(x - r, y, x - rc, y + rc),
        line_of(x - rc, y + rc, x, y + r),
    ]
}

/// The state of a circle after bouncing off a segment it overlaps.
///
/// The bounce normal is the direction from the segment's closest point
/// to the circle's centre.  The velocity is reflected across that
/// normal (`v' = v - 2 (v . n) n`, computed as the exact rational
/// `v - 2 (v . m) m / (m . m)` with one truncation per component), and
/// the centre is pushed along the normal by twice the centre's distance
/// to the segment, extended by the radius when the velocity points at
/// the surface and shortened by it when it points away.  A centre lying
/// exactly on the segment has no normal and is left unchanged.
pub open spec fn bounce_spec(c: Circle, l: Line) -> Circle {
    let p = closest_point_spec(c, l);
    let mx = c.center.x - p.0;
    let my = c.center.y - p.1;
    let mm = mx * mx + my * my;
    if mm == 0 {
        c
    } else {
        let d = dot(c.velocity.x as int, c.velocity.y as int, mx, my);
        let ll = isqrt(mm);
        let len = if d >= 0 {
            ll + c.radius
        } else {
            ll - c.radius
        };
        Circle {
            center: Point {
                x: (c.center.x - 2 * div_tz(mx * len, ll)) as i64,
                y: (c.center.y - 2 * div_tz(my * len, ll)) as i64,
            },
            radius: c.radius,
            velocity: Vec2 {
                x: (c.velocity.x - div_tz(2 * d * mx, mm)) as i64,
                y: (c.velocity.y - div_tz(2 * d * my, mm)) as i64,
            },
        }
    }
}

/// The reflection coefficient `2 (v . m) m_x / (m . m)` is bounded by
/// `2 |v_x| + |v_y|` (stated here before the division, in multiples of
/// `m . m`), because `m_x^2 <= m . m` and `2 |m_x m_y| <= m . m`.
pub proof fn lemma_reflect_coeff_bound(vx: int, vy: int, mx: int, my: int, va: int, vb: int)
    requires
        -va <= vx <= va,
        -vb <= vy <= vb,
        mx * mx + my * my > 0,
    ensures
        -((2 * va + vb) * (mx * mx + my * my)) <= 2 * (vx * mx + vy * my) * mx,
        2 * (vx * mx + vy * my) * mx <= (2 * va + vb) * (mx * mx + my * my),
{
    let mm = mx * mx + my * my;
    assert(2 * (vx * mx + vy * my) * mx == 2 * vx * (mx * mx) + 2 * vy * (my * mx))
        by (nonlinear_arith);
    assert(0 <= mx * mx <= mm && -mm <= 2 * (my * mx) <= mm) by (nonlinear_arith)
        requires
            mm == mx * mx + my * my,
    ;
    assert(-(2 * va * mm) <= 2 * vx * (mx * mx) <= 2 * va * mm) by (nonlinear_arith)
        requires
            -va <= vx <= va,
            0 <= mx * mx <= mm,
    ;
    assert(-(vb * mm) <= 2 * vy * (my * mx) <= vb * mm) by (nonlinear_arith)
        requires
            -vb <= vy <= vb,
            -mm <= 2 * (my * mx) <= mm,
            mm > 0,
    ;
    assert((2 * va + vb) * mm == 2 * va * mm + vb * mm) by (nonlinear_arith);
}

impl Circle {
    /// A circle at `(x, y)` with radius `r`, initially at rest.
    pub fn new(x: i64, y: i64, r: i64) -> (c: Circle)
        ensures
            c.center.x == x,
            c.center.y == y,
            c.radius == r,
            c.velocity.x == 0,
            c.velocity.y == 0,
    {
        Circle { center: Point { x, y }, radius: r, velocity: Vec2 { x: 0, y: 0 } }
    }

    /// Approximate this circle by an octagon of eight chord segments,
    /// for use as a collider surface.  The bounds keep every chord
    /// within the static-geometry limit.
    pub fn approx(&self) -> (v: Vec<Line>)
        requires
            -400_000 <= self.center.x <= 400_000,
            -400_000 <= self.center.y <= 400_000,
            0 < self.radius <= RADIUS_CAP,
        ensures
            v@ == octagon_spec(*self),
            v@.len() == 8,
            forall|i: int| 0 <= i < 8 ==> seg_wf(#[trigger] v@[i]),
    {
        let x: i64 = self.center.x;
        let y: i64 = self.center.y;
        let r: i64 = self.radius;
        proof {
            lemma_div_tz_between(r as int, OCTAGON_COS as int, SCALE as int);
        }
        let rc: i64 = mul_div(r, OCTAGON_COS, SCALE);
        let xe: i64 = x + r;
        let xw: i64 = x - r;
        let yn: i64 = y + r;
        let ys: i64 = y - r;
        let xa: i64 = x + rc;
        let xb: i64 = x - rc;
        let ya: i64 = y + rc;
        let yb: i64 = y - rc;
        let v: Vec<Line> = vec![
            Line::new(x, yn, xa, ya),
            Line::new(xa, ya, xe, y),
            Line::new(xe, y, xa, yb),
            Line::new(xa, yb, x, ys),
            Line::new(x, ys, xb, yb),
            Line::new(xb, yb, xw, y),
            Line::new(xw, y, xb, ya),
            Line::new(xb, ya, x, yn),
        ];
        proof {
            assert(v@ =~= octagon_spec(*self));
        }
        v
    }

    /// The squared distance from this circle's centre to the segment.
    pub fn dist_sq(&self, line: &Line) -> (d: i64)
        requires
            seg_wf(*line),
            -GEOM_BOUND <= self.center.x <= GEOM_BOUND,
            -GEOM_BOUND <= self.center.y <= GEOM_BOUND,
        ensures
            d == dist_sq_spec(*self, *line),
            d >= 0,
    {
        let p: Point = closest_point(self, line);
        let ex: i64 = self.center.x - p.x;
        let ey: i64 = self.center.y - p.y;
        proof {
            assert(0 <= ex * ex <= 272_250_000_000_000int
                && 0 <= ey * ey <= 272_250_000_000_000int) by (nonlinear_arith)
                requires
                    -16_500_000 <= ex <= 16_500_000,
                    -16_500_000 <= ey <= 16_500_000,
            ;
        }
        ex * ex + ey * ey
    }

    /// The distance from this circle's centre to the segment, rounded
    /// down to a whole scalar unit.
    pub fn distance(&self, line: &Line) -> (d: i64)
        requires
            seg_wf(*line),
            -GEOM_BOUND <= self.center.x <= GEOM_BOUND,
            -GEOM_BOUND <= self.center.y <= GEOM_BOUND,
        ensures
            d == isqrt(dist_sq_spec(*self, *line)),
            is_isqrt(dist_sq_spec(*self, *line), d as int),
    {
        let q: i64 = self.dist_sq(line);
        isqrt_i64(q)
    }

    /// Whether this circle overlaps the segment.  Equivalent to asking
    /// whether `distance` is strictly below the radius.
    pub fn is_intersecting(&self, line: &Line) -> (r: bool)
        requires
            seg_wf(*line),
            -GEOM_BOUND <= self.center.x <= GEOM_BOUND,
            -GEOM_BOUND <= self.center.y <= GEOM_BOUND,
            0 <= self.radius <= RADIUS_CAP,
        ensures
            r == is_intersecting_spec(*self, *line),
            r == (isqrt(dist_sq_spec(*self, *line)) < self.radius),
    {
        proof {
            lemma_intersecting_iff_close(*self, *line);
            assert(self.radius * self.radius <= 0x7fff_ffff_ffff_ffff) by (nonlinear_arith)
                requires
                    0 <= self.radius <= RADIUS_CAP,
                    RADIUS_CAP == 100_000i64,
            ;
        }
        let d: i64 = self.dist_sq(line);
        d < self.radius * self.radius
    }

    /// Bounce this circle off a segment it overlaps: reflect the
    /// velocity across the bounce normal and push the centre away from
    /// the surface.  See [`bounce_spec`] for the exact law.
    ///
    /// The extra bounds say how far one bounce can move the state: the
    /// centre moves at most four radii per axis, and each velocity
    /// component stays below three times its own magnitude plus the
    /// other's.
    pub fn bounce_circle(&mut self, line: &Line)
        requires
            seg_wf(*line),
            circle_wf(*old(self)),
            is_intersecting_spec(*old(self), *line),
        ensures
            *final(self) == bounce_spec(*old(self), *line),
            final(self).radius == old(self).radius,
            old(self).center.x - 4 * old(self).radius <= final(self).center.x
                <= old(self).center.x + 4 * old(self).radius,
            old(self).center.y - 4 * old(self).radius <= final(self).center.y
                <= old(self).center.y + 4 * old(self).radius,
            abs(final(self).velocity.x as int)
                <= 3 * abs(old(self).velocity.x as int) + abs(old(self).velocity.y as int),
            abs(final(self).velocity.y as int)
                <= 3 * abs(old(self).velocity.y as int) + abs(old(self).velocity.x as int),
    {
        let p: Point = closest_point(self, line);
        let mx: i64 = self.center.x - p.x;
        let my: i64 = self.center.y - p.y;
        proof {
            assert(0 <= mx * mx <= 272_250_000_000_000int
                && 0 <= my * my <= 272_250_000_000_000int) by (nonlinear_arith)
                requires
                    -16_500_000 <= mx <= 16_500_000,
                    -16_500_000 <= my <= 16_500_000,
            ;
        }
        let mm: i64 = mx * mx + my * my;
        proof {
            assert(mm == dist_sq_spec(*self, *line));
        }
        if mm == 0 {
            return;
        }
        let ghost rad: int = self.radius as int;
        proof {
            assert(-rad < mx < rad && -rad < my < rad) by (nonlinear_arith)
                requires
                    mx * mx + my * my < rad * rad,
                    rad > 0,
            ;
        }
        let ll: i64 = isqrt_i64(mm);
        proof {
            assert(1 <= ll && -ll <= mx <= ll && -ll <= my <= ll && ll < rad)
                by (nonlinear_arith)
                requires
                    is_isqrt(mm as int, ll as int),
                    mm >= 1,
                    mx * mx + my * my == mm,
                    mm < rad * rad,
                    rad > 0,
            ;
        }
        let dot0: i64 = {
            proof {
                assert(-1_650_000_000_000int <= self.velocity.x * mx <= 1_650_000_000_000int
                    && -1_650_000_000_000int <= self.velocity.y * my <= 1_650_000_000_000int)
                    by (nonlinear_arith)
                    requires
                        -GEOM_BOUND <= self.velocity.x <= GEOM_BOUND,
                        -GEOM_BOUND <= self.velocity.y <= GEOM_BOUND,
                        -100_000 <= mx <= 100_000,
                        -100_000 <= my <= 100_000,
                        GEOM_BOUND == 16_000_000i64,
                ;
            }
            self.velocity.x * mx + self.velocity.y * my
        };
        let len: i64 = if dot0 >= 0 {
            ll + self.radius
        } else {
            ll - self.radius
        };
        let ghost lab: int = abs(len as int) as int;
        proof {
            assert(lab < 2 * rad);
            assert(-(lab * ll) <= mx * len <= lab * ll && -(lab * ll) <= my * len <= lab * ll)
                by (nonlinear_arith)
                requires
                    -ll <= mx <= ll,
                    -ll <= my <= ll,
                    lab == if len >= 0 { len as int } else { -(len as int) },
                    ll >= 1,
            ;
            assert(-0x7fff_ffff_ffff_ffff <= mx * len <= 0x7fff_ffff_ffff_ffff
                && -0x7fff_ffff_ffff_ffff <= my * len <= 0x7fff_ffff_ffff_ffff)
                by (nonlinear_arith)
                requires
                    -100_000 <= mx <= 100_000,
                    -100_000 <= my <= 100_000,
                    -200_000 <= len <= 200_000,
            ;
            crate::arith::lemma_div_tz_le_bound(mx as int * len as int, ll as int, lab);
            crate::arith::lemma_div_tz_le_bound(my as int * len as int, ll as int, lab);
        }
        let shift_x: i64 = mul_div(mx, len, ll);
        let shift_y: i64 = mul_div(my, len, ll);
        let ghost va: int = abs(self.velocity.x as int) as int;
        let ghost vb: int = abs(self.velocity.y as int) as int;
        proof {
            lemma_reflect_coeff_bound(
                self.velocity.x as int,
                self.velocity.y as int,
                mx as int,
                my as int,
                va,
                vb,
            );
            lemma_reflect_coeff_bound(
                self.velocity.y as int,
                self.velocity.x as int,
                my as int,
                mx as int,
                vb,
                va,
            );
            assert(mx * mx + my * my == my * my + mx * mx);
            assert(-0x7fff_ffff_ffff_ffff <= 2 * dot0 * mx <= 0x7fff_ffff_ffff_ffff
                && -0x7fff_ffff_ffff_ffff <= 2 * dot0 * my <= 0x7fff_ffff_ffff_ffff)
                by (nonlinear_arith)
                requires
                    -3_300_000_000_000int <= dot0 <= 3_300_000_000_000int,
                    -100_000 <= mx <= 100_000,
                    -100_000 <= my <= 100_000,
            ;
            crate::arith::lemma_div_tz_le_bound(2 * dot0 as int * mx as int, mm as int, 2 * va + vb);
            crate::arith::lemma_div_tz_le_bound(2 * dot0 as int * my as int, mm as int, 2 * vb + va);
            assert(2 * (self.velocity.x * mx + self.velocity.y * my) * mx == 2 * dot0 * mx);
            assert(2 * (self.velocity.y * my + self.velocity.x * mx) * my == 2 * dot0 * my);
        }
        let two_dot: i64 = 2 * dot0;
        let tx: i64 = mul_div(two_dot, mx, mm);
        let ty: i64 = mul_div(two_dot, my, mm);
        self.center.x = self.center.x - 2 * shift_x;
        self.center.y = self.center.y - 2 * shift_y;
        self.velocity.x = self.velocity.x - tx;
        self.velocity.y = self.velocity.y - ty;
        proof {
            assert(*self == bounce_spec(*old(self), *line));
        }
    }
}

} // verus!
