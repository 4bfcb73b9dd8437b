//! A deterministic 2D volleyball-style game core: a bounded court, two
//! player-controlled bodies and one ball, advanced tick by tick.
//!
//! All coordinates, velocities and accelerations are fixed-point values:
//! `i64` counts of `1 / arith::SCALE` of a court unit (the court spans
//! roughly one unit from the centre to each side wall).  Working on scaled
//! integers keeps every tick exactly reproducible and lets each operation
//! carry an exact contract.
//!
//! - [`arith`]: scalar kernel (truncating division, integer square root,
//!   clamping).
//! - [`geom`]: vectors, points, segments and circles, with closest-point,
//!   intersection and bounce-reflection queries.
//! - [`physics`]: the ball integrator (half-kick gravity, drift, iterated
//!   collision resolution with an energy-conserving rescale).
//! - [`game`]: the character controller and the per-tick world orchestration.

pub mod arith;
pub mod game;
pub mod geom;
pub mod physics;
