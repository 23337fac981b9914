//! Reference configuration of the simulation, in fixed-point micro-units.

use vstd::prelude::*;

verus! {

/// The fixed interaction radius: 100 units. Neighbors further away exert
/// no force.
pub const MAX_INTERACTION_DIST: i64 = 60_000_000;

/// Seconds per physics step: one sixtieth of a unit (`SCALE / 60`).
pub const TIME_STEP: i64 = 10_000;

/// Particles spawned per family.
pub const PARTICLE_COUNT: usize = 256;

/// Number of particle families.
pub const FAMILY_COUNT: usize = 16;

/// Initial positions are drawn uniformly from the square
/// `[-POS_GEN_RANGE, POS_GEN_RANGE)` on both axes: 1000 units.
pub const POS_GEN_RANGE: i64 = 600_000_000;

/// When set, generated curves are always cheap activation ramps instead of
/// trigonometric waves.
pub const FAST_MODE: bool = false;

/// Coordinates the engine accepts: `2^61` micro-units on either side of
/// the origin, so that squared distances fit the machine arithmetic.
pub const POS_LIMIT: i64 = 0x2000_0000_0000_0000;

} // verus!
