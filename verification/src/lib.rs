//! A verified core for a particle-life simulation.
//!
//! Particles belong to families; each family carries an ancestry vector and a
//! matrix of force curves that decide how strongly it is attracted to or
//! repelled from members of every other family. Each simulation step first
//! advances positions by the previous step's velocities (the integrator), then
//! recomputes velocities from pairwise interactions found through a spatial
//! radius query (the interaction engine).
//!
//! All scalar quantities are fixed-point numbers: an `i64` counts micro-units,
//! `fixed::SCALE` of them to one unit. Every operation states its result
//! exactly, saturating at the `i64` range.

pub mod config;
pub mod curve;
pub mod engine;
pub mod family;
pub mod fixed;
pub mod params;
pub mod rng;
pub mod trig;

pub use fixed::SCALE;
