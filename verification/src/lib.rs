//! Particle-life simulation engine: several classes of point particles exert
//! class-pairwise attraction/repulsion forces on each other inside a bounded
//! circular arena.
//!
//! All simulation quantities are fixed-point integers: one world unit is
//! `FP_SCALE` fixed-point units, and force magnitudes are measured in
//! thousandths of a world unit per tick. This keeps every computation exact
//! and lets each step be specified and proved precisely.

use vstd::prelude::*;

pub mod codec;
pub mod engine;
pub mod kernel;
pub mod math;
pub mod rng;
pub mod state;
pub mod vec2;

verus! {

/// Min number of particle classes in the simulation.
pub const MIN_CLASSES: usize = 3;
/// Max number of particle classes in the simulation.
pub const MAX_CLASSES: usize = 8;

/// Min particle count.
pub const MIN_PARTICLE_COUNT: usize = 0;
/// Maximal particle count per class.
pub const MAX_PARTICLE_COUNT: usize = 1200;
/// Lowest particle count that seed randomization will pick.
pub const RANDOM_MIN_PARTICLE_COUNT: usize = 200;
/// Highest particle count that seed randomization will pick.
pub const RANDOM_MAX_PARTICLE_COUNT: usize = 1000;

/// Fixed-point units per world unit.
pub const FP_SCALE: i64 = 1000;

/// Default world radius, in world units.
pub const DEFAULT_WORLD_RADIUS: i64 = 900;
/// Min world radius, in world units.
pub const MIN_WORLD_RADIUS: i64 = 200;
/// Max world radius, in world units.
pub const MAX_WORLD_RADIUS: i64 = 1200;
/// Largest world radius the engine stores; the save format keeps the world
/// radius in two bytes, so this is also the largest value it can carry.
pub const WORLD_RADIUS_LIMIT: i64 = 65535;

pub const DEFAULT_FORCE: i64 = 0;
pub const MAX_FORCE: i64 = 100;
pub const MIN_FORCE: i64 = -100;
/// The user-tunable force is divided by this factor before it scales a
/// velocity: a force of 100 moves a particle by at most 0.2 world units
/// per tick.
pub const FORCE_DIVISOR: i64 = 500;
/// The force factor expressed in fixed-point units (`FP_SCALE / FORCE_DIVISOR`):
/// fixed-point units of velocity per unit of configured force.
pub const FORCE_FACTOR_FP: i64 = 2;

pub const DEFAULT_RADIUS: i64 = 80;
pub const MIN_RADIUS: i64 = 30;
pub const MAX_RADIUS: i64 = 100;
/// Smallest parameter value the save format can carry in one signed byte;
/// the engine clamps incoming parameters to `[PARAM_MIN, PARAM_MAX]`.
pub const PARAM_MIN: i64 = -128;
/// Largest parameter value the save format can carry in one signed byte.
pub const PARAM_MAX: i64 = 127;

/// Below this distance (fixed-point), particles always repel each other.
pub const RAMP_START_FP: i64 = MIN_RADIUS * FP_SCALE;
/// Length (fixed-point) of the linear ramp that follows the close-force zone.
pub const RAMP_LENGTH_FP: i64 = 10 * FP_SCALE;
/// Common denominator of the mid-range ramp: `RAMP_START_FP + RAMP_LENGTH_FP`.
pub const RAMP_DEN: i64 = RAMP_START_FP + RAMP_LENGTH_FP;
/// The force with which particles repel each other when closer than
/// `RAMP_START_FP`, in fixed-point velocity units.
pub const CLOSE_FORCE_FP: i64 = 20 * FORCE_FACTOR_FP;
/// Spring constant of the soft boundary: the inward pull grows by
/// `BORDER_FORCE_FP / FP_SCALE` fixed-point velocity units for every
/// fixed-point unit a particle sits beyond the world radius.
pub const BORDER_FORCE_FP: i64 = 10 * FORCE_FACTOR_FP;

/// Velocity damping: every tick the velocity is multiplied by
/// `DAMPING_NUM / DAMPING_DEN` (strictly below one; the only energy
/// dissipation in the system).
pub const DAMPING_NUM: i64 = 2;
pub const DAMPING_DEN: i64 = 5;
/// Scales velocity into position change per second.
pub const POS_FACTOR: i64 = 40;

/// Radius of the spawn area, in fixed-point units.
pub const SPAWN_AREA_RADIUS_FP: i64 = 40 * FP_SCALE;

/// Hard safety box for particle coordinates: one coordinate never leaves
/// `[-POS_LIMIT, POS_LIMIT]` (a million world units, far outside any legal
/// arena), so distance computations can never overflow.
pub const POS_LIMIT: i64 = 1_000_000_000;
/// Bound on a velocity coordinate, maintained by every step.
pub const VEL_LIMIT: i64 = 25_000_000;

/// Min update interval in ms (when the simulation is running); also the
/// fixed time step of one tick.
pub const UPDATE_INTERVAL_MS: u64 = 30;
/// Update interval in ms when the simulation is paused or stopped.
pub const PAUSED_UPDATE_INTERVAL_MS: u64 = 100;

} // verus!
