//! Immutable per-process simulation configuration: arena extent and the
//! tunable parameters of the three per-tick passes. Every component call
//! takes the configuration explicitly; nothing reads ambient globals.

use vstd::prelude::*;

use crate::fixed::{UNIT, FULL_TURN};

verus! {

/// Largest population the overflow-freedom proofs of the steering pass
/// cover; a machine limit, not a simulation rule.
pub const MAX_POPULATION: usize = 1000;

/// Arena extent and tunables, all fixed-point with scale `UNIT`
/// (angles with scale `FULL_TURN` per circle).
#[derive(Clone, Copy, Debug, PartialEq, Eq, Structural)]
pub struct SimConfig {
    /// Arena width; x coordinates live in `[0, width)`.
    pub width: i64,
    /// Arena height; y coordinates live in `[0, height)`.
    pub height: i64,
    /// Speed ceiling per tick, enforced by an explicit clamp.
    pub max_speed: i64,
    /// Heading change per full turn-axis deflection, in angle units.
    pub turn_rate: i64,
    /// Forward thrust added per tick of positive throttle.
    pub accel_forward: i64,
    /// Reverse thrust per tick of negative throttle (smaller than forward).
    pub accel_reverse: i64,
    /// Neighbor radius of the alignment force.
    pub alignment_range: i64,
    /// Neighbor radius of the cohesion force.
    pub cohesion_range: i64,
    /// Neighbor radius of the separation force.
    pub separation_range: i64,
    /// Weight of the alignment force in the steering combination.
    pub alignment_weight: i64,
    /// Weight of the cohesion force in the steering combination.
    pub cohesion_weight: i64,
    /// Weight of the separation force in the steering combination.
    pub separation_weight: i64,
    /// Tick duration in fixed-point seconds.
    pub dt: i64,
}

impl SimConfig {
    /// Well-formed configurations: positive arena, parameters within the
    /// ranges the fixed-point arithmetic is proved overflow-free for, and
    /// the single-step wraparound invariant `MAX_SPEED * dt < extent`.
    pub open spec fn wf(self) -> bool {
        &&& 1 <= self.width <= 1_000_000
        &&& 1 <= self.height <= 1_000_000
        &&& 0 <= self.max_speed <= 1_000_000
        &&& 0 <= self.turn_rate < FULL_TURN
        &&& 0 <= self.accel_reverse <= self.accel_forward <= 1_000_000
        &&& 0 <= self.alignment_range <= 1_000_000
        &&& 0 <= self.cohesion_range <= 1_000_000
        &&& 0 <= self.separation_range <= 1_000_000
        &&& 0 <= self.alignment_weight <= 100_000
        &&& 0 <= self.cohesion_weight <= 100_000
        &&& 0 <= self.separation_weight <= 100_000
        &&& 1 <= self.dt <= 1_000_000
        &&& self.max_speed * self.dt < self.width * UNIT
        &&& self.max_speed * self.dt < self.height * UNIT
    }

    /// The default tuning: a 200 x 200 arena, alignment and separation at
    /// full weight, cohesion switched off, and the asymmetric thruster
    /// accelerations.
    pub fn standard() -> (c: SimConfig)
        ensures
            c.wf(),
            c.cohesion_weight == 0,
    {
        SimConfig {
            width: 200 * UNIT,
            height: 200 * UNIT,
            max_speed: 100 * UNIT,
            turn_rate: 100,
            accel_forward: 2100,
            accel_reverse: 200,
            alignment_range: 15 * UNIT,
            cohesion_range: 20 * UNIT,
            separation_range: 10 * UNIT,
            alignment_weight: UNIT,
            cohesion_weight: 0,
            separation_weight: UNIT,
            dt: 16,
        }
    }
}

} // verus!
