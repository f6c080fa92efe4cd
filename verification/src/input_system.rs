//! The input-mapping pass: per-slot throttle and turn axes become heading
//! and velocity changes for player-driven entities. Absent axes are a
//! defined no-op; steering-driven entities are untouched.

use vstd::prelude::*;

use crate::components::{
    Entity, Role, Ship, Velocity, lemma_limit_velocity, limit_rotation, limit_velocity,
    spec_limit_velocity,
};
use crate::config::SimConfig;
use crate::fixed::{
    UNIT, lemma_mul_div_unit_bound, mul_div, scale, spec_wrap_angle,
};
use crate::trig::{cos_fp, sin_fp, spec_cos, spec_sin};

verus! {

/// The two control axes of one player slot for one tick; `None` means the
/// axis has no bound input source this tick.
#[derive(Clone, Copy, Debug, PartialEq, Eq)]
pub struct PlayerInput {
    /// Forward / reverse axis in `[-UNIT, UNIT]`.
    pub throttle: Option<i64>,
    /// Turn axis in `[-UNIT, UNIT]`.
    pub turn: Option<i64>,
}

impl PlayerInput {
    /// Axis values live in `[-1, 1]`, fixed-point.
    pub open spec fn wf(self) -> bool {
        &&& (self.throttle matches Some(t) ==> -UNIT <= t <= UNIT)
        &&& (self.turn matches Some(t) ==> -UNIT <= t <= UNIT)
    }

    /// Both axes absent.
    pub fn none() -> (r: PlayerInput)
        ensures
            r.throttle is None,
            r.turn is None,
            r.wf(),
    {
        PlayerInput { throttle: None, turn: None }
    }
}

/// The input record of a slot: out-of-range slots read as absent axes.
pub open spec fn slot_input(inputs: Seq<PlayerInput>, slot: int) -> PlayerInput {
    if 0 <= slot < inputs.len() {
        inputs[slot]
    } else {
        PlayerInput { throttle: None, turn: None }
    }
}

/// One player entity after the input pass: the turn axis shifts the
/// heading by `turn * TURN_RATE` (wrapped back into one circle), the
/// throttle axis accelerates along the new heading (forward stronger than
/// reverse), and the speed is clamped. Position is untouched.
pub open spec fn spec_input_entity(e: Entity, inp: PlayerInput, cfg: SimConfig) -> Entity {
    let rot = (match inp.turn {
        Some(t) => spec_wrap_angle(
            e.ship.rotation + mul_div(t as int, cfg.turn_rate as int, UNIT as int),
        ),
        None => e.ship.rotation as int,
    });
    let vel = (match inp.throttle {
        Some(s) => {
            let hx = spec_cos(rot);
            let hy = spec_sin(rot);
            if s > 0 {
                Velocity {
                    dx: (e.vel.dx + mul_div(hx, cfg.accel_forward as int, UNIT as int)) as i64,
                    dy: (e.vel.dy + mul_div(hy, cfg.accel_forward as int, UNIT as int)) as i64,
                }
            } else if s < 0 {
                Velocity {
                    dx: (e.vel.dx - mul_div(hx, cfg.accel_reverse as int, UNIT as int)) as i64,
                    dy: (e.vel.dy - mul_div(hy, cfg.accel_reverse as int, UNIT as int)) as i64,
                }
            } else {
                e.vel
            }
        },
        None => e.vel,
    });
    Entity {
        ship: Ship { rotation: rot as i64, ..e.ship },
        vel: spec_limit_velocity(vel, cfg.max_speed as int),
        role: e.role,
    }
}

/// One entity after the input pass: players are driven by their slot's
/// axes, steering-driven entities pass through unchanged.
pub open spec fn spec_input_step(e: Entity, inputs: Seq<PlayerInput>, cfg: SimConfig) -> Entity {
    match e.role {
        Role::Player(tag) => spec_input_entity(e, slot_input(inputs, tag.slot as int), cfg),
        Role::Ai(_) => e,
    }
}

/// The whole population after the input pass.
pub open spec fn spec_input_pass(
    s: Seq<Entity>,
    inputs: Seq<PlayerInput>,
    cfg: SimConfig,
) -> Seq<Entity> {
    Seq::new(s.len(), |i: int| spec_input_step(s[i], inputs, cfg))
}

/// Apply one slot's axes to one player entity.
fn input_entity(e: &Entity, inp: &PlayerInput, cfg: &SimConfig) -> (r: Entity)
    requires
        cfg.wf(),
        e.wf(*cfg),
        inp.wf(),
    ensures
        r == spec_input_entity(*e, *inp, *cfg),
        r.wf(*cfg),
        r.ship.x == e.ship.x,
        r.ship.y == e.ship.y,
        r.ship.id == e.ship.id,
        r.role == e.role,
{
    proof {
        crate::components::lemma_speed_components(e.vel, cfg.max_speed as int);
    }
    let mut ship = e.ship;
    let mut vel = e.vel;
    match inp.turn {
        Some(t) => {
            proof {
                lemma_mul_div_unit_bound(t as int, cfg.turn_rate as int);
                crate::fixed::lemma_unit_product_fits(t as int, cfg.turn_rate as int);
            }
            let delta = scale(t, cfg.turn_rate, UNIT);
            ship.rotation = ship.rotation + delta;
            limit_rotation(&mut ship);
        },
        None => {},
    }
    match inp.throttle {
        Some(s) => {
            let hx = cos_fp(ship.rotation);
            let hy = sin_fp(ship.rotation);
            if s > 0 {
                proof {
                    lemma_mul_div_unit_bound(hx as int, cfg.accel_forward as int);
                    lemma_mul_div_unit_bound(hy as int, cfg.accel_forward as int);
                    crate::fixed::lemma_unit_product_fits(hx as int, cfg.accel_forward as int);
                    crate::fixed::lemma_unit_product_fits(hy as int, cfg.accel_forward as int);
                }
                vel.dx = vel.dx + scale(hx, cfg.accel_forward, UNIT);
                vel.dy = vel.dy + scale(hy, cfg.accel_forward, UNIT);
            } else if s < 0 {
                proof {
                    lemma_mul_div_unit_bound(hx as int, cfg.accel_reverse as int);
                    lemma_mul_div_unit_bound(hy as int, cfg.accel_reverse as int);
                    crate::fixed::lemma_unit_product_fits(hx as int, cfg.accel_reverse as int);
                    crate::fixed::lemma_unit_product_fits(hy as int, cfg.accel_reverse as int);
                }
                vel.dx = vel.dx - scale(hx, cfg.accel_reverse, UNIT);
                vel.dy = vel.dy - scale(hy, cfg.accel_reverse, UNIT);
            }
        },
        None => {},
    }
    proof {
        lemma_limit_velocity(vel, cfg.max_speed as int);
    }
    limit_velocity(&mut vel, cfg.max_speed);
    Entity { ship, vel, role: e.role }
}

/// The input-mapping pass over the whole population.
pub struct InputSystem;

impl InputSystem {
    /// Run the pass: every player entity is driven by its slot's axes;
    /// every other entity, and every position, is untouched; afterwards
    /// every entity still satisfies the store invariant.
    pub fn run(
        &self,
        entities: &mut Vec<Entity>,
        inputs: &Vec<PlayerInput>,
        cfg: &SimConfig,
    )
        requires
            cfg.wf(),
            forall|i: int|
                0 <= i < old(entities)@.len() ==> (#[trigger] old(entities)@[i]).wf(*cfg),
            forall|i: int| 0 <= i < inputs@.len() ==> (#[trigger] inputs@[i]).wf(),
        ensures
            final(entities)@ == spec_input_pass(old(entities)@, inputs@, *cfg),
            final(entities)@.len() == old(entities)@.len(),
            forall|i: int|
                0 <= i < final(entities)@.len() ==> (#[trigger] final(entities)@[i]).wf(*cfg),
    {
        let ghost orig = entities@;
        let n = entities.len();
        let mut i: usize = 0;
        while i < n
            invariant
                cfg.wf(),
                n == orig.len(),
                entities@.len() == n,
                0 <= i <= n,
                forall|k: int| 0 <= k < orig.len() ==> (#[trigger] orig[k]).wf(*cfg),
                forall|k: int| 0 <= k < inputs@.len() ==> (#[trigger] inputs@[k]).wf(),
                forall|k: int| i <= k < n ==> entities@[k] == orig[k],
                forall|k: int|
                    0 <= k < i ==> entities@[k] == spec_input_step(orig[k], inputs@, *cfg),
                forall|k: int| 0 <= k < i ==> (#[trigger] entities@[k]).wf(*cfg),
            decreases n - i,
        {
            let e = entities[i];
            match e.role {
                Role::Player(tag) => {
                    let inp = if tag.slot < inputs.len() {
                        inputs[tag.slot]
                    } else {
                        PlayerInput::none()
                    };
                    proof {
                        assert(inp == slot_input(inputs@, tag.slot as int));
                    }
                    let ne = input_entity(&e, &inp, cfg);
                    entities[i] = ne;
                },
                Role::Ai(_) => {
                    proof {
                        assert(spec_input_step(e, inputs@, *cfg) == e);
                    }
                },
            }
            i = i + 1;
        }
        proof {
            assert(entities@ =~= spec_input_pass(orig, inputs@, *cfg));
        }
    }
}

} // verus!
