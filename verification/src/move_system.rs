//! The integration pass: advance every position by its velocity over the
//! tick, wrap each axis back onto the torus in a single step, and hand the
//! final pose out for rendering.

use vstd::prelude::*;

use crate::components::{Entity, Ship, lemma_speed_components};
use crate::config::SimConfig;
use crate::fixed::{
    FULL_TURN, QUARTER_TURN, UNIT, lemma_mul_div_bound, lemma_mul_div_strict, mul_div, scale,
    spec_wrap_angle, spec_wrap_coord,
};

verus! {

/// Fixed-point time modifier while the slow-motion flag is held.
pub const SLOW_MOTION_MODIFIER: i64 = 300;

/// One entity after integration: position advanced by
/// `velocity * dt * modifier` and wrapped back into the arena; velocity
/// and heading untouched.
pub open spec fn spec_move_entity(e: Entity, modifier: int, cfg: SimConfig) -> Entity {
    let step_x = mul_div(mul_div(e.vel.dx as int, cfg.dt as int, UNIT as int), modifier,
        UNIT as int);
    let step_y = mul_div(mul_div(e.vel.dy as int, cfg.dt as int, UNIT as int), modifier,
        UNIT as int);
    Entity {
        ship: Ship {
            x: spec_wrap_coord(e.ship.x + step_x, cfg.width as int) as i64,
            y: spec_wrap_coord(e.ship.y + step_y, cfg.height as int) as i64,
            ..e.ship
        },
        vel: e.vel,
        role: e.role,
    }
}

/// The whole population after integration.
pub open spec fn spec_move_pass(s: Seq<Entity>, modifier: int, cfg: SimConfig) -> Seq<Entity> {
    Seq::new(s.len(), |i: int| spec_move_entity(s[i], modifier, cfg))
}

/// Under the store invariant and a well-formed configuration, one tick's
/// step stays strictly inside one arena extent, so the single-step wrap
/// lands in range.
proof fn lemma_step_bounds(e: Entity, modifier: int, cfg: SimConfig)
    requires
        cfg.wf(),
        e.wf(cfg),
        0 <= modifier <= UNIT,
    ensures
        ({
            let s1 = mul_div(e.vel.dx as int, cfg.dt as int, UNIT as int);
            -cfg.width < s1 < cfg.width
                && -cfg.width < mul_div(s1, modifier, UNIT as int) < cfg.width
        }),
        ({
            let s1 = mul_div(e.vel.dy as int, cfg.dt as int, UNIT as int);
            -cfg.height < s1 < cfg.height
                && -cfg.height < mul_div(s1, modifier, UNIT as int) < cfg.height
        }),
{
    lemma_speed_components(e.vel, cfg.max_speed as int);
    let max = cfg.max_speed as int;
    let dt = cfg.dt as int;
    let w = cfg.width as int;
    let h = cfg.height as int;
    assert(-(UNIT * w) < e.vel.dx * dt < UNIT * w && -(UNIT * h) < e.vel.dy * dt < UNIT * h)
        by (nonlinear_arith)
        requires
            -max <= e.vel.dx as int <= max,
            -max <= e.vel.dy as int <= max,
            max * dt < w * (UNIT as int),
            max * dt < h * (UNIT as int),
            1 <= dt,
            0 <= max,
            UNIT == 1000int,
    ;
    lemma_mul_div_strict(e.vel.dx as int, dt, UNIT as int, w);
    lemma_mul_div_strict(e.vel.dy as int, dt, UNIT as int, h);
    let s1x = mul_div(e.vel.dx as int, dt, UNIT as int);
    let s1y = mul_div(e.vel.dy as int, dt, UNIT as int);
    lemma_mul_div_bound(s1x, modifier, UNIT as int, w - 1);
    lemma_mul_div_bound(s1y, modifier, UNIT as int, h - 1);
    assert(0 <= (w - 1) * modifier <= (UNIT as int) * (w - 1) && 0 <= (h - 1) * modifier
        <= (UNIT as int) * (h - 1)) by (nonlinear_arith)
        requires
            0 <= modifier <= UNIT as int,
            1 <= w,
            1 <= h,
            UNIT == 1000int,
    ;
    vstd::arithmetic::div_mod::lemma_multiply_divide_le((w - 1) * modifier, UNIT as int, w - 1);
    vstd::arithmetic::div_mod::lemma_multiply_divide_le((h - 1) * modifier, UNIT as int, h - 1);
}

/// Integrate one entity over the tick.
fn move_entity(e: &Entity, modifier: i64, cfg: &SimConfig) -> (r: Entity)
    requires
        cfg.wf(),
        e.wf(*cfg),
        0 <= modifier <= UNIT,
    ensures
        r == spec_move_entity(*e, modifier as int, *cfg),
        r.wf(*cfg),
        r.ship.rotation == e.ship.rotation,
        r.ship.id == e.ship.id,
        r.vel == e.vel,
        r.role == e.role,
{
    proof {
        lemma_step_bounds(*e, modifier as int, *cfg);
        lemma_speed_components(e.vel, cfg.max_speed as int);
        assert(-1_000_000_000_000 <= (e.vel.dx as int) * cfg.dt <= 1_000_000_000_000
            && -1_000_000_000_000 <= (e.vel.dy as int) * cfg.dt <= 1_000_000_000_000)
            by (nonlinear_arith)
            requires
                -1_000_000 <= e.vel.dx as int <= 1_000_000,
                -1_000_000 <= e.vel.dy as int <= 1_000_000,
                0 <= cfg.dt as int <= 1_000_000,
        ;
    }
    let s1x = scale(e.vel.dx, cfg.dt, UNIT);
    let s1y = scale(e.vel.dy, cfg.dt, UNIT);
    proof {
        assert(-1_000_000_000_000 <= (s1x as int) * modifier <= 1_000_000_000_000
            && -1_000_000_000_000 <= (s1y as int) * modifier <= 1_000_000_000_000)
            by (nonlinear_arith)
            requires
                -1_000_000 <= s1x as int <= 1_000_000,
                -1_000_000 <= s1y as int <= 1_000_000,
                0 <= modifier as int <= 1000,
        ;
    }
    let sdx = scale(s1x, modifier, UNIT);
    let sdy = scale(s1y, modifier, UNIT);
    let mut ship = e.ship;
    ship.translate_xy(sdx, sdy);
    if ship.x < 0 {
        ship.translate_x(cfg.width);
    } else if ship.x >= cfg.width {
        ship.translate_x(-cfg.width);
    }
    if ship.y < 0 {
        ship.translate_y(cfg.height);
    } else if ship.y >= cfg.height {
        ship.translate_y(-cfg.height);
    }
    Entity { ship, vel: e.vel, role: e.role }
}

/// The pose this pass republishes for the external renderer: the final
/// position, and the heading offset a quarter turn because the renderer's
/// forward axis differs from the simulation's x axis. A pure output
/// convention; the simulation state is untouched.
pub fn render_pose(ship: &Ship) -> (r: (i64, i64, i64))
    requires
        ship.heading_normal(),
    ensures
        r.0 == ship.x,
        r.1 == ship.y,
        r.2 as int == spec_wrap_angle(ship.rotation + QUARTER_TURN),
        0 <= r.2 < FULL_TURN,
{
    let a = ship.rotation + QUARTER_TURN;
    if a >= FULL_TURN {
        (ship.x, ship.y, a - FULL_TURN)
    } else {
        (ship.x, ship.y, a)
    }
}

/// The integration pass over the whole population.
pub struct MoveSystem;

impl MoveSystem {
    /// Run the pass: every entity's position advances by
    /// `velocity * dt` (scaled down while the slow-motion flag is held)
    /// and wraps back onto the torus, so afterwards every entity sits
    /// inside `[0, width) x [0, height)`; headings and velocities are
    /// untouched.
    pub fn run(&self, entities: &mut Vec<Entity>, slow_motion: bool, cfg: &SimConfig)
        requires
            cfg.wf(),
            forall|i: int|
                0 <= i < old(entities)@.len() ==> (#[trigger] old(entities)@[i]).wf(*cfg),
        ensures
            final(entities)@ == spec_move_pass(
                old(entities)@,
                if slow_motion { SLOW_MOTION_MODIFIER as int } else { UNIT as int },
                *cfg,
            ),
            final(entities)@.len() == old(entities)@.len(),
            forall|i: int|
                0 <= i < final(entities)@.len() ==> (#[trigger] final(entities)@[i]).wf(*cfg),
            forall|i: int|
                0 <= i < final(entities)@.len() ==> (#[trigger] final(entities)@[i]).ship
                    .in_arena(cfg.width as int, cfg.height as int),
    {
        let modifier: i64 = if slow_motion { SLOW_MOTION_MODIFIER } else { UNIT };
        let ghost orig = entities@;
        let n = entities.len();
        let mut i: usize = 0;
        while i < n
            invariant
                cfg.wf(),
                0 <= modifier <= UNIT,
                n == orig.len(),
                entities@.len() == n,
                0 <= i <= n,
                forall|k: int| 0 <= k < orig.len() ==> (#[trigger] orig[k]).wf(*cfg),
                forall|k: int| i <= k < n ==> entities@[k] == orig[k],
                forall|k: int|
                    0 <= k < i ==> entities@[k] == spec_move_entity(orig[k], modifier as int,
                        *cfg),
                forall|k: int| 0 <= k < i ==> (#[trigger] entities@[k]).wf(*cfg),
            decreases n - i,
        {
            let e = entities[i];
            let ne = move_entity(&e, modifier, cfg);
            entities[i] = ne;
            i = i + 1;
        }
        proof {
            assert(entities@ =~= spec_move_pass(orig, modifier as int, *cfg));
        }
    }
}

} // verus!
