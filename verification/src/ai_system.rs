//! The steering (flocking) pass: alignment, cohesion and separation forces
//! for every steering-driven entity, computed against one consistent
//! pre-tick snapshot and committed in a second pass, so the outcome never
//! depends on the order entities are processed in.

use vstd::prelude::*;
use vstd::arithmetic::div_mod::lemma_div_is_ordered;

use crate::components::{
    Entity, Role, Ship, Velocity, lemma_limit_velocity, lemma_speed_components, limit_velocity,
    spec_limit_velocity,
};
use crate::config::{MAX_POPULATION, SimConfig};
use crate::fixed::{
    UNIT, div_trunc, lemma_mul_div_unit_bound, lemma_square_fits, lemma_tdiv_bound,
    lemma_unit_product_fits, mul_div, normalize, scale, spec_normalize, tdiv,
};
use crate::torus::{
    distance_squared, distance_xy, spec_distance_squared, spec_offset_x, spec_offset_y,
};
use crate::trig::{atan2_fp, spec_atan2};

verus! {

/// Entity `j` is a neighbor of entity `i` for a force of radius `range`:
/// a different identifier, within the radius by toroidal distance.
pub open spec fn is_neighbor(s: Seq<Entity>, i: int, j: int, range: int, cfg: SimConfig) -> bool {
    &&& s[j].ship.id != s[i].ship.id
    &&& spec_distance_squared(s[j].ship, s[i].ship, cfg) <= range * range
}

/// Summed neighbor velocities and neighbor count for alignment, over the
/// snapshot prefix `[0, k)`.
pub open spec fn align_acc(s: Seq<Entity>, i: int, cfg: SimConfig, k: int) -> (int, int, int)
    decreases k,
{
    if k <= 0 {
        (0, 0, 0)
    } else {
        let p = align_acc(s, i, cfg, k - 1);
        if is_neighbor(s, i, k - 1, cfg.alignment_range as int, cfg) {
            (p.0 + s[k - 1].vel.dx, p.1 + s[k - 1].vel.dy, p.2 + 1)
        } else {
            p
        }
    }
}

/// Summed wrap-aware offsets toward neighbors and neighbor count for
/// cohesion, over the snapshot prefix `[0, k)`.
pub open spec fn cohesion_acc(s: Seq<Entity>, i: int, cfg: SimConfig, k: int) -> (int, int, int)
    decreases k,
{
    if k <= 0 {
        (0, 0, 0)
    } else {
        let p = cohesion_acc(s, i, cfg, k - 1);
        if is_neighbor(s, i, k - 1, cfg.cohesion_range as int, cfg) {
            (
                p.0 + spec_offset_x(s[i].ship, s[k - 1].ship, cfg),
                p.1 + spec_offset_y(s[i].ship, s[k - 1].ship, cfg),
                p.2 + 1,
            )
        } else {
            p
        }
    }
}

/// Summed wrap-aware offsets toward neighbors for separation, over the
/// snapshot prefix `[0, k)`.
pub open spec fn separation_acc(s: Seq<Entity>, i: int, cfg: SimConfig, k: int) -> (int, int)
    decreases k,
{
    if k <= 0 {
        (0, 0)
    } else {
        let p = separation_acc(s, i, cfg, k - 1);
        if is_neighbor(s, i, k - 1, cfg.separation_range as int, cfg) {
            (
                p.0 + spec_offset_x(s[i].ship, s[k - 1].ship, cfg),
                p.1 + spec_offset_y(s[i].ship, s[k - 1].ship, cfg),
            )
        } else {
            p
        }
    }
}

/// Alignment force: the average neighbor velocity, normalized; the zero
/// vector when there is no neighbor.
pub open spec fn spec_alignment(s: Seq<Entity>, i: int, cfg: SimConfig) -> (int, int) {
    let a = align_acc(s, i, cfg, s.len() as int);
    if a.2 == 0 {
        (0, 0)
    } else {
        spec_normalize(tdiv(a.0, a.2), tdiv(a.1, a.2))
    }
}

/// Cohesion force: the average wrap-aware offset toward the neighbors,
/// normalized; the zero vector when there is no neighbor.
pub open spec fn spec_cohesion(s: Seq<Entity>, i: int, cfg: SimConfig) -> (int, int) {
    let a = cohesion_acc(s, i, cfg, s.len() as int);
    if a.2 == 0 {
        (0, 0)
    } else {
        spec_normalize(tdiv(a.0, a.2), tdiv(a.1, a.2))
    }
}

/// Separation force: the negated sum of wrap-aware offsets toward the
/// neighbors, normalized; the zero vector when the sum is zero.
pub open spec fn spec_separation(s: Seq<Entity>, i: int, cfg: SimConfig) -> (int, int) {
    let a = separation_acc(s, i, cfg, s.len() as int);
    spec_normalize(-a.0, -a.1)
}

/// The combined steering nudge: the three forces, weighted, summed and
/// normalized.
pub open spec fn spec_steer(s: Seq<Entity>, i: int, cfg: SimConfig) -> (int, int) {
    let a = spec_alignment(s, i, cfg);
    let c = spec_cohesion(s, i, cfg);
    let p = spec_separation(s, i, cfg);
    spec_normalize(
        mul_div(a.0, cfg.alignment_weight as int, UNIT as int)
            + mul_div(c.0, cfg.cohesion_weight as int, UNIT as int)
            + mul_div(p.0, cfg.separation_weight as int, UNIT as int),
        mul_div(a.1, cfg.alignment_weight as int, UNIT as int)
            + mul_div(c.1, cfg.cohesion_weight as int, UNIT as int)
            + mul_div(p.1, cfg.separation_weight as int, UNIT as int),
    )
}

/// The population is fit for the steering pass: every entity within the
/// store invariant, and no more entities than the overflow proofs cover.
pub open spec fn population_ok(s: Seq<Entity>, cfg: SimConfig) -> bool {
    &&& s.len() <= MAX_POPULATION
    &&& forall|k: int| 0 <= k < s.len() ==> (#[trigger] s[k]).wf(cfg)
}

/// Alignment force of entity `i` against the snapshot.
pub fn alignment_force(entities: &Vec<Entity>, i: usize, cfg: &SimConfig) -> (r: (i64, i64))
    requires
        cfg.wf(),
        i < entities@.len(),
        population_ok(entities@, *cfg),
    ensures
        r.0 as int == spec_alignment(entities@, i as int, *cfg).0,
        r.1 as int == spec_alignment(entities@, i as int, *cfg).1,
        -UNIT <= r.0 <= UNIT,
        -UNIT <= r.1 <= UNIT,
{
    proof {
        lemma_square_fits(cfg.alignment_range as int);
    }
    let ghost s = entities@;
    let n = entities.len();
    let me = entities[i].ship;
    let range2 = cfg.alignment_range * cfg.alignment_range;
    let mut sx: i64 = 0;
    let mut sy: i64 = 0;
    let mut cnt: i64 = 0;
    let mut j: usize = 0;
    while j < n
        invariant
            cfg.wf(),
            s == entities@,
            population_ok(s, *cfg),
            i < n,
            n == s.len(),
            me == s[i as int].ship,
            range2 == cfg.alignment_range * cfg.alignment_range,
            0 <= j <= n,
            0 <= cnt <= j,
            sx as int == align_acc(s, i as int, *cfg, j as int).0,
            sy as int == align_acc(s, i as int, *cfg, j as int).1,
            cnt as int == align_acc(s, i as int, *cfg, j as int).2,
            -1_000_000 * cnt <= sx <= 1_000_000 * cnt,
            -1_000_000 * cnt <= sy <= 1_000_000 * cnt,
        decreases n - j,
    {
        let o = entities[j];
        proof {
            lemma_speed_components(o.vel, cfg.max_speed as int);
        }
        if o.ship.id != me.id {
            let d2 = distance_squared(&o.ship, &me, cfg);
            if d2 <= range2 {
                sx = sx + o.vel.dx;
                sy = sy + o.vel.dy;
                cnt = cnt + 1;
            }
        }
        j = j + 1;
    }
    if cnt == 0 {
        (0, 0)
    } else {
        proof {
            lemma_tdiv_bound(sx as int, cnt as int, 1_000_000);
            lemma_tdiv_bound(sy as int, cnt as int, 1_000_000);
        }
        let ax = div_trunc(sx, cnt);
        let ay = div_trunc(sy, cnt);
        normalize(ax, ay)
    }
}

/// Cohesion force of entity `i` against the snapshot.
pub fn cohesion_force(entities: &Vec<Entity>, i: usize, cfg: &SimConfig) -> (r: (i64, i64))
    requires
        cfg.wf(),
        i < entities@.len(),
        population_ok(entities@, *cfg),
    ensures
        r.0 as int == spec_cohesion(entities@, i as int, *cfg).0,
        r.1 as int == spec_cohesion(entities@, i as int, *cfg).1,
        -UNIT <= r.0 <= UNIT,
        -UNIT <= r.1 <= UNIT,
{
    proof {
        lemma_square_fits(cfg.cohesion_range as int);
        lemma_div_is_ordered(cfg.width as int, 1_000_000, 2);
        lemma_div_is_ordered(cfg.height as int, 1_000_000, 2);
    }
    let ghost s = entities@;
    let n = entities.len();
    let me = entities[i].ship;
    let range2 = cfg.cohesion_range * cfg.cohesion_range;
    let mut sx: i64 = 0;
    let mut sy: i64 = 0;
    let mut cnt: i64 = 0;
    let mut j: usize = 0;
    while j < n
        invariant
            cfg.wf(),
            s == entities@,
            population_ok(s, *cfg),
            i < n,
            n == s.len(),
            me == s[i as int].ship,
            range2 == cfg.cohesion_range * cfg.cohesion_range,
            0 <= j <= n,
            0 <= cnt <= j,
            sx as int == cohesion_acc(s, i as int, *cfg, j as int).0,
            sy as int == cohesion_acc(s, i as int, *cfg, j as int).1,
            cnt as int == cohesion_acc(s, i as int, *cfg, j as int).2,
            -500_000 * cnt <= sx <= 500_000 * cnt,
            -500_000 * cnt <= sy <= 500_000 * cnt,
        decreases n - j,
    {
        let o = entities[j];
        if o.ship.id != me.id {
            let d2 = distance_squared(&o.ship, &me, cfg);
            if d2 <= range2 {
                let off = distance_xy(&me, &o.ship, cfg);
                sx = sx + off.0;
                sy = sy + off.1;
                cnt = cnt + 1;
            }
        }
        j = j + 1;
    }
    if cnt == 0 {
        (0, 0)
    } else {
        proof {
            lemma_tdiv_bound(sx as int, cnt as int, 500_000);
            lemma_tdiv_bound(sy as int, cnt as int, 500_000);
        }
        let ax = div_trunc(sx, cnt);
        let ay = div_trunc(sy, cnt);
        normalize(ax, ay)
    }
}

/// Separation force of entity `i` against the snapshot.
pub fn separation_force(entities: &Vec<Entity>, i: usize, cfg: &SimConfig) -> (r: (i64, i64))
    requires
        cfg.wf(),
        i < entities@.len(),
        population_ok(entities@, *cfg),
    ensures
        r.0 as int == spec_separation(entities@, i as int, *cfg).0,
        r.1 as int == spec_separation(entities@, i as int, *cfg).1,
        -UNIT <= r.0 <= UNIT,
        -UNIT <= r.1 <= UNIT,
{
    proof {
        lemma_square_fits(cfg.separation_range as int);
        lemma_div_is_ordered(cfg.width as int, 1_000_000, 2);
        lemma_div_is_ordered(cfg.height as int, 1_000_000, 2);
    }
    let ghost s = entities@;
    let n = entities.len();
    let me = entities[i].ship;
    let range2 = cfg.separation_range * cfg.separation_range;
    let mut sx: i64 = 0;
    let mut sy: i64 = 0;
    let mut j: usize = 0;
    while j < n
        invariant
            cfg.wf(),
            s == entities@,
            population_ok(s, *cfg),
            i < n,
            n == s.len(),
            me == s[i as int].ship,
            range2 == cfg.separation_range * cfg.separation_range,
            0 <= j <= n,
            sx as int == separation_acc(s, i as int, *cfg, j as int).0,
            sy as int == separation_acc(s, i as int, *cfg, j as int).1,
            -500_000 * (j as i64) <= sx <= 500_000 * (j as i64),
            -500_000 * (j as i64) <= sy <= 500_000 * (j as i64),
        decreases n - j,
    {
        let o = entities[j];
        if o.ship.id != me.id {
            let d2 = distance_squared(&o.ship, &me, cfg);
            if d2 <= range2 {
                let off = distance_xy(&me, &o.ship, cfg);
                sx = sx + off.0;
                sy = sy + off.1;
            }
        }
        j = j + 1;
    }
    normalize(-sx, -sy)
}

/// One steering-driven entity after its force plan is committed: the
/// steering nudge is added to the velocity, the velocity renormalized and
/// rescaled to top speed, the heading turned to the direction of travel,
/// and the speed clamped. Position is untouched.
pub open spec fn spec_ai_commit(e: Entity, steer: (int, int), cfg: SimConfig) -> Entity {
    let nv = spec_normalize(e.vel.dx + steer.0, e.vel.dy + steer.1);
    let v2 = Velocity {
        dx: mul_div(nv.0, cfg.max_speed as int, UNIT as int) as i64,
        dy: mul_div(nv.1, cfg.max_speed as int, UNIT as int) as i64,
    };
    let rot = spec_atan2(v2.dy as int, v2.dx as int);
    Entity {
        ship: Ship { rotation: rot as i64, ..e.ship },
        vel: spec_limit_velocity(v2, cfg.max_speed as int),
        role: e.role,
    }
}

/// One entity after the steering pass: steering-driven entities commit
/// their snapshot plan; player entities pass through unchanged.
pub open spec fn spec_ai_step(s: Seq<Entity>, i: int, cfg: SimConfig) -> Entity {
    if s[i].is_ai() {
        spec_ai_commit(s[i], spec_steer(s, i, cfg), cfg)
    } else {
        s[i]
    }
}

/// The whole population after the steering pass. Every entity's plan is a
/// function of the one pre-pass snapshot `s`, never of another entity's
/// committed state.
pub open spec fn spec_ai_pass(s: Seq<Entity>, cfg: SimConfig) -> Seq<Entity> {
    Seq::new(s.len(), |i: int| spec_ai_step(s, i, cfg))
}

/// The combined steering nudge of entity `i` against the snapshot.
pub fn steer_force(entities: &Vec<Entity>, i: usize, cfg: &SimConfig) -> (r: (i64, i64))
    requires
        cfg.wf(),
        i < entities@.len(),
        population_ok(entities@, *cfg),
    ensures
        r.0 as int == spec_steer(entities@, i as int, *cfg).0,
        r.1 as int == spec_steer(entities@, i as int, *cfg).1,
        -UNIT <= r.0 <= UNIT,
        -UNIT <= r.1 <= UNIT,
{
    let a = alignment_force(entities, i, cfg);
    let c = cohesion_force(entities, i, cfg);
    let p = separation_force(entities, i, cfg);
    proof {
        lemma_mul_div_unit_bound(a.0 as int, cfg.alignment_weight as int);
        lemma_mul_div_unit_bound(a.1 as int, cfg.alignment_weight as int);
        lemma_mul_div_unit_bound(c.0 as int, cfg.cohesion_weight as int);
        lemma_mul_div_unit_bound(c.1 as int, cfg.cohesion_weight as int);
        lemma_mul_div_unit_bound(p.0 as int, cfg.separation_weight as int);
        lemma_mul_div_unit_bound(p.1 as int, cfg.separation_weight as int);
        lemma_unit_product_fits(a.0 as int, cfg.alignment_weight as int);
        lemma_unit_product_fits(a.1 as int, cfg.alignment_weight as int);
        lemma_unit_product_fits(c.0 as int, cfg.cohesion_weight as int);
        lemma_unit_product_fits(c.1 as int, cfg.cohesion_weight as int);
        lemma_unit_product_fits(p.0 as int, cfg.separation_weight as int);
        lemma_unit_product_fits(p.1 as int, cfg.separation_weight as int);
    }
    let wx = scale(a.0, cfg.alignment_weight, UNIT) + scale(c.0, cfg.cohesion_weight, UNIT)
        + scale(p.0, cfg.separation_weight, UNIT);
    let wy = scale(a.1, cfg.alignment_weight, UNIT) + scale(c.1, cfg.cohesion_weight, UNIT)
        + scale(p.1, cfg.separation_weight, UNIT);
    normalize(wx, wy)
}

/// Commit one steering-driven entity's plan.
fn ai_commit(e: &Entity, steer: (i64, i64), cfg: &SimConfig) -> (r: Entity)
    requires
        cfg.wf(),
        e.wf(*cfg),
        -UNIT <= steer.0 <= UNIT,
        -UNIT <= steer.1 <= UNIT,
    ensures
        r == spec_ai_commit(*e, (steer.0 as int, steer.1 as int), *cfg),
        r.wf(*cfg),
        r.ship.x == e.ship.x,
        r.ship.y == e.ship.y,
        r.ship.id == e.ship.id,
        r.role == e.role,
{
    proof {
        lemma_speed_components(e.vel, cfg.max_speed as int);
    }
    let v1x = e.vel.dx + steer.0;
    let v1y = e.vel.dy + steer.1;
    let (nx, ny) = normalize(v1x, v1y);
    proof {
        lemma_mul_div_unit_bound(nx as int, cfg.max_speed as int);
        lemma_mul_div_unit_bound(ny as int, cfg.max_speed as int);
        lemma_unit_product_fits(nx as int, cfg.max_speed as int);
        lemma_unit_product_fits(ny as int, cfg.max_speed as int);
    }
    let v2x = scale(nx, cfg.max_speed, UNIT);
    let v2y = scale(ny, cfg.max_speed, UNIT);
    let rot = atan2_fp(v2y, v2x);
    let mut vel = Velocity { dx: v2x, dy: v2y };
    proof {
        lemma_limit_velocity(vel, cfg.max_speed as int);
    }
    limit_velocity(&mut vel, cfg.max_speed);
    Entity { ship: Ship { rotation: rot, ..e.ship }, vel, role: e.role }
}

/// The steering pass over the whole population.
pub struct AISystem;

impl AISystem {
    /// Run the pass in two phases: first compute every steering-driven
    /// entity's force plan against the unmodified pre-pass snapshot, then
    /// commit all plans. The contract ties every committed entity to the
    /// snapshot `old(entities)`, so the result is independent of
    /// processing order; players and all positions are untouched.
    pub fn run(&self, entities: &mut Vec<Entity>, cfg: &SimConfig)
        requires
            cfg.wf(),
            population_ok(old(entities)@, *cfg),
        ensures
            final(entities)@ == spec_ai_pass(old(entities)@, *cfg),
            final(entities)@.len() == old(entities)@.len(),
            forall|i: int|
                0 <= i < final(entities)@.len() ==> (#[trigger] final(entities)@[i]).wf(*cfg),
    {
        let ghost orig = entities@;
        let n = entities.len();

        // Phase 1: plan all forces against the immutable snapshot.
        let mut forces: Vec<(i64, i64)> = Vec::new();
        let mut i: usize = 0;
        while i < n
            invariant
                cfg.wf(),
                entities@ == orig,
                population_ok(orig, *cfg),
                n == orig.len(),
                0 <= i <= n,
                forces@.len() == i,
                forall|k: int|
                    0 <= k < i ==> {
                        &&& -UNIT <= (#[trigger] forces@[k]).0 <= UNIT
                        &&& -UNIT <= forces@[k].1 <= UNIT
                        &&& orig[k].is_ai() ==> {
                            &&& forces@[k].0 as int == spec_steer(orig, k, *cfg).0
                            &&& forces@[k].1 as int == spec_steer(orig, k, *cfg).1
                        }
                    },
            decreases n - i,
        {
            let is_ai_entity = (match entities[i].role {
                Role::Ai(_) => true,
                Role::Player(_) => false,
            });
            if is_ai_entity {
                let f = steer_force(entities, i, cfg);
                forces.push(f);
            } else {
                forces.push((0, 0));
            }
            i = i + 1;
        }

        // Phase 2: commit the plans.
        let mut i: usize = 0;
        while i < n
            invariant
                cfg.wf(),
                population_ok(orig, *cfg),
                n == orig.len(),
                entities@.len() == n,
                forces@.len() == n,
                0 <= i <= n,
                forall|k: int|
                    0 <= k < n ==> {
                        &&& -UNIT <= (#[trigger] forces@[k]).0 <= UNIT
                        &&& -UNIT <= forces@[k].1 <= UNIT
                        &&& orig[k].is_ai() ==> {
                            &&& forces@[k].0 as int == spec_steer(orig, k, *cfg).0
                            &&& forces@[k].1 as int == spec_steer(orig, k, *cfg).1
                        }
                    },
                forall|k: int| i <= k < n ==> entities@[k] == orig[k],
                forall|k: int| 0 <= k < i ==> entities@[k] == spec_ai_step(orig, k, *cfg),
                forall|k: int| 0 <= k < i ==> (#[trigger] entities@[k]).wf(*cfg),
            decreases n - i,
        {
            let e = entities[i];
            match e.role {
                Role::Ai(_) => {
                    let f = forces[i];
                    let ne = ai_commit(&e, f, cfg);
                    entities[i] = ne;
                },
                Role::Player(_) => {
                    proof {
                        assert(spec_ai_step(orig, i as int, *cfg) == orig[i as int]);
                    }
                },
            }
            i = i + 1;
        }
        proof {
            assert(entities@ =~= spec_ai_pass(orig, *cfg));
        }
    }
}

} // verus!
