//! The entity store's records: kinematics (`Ship`), `Velocity`, the role
//! tags, and the clamps that keep every record inside its invariant after
//! each pass (speed within `max_speed`, heading within one turn).

use vstd::prelude::*;

use crate::config::SimConfig;
use crate::fixed::{
    FULL_TURN, UNIT, isqrt_spec, lemma_isqrt_bounds, lemma_mul_div_bound, isqrt, scale,
    spec_wrap_angle, tdiv,
};

verus! {

/// Kinematics of one ship: position on the torus and heading.
#[derive(Clone, Copy, Debug, PartialEq, Eq, Structural)]
pub struct Ship {
    /// Stable identifier, assigned once at creation; used for
    /// self-exclusion in neighbor queries.
    pub id: i32,
    /// Heading in angle units, kept in `[0, FULL_TURN)`.
    pub rotation: i64,
    /// x position, kept in `[0, width)`.
    pub x: i64,
    /// y position, kept in `[0, height)`.
    pub y: i64,
}

/// Per-tick world-space velocity of one ship.
#[derive(Clone, Copy, Debug, PartialEq, Eq, Structural)]
pub struct Velocity {
    pub dx: i64,
    pub dy: i64,
}

/// Marker for a player-driven ship: which input slot drives it, and
/// whether it is the primary player.
#[derive(Clone, Copy, Debug, PartialEq, Eq, Structural)]
pub struct PlayerTag {
    pub slot: usize,
    pub is_primary: bool,
}

/// Marker for a flocking (steering-driven) ship.
#[derive(Clone, Copy, Debug, PartialEq, Eq, Structural)]
pub struct AITag;

/// Who drives a ship's velocity and heading; fixed at creation.
#[derive(Clone, Copy, Debug, PartialEq, Eq, Structural)]
pub enum Role {
    Player(PlayerTag),
    Ai(AITag),
}

/// One entity of the population: kinematics, velocity, and its role.
#[derive(Clone, Copy, Debug, PartialEq, Eq, Structural)]
pub struct Entity {
    pub ship: Ship,
    pub vel: Velocity,
    pub role: Role,
}

impl Ship {
    /// Shift x; pure bookkeeping used by the integration pass.
    pub fn translate_x(&mut self, dx: i64)
        requires
            -1_000_000_000 <= old(self).x + dx <= 1_000_000_000,
            -1_000_000_000 <= old(self).x <= 1_000_000_000,
            -1_000_000_000 <= dx <= 1_000_000_000,
        ensures
            *final(self) == (Ship { x: (old(self).x + dx) as i64, ..*old(self) }),
    {
        self.x = self.x + dx;
    }

    /// Shift y.
    pub fn translate_y(&mut self, dy: i64)
        requires
            -1_000_000_000 <= old(self).y + dy <= 1_000_000_000,
            -1_000_000_000 <= old(self).y <= 1_000_000_000,
            -1_000_000_000 <= dy <= 1_000_000_000,
        ensures
            *final(self) == (Ship { y: (old(self).y + dy) as i64, ..*old(self) }),
    {
        self.y = self.y + dy;
    }

    /// Shift both coordinates.
    pub fn translate_xy(&mut self, dx: i64, dy: i64)
        requires
            -1_000_000_000 <= old(self).x + dx <= 1_000_000_000,
            -1_000_000_000 <= old(self).x <= 1_000_000_000,
            -1_000_000_000 <= dx <= 1_000_000_000,
            -1_000_000_000 <= old(self).y + dy <= 1_000_000_000,
            -1_000_000_000 <= old(self).y <= 1_000_000_000,
            -1_000_000_000 <= dy <= 1_000_000_000,
        ensures
            *final(self) == (Ship {
                x: (old(self).x + dx) as i64,
                y: (old(self).y + dy) as i64,
                ..*old(self)
            }),
    {
        self.x = self.x + dx;
        self.y = self.y + dy;
    }

    /// Set both coordinates.
    pub fn set_xy(&mut self, x: i64, y: i64)
        ensures
            *final(self) == (Ship { x, y, ..*old(self) }),
    {
        self.x = x;
        self.y = y;
    }

    /// Set the heading.
    pub fn set_rotation(&mut self, rotation: i64)
        ensures
            *final(self) == (Ship { rotation, ..*old(self) }),
    {
        self.rotation = rotation;
    }

    /// Position inside the arena rectangle.
    pub open spec fn in_arena(self, width: int, height: int) -> bool {
        &&& 0 <= self.x < width
        &&& 0 <= self.y < height
    }

    /// Heading normalized into one turn.
    pub open spec fn heading_normal(self) -> bool {
        0 <= self.rotation < FULL_TURN
    }
}

impl Velocity {
    /// Squared magnitude.
    pub open spec fn speed_sq(self) -> int {
        self.dx * self.dx + self.dy * self.dy
    }

    /// The speed invariant: the rounded-down magnitude is at most `max`,
    /// that is `speed_sq <= max^2 + 2 * max`.
    pub open spec fn speed_within(self, max: int) -> bool {
        self.speed_sq() <= max * max + 2 * max
    }

    /// Magnitude of the velocity.
    pub fn lenght(&self) -> (r: i64)
        requires
            -1_400_000_000 <= self.dx <= 1_400_000_000,
            -1_400_000_000 <= self.dy <= 1_400_000_000,
        ensures
            r == crate::fixed::spec_length(self.dx as int, self.dy as int),
            0 <= r <= 2_000_000_000,
    {
        crate::fixed::length(self.dx, self.dy)
    }

    /// Rescale toward magnitude `UNIT`; the zero velocity stays zero.
    pub fn normalize(&mut self)
        requires
            -1_400_000_000 <= old(self).dx <= 1_400_000_000,
            -1_400_000_000 <= old(self).dy <= 1_400_000_000,
        ensures
            final(self).dx as int == crate::fixed::spec_normalize(
                old(self).dx as int, old(self).dy as int).0,
            final(self).dy as int == crate::fixed::spec_normalize(
                old(self).dx as int, old(self).dy as int).1,
            -UNIT <= final(self).dx <= UNIT,
            -UNIT <= final(self).dy <= UNIT,
    {
        let (nx, ny) = crate::fixed::normalize(self.dx, self.dy);
        self.dx = nx;
        self.dy = ny;
    }
}

impl Entity {
    /// Whether this entity is steering-driven.
    pub open spec fn is_ai(self) -> bool {
        self.role is Ai
    }

    /// The store invariant for one entity under a configuration:
    /// position on the arena, heading within one turn, speed clamped.
    pub open spec fn wf(self, cfg: SimConfig) -> bool {
        &&& self.ship.in_arena(cfg.width as int, cfg.height as int)
        &&& self.ship.heading_normal()
        &&& self.vel.speed_within(cfg.max_speed as int)
    }
}

/// The speed invariant bounds each velocity component by `max`.
pub proof fn lemma_speed_components(v: Velocity, max: int)
    requires
        v.speed_within(max),
        0 <= max,
    ensures
        -max <= v.dx <= max,
        -max <= v.dy <= max,
{
    assert(-max <= v.dx <= max && -max <= v.dy <= max) by (nonlinear_arith)
        requires
            v.dx * v.dx + v.dy * v.dy <= max * max + 2 * max,
            max >= 0,
    ;
}

/// The clamped velocity: unchanged while within the ceiling, otherwise
/// rescaled by `max / length`, rounding toward zero.
pub open spec fn spec_limit_velocity(v: Velocity, max: int) -> Velocity {
    let s2 = v.speed_sq();
    if s2 <= max * max {
        v
    } else {
        let l = isqrt_spec(s2);
        Velocity { dx: tdiv(v.dx * max, l) as i64, dy: tdiv(v.dy * max, l) as i64 }
    }
}

/// The clamp meets the speed invariant and bounds each component by `max`.
pub proof fn lemma_limit_velocity(v: Velocity, max: int)
    requires
        0 <= max <= 1_000_000,
        -1_400_000_000 <= v.dx <= 1_400_000_000,
        -1_400_000_000 <= v.dy <= 1_400_000_000,
    ensures
        spec_limit_velocity(v, max).speed_within(max),
        -max <= spec_limit_velocity(v, max).dx <= max,
        -max <= spec_limit_velocity(v, max).dy <= max,
{
    let s2 = v.speed_sq();
    assert(0 <= v.dx * v.dx && 0 <= v.dy * v.dy && s2 <= 4_000_000_000_000_000_000)
        by (nonlinear_arith)
        requires
            s2 == v.dx * v.dx + v.dy * v.dy,
            -1_400_000_000 <= v.dx <= 1_400_000_000,
            -1_400_000_000 <= v.dy <= 1_400_000_000,
    ;
    if s2 <= max * max {
        assert(-max <= v.dx <= max && -max <= v.dy <= max) by (nonlinear_arith)
            requires
                v.dx * v.dx <= s2 <= max * max,
                v.dy * v.dy <= s2,
                s2 == v.dx * v.dx + v.dy * v.dy,
                max >= 0,
        ;
    } else {
        let l = isqrt_spec(s2);
        lemma_isqrt_bounds(s2);
        assert(l >= 1) by (nonlinear_arith)
            requires
                s2 > max * max >= 0,
                s2 < (l + 1) * (l + 1),
                l >= 0,
        ;
        assert(l >= max) by (nonlinear_arith)
            requires
                s2 > max * max,
                s2 < (l + 1) * (l + 1),
                l >= 0,
                max >= 0,
        ;
        assert(-l <= v.dx <= l && -l <= v.dy <= l) by (nonlinear_arith)
            requires
                v.dx * v.dx <= s2,
                v.dy * v.dy <= s2,
                s2 == v.dx * v.dx + v.dy * v.dy,
                s2 < (l + 1) * (l + 1),
                l >= 0,
        ;
        let x = tdiv(v.dx * max, l);
        let y = tdiv(v.dy * max, l);
        lemma_mul_div_bound(v.dx as int, max, l, l);
        lemma_mul_div_bound(v.dy as int, max, l, l);
        assert(l * max / l == max) by (nonlinear_arith)
            requires
                l >= 1,
                max >= 0,
        ;
        // Magnitude bound: squared components scale with the squared
        // rational factor (max / l)^2, and s2 < (l + 1)^2.
        let xa = if x >= 0 { x } else { -x };
        let ya = if y >= 0 { y } else { -y };
        let dxa = if v.dx >= 0 { v.dx as int } else { -(v.dx as int) };
        let dya = if v.dy >= 0 { v.dy as int } else { -(v.dy as int) };
        assert(xa == dxa * max / l && ya == dya * max / l) by (nonlinear_arith)
            requires
                x == tdiv(v.dx * max, l),
                y == tdiv(v.dy * max, l),
                xa == (if x >= 0 { x } else { -x }),
                ya == (if y >= 0 { y } else { -y }),
                dxa == (if v.dx >= 0 { v.dx as int } else { -(v.dx as int) }),
                dya == (if v.dy >= 0 { v.dy as int } else { -(v.dy as int) }),
                l >= 1,
                max >= 0,
                x == (if v.dx * max >= 0 { v.dx * max / l } else { -((-(v.dx * max)) / l) }),
                y == (if v.dy * max >= 0 { v.dy * max / l } else { -((-(v.dy * max)) / l) }),
        ;
        assert(xa * l <= dxa * max && 0 <= xa) by {
            vstd::arithmetic::div_mod::lemma_fundamental_div_mod(dxa * max, l);
            vstd::arithmetic::div_mod::lemma_mod_division_less_than_divisor(dxa * max, l);
            assert(dxa * max >= 0) by (nonlinear_arith)
                requires
                    dxa >= 0,
                    max >= 0,
            ;
            assert(xa * l <= dxa * max) by (nonlinear_arith)
                requires
                    dxa * max == l * (dxa * max / l) + (dxa * max) % l,
                    0 <= (dxa * max) % l,
                    xa == dxa * max / l,
            ;
            assert(xa >= 0) by (nonlinear_arith)
                requires
                    xa == dxa * max / l,
                    dxa * max >= 0,
                    l >= 1,
            ;
        };
        assert(ya * l <= dya * max && 0 <= ya) by {
            vstd::arithmetic::div_mod::lemma_fundamental_div_mod(dya * max, l);
            vstd::arithmetic::div_mod::lemma_mod_division_less_than_divisor(dya * max, l);
            assert(dya * max >= 0) by (nonlinear_arith)
                requires
                    dya >= 0,
                    max >= 0,
            ;
            assert(ya * l <= dya * max) by (nonlinear_arith)
                requires
                    dya * max == l * (dya * max / l) + (dya * max) % l,
                    0 <= (dya * max) % l,
                    ya == dya * max / l,
            ;
            assert(ya >= 0) by (nonlinear_arith)
                requires
                    ya == dya * max / l,
                    dya * max >= 0,
                    l >= 1,
            ;
        };
        assert(xa * xa * (l * l) <= (dxa * dxa) * (max * max)) by (nonlinear_arith)
            requires
                xa * l <= dxa * max,
                0 <= xa,
                0 <= dxa,
                0 <= max,
                0 <= l,
        ;
        assert(ya * ya * (l * l) <= (dya * dya) * (max * max)) by (nonlinear_arith)
            requires
                ya * l <= dya * max,
                0 <= ya,
                0 <= dya,
                0 <= max,
                0 <= l,
        ;
        assert(dxa * dxa == v.dx * v.dx && dya * dya == v.dy * v.dy) by (nonlinear_arith)
            requires
                dxa == (if v.dx >= 0 { v.dx as int } else { -(v.dx as int) }),
                dya == (if v.dy >= 0 { v.dy as int } else { -(v.dy as int) }),
        ;
        assert((xa * xa + ya * ya) * (l * l) <= s2 * (max * max)) by (nonlinear_arith)
            requires
                xa * xa * (l * l) <= (dxa * dxa) * (max * max),
                ya * ya * (l * l) <= (dya * dya) * (max * max),
                dxa * dxa == v.dx * v.dx,
                dya * dya == v.dy * v.dy,
                s2 == v.dx * v.dx + v.dy * v.dy,
        ;
        if max == 0 {
            assert(xa == 0 && ya == 0) by (nonlinear_arith)
                requires
                    xa == dxa * max / l,
                    ya == dya * max / l,
                    max == 0,
                    l >= 1,
            ;
        } else {
            assert((max + 1) * l >= (l + 1) * max) by (nonlinear_arith)
                requires
                    l >= max >= 1,
            ;
            assert(((l + 1) * (l + 1)) * (max * max) <= ((max + 1) * (max + 1)) * (l * l))
                by (nonlinear_arith)
                requires
                    (max + 1) * l >= (l + 1) * max,
                    l >= 1,
                    max >= 1,
            ;
            assert(s2 * (max * max) < ((l + 1) * (l + 1)) * (max * max)) by (nonlinear_arith)
                requires
                    s2 < (l + 1) * (l + 1),
                    max >= 1,
            ;
            assert(xa * xa + ya * ya <= max * max + 2 * max) by (nonlinear_arith)
                requires
                    (xa * xa + ya * ya) * (l * l) < ((max + 1) * (max + 1)) * (l * l),
                    l >= 1,
        ;
        }
        assert(x * x == xa * xa && y * y == ya * ya) by (nonlinear_arith)
            requires
                xa == (if x >= 0 { x } else { -x }),
                ya == (if y >= 0 { y } else { -y }),
        ;
    }
}

/// Clamp a velocity to the speed ceiling; within the ceiling it is
/// untouched.
pub fn limit_velocity(velocity: &mut Velocity, max_speed: i64)
    requires
        0 <= max_speed <= 1_000_000,
        -1_400_000_000 <= old(velocity).dx <= 1_400_000_000,
        -1_400_000_000 <= old(velocity).dy <= 1_400_000_000,
    ensures
        *final(velocity) == spec_limit_velocity(*old(velocity), max_speed as int),
        final(velocity).speed_within(max_speed as int),
        -max_speed <= final(velocity).dx <= max_speed,
        -max_speed <= final(velocity).dy <= max_speed,
{
    proof {
        lemma_limit_velocity(*velocity, max_speed as int);
        assert(0 <= (velocity.dx as int) * velocity.dx <= 2_000_000_000_000_000_000
            && 0 <= (velocity.dy as int) * velocity.dy <= 2_000_000_000_000_000_000
            && 0 <= (max_speed as int) * max_speed <= 1_000_000_000_000)
            by (nonlinear_arith)
            requires
                -1_400_000_000 <= velocity.dx as int <= 1_400_000_000,
                -1_400_000_000 <= velocity.dy as int <= 1_400_000_000,
                0 <= max_speed as int <= 1_000_000,
        ;
    }
    let s2 = velocity.dx * velocity.dx + velocity.dy * velocity.dy;
    if s2 > max_speed * max_speed {
        let l = isqrt(s2);
        proof {
            lemma_isqrt_bounds(s2 as int);
            assert(l >= 1) by (nonlinear_arith)
                requires
                    s2 as int >= 1,
                    (s2 as int) < (l as int + 1) * (l as int + 1),
                    l as int >= 0,
            ;
            assert(-2_000_000_000_000_000 <= (velocity.dx as int) * max_speed
                <= 2_000_000_000_000_000
                && -2_000_000_000_000_000 <= (velocity.dy as int) * max_speed
                <= 2_000_000_000_000_000)
                by (nonlinear_arith)
                requires
                    -1_400_000_000 <= velocity.dx as int <= 1_400_000_000,
                    -1_400_000_000 <= velocity.dy as int <= 1_400_000_000,
                    0 <= max_speed as int <= 1_000_000,
            ;
        }
        let ndx = scale(velocity.dx, max_speed, l);
        let ndy = scale(velocity.dy, max_speed, l);
        velocity.dx = ndx;
        velocity.dy = ndy;
    }
}

/// Wrap a heading back into `[0, FULL_TURN)` after a single-step excursion.
pub fn limit_rotation(ship: &mut Ship)
    requires
        -FULL_TURN < old(ship).rotation < 2 * FULL_TURN,
    ensures
        *final(ship) == (Ship {
            rotation: spec_wrap_angle(old(ship).rotation as int) as i64,
            ..*old(ship)
        }),
        final(ship).heading_normal(),
{
    if ship.rotation < 0 {
        ship.rotation = ship.rotation + FULL_TURN;
    } else if ship.rotation >= FULL_TURN {
        ship.rotation = ship.rotation - FULL_TURN;
    }
}

} // verus!
