//! Integer trigonometry on the crate's angle units.
//!
//! A full circle is `FULL_TURN` angle units. The sine uses a rational
//! quadratic approximation on a half circle, extended by symmetry; results
//! are fixed-point with amplitude `UNIT`. The arctangent uses a linear-
//! corrected octant approximation. These approximations are the crate's own
//! definition of its heading arithmetic; their contracts pin the exact
//! integer result and the ranges the steering pipeline relies on.

use vstd::prelude::*;
use vstd::arithmetic::div_mod::lemma_multiply_divide_le;

use crate::fixed::{UNIT, FULL_TURN, HALF_TURN, QUARTER_TURN, EIGHTH_TURN};

verus! {

/// Linear-correction coefficient of the arctangent approximation
/// (about 0.273 radians in angle units).
pub const ATAN_COEFF: i64 = 273;

/// Sine on a half circle: `a` in `[0, HALF_TURN]`, result in `[0, UNIT]`.
pub open spec fn spec_sin_half(a: int) -> int {
    let p = a * (HALF_TURN - a);
    16 * p * UNIT / (5 * HALF_TURN * HALF_TURN - 4 * p)
}

/// Sine on a full circle: `a` in `[0, FULL_TURN)`, result in `[-UNIT, UNIT]`.
pub open spec fn spec_sin(a: int) -> int {
    if a <= HALF_TURN {
        spec_sin_half(a)
    } else {
        -spec_sin_half(a - HALF_TURN)
    }
}

/// Cosine as the sine shifted a quarter turn.
pub open spec fn spec_cos(a: int) -> int {
    if a + QUARTER_TURN >= FULL_TURN {
        spec_sin(a + QUARTER_TURN - FULL_TURN)
    } else {
        spec_sin(a + QUARTER_TURN)
    }
}

/// The half-circle sine stays within `[0, UNIT]`.
pub proof fn lemma_sin_half_range(a: int)
    requires
        0 <= a <= HALF_TURN,
    ensures
        0 <= spec_sin_half(a) <= UNIT,
{
    let p = a * (HALF_TURN - a);
    let den = 5 * HALF_TURN * HALF_TURN - 4 * p;
    assert(0 <= p && 4 * p <= HALF_TURN * HALF_TURN) by (nonlinear_arith)
        requires
            p == a * (HALF_TURN - a),
            0 <= a <= HALF_TURN,
    ;
    assert(16 * p * UNIT >= 0) by (nonlinear_arith)
        requires
            p >= 0,
    ;
    assert(16 * p * UNIT <= den * UNIT) by (nonlinear_arith)
        requires
            den == 5 * HALF_TURN * HALF_TURN - 4 * p,
            0 <= 4 * p <= HALF_TURN * HALF_TURN,
    ;
    lemma_multiply_divide_le(16 * p * UNIT, den, UNIT as int);
    assert(16 * p * UNIT / den >= 0) by (nonlinear_arith)
        requires
            16 * p * UNIT >= 0,
            den >= 1,
    ;
}

/// The full-circle sine stays within `[-UNIT, UNIT]`.
pub proof fn lemma_sin_range(a: int)
    requires
        0 <= a < FULL_TURN,
    ensures
        -UNIT <= spec_sin(a) <= UNIT,
{
    if a <= HALF_TURN {
        lemma_sin_half_range(a);
    } else {
        lemma_sin_half_range(a - HALF_TURN);
    }
}

/// Sine on a half circle, executable.
fn sin_half(a: i64) -> (r: i64)
    requires
        0 <= a <= HALF_TURN,
    ensures
        r as int == spec_sin_half(a as int),
        0 <= r <= UNIT,
{
    proof {
        lemma_sin_half_range(a as int);
        assert(0 <= (a as int) * (HALF_TURN - a as int) <= (HALF_TURN as int) * HALF_TURN)
            by (nonlinear_arith)
            requires
                0 <= a as int <= HALF_TURN as int,
        ;
    }
    let p = a * (HALF_TURN - a);
    let den = 5 * HALF_TURN * HALF_TURN - 4 * p;
    assert(den >= 1);
    (16 * p * UNIT) / den
}

/// Sine of an angle, fixed-point amplitude `UNIT`.
pub fn sin_fp(a: i64) -> (r: i64)
    requires
        0 <= a < FULL_TURN,
    ensures
        r as int == spec_sin(a as int),
        -UNIT <= r <= UNIT,
{
    if a <= HALF_TURN {
        sin_half(a)
    } else {
        -sin_half(a - HALF_TURN)
    }
}

/// Cosine of an angle, fixed-point amplitude `UNIT`.
pub fn cos_fp(a: i64) -> (r: i64)
    requires
        0 <= a < FULL_TURN,
    ensures
        r as int == spec_cos(a as int),
        -UNIT <= r <= UNIT,
{
    let b = a + QUARTER_TURN;
    if b >= FULL_TURN {
        sin_fp(b - FULL_TURN)
    } else {
        sin_fp(b)
    }
}

/// Arctangent of a ratio `z / UNIT` with `z` in `[0, UNIT]`, in angle
/// units; result in `[0, EIGHTH_TURN]`.
pub open spec fn spec_atan_poly(z: int) -> int {
    z * (EIGHTH_TURN * UNIT + ATAN_COEFF * (UNIT - z)) / (UNIT * UNIT)
}

/// The arctangent polynomial stays within `[0, EIGHTH_TURN]`.
pub proof fn lemma_atan_poly_range(z: int)
    requires
        0 <= z <= UNIT,
    ensures
        0 <= spec_atan_poly(z) <= EIGHTH_TURN,
{
    let num = z * (EIGHTH_TURN * UNIT + ATAN_COEFF * (UNIT - z));
    assert(0 <= num && num <= (UNIT as int) * UNIT * EIGHTH_TURN) by (nonlinear_arith)
        requires
            num == z * (EIGHTH_TURN * UNIT + ATAN_COEFF * (UNIT - z)),
            0 <= z <= UNIT as int,
            UNIT == 1000int,
            EIGHTH_TURN == 786int,
            ATAN_COEFF == 273int,
    ;
    lemma_multiply_divide_le(num, (UNIT as int) * UNIT, EIGHTH_TURN as int);
    assert(num / ((UNIT as int) * UNIT) >= 0) by (nonlinear_arith)
        requires
            num >= 0,
    ;
}

/// Arctangent polynomial, executable.
fn atan_poly(z: i64) -> (r: i64)
    requires
        0 <= z <= UNIT,
    ensures
        r as int == spec_atan_poly(z as int),
        0 <= r <= EIGHTH_TURN,
{
    proof {
        lemma_atan_poly_range(z as int);
        assert((z as int) * (EIGHTH_TURN * UNIT + ATAN_COEFF * (UNIT - z as int)) <= 1_059_000_000)
            by (nonlinear_arith)
            requires
                0 <= z as int <= 1000,
                UNIT == 1000int,
                EIGHTH_TURN == 786int,
                ATAN_COEFF == 273int,
        ;
    }
    (z * (EIGHTH_TURN * UNIT + ATAN_COEFF * (UNIT - z))) / (UNIT * UNIT)
}

/// The direction of the vector `(x, y)` as an angle in `[0, FULL_TURN)`,
/// measured counterclockwise from the positive x axis; `(0, 0)` maps to 0.
pub open spec fn spec_atan2(y: int, x: int) -> int {
    if x == 0 && y == 0 {
        0
    } else {
        let ax = if x >= 0 { x } else { -x };
        let ay = if y >= 0 { y } else { -y };
        let base = if ay <= ax {
            spec_atan_poly(ay * UNIT / ax)
        } else {
            QUARTER_TURN - spec_atan_poly(ax * UNIT / ay)
        };
        if x >= 0 && y >= 0 {
            base
        } else if x < 0 && y >= 0 {
            HALF_TURN - base
        } else if x < 0 {
            HALF_TURN + base
        } else if base == 0 {
            0
        } else {
            FULL_TURN - base
        }
    }
}

/// The octant base angle of `spec_atan2` stays within `[0, QUARTER_TURN]`,
/// so the assembled angle stays within `[0, FULL_TURN)`.
pub proof fn lemma_atan2_range(y: int, x: int)
    requires
        -4_000_000_000_000 <= x <= 4_000_000_000_000,
        -4_000_000_000_000 <= y <= 4_000_000_000_000,
    ensures
        0 <= spec_atan2(y, x) < FULL_TURN,
{
    if !(x == 0 && y == 0) {
        let ax = if x >= 0 { x } else { -x };
        let ay = if y >= 0 { y } else { -y };
        if ay <= ax {
            let z = ay * UNIT / ax;
            assert(ay * UNIT <= ax * UNIT) by (nonlinear_arith)
                requires
                    0 <= ay <= ax,
                    UNIT == 1000int,
            ;
            lemma_multiply_divide_le(ay * UNIT, ax, UNIT as int);
            assert(ay * UNIT >= 0) by (nonlinear_arith)
                requires
                    ay >= 0,
            ;
            assert(z >= 0) by (nonlinear_arith)
                requires
                    z == ay * UNIT / ax,
                    ay * UNIT >= 0,
                    ax >= 1,
            ;
            lemma_atan_poly_range(z);
        } else {
            let z = ax * UNIT / ay;
            assert(ax * UNIT <= ay * UNIT) by (nonlinear_arith)
                requires
                    0 <= ax <= ay,
                    UNIT == 1000int,
            ;
            lemma_multiply_divide_le(ax * UNIT, ay, UNIT as int);
            assert(ax * UNIT >= 0) by (nonlinear_arith)
                requires
                    ax >= 0,
            ;
            assert(z >= 0) by (nonlinear_arith)
                requires
                    z == ax * UNIT / ay,
                    ax * UNIT >= 0,
                    ay >= 1,
            ;
            lemma_atan_poly_range(z);
        }
    }
}

/// Direction of a vector as an angle in `[0, FULL_TURN)`.
pub fn atan2_fp(y: i64, x: i64) -> (r: i64)
    requires
        -4_000_000_000_000 <= x <= 4_000_000_000_000,
        -4_000_000_000_000 <= y <= 4_000_000_000_000,
    ensures
        r as int == spec_atan2(y as int, x as int),
        0 <= r < FULL_TURN,
{
    proof {
        lemma_atan2_range(y as int, x as int);
    }
    if x == 0 && y == 0 {
        return 0;
    }
    let ax = if x >= 0 { x } else { -x };
    let ay = if y >= 0 { y } else { -y };
    let base = if ay <= ax {
        proof {
            assert((ay as int) * UNIT <= (ax as int) * UNIT) by (nonlinear_arith)
                requires
                    0 <= ay as int <= ax as int,
                    UNIT == 1000int,
            ;
            lemma_multiply_divide_le((ay as int) * UNIT, ax as int, UNIT as int);
            assert((ay as int) * UNIT / (ax as int) >= 0) by (nonlinear_arith)
                requires
                    (ay as int) * UNIT >= 0,
                    ax as int >= 1,
            ;
        }
        atan_poly((ay * UNIT) / ax)
    } else {
        proof {
            assert((ax as int) * UNIT <= (ay as int) * UNIT) by (nonlinear_arith)
                requires
                    0 <= ax as int <= ay as int,
                    UNIT == 1000int,
            ;
            lemma_multiply_divide_le((ax as int) * UNIT, ay as int, UNIT as int);
            assert((ax as int) * UNIT / (ay as int) >= 0) by (nonlinear_arith)
                requires
                    (ax as int) * UNIT >= 0,
                    ay as int >= 1,
            ;
        }
        QUARTER_TURN - atan_poly((ax * UNIT) / ay)
    };
    if x >= 0 && y >= 0 {
        base
    } else if x < 0 && y >= 0 {
        HALF_TURN - base
    } else if x < 0 {
        HALF_TURN + base
    } else if base == 0 {
        0
    } else {
        FULL_TURN - base
    }
}

} // verus!
