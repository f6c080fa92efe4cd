//! Toroidal geometry: the shortest wrap-aware offset between two ships and
//! the squared distance built from it, with its symmetry and bound laws.

use vstd::prelude::*;
use vstd::arithmetic::div_mod::{lemma_div_is_ordered, lemma_div_multiples_vanish};

use crate::components::Ship;
use crate::config::SimConfig;

verus! {

/// Shortest wrap-aware displacement along one axis of extent `e`: the raw
/// difference `d`, pulled across the nearer edge when the direct path is
/// longer than half the extent.
pub open spec fn spec_wrap_offset(d: int, e: int) -> int {
    if 2 * d > e {
        d - e
    } else if 2 * d < -e {
        d + e
    } else {
        d
    }
}

/// Wrap-aware x displacement from `a` to `b`.
pub open spec fn spec_offset_x(a: Ship, b: Ship, cfg: SimConfig) -> int {
    spec_wrap_offset(b.x - a.x, cfg.width as int)
}

/// Wrap-aware y displacement from `a` to `b`.
pub open spec fn spec_offset_y(a: Ship, b: Ship, cfg: SimConfig) -> int {
    spec_wrap_offset(b.y - a.y, cfg.height as int)
}

/// Squared toroidal distance: per-axis shortest displacements, squared and
/// summed.
pub open spec fn spec_distance_squared(a: Ship, b: Ship, cfg: SimConfig) -> int {
    spec_offset_x(a, b, cfg) * spec_offset_x(a, b, cfg)
        + spec_offset_y(a, b, cfg) * spec_offset_y(a, b, cfg)
}

/// Within one extent of raw difference, the wrapped offset is at most half
/// the extent in magnitude.
pub proof fn lemma_wrap_offset_bound(d: int, e: int)
    requires
        1 <= e,
        -e < d < e,
    ensures
        -e <= 2 * spec_wrap_offset(d, e) <= e,
        -(e / 2) <= spec_wrap_offset(d, e) <= e / 2,
{
    let w = spec_wrap_offset(d, e);
    let wa = if w >= 0 { w } else { -w };
    assert(2 * wa <= e);
    lemma_div_is_ordered(2 * wa, e, 2);
    lemma_div_multiples_vanish(wa, 2);
}

/// Flipping the endpoints negates the wrapped offset.
pub proof fn lemma_wrap_offset_antisymmetric(d: int, e: int)
    requires
        0 <= e,
    ensures
        spec_wrap_offset(-d, e) == -spec_wrap_offset(d, e),
{
}

/// The toroidal squared distance is symmetric in its endpoints.
pub proof fn lemma_distance_squared_symmetric(a: Ship, b: Ship, cfg: SimConfig)
    requires
        cfg.wf(),
    ensures
        spec_distance_squared(a, b, cfg) == spec_distance_squared(b, a, cfg),
{
    lemma_wrap_offset_antisymmetric(b.x - a.x, cfg.width as int);
    lemma_wrap_offset_antisymmetric(b.y - a.y, cfg.height as int);
    let ox = spec_offset_x(a, b, cfg);
    let oy = spec_offset_y(a, b, cfg);
    assert((-ox) * (-ox) == ox * ox && (-oy) * (-oy) == oy * oy) by (nonlinear_arith);
    assert(b.x - a.x == -(a.x - b.x) && b.y - a.y == -(a.y - b.y));
}

/// The toroidal squared distance never exceeds
/// `(width / 2)^2 + (height / 2)^2`.
pub proof fn lemma_distance_squared_bound(a: Ship, b: Ship, cfg: SimConfig)
    requires
        cfg.wf(),
        a.in_arena(cfg.width as int, cfg.height as int),
        b.in_arena(cfg.width as int, cfg.height as int),
    ensures
        0 <= spec_distance_squared(a, b, cfg)
            <= (cfg.width / 2) * (cfg.width / 2) + (cfg.height / 2) * (cfg.height / 2),
{
    let w = cfg.width as int;
    let h = cfg.height as int;
    lemma_wrap_offset_bound(b.x - a.x, w);
    lemma_wrap_offset_bound(b.y - a.y, h);
    let ox = spec_offset_x(a, b, cfg);
    let oy = spec_offset_y(a, b, cfg);
    assert(0 <= ox * ox <= (w / 2) * (w / 2)) by (nonlinear_arith)
        requires
            -(w / 2) <= ox <= w / 2,
    ;
    assert(0 <= oy * oy <= (h / 2) * (h / 2)) by (nonlinear_arith)
        requires
            -(h / 2) <= oy <= h / 2,
    ;
}

/// Wrap-aware displacement from `a` to `b`, one component per axis.
pub fn distance_xy(a: &Ship, b: &Ship, cfg: &SimConfig) -> (r: (i64, i64))
    requires
        cfg.wf(),
        a.in_arena(cfg.width as int, cfg.height as int),
        b.in_arena(cfg.width as int, cfg.height as int),
    ensures
        r.0 as int == spec_offset_x(*a, *b, *cfg),
        r.1 as int == spec_offset_y(*a, *b, *cfg),
        -(cfg.width / 2) <= r.0 <= cfg.width / 2,
        -(cfg.height / 2) <= r.1 <= cfg.height / 2,
{
    proof {
        lemma_wrap_offset_bound(b.x - a.x, cfg.width as int);
        lemma_wrap_offset_bound(b.y - a.y, cfg.height as int);
    }
    let dx = b.x - a.x;
    let dy = b.y - a.y;
    let ox = if 2 * dx > cfg.width {
        dx - cfg.width
    } else if 2 * dx < -cfg.width {
        dx + cfg.width
    } else {
        dx
    };
    let oy = if 2 * dy > cfg.height {
        dy - cfg.height
    } else if 2 * dy < -cfg.height {
        dy + cfg.height
    } else {
        dy
    };
    (ox, oy)
}

/// Squared toroidal distance between two ships.
pub fn distance_squared(a: &Ship, b: &Ship, cfg: &SimConfig) -> (r: i64)
    requires
        cfg.wf(),
        a.in_arena(cfg.width as int, cfg.height as int),
        b.in_arena(cfg.width as int, cfg.height as int),
    ensures
        r as int == spec_distance_squared(*a, *b, *cfg),
        0 <= r <= (cfg.width / 2) * (cfg.width / 2) + (cfg.height / 2) * (cfg.height / 2),
{
    proof {
        lemma_distance_squared_bound(*a, *b, *cfg);
        lemma_div_is_ordered(cfg.width as int, 1_000_000, 2);
        lemma_div_is_ordered(cfg.height as int, 1_000_000, 2);
    }
    let (ox, oy) = distance_xy(a, b, cfg);
    proof {
        assert(0 <= (ox as int) * ox <= 250_000_000_000 && 0 <= (oy as int) * oy
            <= 250_000_000_000) by (nonlinear_arith)
            requires
                -500_000 <= ox as int <= 500_000,
                -500_000 <= oy as int <= 500_000,
        ;
    }
    ox * ox + oy * oy
}

} // verus!
