//! Fixed-point scalar arithmetic: truncating division, scaling, and the
//! integer square root that the vector operations build on.

use vstd::prelude::*;
use vstd::arithmetic::div_mod::{lemma_div_is_ordered, lemma_multiply_divide_le, lemma_multiply_divide_lt};
use vstd::arithmetic::mul::lemma_mul_inequality;

verus! {

/// Fixed-point scale of linear quantities: `1.0` is `UNIT` sub-units.
pub const UNIT: i64 = 1000;

/// Angle units per full circle (about one milliradian per unit).
pub const FULL_TURN: i64 = 6288;

/// Angle units per half circle.
pub const HALF_TURN: i64 = 3144;

/// Angle units per quarter circle.
pub const QUARTER_TURN: i64 = 1572;

/// Angle units per eighth of a circle.
pub const EIGHTH_TURN: i64 = 786;

/// Integer division that rounds toward zero, as the executable `/` does on
/// machine integers.
pub open spec fn tdiv(n: int, d: int) -> int {
    if n >= 0 {
        n / d
    } else {
        -((-n) / d)
    }
}

/// `v * num / den`, rounded toward zero.
pub open spec fn mul_div(v: int, num: int, den: int) -> int {
    tdiv(v * num, den)
}

/// The integer square root: the largest `r` with `r * r <= n`.
pub open spec fn isqrt_spec(n: int) -> int
    decreases n,
{
    if n <= 0 {
        0
    } else {
        let r = isqrt_spec(n - 1);
        if (r + 1) * (r + 1) <= n {
            r + 1
        } else {
            r
        }
    }
}

/// `isqrt_spec(n)` is the unique integer whose square brackets `n`.
pub proof fn lemma_isqrt_bounds(n: int)
    requires
        n >= 0,
    ensures
        0 <= isqrt_spec(n),
        isqrt_spec(n) * isqrt_spec(n) <= n,
        n < (isqrt_spec(n) + 1) * (isqrt_spec(n) + 1),
    decreases n,
{
    if n > 0 {
        lemma_isqrt_bounds(n - 1);
        let r = isqrt_spec(n - 1);
        if (r + 1) * (r + 1) <= n {
            assert((r + 2) * (r + 2) > n) by (nonlinear_arith)
                requires
                    n <= (r + 1) * (r + 1),
                    r >= 0,
            ;
        }
    }
}

/// Any integer whose square brackets `n` is `isqrt_spec(n)`.
pub proof fn lemma_isqrt_unique(n: int, r: int)
    requires
        0 <= r,
        r * r <= n,
        n < (r + 1) * (r + 1),
    ensures
        r == isqrt_spec(n),
{
    lemma_isqrt_bounds(n);
    let q = isqrt_spec(n);
    if r < q {
        assert((r + 1) * (r + 1) <= q * q) by (nonlinear_arith)
            requires
                0 <= r + 1 <= q,
        ;
    }
    if q < r {
        assert((q + 1) * (q + 1) <= r * r) by (nonlinear_arith)
            requires
                0 <= q + 1 <= r,
        ;
    }
}

/// Binary-search integer square root.
pub fn isqrt(n: i64) -> (r: i64)
    requires
        0 <= n <= 4_000_000_000_000_000_000,
    ensures
        r == isqrt_spec(n as int),
        0 <= r <= 2_000_000_000,
{
    let mut lo: i64 = 0;
    let mut hi: i64 = 2_000_000_001;
    while lo + 1 < hi
        invariant
            0 <= lo < hi <= 2_000_000_001,
            lo * lo <= n,
            (n as int) < (hi as int) * (hi as int),
            n <= 4_000_000_000_000_000_000,
        decreases hi - lo,
    {
        let mid: i64 = lo + (hi - lo) / 2;
        assert(lo < mid < hi);
        assert(mid * mid <= 4_100_000_000_000_000_000) by (nonlinear_arith)
            requires
                0 <= mid <= 2_000_000_000,
        ;
        if mid * mid <= n {
            lo = mid;
        } else {
            hi = mid;
        }
    }
    proof {
        lemma_isqrt_unique(n as int, lo as int);
    }
    lo
}

/// Truncating division on machine integers, matching `tdiv`.
pub fn div_trunc(n: i64, d: i64) -> (r: i64)
    requires
        1 <= d,
        -0x7fff_ffff_ffff_ffff <= n,
    ensures
        r as int == tdiv(n as int, d as int),
{
    if n >= 0 {
        n / d
    } else {
        -((-n) / d)
    }
}

/// `v * num / den` rounded toward zero, matching `mul_div`.
pub fn scale(v: i64, num: i64, den: i64) -> (r: i64)
    requires
        1 <= den,
        0 <= num,
        -0x7fff_ffff_ffff_ffff <= (v as int) * (num as int) <= 0x7fff_ffff_ffff_ffff,
    ensures
        r as int == mul_div(v as int, num as int, den as int),
{
    let p = v * num;
    div_trunc(p, den)
}

/// Rounding toward zero never grows the magnitude of the exact quotient:
/// a bound on the inputs turns into a bound on `mul_div`.
pub proof fn lemma_mul_div_bound(v: int, num: int, den: int, bound: int)
    requires
        1 <= den,
        0 <= num,
        0 <= bound,
        -bound <= v <= bound,
    ensures
        -(bound * num / den) <= mul_div(v, num, den) <= bound * num / den,
{
    let p = v * num;
    if v >= 0 {
        lemma_mul_inequality(v, bound, num);
        assert(p >= 0) by (nonlinear_arith)
            requires
                p == v * num,
                v >= 0,
                num >= 0,
        ;
        lemma_div_is_ordered(p, bound * num, den);
        assert(p / den >= 0) by (nonlinear_arith)
            requires
                p >= 0,
                den >= 1,
        ;
    } else {
        lemma_mul_inequality(-v, bound, num);
        assert((-v) * num == -p) by (nonlinear_arith)
            requires
                p == v * num,
        ;
        assert(-p >= 0);
        lemma_div_is_ordered(-p, bound * num, den);
        assert((-p) / den >= 0) by (nonlinear_arith)
            requires
                -p >= 0,
                den >= 1,
        ;
    }
}

/// The quotient of `n / den` stays below `c` whenever `n < den * c`.
pub proof fn lemma_mul_div_strict(v: int, num: int, den: int, c: int)
    requires
        1 <= den,
        0 <= num,
        -(den * c) < v * num < den * c,
    ensures
        -c < mul_div(v, num, den) < c,
{
    let p = v * num;
    assert(c >= 1) by (nonlinear_arith)
        requires
            -(den * c) < den * c,
            den >= 1,
    ;
    if p >= 0 {
        lemma_multiply_divide_lt(p, den, c);
        assert(p / den >= 0) by (nonlinear_arith)
            requires
                p >= 0,
                den >= 1,
        ;
    } else {
        lemma_multiply_divide_lt(-p, den, c);
        assert((-p) / den >= 0) by (nonlinear_arith)
            requires
                -p >= 0,
                den >= 1,
        ;
    }
}

/// A fixed-point factor `v` within `[-UNIT, UNIT]` scales `num` to within
/// `[-num, num]`.
pub proof fn lemma_mul_div_unit_bound(v: int, num: int)
    requires
        0 <= num,
        -UNIT <= v <= UNIT,
    ensures
        -num <= mul_div(v, num, UNIT as int) <= num,
{
    lemma_mul_div_bound(v, num, UNIT as int, UNIT as int);
    vstd::arithmetic::div_mod::lemma_div_multiples_vanish(num, UNIT as int);
}

/// A product of a fixed-point factor and a configuration parameter stays
/// well inside the machine range.
pub proof fn lemma_unit_product_fits(v: int, num: int)
    requires
        -UNIT <= v <= UNIT,
        0 <= num <= 1_000_000,
    ensures
        -1_000_000_000 <= v * num <= 1_000_000_000,
{
    assert(-1_000_000_000 <= v * num <= 1_000_000_000) by (nonlinear_arith)
        requires
            -1000 <= v <= 1000,
            0 <= num <= 1_000_000,
    ;
}

/// The square of a configuration parameter stays well inside the machine
/// range.
pub proof fn lemma_square_fits(v: int)
    requires
        0 <= v <= 1_000_000,
    ensures
        0 <= v * v <= 1_000_000_000_000,
{
    assert(0 <= v * v <= 1_000_000_000_000) by (nonlinear_arith)
        requires
            0 <= v <= 1_000_000,
    ;
}

/// Truncating division under a multiple of the divisor stays under the
/// multiplier.
pub proof fn lemma_tdiv_bound(n: int, d: int, bound: int)
    requires
        1 <= d,
        0 <= bound,
        -(bound * d) <= n <= bound * d,
    ensures
        -bound <= tdiv(n, d) <= bound,
{
    if n >= 0 {
        assert(n <= d * bound) by (nonlinear_arith)
            requires
                n <= bound * d,
        ;
        lemma_multiply_divide_le(n, d, bound);
        assert(n / d >= 0) by (nonlinear_arith)
            requires
                n >= 0,
                d >= 1,
        ;
    } else {
        assert(-n <= d * bound) by (nonlinear_arith)
            requires
                -(bound * d) <= n,
        ;
        lemma_multiply_divide_le(-n, d, bound);
        assert((-n) / d >= 0) by (nonlinear_arith)
            requires
                -n >= 0,
                d >= 1,
        ;
    }
}

/// One-step wrap of an angle into `[0, FULL_TURN)`.
pub open spec fn spec_wrap_angle(a: int) -> int {
    if a < 0 {
        a + FULL_TURN
    } else if a >= FULL_TURN {
        a - FULL_TURN
    } else {
        a
    }
}

/// One-step wrap of a coordinate into `[0, extent)`.
pub open spec fn spec_wrap_coord(p: int, extent: int) -> int {
    if p < 0 {
        p + extent
    } else if p >= extent {
        p - extent
    } else {
        p
    }
}

/// Magnitude of the vector `(x, y)`: the integer square root of `x^2 + y^2`.
pub open spec fn spec_length(x: int, y: int) -> int {
    isqrt_spec(x * x + y * y)
}

/// `(x, y)` rescaled toward magnitude `UNIT`; the zero vector stays zero.
pub open spec fn spec_normalize(x: int, y: int) -> (int, int) {
    if x == 0 && y == 0 {
        (0, 0)
    } else {
        let l = spec_length(x, y);
        (tdiv(x * UNIT, l), tdiv(y * UNIT, l))
    }
}

/// A coordinate that strays at most one extent outside the arena is
/// wrapped back into `[0, extent)` by the single-step wrap.
pub proof fn lemma_wrap_coord_range(p: int, extent: int)
    requires
        1 <= extent,
        -extent < p < 2 * extent,
    ensures
        0 <= spec_wrap_coord(p, extent) < extent,
{
}

/// Normalizing the zero vector yields the zero vector, never a division.
pub proof fn lemma_normalize_zero()
    ensures
        spec_normalize(0, 0) == (0int, 0int),
{
}

/// For a nonzero vector the length is positive and dominates both
/// components in magnitude.
pub proof fn lemma_length_bounds(x: int, y: int)
    requires
        -1_400_000_000 <= x <= 1_400_000_000,
        -1_400_000_000 <= y <= 1_400_000_000,
        !(x == 0 && y == 0),
    ensures
        1 <= spec_length(x, y) <= 2_000_000_000,
        -spec_length(x, y) <= x <= spec_length(x, y),
        -spec_length(x, y) <= y <= spec_length(x, y),
{
    let n = x * x + y * y;
    assert(1 <= n <= 4_000_000_000_000_000_000) by (nonlinear_arith)
        requires
            -1_400_000_000 <= x <= 1_400_000_000,
            -1_400_000_000 <= y <= 1_400_000_000,
            !(x == 0 && y == 0),
            n == x * x + y * y,
    ;
    lemma_isqrt_bounds(n);
    let l = isqrt_spec(n);
    assert(l >= 1) by (nonlinear_arith)
        requires
            l >= 0,
            n < (l + 1) * (l + 1),
            n >= 1,
    ;
    assert(l <= 2_000_000_000) by (nonlinear_arith)
        requires
            l * l <= n,
            n <= 4_000_000_000_000_000_000,
            l >= 0,
    ;
    assert(-l <= x <= l && -l <= y <= l) by (nonlinear_arith)
        requires
            n == x * x + y * y,
            n < (l + 1) * (l + 1),
            l >= 0,
    ;
}

/// Normalizing keeps each component within `[-UNIT, UNIT]`.
pub proof fn lemma_normalize_bounds(x: int, y: int)
    requires
        -1_400_000_000 <= x <= 1_400_000_000,
        -1_400_000_000 <= y <= 1_400_000_000,
    ensures
        -UNIT <= spec_normalize(x, y).0 <= UNIT,
        -UNIT <= spec_normalize(x, y).1 <= UNIT,
{
    if !(x == 0 && y == 0) {
        lemma_length_bounds(x, y);
        let l = spec_length(x, y);
        lemma_mul_div_bound(x, UNIT as int, l, l);
        lemma_mul_div_bound(y, UNIT as int, l, l);
        assert(l * UNIT / l == UNIT) by (nonlinear_arith)
            requires
                l >= 1,
                UNIT == 1000int,
        ;
    }
}

/// Vector magnitude, executable.
pub fn length(x: i64, y: i64) -> (r: i64)
    requires
        -1_400_000_000 <= x <= 1_400_000_000,
        -1_400_000_000 <= y <= 1_400_000_000,
    ensures
        r == spec_length(x as int, y as int),
        0 <= r <= 2_000_000_000,
{
    proof {
        assert(0 <= (x as int) * x <= 2_000_000_000_000_000_000
            && 0 <= (y as int) * y <= 2_000_000_000_000_000_000)
            by (nonlinear_arith)
            requires
                -1_400_000_000 <= x as int <= 1_400_000_000,
                -1_400_000_000 <= y as int <= 1_400_000_000,
        ;
    }
    isqrt(x * x + y * y)
}

/// Rescale a vector toward magnitude `UNIT`; the zero vector stays zero.
pub fn normalize(x: i64, y: i64) -> (r: (i64, i64))
    requires
        -1_400_000_000 <= x <= 1_400_000_000,
        -1_400_000_000 <= y <= 1_400_000_000,
    ensures
        r.0 as int == spec_normalize(x as int, y as int).0,
        r.1 as int == spec_normalize(x as int, y as int).1,
        -UNIT <= r.0 <= UNIT,
        -UNIT <= r.1 <= UNIT,
{
    proof {
        lemma_normalize_bounds(x as int, y as int);
    }
    if x == 0 && y == 0 {
        (0, 0)
    } else {
        proof {
            lemma_length_bounds(x as int, y as int);
        }
        let l = length(x, y);
        let nx = scale(x, UNIT, l);
        let ny = scale(y, UNIT, l);
        (nx, ny)
    }
}

} // verus!
