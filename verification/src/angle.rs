//! Fixed-point circular functions.
//!
//! An angle is an `i64` number of ticks, the angle in radians times
//! [`SCALE`](crate::math::SCALE). The pair returned by [`unit_dir`] is the
//! direction of the unit circle at that angle, in ticks. One component of
//! the pair comes from a cubic series for the sine; the other completes the
//! unit norm by an integer square root, so the pair always lies within two
//! ticks of the unit circle — the fact the approximation engine's distance
//! guarantees rest on.

use vstd::prelude::*;
use crate::math::{
    SCALE, QUARTER_TURN, EIGHTH_TURN, FULL_TURN, is_isqrt, isqrt64, spec_isqrt,
    lemma_isqrt_is_spec, lemma_sq_le,
};

verus! {

/// Cubic series for the sine of a small angle, in ticks.
pub open spec fn spec_sin_small(x: int) -> int {
    x - (x * x * x) / (6 * SCALE * SCALE)
}

/// Sine of an angle in `[0, pi/4]` by the cubic series.
pub fn sin_small(x: i64) -> (s: i64)
    requires
        0 <= x <= EIGHTH_TURN,
    ensures
        s == spec_sin_small(x as int),
        0 <= s <= x,
{
    proof {
        assert(x * x <= 7_853_982 * 7_853_982 && x * x * x <= 7_853_982 * 7_853_982 * 7_853_982)
            by (nonlinear_arith)
            requires
                0 <= x <= 7_853_982,
        ;
    }
    let cube: u128 = (x as u128) * (x as u128) * (x as u128);
    let corr: u128 = cube / 600_000_000_000_000u128;
    proof {
        assert(x * x * x <= x * (6 * SCALE * SCALE)) by (nonlinear_arith)
            requires
                0 <= x <= EIGHTH_TURN,
                EIGHTH_TURN == 7_853_982,
                SCALE == 10_000_000,
        ;
        vstd::arithmetic::div_mod::lemma_div_is_ordered(
            (x * x * x) as int, (x * (6 * SCALE * SCALE)) as int, (6 * SCALE * SCALE) as int);
        vstd::arithmetic::div_mod::lemma_div_by_multiple(x as int, (6 * SCALE * SCALE) as int);
        vstd::arithmetic::div_mod::lemma_div_pos_is_pos((x * x * x) as int, (6 * SCALE * SCALE) as int);
        assert(x * x * x >= 0) by (nonlinear_arith)
            requires
                x >= 0,
        ;
    }
    x - (corr as i64)
}

/// Cosine and sine on a quarter turn: below an eighth of a turn the sine is
/// the series value and the cosine completes the norm; above, the roles swap.
pub open spec fn spec_quarter_dir(x: int) -> (int, int) {
    if x <= EIGHTH_TURN {
        let s = spec_sin_small(x);
        (spec_isqrt(SCALE * SCALE - s * s), s)
    } else {
        let c = spec_sin_small(QUARTER_TURN - x);
        (c, spec_isqrt(SCALE * SCALE - c * c))
    }
}

/// The pair lies between the circles of radius `SCALE - 1` and `SCALE`:
/// both components are in range and the squared norm is within `2 * SCALE`
/// of `SCALE * SCALE`.
pub open spec fn on_unit_ring(c: int, s: int) -> bool {
    &&& -SCALE <= c <= SCALE
    &&& -SCALE <= s <= SCALE
    &&& SCALE * SCALE - 2 * SCALE <= c * c + s * s <= SCALE * SCALE
}

/// Completing a series component `v` to the unit norm by the integer square
/// root lands on the unit ring.
proof fn lemma_complete_norm(v: int, w: int)
    requires
        0 <= v < SCALE,
        is_isqrt(SCALE * SCALE - v * v, w),
    ensures
        on_unit_ring(w, v),
        0 <= w <= SCALE,
{
    assert(v * v < SCALE * SCALE) by (nonlinear_arith)
        requires
            0 <= v < SCALE,
    ;
    assert(w * w <= SCALE * SCALE);
    lemma_sq_le(w, SCALE as int);
    assert(SCALE * SCALE - v * v < (w + 1) * (w + 1));
    assert((w + 1) * (w + 1) == w * w + 2 * w + 1) by (nonlinear_arith);
}

/// Cosine and sine on `[0, pi/2]`.
pub fn quarter_dir(x: i64) -> (r: (i64, i64))
    requires
        0 <= x <= QUARTER_TURN,
    ensures
        r.0 == spec_quarter_dir(x as int).0,
        r.1 == spec_quarter_dir(x as int).1,
        0 <= r.0 <= SCALE,
        0 <= r.1 <= SCALE,
        on_unit_ring(r.0 as int, r.1 as int),
{
    if x <= EIGHTH_TURN {
        let s = sin_small(x);
        proof {
            assert(s * s <= EIGHTH_TURN * EIGHTH_TURN) by (nonlinear_arith)
                requires
                    0 <= s <= EIGHTH_TURN,
            ;
        }
        let nsq: u64 = 100_000_000_000_000u64 - (s as u64) * (s as u64);
        let c = isqrt64(nsq);
        proof {
            lemma_isqrt_is_spec(nsq as int, c as int);
            lemma_complete_norm(s as int, c as int);
        }
        (c as i64, s)
    } else {
        let c = sin_small(QUARTER_TURN - x);
        proof {
            assert(c * c <= EIGHTH_TURN * EIGHTH_TURN) by (nonlinear_arith)
                requires
                    0 <= c <= EIGHTH_TURN,
            ;
        }
        let nsq: u64 = 100_000_000_000_000u64 - (c as u64) * (c as u64);
        let s = isqrt64(nsq);
        proof {
            lemma_isqrt_is_spec(nsq as int, s as int);
            lemma_complete_norm(c as int, s as int);
        }
        (c, s as i64)
    }
}

/// The series value for a small angle lies between zero and the angle.
proof fn lemma_sin_small_bounds(x: int)
    requires
        0 <= x <= EIGHTH_TURN,
    ensures
        0 <= spec_sin_small(x) <= x,
{
    assert(x * x * x <= x * (6 * SCALE * SCALE) && x * x * x >= 0) by (nonlinear_arith)
        requires
            0 <= x <= EIGHTH_TURN,
            EIGHTH_TURN == 7_853_982,
            SCALE == 10_000_000,
    ;
    vstd::arithmetic::div_mod::lemma_div_is_ordered(
        x * x * x, x * (6 * SCALE * SCALE), (6 * SCALE * SCALE) as int);
    vstd::arithmetic::div_mod::lemma_div_by_multiple(x, (6 * SCALE * SCALE) as int);
    vstd::arithmetic::div_mod::lemma_div_pos_is_pos(x * x * x, (6 * SCALE * SCALE) as int);
}

/// The quarter-turn direction lies on the unit ring.
proof fn lemma_quarter_dir_ring(x: int)
    requires
        0 <= x <= QUARTER_TURN,
    ensures
        on_unit_ring(spec_quarter_dir(x).0, spec_quarter_dir(x).1),
        0 <= spec_quarter_dir(x).0,
        0 <= spec_quarter_dir(x).1,
{
    if x <= EIGHTH_TURN {
        let s = spec_sin_small(x);
        lemma_sin_small_bounds(x);
        assert(s * s < SCALE * SCALE) by (nonlinear_arith)
            requires
                0 <= s <= EIGHTH_TURN,
                EIGHTH_TURN < SCALE,
        ;
        lemma_isqrt_of_complement(s);
    } else {
        let c = spec_sin_small(QUARTER_TURN - x);
        lemma_sin_small_bounds(QUARTER_TURN - x);
        assert(c * c < SCALE * SCALE) by (nonlinear_arith)
            requires
                0 <= c <= EIGHTH_TURN,
                EIGHTH_TURN < SCALE,
        ;
        lemma_isqrt_of_complement(c);
        assert(on_unit_ring(spec_quarter_dir(x).1, spec_quarter_dir(x).0));
        assert(on_unit_ring(spec_quarter_dir(x).0, spec_quarter_dir(x).1))
            by (nonlinear_arith)
            requires
                on_unit_ring(spec_quarter_dir(x).1, spec_quarter_dir(x).0),
        ;
    }
}

/// Completing a series value to the unit norm by the square root lands on
/// the unit ring.
proof fn lemma_isqrt_of_complement(v: int)
    requires
        0 <= v < SCALE,
        v * v < SCALE * SCALE,
    ensures
        on_unit_ring(spec_isqrt(SCALE * SCALE - v * v), v),
        0 <= spec_isqrt(SCALE * SCALE - v * v) <= SCALE,
{
    let n = SCALE * SCALE - v * v;
    let w = sqrt_exists(n);
    lemma_isqrt_is_spec(n, w);
    lemma_complete_norm(v, w);
}

/// A witness that the integer square root of a nonnegative value exists.
proof fn sqrt_exists(n: int) -> (r: int)
    requires
        0 <= n,
    ensures
        is_isqrt(n, r),
{
    assert(n < (n + 1) * (n + 1)) by (nonlinear_arith)
        requires
            0 <= n,
    ;
    sqrt_descend(n, n)
}

/// Find the integer square root by descending from an upper bound.
proof fn sqrt_descend(n: int, hi: int) -> (r: int)
    requires
        0 <= n,
        0 <= hi,
        n < (hi + 1) * (hi + 1),
    ensures
        is_isqrt(n, r),
    decreases hi,
{
    if hi * hi <= n {
        hi
    } else {
        assert(0 < hi) by (nonlinear_arith)
            requires
                0 <= n,
                0 <= hi,
                hi * hi > n,
        ;
        sqrt_descend(n, hi - 1)
    }
}

/// The direction of the unit circle lies on the unit ring, at every angle
/// within a full turn.
pub proof fn lemma_unit_dir_ring(t: int)
    requires
        0 <= t <= FULL_TURN,
    ensures
        on_unit_ring(spec_unit_dir(t).0, spec_unit_dir(t).1),
{
    let q = t / (QUARTER_TURN as int);
    let y = t % (QUARTER_TURN as int);
    assert(0 <= y < QUARTER_TURN);
    assert(0 <= q <= 4);
    lemma_quarter_dir_ring(y);
    lemma_quarter_dir_ring(0);
    let b = spec_quarter_dir(y);
    lemma_ring_negate(b.0, b.1);
}

/// Direction of the unit circle at angle `t` in `[0, 2 * pi]`, by quadrant
/// symmetry from the quarter-turn case. At a full turn the direction is the
/// same as at zero.
pub open spec fn spec_unit_dir(t: int) -> (int, int) {
    let q = t / (QUARTER_TURN as int);
    let y = t % (QUARTER_TURN as int);
    if q == 0 {
        spec_quarter_dir(y)
    } else if q == 1 {
        let b = spec_quarter_dir(y);
        (-b.1, b.0)
    } else if q == 2 {
        let b = spec_quarter_dir(y);
        (-b.0, -b.1)
    } else if q == 3 {
        let b = spec_quarter_dir(y);
        (b.1, -b.0)
    } else {
        spec_quarter_dir(0)
    }
}

/// Cosine and sine of an angle in `[0, 2 * pi]`, in ticks.
pub fn unit_dir(t: i64) -> (r: (i64, i64))
    requires
        0 <= t <= FULL_TURN,
    ensures
        r.0 == spec_unit_dir(t as int).0,
        r.1 == spec_unit_dir(t as int).1,
        on_unit_ring(r.0 as int, r.1 as int),
{
    let q: u64 = (t as u64) / (QUARTER_TURN as u64);
    let y: i64 = ((t as u64) % (QUARTER_TURN as u64)) as i64;
    if q == 0 {
        quarter_dir(y)
    } else if q == 1 {
        let b = quarter_dir(y);
        proof {
            lemma_ring_negate(b.0 as int, b.1 as int);
        }
        (-b.1, b.0)
    } else if q == 2 {
        let b = quarter_dir(y);
        proof {
            lemma_ring_negate(b.0 as int, b.1 as int);
        }
        (-b.0, -b.1)
    } else if q == 3 {
        let b = quarter_dir(y);
        proof {
            lemma_ring_negate(b.0 as int, b.1 as int);
        }
        (b.1, -b.0)
    } else {
        quarter_dir(0)
    }
}

/// Negating either component of a pair keeps it on the unit ring.
proof fn lemma_ring_negate(c: int, s: int)
    by (nonlinear_arith)
    requires
        on_unit_ring(c, s),
    ensures
        on_unit_ring(-s, c),
        on_unit_ring(-c, -s),
        on_unit_ring(s, -c),
{
}

} // verus!
