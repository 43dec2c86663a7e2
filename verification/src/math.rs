//! Fixed-point scalars, points and vectors.
//!
//! A coordinate is an `i64` number of ticks; [`SCALE`] ticks make one model
//! unit. Angles use the same convention: an angle coordinate is the angle in
//! radians times [`SCALE`]. All geometric reasoning in this crate is exact
//! integer arithmetic over this representation.

use vstd::prelude::*;

verus! {

/// Ticks per model unit: one tick is `10^-7` units.
pub const SCALE: i64 = 10_000_000;

/// Incidence epsilon in ticks (`10^-6` model units): a point further than
/// this from a surface does not count as lying on it.
pub const EPSILON: i64 = 10;

/// Default minimum distance between distinct vertices, in ticks
/// (`5 * 10^-7` model units).
pub const DEFAULT_MIN_DISTANCE: i64 = 5;

/// A quarter turn (`pi/2` radians) in angle ticks.
pub const QUARTER_TURN: i64 = 15_707_963;

/// An eighth of a turn (`pi/4` radians) in angle ticks.
pub const EIGHTH_TURN: i64 = 7_853_982;

/// A full turn (`2 * pi` radians) in angle ticks.
pub const FULL_TURN: i64 = 4 * QUARTER_TURN;

/// Bound on the coordinates of model-space points handled by the kernel:
/// `10^5` model units.
pub const COORD_MAX: i64 = 1_000_000_000_000;

/// A point in a 2-dimensional coordinate space, in ticks.
#[derive(Clone, Copy, Debug, PartialEq, Eq, Hash, Structural)]
pub struct Point2 {
    pub x: i64,
    pub y: i64,
}

/// A point in the 3-dimensional model space, in ticks.
#[derive(Clone, Copy, Debug, PartialEq, Eq, Hash, Structural)]
pub struct Point3 {
    pub x: i64,
    pub y: i64,
    pub z: i64,
}

/// A displacement in a 2-dimensional coordinate space, in ticks.
#[derive(Clone, Copy, Debug, PartialEq, Eq, Hash, Structural)]
pub struct Vector2 {
    pub x: i64,
    pub y: i64,
}

/// A displacement in the 3-dimensional model space, in ticks.
#[derive(Clone, Copy, Debug, PartialEq, Eq, Hash, Structural)]
pub struct Vector3 {
    pub x: i64,
    pub y: i64,
    pub z: i64,
}

impl Point2 {
    pub fn new(x: i64, y: i64) -> (r: Point2)
        ensures
            r == (Point2 { x, y }),
    {
        Point2 { x, y }
    }
}

impl Point3 {
    pub fn new(x: i64, y: i64, z: i64) -> (r: Point3)
        ensures
            r == (Point3 { x, y, z }),
    {
        Point3 { x, y, z }
    }

    /// The origin of the model space.
    pub fn origin() -> (r: Point3)
        ensures
            r == (Point3 { x: 0, y: 0, z: 0 }),
    {
        Point3 { x: 0, y: 0, z: 0 }
    }
}

impl Vector2 {
    pub fn new(x: i64, y: i64) -> (r: Vector2)
        ensures
            r == (Vector2 { x, y }),
    {
        Vector2 { x, y }
    }
}

impl Vector3 {
    pub fn new(x: i64, y: i64, z: i64) -> (r: Vector3)
        ensures
            r == (Vector3 { x, y, z }),
    {
        Vector3 { x, y, z }
    }
}

/// All coordinates of a 3-dimensional point within `m` ticks of zero.
pub open spec fn p3_within(p: Point3, m: int) -> bool {
    -m <= p.x <= m && -m <= p.y <= m && -m <= p.z <= m
}

/// All coordinates of a 3-dimensional vector within `m` ticks of zero.
pub open spec fn v3_within(v: Vector3, m: int) -> bool {
    -m <= v.x <= m && -m <= v.y <= m && -m <= v.z <= m
}

/// All coordinates of a 2-dimensional point within `m` ticks of zero.
pub open spec fn p2_within(p: Point2, m: int) -> bool {
    -m <= p.x <= m && -m <= p.y <= m
}

/// All coordinates of a 2-dimensional vector within `m` ticks of zero.
pub open spec fn v2_within(v: Vector2, m: int) -> bool {
    -m <= v.x <= m && -m <= v.y <= m
}

/// Dot product of two 3-dimensional vectors, exact.
pub open spec fn spec_dot3(a: Vector3, b: Vector3) -> int {
    a.x * b.x + a.y * b.y + a.z * b.z
}

/// Squared length of a 3-dimensional vector, exact.
pub open spec fn spec_normsq3(v: Vector3) -> int {
    v.x * v.x + v.y * v.y + v.z * v.z
}

/// Cross product of two 3-dimensional vectors, exact.
pub open spec fn spec_cross3(a: Vector3, b: Vector3) -> (int, int, int) {
    (a.y * b.z - a.z * b.y, a.z * b.x - a.x * b.z, a.x * b.y - a.y * b.x)
}

/// Squared length of a 2-dimensional vector, exact.
pub open spec fn spec_normsq2(v: Vector2) -> int {
    v.x * v.x + v.y * v.y
}

/// Squared distance between two 3-dimensional points, exact.
pub open spec fn spec_distsq3(a: Point3, b: Point3) -> int {
    (a.x - b.x) * (a.x - b.x) + (a.y - b.y) * (a.y - b.y) + (a.z - b.z) * (a.z - b.z)
}

/// The product of two values each within `10^18` of zero stays well inside
/// the `i128` range, and a sum of three such products does too.
proof fn lemma_mul_bound(a: int, b: int, m: int)
    by (nonlinear_arith)
    requires
        -m <= a <= m,
        -m <= b <= m,
        0 <= m,
    ensures
        -m * m <= a * b <= m * m,
{
}

/// A product of two values is bounded by the product of their bounds.
proof fn lemma_mul_bound2(a: int, b: int, m1: int, m2: int)
    by (nonlinear_arith)
    requires
        -m1 <= a <= m1,
        -m2 <= b <= m2,
        0 <= m1,
        0 <= m2,
    ensures
        -(m1 * m2) <= a * b <= m1 * m2,
{
}

/// The dot product of a vector within `m1` and a vector within `m2` is
/// within `3 * m1 * m2`.
pub proof fn lemma_dot3_bound(a: Vector3, b: Vector3, m1: int, m2: int)
    requires
        v3_within(a, m1),
        v3_within(b, m2),
        0 <= m1,
        0 <= m2,
    ensures
        -3 * (m1 * m2) <= spec_dot3(a, b) <= 3 * (m1 * m2),
{
    lemma_mul_bound2(a.x as int, b.x as int, m1, m2);
    lemma_mul_bound2(a.y as int, b.y as int, m1, m2);
    lemma_mul_bound2(a.z as int, b.z as int, m1, m2);
}

impl Point3 {
    /// Vector from `other` to `self`.
    pub fn sub(self, other: Point3) -> (r: Vector3)
        requires
            p3_within(self, COORD_MAX as int),
            p3_within(other, COORD_MAX as int),
        ensures
            r.x == self.x - other.x,
            r.y == self.y - other.y,
            r.z == self.z - other.z,
    {
        Vector3 { x: self.x - other.x, y: self.y - other.y, z: self.z - other.z }
    }
}

/// Exact dot product of two 3-dimensional vectors, computed in `i128`.
pub fn dot3(a: Vector3, b: Vector3) -> (r: i128)
    requires
        v3_within(a, 1_000_000_000_000_000_000),
        v3_within(b, 1_000_000_000_000_000_000),
    ensures
        r == spec_dot3(a, b),
{
    proof {
        lemma_mul_bound(a.x as int, b.x as int, 1_000_000_000_000_000_000);
        lemma_mul_bound(a.y as int, b.y as int, 1_000_000_000_000_000_000);
        lemma_mul_bound(a.z as int, b.z as int, 1_000_000_000_000_000_000);
    }
    (a.x as i128) * (b.x as i128) + (a.y as i128) * (b.y as i128) + (a.z as i128) * (b.z as i128)
}

/// Exact squared length of a 3-dimensional vector, computed in `i128`.
pub fn normsq3(v: Vector3) -> (r: i128)
    requires
        v3_within(v, 1_000_000_000_000_000_000),
    ensures
        r == spec_normsq3(v),
        r >= 0,
{
    proof {
        lemma_mul_bound(v.x as int, v.x as int, 1_000_000_000_000_000_000);
        lemma_mul_bound(v.y as int, v.y as int, 1_000_000_000_000_000_000);
        lemma_mul_bound(v.z as int, v.z as int, 1_000_000_000_000_000_000);
        assert(v.x * v.x >= 0) by (nonlinear_arith);
        assert(v.y * v.y >= 0) by (nonlinear_arith);
        assert(v.z * v.z >= 0) by (nonlinear_arith);
    }
    (v.x as i128) * (v.x as i128) + (v.y as i128) * (v.y as i128) + (v.z as i128) * (v.z as i128)
}

/// Exact squared distance between two 3-dimensional points.
pub fn distsq3(a: Point3, b: Point3) -> (r: i128)
    requires
        p3_within(a, COORD_MAX as int),
        p3_within(b, COORD_MAX as int),
    ensures
        r == spec_distsq3(a, b),
        r >= 0,
{
    let v = a.sub(b);
    let r = normsq3(v);
    proof {
        assert(spec_normsq3(v) == spec_distsq3(a, b));
    }
    r
}

/// Exact cross product of two 3-dimensional vectors whose coordinates stay
/// within `2 * 10^9` ticks, so each component fits an `i64`.
pub fn cross3(a: Vector3, b: Vector3) -> (r: Vector3)
    requires
        v3_within(a, 2_000_000_000),
        v3_within(b, 2_000_000_000),
    ensures
        r.x == a.y * b.z - a.z * b.y,
        r.y == a.z * b.x - a.x * b.z,
        r.z == a.x * b.y - a.y * b.x,
{
    proof {
        lemma_mul_bound(a.y as int, b.z as int, 2_000_000_000);
        lemma_mul_bound(a.z as int, b.y as int, 2_000_000_000);
        lemma_mul_bound(a.z as int, b.x as int, 2_000_000_000);
        lemma_mul_bound(a.x as int, b.z as int, 2_000_000_000);
        lemma_mul_bound(a.x as int, b.y as int, 2_000_000_000);
        lemma_mul_bound(a.y as int, b.x as int, 2_000_000_000);
    }
    let x: i64 = ((a.y as i128) * (b.z as i128) - (a.z as i128) * (b.y as i128)) as i64;
    let y: i64 = ((a.z as i128) * (b.x as i128) - (a.x as i128) * (b.z as i128)) as i64;
    let z: i64 = ((a.x as i128) * (b.y as i128) - (a.y as i128) * (b.x as i128)) as i64;
    Vector3 { x, y, z }
}

/// Floor of the square root: the greatest `r` with `r * r <= n`.
pub open spec fn is_isqrt(n: int, r: int) -> bool {
    0 <= r && r * r <= n && n < (r + 1) * (r + 1)
}

/// Integer square root by binary search.
pub fn isqrt64(n: u64) -> (r: u64)
    ensures
        is_isqrt(n as int, r as int),
{
    if n == 0 {
        return 0;
    }
    let mut lo: u64 = 0;
    let mut hi: u64 = 4_294_967_296;
    proof {
        assert(4_294_967_296int * 4_294_967_296int > u64::MAX) by (nonlinear_arith);
    }
    while lo + 1 < hi
        invariant
            0 <= lo < hi <= 4_294_967_296,
            lo * lo <= n,
            n < hi * hi,
        decreases hi - lo,
    {
        let mid: u64 = lo + (hi - lo) / 2;
        proof {
            lemma_mul_bound(mid as int, mid as int, 4_294_967_296);
        }
        if (mid as u128) * (mid as u128) <= n as u128 {
            lo = mid;
        } else {
            hi = mid;
        }
    }
    lo
}

/// Floor division of a possibly negative numerator by a positive divisor,
/// agreeing with the mathematical quotient `n / d` of the specification
/// language.
pub fn div_floor(n: i128, d: i128) -> (r: i128)
    requires
        0 < d <= 1_000_000_000_000_000_000_000_000_000,
        -1_000_000_000_000_000_000_000_000_000_000_000_000 <= n
            <= 1_000_000_000_000_000_000_000_000_000_000_000_000,
    ensures
        r == n / d,
{
    if n >= 0 {
        let q: u128 = (n as u128) / (d as u128);
        q as i128
    } else {
        let m: u128 = (-n) as u128;
        let q: u128 = (m + (d as u128) - 1) / (d as u128);
        proof {
            let a = m + d - 1;
            let qi = a as int / d as int;
            let r0 = a as int % d as int;
            vstd::arithmetic::div_mod::lemma_fundamental_div_mod(a as int, d as int);
            assert((-qi) * d == -(qi * d)) by (nonlinear_arith);
            assert(n == (-qi) * d + (d - r0 - 1));
            if r0 + 1 == d {
                vstd::arithmetic::div_mod::lemma_fundamental_div_mod_converse(
                    n as int, d as int, -qi, 0);
            } else {
                vstd::arithmetic::div_mod::lemma_fundamental_div_mod_converse(
                    n as int, d as int, -qi, d - r0 - 1);
            }
        }
        -(q as i128)
    }
}

/// A rigid transform of the model space: a rotation given by three row
/// vectors in ticks (so the identity has rows `(SCALE, 0, 0)` and so on),
/// followed by a translation.
#[derive(Clone, Copy, Debug, PartialEq, Eq, Structural)]
pub struct Transform {
    pub rx: Vector3,
    pub ry: Vector3,
    pub rz: Vector3,
    pub t: Vector3,
}

/// Rows small enough for transform arithmetic, and a translation within the
/// coordinate bound.
pub open spec fn transform_wf(tr: Transform) -> bool {
    &&& v3_within(tr.rx, 2 * SCALE as int)
    &&& v3_within(tr.ry, 2 * SCALE as int)
    &&& v3_within(tr.rz, 2 * SCALE as int)
    &&& v3_within(tr.t, COORD_MAX as int)
}

/// A transform whose rotation rows are signed coordinate axes. Such a
/// rotation is exact: no fixed-point rounding occurs, so lengths and dot
/// products of transformed vectors are preserved exactly.
pub open spec fn transform_axis_aligned(tr: Transform) -> bool {
    &&& axis_row(tr.rx)
    &&& axis_row(tr.ry)
    &&& axis_row(tr.rz)
}

/// A vector that is a positive or negative coordinate axis of unit length.
pub open spec fn axis_row(v: Vector3) -> bool {
    ||| v == (Vector3 { x: SCALE, y: 0, z: 0 })
    ||| v == (Vector3 { x: (-SCALE) as i64, y: 0, z: 0 })
    ||| v == (Vector3 { x: 0, y: SCALE, z: 0 })
    ||| v == (Vector3 { x: 0, y: (-SCALE) as i64, z: 0 })
    ||| v == (Vector3 { x: 0, y: 0, z: SCALE })
    ||| v == (Vector3 { x: 0, y: 0, z: (-SCALE) as i64 })
}

/// The rotation part applied to a vector, with floor rounding.
pub open spec fn spec_rotate(tr: Transform, v: Vector3) -> (int, int, int) {
    (
        spec_dot3(tr.rx, v) / (SCALE as int),
        spec_dot3(tr.ry, v) / (SCALE as int),
        spec_dot3(tr.rz, v) / (SCALE as int),
    )
}

/// The whole transform applied to a point: rotate, then translate.
pub open spec fn spec_transform_point(tr: Transform, p: Point3) -> (int, int, int) {
    let r = spec_rotate(tr, Vector3 { x: p.x, y: p.y, z: p.z });
    (r.0 + tr.t.x, r.1 + tr.t.y, r.2 + tr.t.z)
}

impl Transform {
    /// The identity rotation with translation `v`.
    pub fn translation(v: Vector3) -> (r: Transform)
        ensures
            r.rx == (Vector3 { x: SCALE, y: 0, z: 0 }),
            r.ry == (Vector3 { x: 0, y: SCALE, z: 0 }),
            r.rz == (Vector3 { x: 0, y: 0, z: SCALE }),
            r.t == v,
            transform_axis_aligned(r),
    {
        Transform {
            rx: Vector3 { x: SCALE, y: 0, z: 0 },
            ry: Vector3 { x: 0, y: SCALE, z: 0 },
            rz: Vector3 { x: 0, y: 0, z: SCALE },
            t: v,
        }
    }

    /// A transform from explicit rotation rows and translation.
    pub fn from_rows(rx: Vector3, ry: Vector3, rz: Vector3, t: Vector3) -> (r: Transform)
        ensures
            r == (Transform { rx, ry, rz, t }),
    {
        Transform { rx, ry, rz, t }
    }

    /// Apply the rotation part to a vector.
    pub fn transform_vector(&self, v: Vector3) -> (r: Vector3)
        requires
            transform_wf(*self),
            v3_within(v, COORD_MAX as int),
        ensures
            r.x == spec_rotate(*self, v).0,
            r.y == spec_rotate(*self, v).1,
            r.z == spec_rotate(*self, v).2,
            v3_within(r, 6 * COORD_MAX as int),
    {
        let nx = dot3(self.rx, v);
        let ny = dot3(self.ry, v);
        let nz = dot3(self.rz, v);
        proof {
            lemma_dot3_bound(self.rx, v, 2 * SCALE as int, COORD_MAX as int);
            lemma_dot3_bound(self.ry, v, 2 * SCALE as int, COORD_MAX as int);
            lemma_dot3_bound(self.rz, v, 2 * SCALE as int, COORD_MAX as int);
            assert(3 * ((2 * SCALE as int) * (COORD_MAX as int))
                == 6 * (SCALE as int) * (COORD_MAX as int)) by (nonlinear_arith);
            lemma_rotate_bound(spec_dot3(self.rx, v));
            lemma_rotate_bound(spec_dot3(self.ry, v));
            lemma_rotate_bound(spec_dot3(self.rz, v));
        }
        Vector3 {
            x: div_floor(nx, SCALE as i128) as i64,
            y: div_floor(ny, SCALE as i128) as i64,
            z: div_floor(nz, SCALE as i128) as i64,
        }
    }

    /// Apply the whole transform to a point.
    pub fn transform_point(&self, p: Point3) -> (r: Point3)
        requires
            transform_wf(*self),
            p3_within(p, COORD_MAX as int),
        ensures
            r.x == spec_transform_point(*self, p).0,
            r.y == spec_transform_point(*self, p).1,
            r.z == spec_transform_point(*self, p).2,
            p3_within(r, 7 * COORD_MAX as int),
    {
        let rv = self.transform_vector(Vector3 { x: p.x, y: p.y, z: p.z });
        Point3 { x: rv.x + self.t.x, y: rv.y + self.t.y, z: rv.z + self.t.z }
    }
}

/// A rotated coordinate, the dot product divided by the scale, stays within
/// six times the coordinate bound.
proof fn lemma_rotate_bound(n: int)
    requires
        -6 * (SCALE as int) * (COORD_MAX as int) <= n <= 6 * (SCALE as int) * (COORD_MAX as int),
    ensures
        -6 * (COORD_MAX as int) <= n / (SCALE as int) <= 6 * (COORD_MAX as int),
{
    vstd::arithmetic::div_mod::lemma_div_is_ordered(
        n, 6 * (SCALE as int) * (COORD_MAX as int), SCALE as int);
    vstd::arithmetic::div_mod::lemma_div_is_ordered(
        -6 * (SCALE as int) * (COORD_MAX as int), n, SCALE as int);
    assert(6 * (SCALE as int) * (COORD_MAX as int) == (SCALE as int) * (6 * COORD_MAX as int))
        by (nonlinear_arith);
    vstd::arithmetic::div_mod::lemma_div_multiples_vanish(6 * COORD_MAX as int, SCALE as int);
    assert(-6 * (SCALE as int) * (COORD_MAX as int) == (SCALE as int) * (-6 * COORD_MAX as int))
        by (nonlinear_arith);
    vstd::arithmetic::div_mod::lemma_div_multiples_vanish(-6 * COORD_MAX as int, SCALE as int);
}

/// Integer square root of a wide value, by binary search.
pub fn isqrt128(n: u128) -> (r: u64)
    ensures
        is_isqrt(n as int, r as int),
{
    if n == 0 {
        return 0;
    }
    let mut lo: u128 = 0;
    let mut hi: u128 = 18_446_744_073_709_551_616;
    proof {
        assert(18_446_744_073_709_551_616int * 18_446_744_073_709_551_616int > u128::MAX)
            by (nonlinear_arith);
    }
    while lo + 1 < hi
        invariant
            0 <= lo < hi <= 18_446_744_073_709_551_616,
            lo * lo <= n,
            n < hi * hi,
        decreases hi - lo,
    {
        let mid: u128 = lo + (hi - lo) / 2;
        proof {
            lemma_mul_bound(mid as int, mid as int, 18_446_744_073_709_551_615);
        }
        if mid * mid <= n {
            lo = mid;
        } else {
            hi = mid;
        }
    }
    lo as u64
}

/// The integer square root as a mathematical function.
pub open spec fn spec_isqrt(n: int) -> int {
    choose|r: int| is_isqrt(n, r)
}

/// Any root satisfying [`is_isqrt`] is the value of [`spec_isqrt`].
pub proof fn lemma_isqrt_is_spec(n: int, r: int)
    requires
        is_isqrt(n, r),
    ensures
        spec_isqrt(n) == r,
        is_isqrt(n, spec_isqrt(n)),
{
    assert(is_isqrt(n, spec_isqrt(n))) by {
        assert(exists|r2: int| is_isqrt(n, r2));
    }
    lemma_isqrt_monotone(n, r, n, spec_isqrt(n));
    lemma_isqrt_monotone(n, spec_isqrt(n), n, r);
}

/// For a nonnegative argument, the chosen integer square root satisfies
/// its defining property.
pub proof fn lemma_isqrt_facts(n: int)
    requires
        0 <= n,
    ensures
        is_isqrt(n, spec_isqrt(n)),
        spec_isqrt(n) >= 0,
{
    assert(n < (n + 1) * (n + 1)) by (nonlinear_arith)
        requires
            0 <= n,
    ;
    let w = lemma_isqrt_descend(n, n);
    lemma_isqrt_is_spec(n, w);
}

/// Find the integer square root by descending from an upper bound.
proof fn lemma_isqrt_descend(n: int, hi: int) -> (r: int)
    requires
        0 <= n,
        0 <= hi,
        n < (hi + 1) * (hi + 1),
    ensures
        is_isqrt(n, r),
    decreases hi,
{
    if hi * hi <= n {
        hi
    } else {
        assert(0 < hi) by (nonlinear_arith)
            requires
                0 <= n,
                0 <= hi,
                hi * hi > n,
        ;
        lemma_isqrt_descend(n, hi - 1)
    }
}

/// Comparing nonnegative numbers is the same as comparing their squares.
pub proof fn lemma_sq_le(a: int, b: int)
    by (nonlinear_arith)
    requires
        0 <= a,
        0 <= b,
        a * a <= b * b,
    ensures
        a <= b,
{
}

/// The integer square root is monotone in its argument.
pub proof fn lemma_isqrt_monotone(n1: int, r1: int, n2: int, r2: int)
    requires
        is_isqrt(n1, r1),
        is_isqrt(n2, r2),
        n1 <= n2,
    ensures
        r1 <= r2,
{
    if r1 > r2 {
        assert(r2 + 1 <= r1);
        assert((r2 + 1) * (r2 + 1) <= r1 * r1) by (nonlinear_arith)
            requires
                0 <= r2 + 1 <= r1,
        ;
        assert(n2 < (r2 + 1) * (r2 + 1));
        assert(r1 * r1 <= n1);
    }
}

} // verus!
