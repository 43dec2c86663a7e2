//! Curve carriers: lines and circles, in model space and in surface-local
//! coordinates.
//!
//! A curve is parametrised by a single local coordinate. For a line the
//! coordinate is the multiple of the direction vector, in ticks of the
//! parameter; for a circle it is the angle in radian ticks. Evaluating a
//! curve at a coordinate is exact fixed-point arithmetic, specified to the
//! tick by the `spec_*_point` functions.

use vstd::prelude::*;
use crate::math::{
    Point2, Point3, Vector2, Vector3, Transform, SCALE, FULL_TURN, COORD_MAX,
    p2_within, p3_within, v2_within, v3_within, spec_dot3, spec_normsq3, spec_normsq2,
    spec_transform_point, spec_rotate, transform_wf, div_floor, lemma_dot3_bound,
    spec_isqrt,
};
use crate::angle::{spec_unit_dir, unit_dir, on_unit_ring};

verus! {

/// Bound on line parameters: a parameter is at most `10^6` model units of
/// direction vector, so evaluated points stay within machine range.
pub const PARAM_MAX: i64 = 10_000_000_000_000;

/// A line in model space: a point on it and its direction.
#[derive(Clone, Copy, Debug, PartialEq, Eq, Structural)]
pub struct Line {
    pub origin: Point3,
    pub direction: Vector3,
}

/// A circle in model space: its centre and two radius vectors spanning the
/// plane of the circle. The two vectors must be orthogonal and of equal
/// length — the radius — so the parametrisation traces a true circle.
#[derive(Clone, Copy, Debug, PartialEq, Eq, Structural)]
pub struct Circle {
    pub center: Point3,
    pub a: Vector3,
    pub b: Vector3,
}

/// A curve carrier in model space.
#[derive(Clone, Copy, Debug, PartialEq, Eq, Structural)]
pub enum Curve {
    Line(Line),
    Circle(Circle),
}

/// A line in surface-local coordinates.
#[derive(Clone, Copy, Debug, PartialEq, Eq, Structural)]
pub struct Line2 {
    pub origin: Point2,
    pub direction: Vector2,
}

/// A circle in surface-local coordinates: the second radius vector is the
/// first rotated by a quarter turn, which is exact in two dimensions.
#[derive(Clone, Copy, Debug, PartialEq, Eq, Structural)]
pub struct Circle2 {
    pub center: Point2,
    pub radius: Vector2,
}

/// A curve carrier in surface-local coordinates.
#[derive(Clone, Copy, Debug, PartialEq, Eq, Structural)]
pub enum SurfacePath {
    Line(Line2),
    Circle(Circle2),
}

/// A non-degenerate, in-range line.
pub open spec fn line_wf(l: Line) -> bool {
    &&& p3_within(l.origin, COORD_MAX as int)
    &&& v3_within(l.direction, COORD_MAX as int)
    &&& spec_normsq3(l.direction) > 0
}

/// A non-degenerate, in-range circle: the radius vectors are orthogonal and
/// of equal, positive length.
pub open spec fn circle_wf(c: Circle) -> bool {
    &&& p3_within(c.center, COORD_MAX as int)
    &&& v3_within(c.a, COORD_MAX as int)
    &&& v3_within(c.b, COORD_MAX as int)
    &&& spec_dot3(c.a, c.b) == 0
    &&& spec_normsq3(c.a) == spec_normsq3(c.b)
    &&& spec_normsq3(c.a) > 0
}

pub open spec fn curve_wf(k: Curve) -> bool {
    match k {
        Curve::Line(l) => line_wf(l),
        Curve::Circle(c) => circle_wf(c),
    }
}

/// A non-degenerate, in-range surface-local line.
pub open spec fn line2_wf(l: Line2) -> bool {
    &&& p2_within(l.origin, COORD_MAX as int)
    &&& v2_within(l.direction, COORD_MAX as int)
    &&& spec_normsq2(l.direction) > 0
}

/// A non-degenerate, in-range surface-local circle.
pub open spec fn circle2_wf(c: Circle2) -> bool {
    &&& p2_within(c.center, COORD_MAX as int)
    &&& v2_within(c.radius, COORD_MAX as int)
    &&& spec_normsq2(c.radius) > 0
}

pub open spec fn path_wf(p: SurfacePath) -> bool {
    match p {
        SurfacePath::Line(l) => line2_wf(l),
        SurfacePath::Circle(c) => circle2_wf(c),
    }
}

/// The parameter domain of a curve: angles within a full turn for a circle,
/// bounded multiples of the direction for a line.
pub open spec fn curve_param_ok(k: Curve, t: int) -> bool {
    match k {
        Curve::Line(_) => -PARAM_MAX <= t <= PARAM_MAX,
        Curve::Circle(_) => 0 <= t <= FULL_TURN,
    }
}

pub open spec fn path_param_ok(p: SurfacePath, t: int) -> bool {
    match p {
        SurfacePath::Line(_) => -PARAM_MAX <= t <= PARAM_MAX,
        SurfacePath::Circle(_) => 0 <= t <= FULL_TURN,
    }
}

/// Point of a line at parameter `t`: the origin plus `t` times the
/// direction, scaled down by [`SCALE`] with floor rounding.
pub open spec fn spec_line_point(l: Line, t: int) -> (int, int, int) {
    (
        l.origin.x + (t * l.direction.x) / (SCALE as int),
        l.origin.y + (t * l.direction.y) / (SCALE as int),
        l.origin.z + (t * l.direction.z) / (SCALE as int),
    )
}

/// Point of a circle at angle `t`: the centre displaced by the cosine times
/// the first radius vector plus the sine times the second.
pub open spec fn spec_circle_point(c: Circle, t: int) -> (int, int, int) {
    let d = spec_unit_dir(t);
    (
        c.center.x + (c.a.x * d.0 + c.b.x * d.1) / (SCALE as int),
        c.center.y + (c.a.y * d.0 + c.b.y * d.1) / (SCALE as int),
        c.center.z + (c.a.z * d.0 + c.b.z * d.1) / (SCALE as int),
    )
}

pub open spec fn spec_curve_point(k: Curve, t: int) -> (int, int, int) {
    match k {
        Curve::Line(l) => spec_line_point(l, t),
        Curve::Circle(c) => spec_circle_point(c, t),
    }
}

/// Point of a surface-local line at parameter `t`.
pub open spec fn spec_line2_point(l: Line2, t: int) -> (int, int) {
    (
        l.origin.x + (t * l.direction.x) / (SCALE as int),
        l.origin.y + (t * l.direction.y) / (SCALE as int),
    )
}

/// Point of a surface-local circle at angle `t`; the second radius vector
/// is the first rotated by a quarter turn.
pub open spec fn spec_circle2_point(c: Circle2, t: int) -> (int, int) {
    let d = spec_unit_dir(t);
    (
        c.center.x + (c.radius.x * d.0 + (-c.radius.y) * d.1) / (SCALE as int),
        c.center.y + (c.radius.y * d.0 + c.radius.x * d.1) / (SCALE as int),
    )
}

pub open spec fn spec_path_point(p: SurfacePath, t: int) -> (int, int) {
    match p {
        SurfacePath::Line(l) => spec_line2_point(l, t),
        SurfacePath::Circle(c) => spec_circle2_point(c, t),
    }
}

/// A scaled-down product of an in-range parameter and coordinate stays
/// within `10^18`.
proof fn lemma_scaled_term_bound(n: int)
    requires
        -2 * (PARAM_MAX as int) * (COORD_MAX as int) <= n
            <= 2 * (PARAM_MAX as int) * (COORD_MAX as int),
    ensures
        -2_000_000_000_000_000_000 <= n / (SCALE as int) <= 2_000_000_000_000_000_000,
{
    vstd::arithmetic::div_mod::lemma_div_is_ordered(
        n, 2 * (PARAM_MAX as int) * (COORD_MAX as int), SCALE as int);
    vstd::arithmetic::div_mod::lemma_div_is_ordered(
        -2 * (PARAM_MAX as int) * (COORD_MAX as int), n, SCALE as int);
    assert(2 * (PARAM_MAX as int) * (COORD_MAX as int)
        == (SCALE as int) * 2_000_000_000_000_000_000) by (nonlinear_arith);
    vstd::arithmetic::div_mod::lemma_div_multiples_vanish(
        2_000_000_000_000_000_000, SCALE as int);
    assert(-2 * (PARAM_MAX as int) * (COORD_MAX as int)
        == (SCALE as int) * (-2_000_000_000_000_000_000)) by (nonlinear_arith);
    vstd::arithmetic::div_mod::lemma_div_multiples_vanish(
        -2_000_000_000_000_000_000, SCALE as int);
}

/// A product of values bounded by `m1` and `m2` in magnitude.
proof fn lemma_term_bound(a: int, b: int, m1: int, m2: int)
    by (nonlinear_arith)
    requires
        -m1 <= a <= m1,
        -m2 <= b <= m2,
        0 <= m1,
        0 <= m2,
    ensures
        -(m1 * m2) <= a * b <= m1 * m2,
{
}

/// Evaluate a model-space curve at a local coordinate.
pub fn curve_point(k: &Curve, t: i64) -> (p: Point3)
    requires
        curve_wf(*k),
        curve_param_ok(*k, t as int),
    ensures
        p.x == spec_curve_point(*k, t as int).0,
        p.y == spec_curve_point(*k, t as int).1,
        p.z == spec_curve_point(*k, t as int).2,
    {
    match k {
        Curve::Line(l) => {
            proof {
                lemma_term_bound(t as int, l.direction.x as int, PARAM_MAX as int, COORD_MAX as int);
                lemma_term_bound(t as int, l.direction.y as int, PARAM_MAX as int, COORD_MAX as int);
                lemma_term_bound(t as int, l.direction.z as int, PARAM_MAX as int, COORD_MAX as int);
                lemma_scaled_term_bound((t as int) * (l.direction.x as int));
                lemma_scaled_term_bound((t as int) * (l.direction.y as int));
                lemma_scaled_term_bound((t as int) * (l.direction.z as int));
            }
            let dx = div_floor((t as i128) * (l.direction.x as i128), SCALE as i128);
            let dy = div_floor((t as i128) * (l.direction.y as i128), SCALE as i128);
            let dz = div_floor((t as i128) * (l.direction.z as i128), SCALE as i128);
            Point3 {
                x: l.origin.x + dx as i64,
                y: l.origin.y + dy as i64,
                z: l.origin.z + dz as i64,
            }
        }
        Curve::Circle(c) => {
            let d = unit_dir(t);
            proof {
                lemma_term_bound(c.a.x as int, d.0 as int, COORD_MAX as int, SCALE as int);
                lemma_term_bound(c.a.y as int, d.0 as int, COORD_MAX as int, SCALE as int);
                lemma_term_bound(c.a.z as int, d.0 as int, COORD_MAX as int, SCALE as int);
                lemma_term_bound(c.b.x as int, d.1 as int, COORD_MAX as int, SCALE as int);
                lemma_term_bound(c.b.y as int, d.1 as int, COORD_MAX as int, SCALE as int);
                lemma_term_bound(c.b.z as int, d.1 as int, COORD_MAX as int, SCALE as int);
                lemma_scaled_term_bound((c.a.x as int) * (d.0 as int) + (c.b.x as int) * (d.1 as int));
                lemma_scaled_term_bound((c.a.y as int) * (d.0 as int) + (c.b.y as int) * (d.1 as int));
                lemma_scaled_term_bound((c.a.z as int) * (d.0 as int) + (c.b.z as int) * (d.1 as int));
            }
            let nx: i128 = (c.a.x as i128) * (d.0 as i128) + (c.b.x as i128) * (d.1 as i128);
            let ny: i128 = (c.a.y as i128) * (d.0 as i128) + (c.b.y as i128) * (d.1 as i128);
            let nz: i128 = (c.a.z as i128) * (d.0 as i128) + (c.b.z as i128) * (d.1 as i128);
            Point3 {
                x: c.center.x + div_floor(nx, SCALE as i128) as i64,
                y: c.center.y + div_floor(ny, SCALE as i128) as i64,
                z: c.center.z + div_floor(nz, SCALE as i128) as i64,
            }
        }
    }
}

/// Evaluate a surface-local curve at a local coordinate.
pub fn path_point(p: &SurfacePath, t: i64) -> (q: Point2)
    requires
        path_wf(*p),
        path_param_ok(*p, t as int),
    ensures
        q.x == spec_path_point(*p, t as int).0,
        q.y == spec_path_point(*p, t as int).1,
    {
    match p {
        SurfacePath::Line(l) => {
            proof {
                lemma_term_bound(t as int, l.direction.x as int, PARAM_MAX as int, COORD_MAX as int);
                lemma_term_bound(t as int, l.direction.y as int, PARAM_MAX as int, COORD_MAX as int);
                lemma_scaled_term_bound((t as int) * (l.direction.x as int));
                lemma_scaled_term_bound((t as int) * (l.direction.y as int));
            }
            let dx = div_floor((t as i128) * (l.direction.x as i128), SCALE as i128);
            let dy = div_floor((t as i128) * (l.direction.y as i128), SCALE as i128);
            Point2 { x: l.origin.x + dx as i64, y: l.origin.y + dy as i64 }
        }
        SurfacePath::Circle(c) => {
            let d = unit_dir(t);
            proof {
                lemma_term_bound(c.radius.x as int, d.0 as int, COORD_MAX as int, SCALE as int);
                lemma_term_bound(c.radius.y as int, d.0 as int, COORD_MAX as int, SCALE as int);
                lemma_term_bound(-(c.radius.y as int), d.1 as int, COORD_MAX as int, SCALE as int);
                lemma_term_bound(c.radius.x as int, d.1 as int, COORD_MAX as int, SCALE as int);
                lemma_scaled_term_bound(
                    (c.radius.x as int) * (d.0 as int) + (-(c.radius.y as int)) * (d.1 as int));
                lemma_scaled_term_bound(
                    (c.radius.y as int) * (d.0 as int) + (c.radius.x as int) * (d.1 as int));
            }
            let nx: i128 = (c.radius.x as i128) * (d.0 as i128)
                + (-(c.radius.y as i128)) * (d.1 as i128);
            let ny: i128 = (c.radius.y as i128) * (d.0 as i128)
                + (c.radius.x as i128) * (d.1 as i128);
            Point2 {
                x: c.center.x + div_floor(nx, SCALE as i128) as i64,
                y: c.center.y + div_floor(ny, SCALE as i128) as i64,
            }
        }
    }
}

/// The point with the given mathematical coordinates, which must fit the
/// machine representation.
pub open spec fn point3_of(t: (int, int, int)) -> Point3 {
    Point3 { x: t.0 as i64, y: t.1 as i64, z: t.2 as i64 }
}

/// The vector with the given mathematical coordinates, which must fit the
/// machine representation.
pub open spec fn vector3_of(t: (int, int, int)) -> Vector3 {
    Vector3 { x: t.0 as i64, y: t.1 as i64, z: t.2 as i64 }
}

impl Curve {
    /// The transformed curve as a value: every point field transformed by
    /// the whole transform, every direction field by its rotation part.
    pub open spec fn spec_transformed(self, tr: Transform) -> Curve {
        match self {
            Curve::Line(l) => Curve::Line(Line {
                origin: point3_of(spec_transform_point(tr, l.origin)),
                direction: vector3_of(spec_rotate(tr, l.direction)),
            }),
            Curve::Circle(c) => Curve::Circle(Circle {
                center: point3_of(spec_transform_point(tr, c.center)),
                a: vector3_of(spec_rotate(tr, c.a)),
                b: vector3_of(spec_rotate(tr, c.b)),
            }),
        }
    }

    /// Transform the curve, producing a new curve value whose origin,
    /// centre and direction fields are transformed.
    pub fn transform(&self, tr: &Transform) -> (r: Curve)
        requires
            transform_wf(*tr),
            curve_wf(*self),
        ensures
            r == self.spec_transformed(*tr),
    {
        match self {
            Curve::Line(l) => Curve::Line(Line {
                origin: tr.transform_point(l.origin),
                direction: tr.transform_vector(l.direction),
            }),
            Curve::Circle(c) => Curve::Circle(Circle {
                center: tr.transform_point(c.center),
                a: tr.transform_vector(c.a),
                b: tr.transform_vector(c.b),
            }),
        }
    }
}

/// Tolerance bound: every point the circle parametrisation produces lies
/// within the tolerance of the true circle.
///
/// For a circle whose radius-squared has integer square root `r`, and any
/// tolerance from the engine's precision floor — nine ticks plus two
/// parts in ten million of the radius — up to the radius itself, the
/// squared distance of the evaluated point from the centre lies between
/// `(r - tol)^2` and `(r + tol)^2`: the point is within `tol` of the
/// circle.
pub proof fn lemma_circle_point_tolerance(c: Circle, t: int, tol: int)
    requires
        circle_wf(c),
        0 <= t <= FULL_TURN,
        10 <= spec_isqrt(spec_normsq3(c.a)),
        10 + 2 * (spec_isqrt(spec_normsq3(c.a)) / (SCALE as int)) <= tol
            <= spec_isqrt(spec_normsq3(c.a)),
    ensures
        ({
            let r = spec_isqrt(spec_normsq3(c.a));
            let p = spec_circle_point(c, t);
            let dx = p.0 - c.center.x;
            let dy = p.1 - c.center.y;
            let dz = p.2 - c.center.z;
            let dsq = dx * dx + dy * dy + dz * dz;
            (r - tol) * (r - tol) <= dsq <= (r + tol) * (r + tol)
        }),
{
    let d = spec_unit_dir(t);
    crate::angle::lemma_unit_dir_ring(t);
    lemma_ring_displacement_tolerance(c, d.0, d.1, tol);
    let p = spec_circle_point(c, t);
    let ss = SCALE as int;
    assert(p.0 - c.center.x == (c.a.x * d.0 + c.b.x * d.1) / ss);
    assert(p.1 - c.center.y == (c.a.y * d.0 + c.b.y * d.1) / ss);
    assert(p.2 - c.center.z == (c.a.z * d.0 + c.b.z * d.1) / ss);
}

/// The displacement a unit-ring pair produces, scaled by the radius
/// vectors and rounded to ticks, has a squared length within the
/// tolerance band around the squared radius.
proof fn lemma_ring_displacement_tolerance(c: Circle, cc: int, ss: int, tol: int)
    requires
        circle_wf(c),
        crate::angle::on_unit_ring(cc, ss),
        10 <= spec_isqrt(spec_normsq3(c.a)),
        10 + 2 * (spec_isqrt(spec_normsq3(c.a)) / (SCALE as int)) <= tol
            <= spec_isqrt(spec_normsq3(c.a)),
    ensures
        ({
            let s = SCALE as int;
            let r = spec_isqrt(spec_normsq3(c.a));
            let v1 = (c.a.x * cc + c.b.x * ss) / s;
            let v2 = (c.a.y * cc + c.b.y * ss) / s;
            let v3 = (c.a.z * cc + c.b.z * ss) / s;
            (r - tol) * (r - tol) <= v1 * v1 + v2 * v2 + v3 * v3
                <= (r + tol) * (r + tol)
        }),
{
    let s = SCALE as int;
    let rsq = spec_normsq3(c.a);
    let r = spec_isqrt(rsq);
    crate::math::lemma_isqrt_facts(rsq);
    assert(r * r <= rsq && rsq < (r + 1) * (r + 1));
    assert(rsq <= r * r + 2 * r) by (nonlinear_arith)
        requires
            rsq < (r + 1) * (r + 1),
    ;
    let a1 = c.a.x as int;
    let a2 = c.a.y as int;
    let a3 = c.a.z as int;
    let b1 = c.b.x as int;
    let b2 = c.b.y as int;
    let b3 = c.b.z as int;
    let n1 = a1 * cc + b1 * ss;
    let n2 = a2 * cc + b2 * ss;
    let n3 = a3 * cc + b3 * ss;
    // The squared norm of the un-rounded displacement is the ring norm
    // times the squared radius.
    lemma_bilinear_square(a1, b1, cc, ss);
    lemma_bilinear_square(a2, b2, cc, ss);
    lemma_bilinear_square(a3, b3, cc, ss);
    let qa = spec_normsq3(c.a);
    let qb = spec_normsq3(c.b);
    let qab = spec_dot3(c.a, c.b);
    let big = n1 * n1 + n2 * n2 + n3 * n3;
    lemma_factor3(cc * cc, a1 * a1, a2 * a2, a3 * a3);
    lemma_factor3(2 * (cc * ss), a1 * b1, a2 * b2, a3 * b3);
    lemma_factor3(ss * ss, b1 * b1, b2 * b2, b3 * b3);
    assert(2 * (cc * ss) * (a1 * b1) == 2 * cc * ss * (a1 * b1)) by (nonlinear_arith);
    assert(2 * (cc * ss) * (a2 * b2) == 2 * cc * ss * (a2 * b2)) by (nonlinear_arith);
    assert(2 * (cc * ss) * (a3 * b3) == 2 * cc * ss * (a3 * b3)) by (nonlinear_arith);
    assert(big == cc * cc * qa + 2 * (cc * ss) * qab + ss * ss * qb);
    assert(2 * (cc * ss) * qab == 0 && cc * cc * qa == cc * cc * rsq
        && ss * ss * qb == ss * ss * rsq) by (nonlinear_arith)
        requires
            qab == 0,
            qa == rsq,
            qb == rsq,
    ;
    assert(big == (cc * cc + ss * ss) * rsq) by (nonlinear_arith)
        requires
            big == cc * cc * rsq + ss * ss * rsq,
    ;
    // Bound the exact squared norm by the ring bounds.
    assert((s * s - 2 * s) * rsq <= big <= s * s * rsq) by (nonlinear_arith)
        requires
            big == (cc * cc + ss * ss) * rsq,
            s * s - 2 * s <= cc * cc + ss * ss <= s * s,
            rsq > 0,
    ;
    assert(big >= (s * s - 2 * s) * (r * r) && big <= s * s * (r * r + 2 * r))
        by (nonlinear_arith)
        requires
            (s * s - 2 * s) * rsq <= big <= s * s * rsq,
            r * r <= rsq <= r * r + 2 * r,
            s == 10_000_000,
            r >= 10,
    ;
    // Each component of the un-rounded displacement is at most `(r+1)*s`.
    let m = (r + 1) * s;
    assert(n2 * n2 >= 0 && n3 * n3 >= 0 && n1 * n1 >= 0) by (nonlinear_arith);
    assert(n1 * n1 <= m * m && n2 * n2 <= m * m && n3 * n3 <= m * m) by (nonlinear_arith)
        requires
            n1 * n1 + n2 * n2 + n3 * n3 <= s * s * (r * r + 2 * r),
            n1 * n1 >= 0,
            n2 * n2 >= 0,
            n3 * n3 >= 0,
            m == (r + 1) * s,
            s > 0,
            r >= 0,
    ;
    assert(-m <= n1 <= m && -m <= n2 <= m && -m <= n3 <= m) by (nonlinear_arith)
        requires
            n1 * n1 <= m * m,
            n2 * n2 <= m * m,
            n3 * n3 <= m * m,
            m >= 0,
    ;
    // The rounded components differ from the exact ones by less than one
    // scale unit.
    let v1 = n1 / s;
    let v2 = n2 / s;
    let v3 = n3 / s;
    vstd::arithmetic::div_mod::lemma_fundamental_div_mod(n1, s);
    vstd::arithmetic::div_mod::lemma_fundamental_div_mod(n2, s);
    vstd::arithmetic::div_mod::lemma_fundamental_div_mod(n3, s);
    vstd::arithmetic::div_mod::lemma_mod_bound(n1, s);
    vstd::arithmetic::div_mod::lemma_mod_bound(n2, s);
    vstd::arithmetic::div_mod::lemma_mod_bound(n3, s);
    let u1 = s * v1;
    let u2 = s * v2;
    let u3 = s * v3;
    lemma_round_square(n1, s, m, u1);
    lemma_round_square(n2, s, m, u2);
    lemma_round_square(n3, s, m, u3);
    let dd = v1 * v1 + v2 * v2 + v3 * v3;
    assert(u1 * u1 == s * s * (v1 * v1) && u2 * u2 == s * s * (v2 * v2)
        && u3 * u3 == s * s * (v3 * v3)) by (nonlinear_arith)
        requires
            u1 == s * v1,
            u2 == s * v2,
            u3 == s * v3,
    ;
    assert(s * s * dd == u1 * u1 + u2 * u2 + u3 * u3) by (nonlinear_arith)
        requires
            dd == v1 * v1 + v2 * v2 + v3 * v3,
            u1 * u1 == s * s * (v1 * v1),
            u2 * u2 == s * s * (v2 * v2),
            u3 * u3 == s * s * (v3 * v3),
    ;
    assert(s * s * dd >= big - 6 * (r + 1) * (s * s) - ((4 * r + 2) * s)) by (nonlinear_arith)
        requires
            s * s * dd == u1 * u1 + u2 * u2 + u3 * u3,
            u1 * u1 >= n1 * n1 - 2 * s * m,
            u2 * u2 >= n2 * n2 - 2 * s * m,
            u3 * u3 >= n3 * n3 - 2 * s * m,
            big == n1 * n1 + n2 * n2 + n3 * n3,
            m == (r + 1) * s,
            r >= 10,
            s == 10_000_000,
    ;
    assert(s * s * dd <= big + 6 * (r + 1) * (s * s) + 3 * (s * s)) by (nonlinear_arith)
        requires
            s * s * dd == u1 * u1 + u2 * u2 + u3 * u3,
            u1 * u1 <= n1 * n1 + 2 * s * m + s * s,
            u2 * u2 <= n2 * n2 + 2 * s * m + s * s,
            u3 * u3 <= n3 * n3 + 2 * s * m + s * s,
            big == n1 * n1 + n2 * n2 + n3 * n3,
            m == (r + 1) * s,
            r >= 10,
            s == 10_000_000,
    ;
    // Upper bound: the squared distance is at most `(r+4)^2`, and the
    // tolerance is at least four.
    assert(s * s * dd <= s * s * ((r + 4) * (r + 4))) by (nonlinear_arith)
        requires
            s * s * dd <= big + 6 * (r + 1) * (s * s) + 3 * (s * s),
            big <= s * s * (r * r + 2 * r),
            s >= 2,
            r >= 0,
    ;
    assert(dd <= (r + 4) * (r + 4)) by (nonlinear_arith)
        requires
            s * s * dd <= s * s * ((r + 4) * (r + 4)),
            s > 0,
    ;
    assert((r + 4) * (r + 4) <= (r + tol) * (r + tol)) by (nonlinear_arith)
        requires
            4 <= tol,
            0 <= r,
    ;
    // Lower bound: the tolerance floor absorbs the ring defect and the
    // rounding.
    let w = r / s;
    vstd::arithmetic::div_mod::lemma_fundamental_div_mod(r, s);
    vstd::arithmetic::div_mod::lemma_mod_bound(r, s);
    assert(s * w >= r - s) by (nonlinear_arith)
        requires
            r == s * w + r % s,
            0 <= r % s < s,
    ;
    assert(s * s * (r * tol) >= 10 * (s * s) * r + 2 * s * (r * r) - 2 * (s * s) * r)
        by (nonlinear_arith)
        requires
            tol >= 10 + 2 * w,
            s * w >= r - s,
            s > 0,
            r > 0,
    ;
    assert(s * s * dd >= s * s * ((r - tol) * (r - tol))) by (nonlinear_arith)
        requires
            s * s * dd >= big - 6 * (r + 1) * (s * s) - ((4 * r + 2) * s),
            big >= (s * s - 2 * s) * (r * r),
            s * s * (r * tol) >= 10 * (s * s) * r + 2 * s * (r * r) - 2 * (s * s) * r,
            tol <= r,
            s == 10_000_000,
            10 <= r,
    ;
    assert((r - tol) * (r - tol) <= dd) by (nonlinear_arith)
        requires
            s * s * ((r - tol) * (r - tol)) <= s * s * dd,
            s > 0,
    ;
}

/// The square of a two-term combination, expanded.
proof fn lemma_bilinear_square(a: int, b: int, x: int, y: int)
    ensures
        (a * x + b * y) * (a * x + b * y)
            == x * x * (a * a) + 2 * (x * y) * (a * b) + y * y * (b * b),
        (a * x + b * y) * (a * x + b * y)
            == x * x * (a * a) + 2 * x * y * (a * b) + y * y * (b * b),
{
    let p = a * x;
    let q = b * y;
    assert((p + q) * (p + q) == p * p + 2 * (p * q) + q * q) by (nonlinear_arith);
    assert(p * p == x * x * (a * a)) by (nonlinear_arith)
        requires
            p == a * x,
    ;
    assert(p * q == (x * y) * (a * b)) by (nonlinear_arith)
        requires
            p == a * x,
            q == b * y,
    ;
    assert(q * q == y * y * (b * b)) by (nonlinear_arith)
        requires
            q == b * y,
    ;
    assert(2 * (p * q) == 2 * (x * y) * (a * b)) by (nonlinear_arith)
        requires
            p * q == (x * y) * (a * b),
    ;
    assert(2 * (x * y) * (a * b) == 2 * x * y * (a * b)) by (nonlinear_arith);
}

/// A common factor distributes over a three-term sum.
proof fn lemma_factor3(k: int, p: int, q: int, w: int)
    by (nonlinear_arith)
    ensures
        k * p + k * q + k * w == k * (p + q + w),
{
}

/// Rounding down to a multiple of `s` changes a square by at most
/// `2 * s * m + s * s`, for values within `m`.
proof fn lemma_round_square(n: int, s: int, m: int, u: int)
    by (nonlinear_arith)
    requires
        0 < s,
        0 <= m,
        -m <= n <= m,
        n - s < u <= n,
    ensures
        u * u >= n * n - 2 * s * m,
        u * u <= n * n + 2 * s * m + s * s,
{
}

} // verus!
