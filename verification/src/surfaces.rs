//! Surface carriers: planes, with both directions of the local–global
//! coordinate conversion.
//!
//! A plane carries an origin and two basis directions `u` and `v`. The
//! basis directions are orthogonal unit vectors (in ticks), so that the
//! conversion from surface coordinates to model coordinates and the scalar
//! projections back are inverse to each other.

use vstd::prelude::*;
use crate::math::{
    Point2, Point3, Vector2, Vector3, Transform, SCALE, EPSILON, COORD_MAX,
    p3_within, p2_within, v2_within, v3_within, spec_dot3, spec_normsq3, spec_cross3,
    spec_transform_point, spec_rotate, transform_wf, div_floor, dot3, cross3,
    lemma_dot3_bound,
};

verus! {

/// A point was not incident to the surface it was projected onto: its
/// distance exceeds the incidence epsilon.
#[derive(Clone, Copy, Debug, PartialEq, Eq, Structural)]
pub struct IncidenceError;

/// A plane: an origin point and two basis directions spanning it.
///
/// The basis directions must be orthogonal unit vectors, so that surface
/// coordinates measure model-space distance along them.
#[derive(Clone, Copy, Debug, PartialEq, Eq, Structural)]
pub struct Plane {
    /// The point of the plane at surface coordinates `(0, 0)`.
    pub origin: Point3,
    /// First basis direction of the surface coordinate system.
    pub u: Vector3,
    /// Second basis direction of the surface coordinate system.
    pub v: Vector3,
}

/// A surface carrier.
#[derive(Clone, Copy, Debug, PartialEq, Eq, Structural)]
pub enum Surface {
    /// A plane
    Plane(Plane),
}

/// A well-formed plane: in-range origin, orthogonal unit basis.
pub open spec fn plane_wf(p: Plane) -> bool {
    &&& p3_within(p.origin, COORD_MAX as int)
    &&& spec_normsq3(p.u) == (SCALE as int) * (SCALE as int)
    &&& spec_normsq3(p.v) == (SCALE as int) * (SCALE as int)
    &&& spec_dot3(p.u, p.v) == 0
}

pub open spec fn surface_wf(s: Surface) -> bool {
    match s {
        Surface::Plane(p) => plane_wf(p),
    }
}

/// A point is incident to the plane when the dot product of the plane
/// normal with the offset from the origin is at most the incidence epsilon
/// times the squared basis length — exactly: distance times the normal
/// length is at most epsilon times the normal length.
pub open spec fn plane_incident(pl: Plane, p: Point3) -> bool {
    let n = spec_cross3(pl.u, pl.v);
    let dx = p.x - pl.origin.x;
    let dy = p.y - pl.origin.y;
    let dz = p.z - pl.origin.z;
    let nd = n.0 * dx + n.1 * dy + n.2 * dz;
    -(EPSILON as int) * (SCALE as int) * (SCALE as int) <= nd
        <= (EPSILON as int) * (SCALE as int) * (SCALE as int)
}

/// Scalar projections of a point onto the plane's basis directions, in
/// surface coordinates.
pub open spec fn plane_project(pl: Plane, p: Point3) -> (int, int) {
    let d = Vector3 { x: (p.x - pl.origin.x) as i64, y: (p.y - pl.origin.y) as i64,
        z: (p.z - pl.origin.z) as i64 };
    (spec_dot3(d, pl.u) / (SCALE as int), spec_dot3(d, pl.v) / (SCALE as int))
}

/// The model-space point of the plane at surface coordinates `q`.
pub open spec fn plane_point(pl: Plane, q: Point2) -> (int, int, int) {
    (
        pl.origin.x + (q.x * pl.u.x + q.y * pl.v.x) / (SCALE as int),
        pl.origin.y + (q.x * pl.u.y + q.y * pl.v.y) / (SCALE as int),
        pl.origin.z + (q.x * pl.u.z + q.y * pl.v.z) / (SCALE as int),
    )
}

/// The model-space vector for a surface-coordinate vector `w`.
pub open spec fn plane_vector(pl: Plane, w: Vector2) -> (int, int, int) {
    (
        (w.x * pl.u.x + w.y * pl.v.x) / (SCALE as int),
        (w.x * pl.u.y + w.y * pl.v.y) / (SCALE as int),
        (w.x * pl.u.z + w.y * pl.v.z) / (SCALE as int),
    )
}

/// A combination `a * u + b * v` of two bounded coordinates scaled down by
/// [`SCALE`] stays within twice the coordinate bound.
proof fn lemma_comb_bound(n: int)
    requires
        -2 * (COORD_MAX as int) * (SCALE as int) <= n <= 2 * (COORD_MAX as int) * (SCALE as int),
    ensures
        -2 * (COORD_MAX as int) <= n / (SCALE as int) <= 2 * (COORD_MAX as int),
{
    vstd::arithmetic::div_mod::lemma_div_is_ordered(
        n, 2 * (COORD_MAX as int) * (SCALE as int), SCALE as int);
    vstd::arithmetic::div_mod::lemma_div_is_ordered(
        -2 * (COORD_MAX as int) * (SCALE as int), n, SCALE as int);
    assert(2 * (COORD_MAX as int) * (SCALE as int) == (SCALE as int) * (2 * COORD_MAX as int))
        by (nonlinear_arith);
    vstd::arithmetic::div_mod::lemma_div_multiples_vanish(2 * COORD_MAX as int, SCALE as int);
    assert(-2 * (COORD_MAX as int) * (SCALE as int) == (SCALE as int) * (-2 * COORD_MAX as int))
        by (nonlinear_arith);
    vstd::arithmetic::div_mod::lemma_div_multiples_vanish(-2 * (COORD_MAX as int), SCALE as int);
}

/// A product of values bounded by `m1` and `m2` in magnitude.
proof fn lemma_pair_bound(a: int, b: int, m1: int, m2: int)
    by (nonlinear_arith)
    requires
        -m1 <= a <= m1,
        -m2 <= b <= m2,
        0 <= m1,
        0 <= m2,
    ensures
        -(m1 * m2) <= a * b <= m1 * m2,
{
}

impl Plane {
    /// Convert a point in surface coordinates to model coordinates.
    pub fn point_surface_to_model(&self, q: Point2) -> (r: Point3)
        requires
            plane_wf(*self),
            p2_within(q, COORD_MAX as int),
        ensures
            r.x == plane_point(*self, q).0,
            r.y == plane_point(*self, q).1,
            r.z == plane_point(*self, q).2,
            p3_within(r, 3 * COORD_MAX as int),
    {
        let w = self.vector_surface_to_model(Vector2 { x: q.x, y: q.y });
        Point3 { x: self.origin.x + w.x, y: self.origin.y + w.y, z: self.origin.z + w.z }
    }

    /// Convert a vector in surface coordinates to model coordinates.
    pub fn vector_surface_to_model(&self, w: Vector2) -> (r: Vector3)
        requires
            plane_wf(*self),
            v2_within(w, COORD_MAX as int),
        ensures
            r.x == plane_vector(*self, w).0,
            r.y == plane_vector(*self, w).1,
            r.z == plane_vector(*self, w).2,
            v3_within(r, 2 * COORD_MAX as int),
    {
        proof {
            lemma_unit_component_bound(*self);
            lemma_pair_bound(w.x as int, self.u.x as int, COORD_MAX as int, SCALE as int);
            lemma_pair_bound(w.x as int, self.u.y as int, COORD_MAX as int, SCALE as int);
            lemma_pair_bound(w.x as int, self.u.z as int, COORD_MAX as int, SCALE as int);
            lemma_pair_bound(w.y as int, self.v.x as int, COORD_MAX as int, SCALE as int);
            lemma_pair_bound(w.y as int, self.v.y as int, COORD_MAX as int, SCALE as int);
            lemma_pair_bound(w.y as int, self.v.z as int, COORD_MAX as int, SCALE as int);
            lemma_comb_bound((w.x as int) * (self.u.x as int) + (w.y as int) * (self.v.x as int));
            lemma_comb_bound((w.x as int) * (self.u.y as int) + (w.y as int) * (self.v.y as int));
            lemma_comb_bound((w.x as int) * (self.u.z as int) + (w.y as int) * (self.v.z as int));
        }
        let nx: i128 = (w.x as i128) * (self.u.x as i128) + (w.y as i128) * (self.v.x as i128);
        let ny: i128 = (w.x as i128) * (self.u.y as i128) + (w.y as i128) * (self.v.y as i128);
        let nz: i128 = (w.x as i128) * (self.u.z as i128) + (w.y as i128) * (self.v.z as i128);
        Vector3 {
            x: div_floor(nx, SCALE as i128) as i64,
            y: div_floor(ny, SCALE as i128) as i64,
            z: div_floor(nz, SCALE as i128) as i64,
        }
    }

    /// Convert a point in model coordinates to surface coordinates.
    ///
    /// Fails with [`IncidenceError`] exactly when the point is not within
    /// the incidence epsilon of the plane; otherwise returns the scalar
    /// projections onto the plane's two basis directions.
    pub fn point_model_to_surface(&self, p: Point3) -> (r: Result<Point2, IncidenceError>)
        requires
            plane_wf(*self),
            p3_within(p, COORD_MAX as int),
        ensures
            r is Ok <==> plane_incident(*self, p),
            r is Ok ==> {
                let q = r->Ok_0;
                q.x == plane_project(*self, p).0 && q.y == plane_project(*self, p).1
            },
    {
        proof {
            lemma_unit_component_bound(*self);
        }
        let n = cross3(self.u, self.v);
        let d = p.sub(self.origin);
        proof {
            lemma_pair_bound(self.u.y as int, self.v.z as int, SCALE as int, SCALE as int);
            lemma_pair_bound(self.u.z as int, self.v.y as int, SCALE as int, SCALE as int);
            lemma_pair_bound(self.u.z as int, self.v.x as int, SCALE as int, SCALE as int);
            lemma_pair_bound(self.u.x as int, self.v.z as int, SCALE as int, SCALE as int);
            lemma_pair_bound(self.u.x as int, self.v.y as int, SCALE as int, SCALE as int);
            lemma_pair_bound(self.u.y as int, self.v.x as int, SCALE as int, SCALE as int);
        }
        let nd = dot3(n, d);
        let bound: i128 = 1_000_000_000_000_000;
        proof {
            assert((EPSILON as int) * (SCALE as int) * (SCALE as int) == 1_000_000_000_000_000int)
                by (nonlinear_arith);
        }
        if nd > bound || nd < -bound {
            Err(IncidenceError)
        } else {
            proof {
                lemma_dot3_bound(d, self.u, 2 * COORD_MAX as int, SCALE as int);
                lemma_dot3_bound(d, self.v, 2 * COORD_MAX as int, SCALE as int);
                assert(3 * ((2 * COORD_MAX as int) * (SCALE as int))
                    == (SCALE as int) * (6 * COORD_MAX as int)) by (nonlinear_arith);
                lemma_proj_bound(spec_dot3(d, self.u));
                lemma_proj_bound(spec_dot3(d, self.v));
            }
            let s = div_floor(dot3(d, self.u), SCALE as i128);
            let t = div_floor(dot3(d, self.v), SCALE as i128);
            Ok(Point2 { x: s as i64, y: t as i64 })
        }
    }

    /// Transform the plane, producing a new plane whose origin and basis
    /// directions are transformed.
    pub fn transform(&self, tr: &Transform) -> (r: Plane)
        requires
            transform_wf(*tr),
            p3_within(self.origin, COORD_MAX as int),
            v3_within(self.u, COORD_MAX as int),
            v3_within(self.v, COORD_MAX as int),
        ensures
            (r.origin.x as int, r.origin.y as int, r.origin.z as int)
                == spec_transform_point(*tr, self.origin),
            (r.u.x as int, r.u.y as int, r.u.z as int) == spec_rotate(*tr, self.u),
            (r.v.x as int, r.v.y as int, r.v.z as int) == spec_rotate(*tr, self.v),
    {
        Plane {
            origin: tr.transform_point(self.origin),
            u: tr.transform_vector(self.u),
            v: tr.transform_vector(self.v),
        }
    }
}

/// Components of a unit basis vector are within [`SCALE`].
proof fn lemma_unit_component_bound(p: Plane)
    requires
        spec_normsq3(p.u) == (SCALE as int) * (SCALE as int),
        spec_normsq3(p.v) == (SCALE as int) * (SCALE as int),
    ensures
        v3_within(p.u, SCALE as int),
        v3_within(p.v, SCALE as int),
{
    lemma_comp_in_norm(p.u);
    lemma_comp_in_norm(p.v);
}

/// Each component of a vector is bounded by the norm.
proof fn lemma_comp_in_norm(v: Vector3)
    by (nonlinear_arith)
    requires
        spec_normsq3(v) == (SCALE as int) * (SCALE as int),
    ensures
        v3_within(v, SCALE as int),
{
}

/// The quotient of a projection numerator by the scale stays in range.
proof fn lemma_proj_bound(n: int)
    requires
        -(SCALE as int) * (6 * COORD_MAX as int) <= n <= (SCALE as int) * (6 * COORD_MAX as int),
    ensures
        -6 * (COORD_MAX as int) <= n / (SCALE as int) <= 6 * (COORD_MAX as int),
{
    vstd::arithmetic::div_mod::lemma_div_is_ordered(
        n, (SCALE as int) * (6 * COORD_MAX as int), SCALE as int);
    vstd::arithmetic::div_mod::lemma_div_is_ordered(
        -(SCALE as int) * (6 * COORD_MAX as int), n, SCALE as int);
    vstd::arithmetic::div_mod::lemma_div_multiples_vanish(6 * COORD_MAX as int, SCALE as int);
    assert(-(SCALE as int) * (6 * COORD_MAX as int) == (SCALE as int) * (-6 * COORD_MAX as int))
        by (nonlinear_arith);
    vstd::arithmetic::div_mod::lemma_div_multiples_vanish(-6 * COORD_MAX as int, SCALE as int);
}

impl Surface {
    /// The plane spanned by the x and y axes, with the model origin as its
    /// origin.
    pub fn x_y_plane() -> (r: Surface)
        ensures
            r == Surface::Plane(Plane {
                origin: Point3 { x: 0, y: 0, z: 0 },
                u: Vector3 { x: SCALE, y: 0, z: 0 },
                v: Vector3 { x: 0, y: SCALE, z: 0 },
            }),
            surface_wf(r),
    {
        let s = Surface::Plane(Plane {
            origin: Point3 { x: 0, y: 0, z: 0 },
            u: Vector3 { x: SCALE, y: 0, z: 0 },
            v: Vector3 { x: 0, y: SCALE, z: 0 },
        });
        proof {
            assert((SCALE as int) * (SCALE as int) + 0 * 0 + 0 * 0
                == (SCALE as int) * (SCALE as int)) by (nonlinear_arith);
        }
        s
    }

    /// Transform the surface, producing a new surface value.
    pub fn transform(&self, tr: &Transform) -> (r: Surface)
        requires
            transform_wf(*tr),
            match *self {
                Surface::Plane(p) => p3_within(p.origin, COORD_MAX as int)
                    && v3_within(p.u, COORD_MAX as int) && v3_within(p.v, COORD_MAX as int),
            },
        ensures
            match (*self, r) {
                (Surface::Plane(p), Surface::Plane(p2)) => {
                    &&& (p2.origin.x as int, p2.origin.y as int, p2.origin.z as int)
                        == spec_transform_point(*tr, p.origin)
                    &&& (p2.u.x as int, p2.u.y as int, p2.u.z as int) == spec_rotate(*tr, p.u)
                    &&& (p2.v.x as int, p2.v.y as int, p2.v.z as int) == spec_rotate(*tr, p.v)
                },
            },
    {
        match self {
            Surface::Plane(p) => Surface::Plane(p.transform(tr)),
        }
    }

    /// Convert a point in model coordinates to surface coordinates.
    ///
    /// Returns an error if the provided point is not in the surface.
    pub fn point_model_to_surface(&self, p: Point3) -> (r: Result<Point2, IncidenceError>)
        requires
            surface_wf(*self),
            p3_within(p, COORD_MAX as int),
        ensures
            match *self {
                Surface::Plane(pl) => {
                    &&& r is Ok <==> plane_incident(pl, p)
                    &&& r is Ok ==> r->Ok_0.x == plane_project(pl, p).0
                        && r->Ok_0.y == plane_project(pl, p).1
                },
            },
    {
        match self {
            Surface::Plane(pl) => pl.point_model_to_surface(p),
        }
    }

    /// Convert a point in surface coordinates to model coordinates.
    pub fn point_surface_to_model(&self, q: Point2) -> (r: Point3)
        requires
            surface_wf(*self),
            p2_within(q, COORD_MAX as int),
        ensures
            match *self {
                Surface::Plane(pl) => r.x == plane_point(pl, q).0 && r.y == plane_point(pl, q).1
                    && r.z == plane_point(pl, q).2,
            },
            p3_within(r, 3 * COORD_MAX as int),
    {
        match self {
            Surface::Plane(pl) => pl.point_surface_to_model(q),
        }
    }

    /// Convert a vector in surface coordinates to model coordinates.
    pub fn vector_surface_to_model(&self, w: Vector2) -> (r: Vector3)
        requires
            surface_wf(*self),
            v2_within(w, COORD_MAX as int),
        ensures
            match *self {
                Surface::Plane(pl) => r.x == plane_vector(pl, w).0
                    && r.y == plane_vector(pl, w).1 && r.z == plane_vector(pl, w).2,
            },
            v3_within(r, 2 * COORD_MAX as int),
    {
        match self {
            Surface::Plane(pl) => pl.vector_surface_to_model(w),
        }
    }
}

} // verus!
