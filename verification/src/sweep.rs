//! Sweeping a planar boundary along an extrusion vector.
//!
//! The sweep produces the bottom face — the original boundary, reversed in
//! orientation — the top face — the boundary translated along the path —
//! and one side face per boundary edge. A bounded edge is swept into a
//! quad: its own segment, a riser at each end, and the translated segment
//! back. An edge connected to itself — a full circle — is swept into a
//! closed tube with no seam: two cycles, the original edge and its
//! translated copy, with no synthetic corner vertices.

use vstd::prelude::*;
use crate::math::{
    Point3, Vector3, SCALE, COORD_MAX, p3_within, v3_within, spec_normsq3,
};
use crate::curves::{Curve, Line, Circle, curve_wf};
use crate::surfaces::{Surface, Plane};
use crate::edges::{LocalVertex, Edge, Cycle};
use crate::builder::{BuildError, cycle_closed, edge_start_point, edge_end_point, diff3};

verus! {

/// A face produced by a sweep: its carrier surface — absent where no
/// supported surface variant describes it, as for the wall of a swept
/// closed curve — and its bounding cycles.
#[derive(Clone, Debug, PartialEq, Eq)]
pub struct Face {
    pub surface: Option<Surface>,
    pub cycles: Vec<Cycle>,
}

/// What a sweep accepts of a boundary edge: a well-formed curve within
/// half the coordinate range, and bounding vertices — if any — within
/// half the range, distinct, with in-range curve coordinates.
pub open spec fn sweep_edge_ok(e: Edge) -> bool {
    &&& curve_wf(e.curve)
    &&& match e.curve {
        Curve::Line(l) => p3_within(l.origin, (COORD_MAX / 2) as int)
            && v3_within(l.direction, (COORD_MAX / 2) as int),
        Curve::Circle(c) => p3_within(c.center, (COORD_MAX / 2) as int)
            && v3_within(c.a, (COORD_MAX / 2) as int)
            && v3_within(c.b, (COORD_MAX / 2) as int),
    }
    &&& match e.vertices {
        Some(vs) => {
            &&& p3_within(vs.0.point, (COORD_MAX / 2) as int)
            &&& p3_within(vs.1.point, (COORD_MAX / 2) as int)
            &&& vs.0.point != vs.1.point
        },
        None => true,
    }
}

/// The point `p` translated by `path`.
pub open spec fn shifted(p: Point3, path: Vector3) -> Point3 {
    Point3 { x: (p.x + path.x) as i64, y: (p.y + path.y) as i64, z: (p.z + path.z) as i64 }
}

/// The edge translated by `path`: every position field is shifted, the
/// directions, curve coordinates and orientation are kept.
pub open spec fn spec_translated_edge(e: Edge, path: Vector3) -> Edge {
    Edge {
        curve: match e.curve {
            Curve::Line(l) => Curve::Line(Line {
                origin: shifted(l.origin, path),
                direction: l.direction,
            }),
            Curve::Circle(c) => Curve::Circle(Circle {
                center: shifted(c.center, path),
                a: c.a,
                b: c.b,
            }),
        },
        vertices: match e.vertices {
            Some(vs) => Some((
                LocalVertex { local: vs.0.local, point: shifted(vs.0.point, path) },
                LocalVertex { local: vs.1.local, point: shifted(vs.1.point, path) },
            )),
            None => None,
        },
        reverse: e.reverse,
    }
}

/// The line segment from `a` to `b` as an edge: curve coordinate zero at
/// `a`, one scale unit at `b`.
pub open spec fn spec_segment(a: Point3, b: Point3) -> Edge {
    Edge {
        curve: Curve::Line(Line { origin: a, direction: diff3(a, b) }),
        vertices: Some((
            LocalVertex { local: 0, point: a },
            LocalVertex { local: SCALE, point: b },
        )),
        reverse: false,
    }
}

/// The edge with its orientation flag flipped.
pub open spec fn spec_reversed_edge(e: Edge) -> Edge {
    Edge { curve: e.curve, vertices: e.vertices, reverse: !e.reverse }
}

/// What the side face of one boundary edge looks like.
pub open spec fn side_face_ok(f: Face, e: Edge, path: Vector3) -> bool {
    match e.vertices {
        None => {
            &&& f.surface is None
            &&& f.cycles@.len() == 2
            &&& f.cycles@[0].edges@ =~= seq![e]
            &&& f.cycles@[1].edges@ =~= seq![spec_translated_edge(e, path)]
        },
        Some(vs) => {
            &&& f.surface == (match e.curve {
                Curve::Line(l) => Some(Surface::Plane(Plane {
                    origin: l.origin, u: l.direction, v: path })),
                Curve::Circle(_) => None,
            })
            &&& f.cycles@.len() == 1
            &&& f.cycles@[0].edges@.len() == 4
            &&& f.cycles@[0].edges@[0] == e
            &&& f.cycles@[0].edges@[1] == spec_segment(vs.1.point, shifted(vs.1.point, path))
            &&& f.cycles@[0].edges@[2] == spec_segment(
                shifted(vs.1.point, path), shifted(vs.0.point, path))
            &&& f.cycles@[0].edges@[3] == spec_segment(shifted(vs.0.point, path), vs.0.point)
            &&& cycle_closed(f.cycles@[0].edges@)
        },
    }
}

/// Sweep a boundary cycle along an extrusion path.
///
/// Produces the bottom face — the boundary with every edge reversed — the
/// top face — the boundary translated along the path — and one side face
/// per boundary edge, a quad wall for a bounded edge and a two-cycle tube
/// for a self-connected one.
///
/// Fails with [`BuildError::UnsupportedOperation`] exactly when a
/// boundary edge is a circle bounded by vertices: no supported surface
/// variant describes the wall such an edge sweeps.
pub fn sweep(boundary: &Cycle, surface: &Surface, path: Vector3)
    -> (r: Result<Vec<Face>, BuildError>)
    requires
        forall|i: int| 0 <= i < boundary.edges@.len()
            ==> sweep_edge_ok(#[trigger] boundary.edges@[i]),
        v3_within(path, (COORD_MAX / 2) as int),
        spec_normsq3(path) > 0,
        match *surface {
            Surface::Plane(pl) => p3_within(pl.origin, (COORD_MAX / 2) as int),
        },
        boundary.edges@.len() + 2 < usize::MAX,
    ensures
        r is Ok <==> (forall|i: int| 0 <= i < boundary.edges@.len()
            ==> !((#[trigger] boundary.edges@[i]).vertices is Some
                && boundary.edges@[i].curve is Circle)),
        r is Ok ==> ({
            let faces = r->Ok_0@;
            let es = boundary.edges@;
            &&& faces.len() == 2 + es.len()
            &&& faces[0].surface == Some(*surface)
            &&& faces[0].cycles@.len() == 1
            &&& faces[0].cycles@[0].edges@.len() == es.len()
            &&& forall|i: int| 0 <= i < es.len()
                ==> faces[0].cycles@[0].edges@[i] == spec_reversed_edge(#[trigger] es[i])
            &&& faces[1].surface == (match *surface {
                Surface::Plane(pl) => Some(Surface::Plane(Plane {
                    origin: shifted(pl.origin, path), u: pl.u, v: pl.v })),
            })
            &&& faces[1].cycles@.len() == 1
            &&& faces[1].cycles@[0].edges@.len() == es.len()
            &&& forall|i: int| 0 <= i < es.len()
                ==> faces[1].cycles@[0].edges@[i] == spec_translated_edge(#[trigger] es[i], path)
            &&& forall|i: int| 0 <= i < es.len()
                ==> side_face_ok(faces[2 + i], #[trigger] es[i], path)
        }),
{
    let n = boundary.edges.len();
    let mut i: usize = 0;
    while i < n
        invariant
            n == boundary.edges@.len(),
            0 <= i <= n,
            forall|j: int| 0 <= j < n ==> sweep_edge_ok(#[trigger] boundary.edges@[j]),
            forall|j: int| 0 <= j < i
                ==> !((#[trigger] boundary.edges@[j]).vertices is Some
                    && boundary.edges@[j].curve is Circle),
        decreases n - i,
    {
        let e = &boundary.edges[i];
        if e.vertices.is_some() {
            match &e.curve {
                Curve::Circle(_) => {
                    return Err(BuildError::UnsupportedOperation);
                }
                Curve::Line(_) => {}
            }
        }
        i = i + 1;
    }
    let mut bottom_edges: Vec<Edge> = Vec::new();
    let mut top_edges: Vec<Edge> = Vec::new();
    let mut side_faces: Vec<Face> = Vec::new();
    let mut k: usize = 0;
    while k < n
        invariant
            n == boundary.edges@.len(),
            0 <= k <= n,
            v3_within(path, (COORD_MAX / 2) as int),
            spec_normsq3(path) > 0,
            forall|j: int| 0 <= j < n ==> sweep_edge_ok(#[trigger] boundary.edges@[j]),
            forall|j: int| 0 <= j < n
                ==> !((#[trigger] boundary.edges@[j]).vertices is Some
                    && boundary.edges@[j].curve is Circle),
            bottom_edges@.len() == k,
            top_edges@.len() == k,
            side_faces@.len() == k,
            forall|j: int| 0 <= j < k
                ==> bottom_edges@[j] == spec_reversed_edge(#[trigger] boundary.edges@[j]),
            forall|j: int| 0 <= j < k
                ==> top_edges@[j] == spec_translated_edge(#[trigger] boundary.edges@[j], path),
            forall|j: int| 0 <= j < k
                ==> side_face_ok(side_faces@[j], #[trigger] boundary.edges@[j], path),
        decreases n - k,
    {
        let e = boundary.edges[k];
        bottom_edges.push(Edge { curve: e.curve, vertices: e.vertices, reverse: !e.reverse });
        let shifted_e = translate_edge(&e, path);
        top_edges.push(shifted_e);
        match &e.vertices {
            None => {
                side_faces.push(Face {
                    surface: None,
                    cycles: vec![
                        Cycle { edges: vec![e] },
                        Cycle { edges: vec![translate_edge(&e, path)] },
                    ],
                });
            }
            Some(vs) => {
                let l = match &e.curve {
                    Curve::Line(l) => *l,
                    Curve::Circle(_) => {
                        proof {
                            assert(false);
                        }
                        Line {
                            origin: Point3 { x: 0, y: 0, z: 0 },
                            direction: Vector3 { x: SCALE, y: 0, z: 0 },
                        }
                    }
                };
                let v0 = vs.0.point;
                let v1 = vs.1.point;
                let v0p = Point3 { x: v0.x + path.x, y: v0.y + path.y, z: v0.z + path.z };
                let v1p = Point3 { x: v1.x + path.x, y: v1.y + path.y, z: v1.z + path.z };
                proof {
                    lemma_shift_moves(v0, path);
                    lemma_shift_moves(v1, path);
                }
                let q1 = make_segment(v1, v1p);
                let q2 = make_segment(v1p, v0p);
                let q3 = make_segment(v0p, v0);
                let wall = vec![e, q1, q2, q3];
                proof {
                    assert(cycle_closed(wall@)) by {
                        assert forall|j: int| 0 <= j < wall@.len() implies {
                            let a = #[trigger] wall@[j];
                            let b = wall@[if j + 1 == wall@.len() { 0int } else { j + 1 }];
                            a.vertices is Some && b.vertices is Some
                                && edge_end_point(a) == edge_start_point(b)
                        } by {
                        }
                    }
                }
                side_faces.push(Face {
                    surface: Some(Surface::Plane(Plane {
                        origin: l.origin, u: l.direction, v: path })),
                    cycles: vec![Cycle { edges: wall }],
                });
            }
        }
        k = k + 1;
    }
    let bottom = Face {
        surface: Some(match surface {
            Surface::Plane(pl) => Surface::Plane(*pl),
        }),
        cycles: vec![Cycle { edges: bottom_edges }],
    };
    let top = Face {
        surface: Some(match surface {
            Surface::Plane(pl) => Surface::Plane(Plane {
                origin: Point3 {
                    x: pl.origin.x + path.x,
                    y: pl.origin.y + path.y,
                    z: pl.origin.z + path.z,
                },
                u: pl.u,
                v: pl.v,
            }),
        }),
        cycles: vec![Cycle { edges: top_edges }],
    };
    let mut faces: Vec<Face> = Vec::new();
    faces.push(bottom);
    faces.push(top);
    let mut s = side_faces;
    faces.append(&mut s);
    Ok(faces)
}

/// Translate an edge along a vector, keeping directions, curve
/// coordinates and orientation.
fn translate_edge(e: &Edge, path: Vector3) -> (r: Edge)
    requires
        sweep_edge_ok(*e),
        v3_within(path, (COORD_MAX / 2) as int),
    ensures
        r == spec_translated_edge(*e, path),
{
    let curve = match &e.curve {
        Curve::Line(l) => Curve::Line(Line {
            origin: Point3 {
                x: l.origin.x + path.x,
                y: l.origin.y + path.y,
                z: l.origin.z + path.z,
            },
            direction: l.direction,
        }),
        Curve::Circle(c) => Curve::Circle(Circle {
            center: Point3 {
                x: c.center.x + path.x,
                y: c.center.y + path.y,
                z: c.center.z + path.z,
            },
            a: c.a,
            b: c.b,
        }),
    };
    let vertices = match &e.vertices {
        Some(vs) => Some((
            LocalVertex {
                local: vs.0.local,
                point: Point3 {
                    x: vs.0.point.x + path.x,
                    y: vs.0.point.y + path.y,
                    z: vs.0.point.z + path.z,
                },
            },
            LocalVertex {
                local: vs.1.local,
                point: Point3 {
                    x: vs.1.point.x + path.x,
                    y: vs.1.point.y + path.y,
                    z: vs.1.point.z + path.z,
                },
            },
        )),
        None => None,
    };
    Edge { curve, vertices, reverse: e.reverse }
}

/// Build the segment edge between two distinct in-range points.
fn make_segment(a: Point3, b: Point3) -> (r: Edge)
    requires
        p3_within(a, COORD_MAX as int),
        p3_within(b, COORD_MAX as int),
        a != b,
    ensures
        r == spec_segment(a, b),
{
    proof {
        lemma_points_differ(a, b);
    }
    Edge {
        curve: Curve::Line(Line {
            origin: a,
            direction: Vector3 { x: b.x - a.x, y: b.y - a.y, z: b.z - a.z },
        }),
        vertices: Some((
            LocalVertex { local: 0, point: a },
            LocalVertex { local: SCALE, point: b },
        )),
        reverse: false,
    }
}

/// Distinct points differ in some coordinate.
proof fn lemma_points_differ(a: Point3, b: Point3)
    requires
        a != b,
    ensures
        a.x != b.x || a.y != b.y || a.z != b.z,
{
}

/// Translating by a path of positive length moves every point.
proof fn lemma_shift_moves(p: Point3, path: Vector3)
    requires
        spec_normsq3(path) > 0,
        p3_within(p, (COORD_MAX / 2) as int),
        v3_within(path, (COORD_MAX / 2) as int),
    ensures
        p != (Point3 { x: (p.x + path.x) as i64, y: (p.y + path.y) as i64,
            z: (p.z + path.z) as i64 }),
        (Point3 { x: (p.x + path.x) as i64, y: (p.y + path.y) as i64,
            z: (p.z + path.z) as i64 }) != p,
{
    if path.x == 0 && path.y == 0 && path.z == 0 {
        assert(path.x * path.x == 0) by (nonlinear_arith)
            requires
                path.x == 0,
        ;
        assert(path.y * path.y == 0) by (nonlinear_arith)
            requires
                path.y == 0,
        ;
        assert(path.z * path.z == 0) by (nonlinear_arith)
            requires
                path.z == 0,
        ;
        assert(spec_normsq3(path) == 0);
    }
}

} // verus!
