//! The builder layer: cycles from point lists, shells from point sets,
//! and sweeps of a boundary into a solid's faces.

use vstd::prelude::*;
use crate::math::{
    Point3, Vector3, COORD_MAX, SCALE, p3_within, spec_distsq3, spec_normsq3,
};
use crate::curves::{Curve, Line, curve_wf};
use crate::surfaces::{Surface, Plane};
use crate::edges::{
    Vertex, LocalVertex, Edge, Cycle, edge_wf, spec_line_param,
    lemma_line_param_origin, lemma_line_param_tip,
};
use crate::shape::{Shape, Topology, Face, Shell, Handle, topology_wf};

verus! {

/// Why a build operation failed.
#[derive(Clone, Copy, Debug, PartialEq, Eq, Structural)]
pub enum BuildError {
    /// The requested primitive is degenerate: coincident points, collapsed
    /// directions, or coplanar corners where volume is required.
    DegenerateGeometry,
    /// A new vertex violated the minimum-distance invariant of the store.
    Validation,
    /// The operation is not defined for this combination of carriers.
    UnsupportedOperation,
}

/// A cycle under construction: its half-edges, wired incrementally before
/// the cycle is admitted into a shape.
#[derive(Clone, Debug, PartialEq, Eq)]
pub struct PartialCycle {
    pub half_edges: Vec<Edge>,
}

/// The half-edges of a closed polygon over the given corner points: one
/// line segment per consecutive pair, wrapping from the last point back to
/// the first.
pub open spec fn polygon_edge(points: Seq<Point3>, i: int) -> Edge {
    let a = points[i];
    let b = points[if i + 1 == points.len() { 0int } else { i + 1 }];
    Edge {
        curve: Curve::Line(Line {
            origin: a,
            direction: Vector3 {
                x: (b.x - a.x) as i64,
                y: (b.y - a.y) as i64,
                z: (b.z - a.z) as i64,
            },
        }),
        vertices: Some((
            LocalVertex { local: 0, point: a },
            LocalVertex { local: SCALE, point: b },
        )),
        reverse: false,
    }
}

/// The global position where a bounded edge begins.
pub open spec fn edge_start_point(e: Edge) -> Point3 {
    match e.vertices {
        Some(vs) => vs.0.point,
        None => Point3 { x: 0, y: 0, z: 0 },
    }
}

/// The global position where a bounded edge ends.
pub open spec fn edge_end_point(e: Edge) -> Point3 {
    match e.vertices {
        Some(vs) => vs.1.point,
        None => Point3 { x: 0, y: 0, z: 0 },
    }
}

/// Each half-edge ends where the next begins, and the last ends where the
/// first begins.
pub open spec fn cycle_closed(edges: Seq<Edge>) -> bool {
    forall|i: int| 0 <= i < edges.len() ==> {
        let e = #[trigger] edges[i];
        let f = edges[if i + 1 == edges.len() { 0int } else { i + 1 }];
        e.vertices is Some && f.vertices is Some
            && edge_end_point(e) == edge_start_point(f)
    }
}

impl PartialCycle {
    /// An empty cycle under construction.
    pub fn new() -> (r: PartialCycle)
        ensures
            r.half_edges@.len() == 0,
    {
        PartialCycle { half_edges: Vec::new() }
    }

    /// Add a half-edge to the cycle.
    pub fn add_half_edge(&mut self, half_edge: Edge)
        requires
            old(self).half_edges@.len() < usize::MAX,
        ensures
            final(self).half_edges@ == old(self).half_edges@.push(half_edge),
    {
        self.half_edges.push(half_edge);
    }

    /// Update the cycle as a polygon from the provided points: one
    /// line-segment half-edge per consecutive pair of points, wrapping
    /// from the last back to the first, each half-edge starting at the
    /// previous one's end.
    ///
    /// Fails with [`BuildError::DegenerateGeometry`] exactly when two
    /// consecutive points coincide.
    pub fn update_as_polygon_from_points(&mut self, points: &Vec<Point3>)
        -> (r: Result<(), BuildError>)
        requires
            old(self).half_edges@.len() == 0,
            points@.len() < usize::MAX,
            forall|i: int| 0 <= i < points@.len()
                ==> p3_within(#[trigger] points@[i], (COORD_MAX / 2) as int),
        ensures
            r is Ok <==> (forall|i: int| 0 <= i < points@.len()
                ==> #[trigger] points@[i] != points@[
                    if i + 1 == points@.len() { 0int } else { i + 1 }]),
            r is Ok ==> {
                &&& final(self).half_edges@.len() == points@.len()
                &&& forall|i: int| 0 <= i < points@.len()
                    ==> #[trigger] final(self).half_edges@[i] == polygon_edge(points@, i)
                &&& cycle_closed(final(self).half_edges@)
            },
            r is Err ==> final(self).half_edges@.len() == 0,
    {
        let n = points.len();
        let mut i: usize = 0;
        while i < n
            invariant
                n == points@.len(),
                0 <= i <= n,
                forall|j: int| 0 <= j < n
                    ==> p3_within(#[trigger] points@[j], (COORD_MAX / 2) as int),
                self.half_edges@.len() == i,
                forall|j: int| 0 <= j < i
                    ==> #[trigger] self.half_edges@[j] == polygon_edge(points@, j),
                forall|j: int| 0 <= j < i ==> #[trigger] points@[j] != points@[
                    if j + 1 == points@.len() { 0int } else { j + 1 }],
            decreases n - i,
        {
            let a = points[i];
            let b = if i + 1 == n {
                points[0]
            } else {
                points[i + 1]
            };
            if a == b {
                self.half_edges = Vec::new();
                return Err(BuildError::DegenerateGeometry);
            }
            let line = Line {
                origin: a,
                direction: Vector3 { x: b.x - a.x, y: b.y - a.y, z: b.z - a.z },
            };
            proof {
                lemma_nonzero_direction(a, b);
                lemma_line_param_origin(line);
                lemma_line_param_tip(line, b);
            }
            let edge = Edge::new(Curve::Line(line), Some((Vertex { point: a }, Vertex { point: b })));
            self.half_edges.push(edge);
            i = i + 1;
        }
        proof {
            assert forall|j: int| 0 <= j < final(self).half_edges@.len() implies {
                let e = #[trigger] final(self).half_edges@[j];
                let f = final(self).half_edges@[
                    if j + 1 == final(self).half_edges@.len() { 0int } else { j + 1 }];
                e.vertices is Some && f.vertices is Some
                    && edge_end_point(e) == edge_start_point(f)
            } by {
            }
        }
        Ok(())
    }

    /// Connect the cycle to the provided half-edges: for each, register a
    /// local equivalent that shares its start vertex with its predecessor
    /// in the sequence, wrapping at the front.
    pub fn connect_to_edges(&mut self, edges: &Vec<Edge>)
        requires
            old(self).half_edges@.len() == 0,
            edges@.len() < usize::MAX,
        ensures
            final(self).half_edges@.len() == edges@.len(),
            forall|i: int| 0 <= i < edges@.len() ==> {
                let prev = edges@[if i == 0 { edges@.len() - 1 } else { i - 1 }];
                let src = #[trigger] edges@[i];
                let out = final(self).half_edges@[i];
                &&& out.curve == src.curve
                &&& out.reverse == src.reverse
                &&& match (src.vertices, prev.vertices, out.vertices) {
                    (Some(sv), Some(pv), Some(ov)) => ov.0 == pv.0 && ov.1 == sv.1,
                    (Some(sv), None, Some(ov)) => ov == sv,
                    (None, _, None) => true,
                    _ => false,
                }
            },
    {
        let n = edges.len();
        let mut i: usize = 0;
        while i < n
            invariant
                n == edges@.len(),
                0 <= i <= n,
                self.half_edges@.len() == i,
                forall|j: int| 0 <= j < i ==> {
                    let prev = edges@[if j == 0 { edges@.len() - 1 } else { j - 1 }];
                    let src = #[trigger] edges@[j];
                    let out = self.half_edges@[j];
                    &&& out.curve == src.curve
                    &&& out.reverse == src.reverse
                    &&& match (src.vertices, prev.vertices, out.vertices) {
                        (Some(sv), Some(pv), Some(ov)) => ov.0 == pv.0 && ov.1 == sv.1,
                        (Some(sv), None, Some(ov)) => ov == sv,
                        (None, _, None) => true,
                        _ => false,
                    }
                },
            decreases n - i,
        {
            let src = edges[i];
            let prev = if i == 0 {
                edges[n - 1]
            } else {
                edges[i - 1]
            };
            let vertices = match (&src.vertices, &prev.vertices) {
                (Some(sv), Some(pv)) => Some((pv.0, sv.1)),
                (Some(sv), None) => Some((sv.0, sv.1)),
                (None, _) => None,
            };
            self.half_edges.push(Edge { curve: src.curve, vertices, reverse: src.reverse });
            i = i + 1;
        }
    }
}

/// The determinant of three vectors: six times the signed volume they
/// span. Zero exactly when the vectors are coplanar.
pub open spec fn spec_det3(u: Vector3, v: Vector3, w: Vector3) -> int {
    u.x * (v.y * w.z - v.z * w.y) - u.y * (v.x * w.z - v.z * w.x)
        + u.z * (v.x * w.y - v.y * w.x)
}

/// Compute the determinant of three in-range vectors.
fn det3(u: Vector3, v: Vector3, w: Vector3) -> (r: i128)
    requires
        crate::math::v3_within(u, COORD_MAX as int),
        crate::math::v3_within(v, COORD_MAX as int),
        crate::math::v3_within(w, COORD_MAX as int),
    ensures
        r == spec_det3(u, v, w),
{
    proof {
        lemma_det3_bounds(u, v, w);
    }
    let m0: i128 = (v.y as i128) * (w.z as i128) - (v.z as i128) * (w.y as i128);
    let m1: i128 = (v.x as i128) * (w.z as i128) - (v.z as i128) * (w.x as i128);
    let m2: i128 = (v.x as i128) * (w.y as i128) - (v.y as i128) * (w.x as i128);
    (u.x as i128) * m0 - (u.y as i128) * m1 + (u.z as i128) * m2
}

/// A product of two coordinate-bounded values stays within `10^24`.
proof fn lemma_coord_prod(a: int, b: int)
    by (nonlinear_arith)
    requires
        -1_000_000_000_000 <= a <= 1_000_000_000_000,
        -1_000_000_000_000 <= b <= 1_000_000_000_000,
    ensures
        -1_000_000_000_000_000_000_000_000int <= a * b <= 1_000_000_000_000_000_000_000_000int,
{
}

/// A coordinate times a bounded minor stays within machine range.
proof fn lemma_minor_prod(a: int, m: int)
    by (nonlinear_arith)
    requires
        -1_000_000_000_000 <= a <= 1_000_000_000_000,
        -2_000_000_000_000_000_000_000_000int <= m <= 2_000_000_000_000_000_000_000_000int,
    ensures
        -2_000_000_000_000_000_000_000_000_000_000_000_000int <= a * m
            <= 2_000_000_000_000_000_000_000_000_000_000_000_000int,
{
}

/// All intermediate products of the determinant stay within machine
/// range.
proof fn lemma_det3_bounds(u: Vector3, v: Vector3, w: Vector3)
    requires
        crate::math::v3_within(u, COORD_MAX as int),
        crate::math::v3_within(v, COORD_MAX as int),
        crate::math::v3_within(w, COORD_MAX as int),
    ensures
        -1_000_000_000_000_000_000_000_000int <= v.y * w.z <= 1_000_000_000_000_000_000_000_000int,
        -1_000_000_000_000_000_000_000_000int <= v.z * w.y <= 1_000_000_000_000_000_000_000_000int,
        -1_000_000_000_000_000_000_000_000int <= v.x * w.z <= 1_000_000_000_000_000_000_000_000int,
        -1_000_000_000_000_000_000_000_000int <= v.z * w.x <= 1_000_000_000_000_000_000_000_000int,
        -1_000_000_000_000_000_000_000_000int <= v.x * w.y <= 1_000_000_000_000_000_000_000_000int,
        -1_000_000_000_000_000_000_000_000int <= v.y * w.x <= 1_000_000_000_000_000_000_000_000int,
        -2_000_000_000_000_000_000_000_000_000_000_000_000int
            <= u.x * (v.y * w.z - v.z * w.y) <= 2_000_000_000_000_000_000_000_000_000_000_000_000int,
        -2_000_000_000_000_000_000_000_000_000_000_000_000int
            <= u.y * (v.x * w.z - v.z * w.x) <= 2_000_000_000_000_000_000_000_000_000_000_000_000int,
        -2_000_000_000_000_000_000_000_000_000_000_000_000int
            <= u.z * (v.x * w.y - v.y * w.x) <= 2_000_000_000_000_000_000_000_000_000_000_000_000int,
{
    lemma_coord_prod(v.y as int, w.z as int);
    lemma_coord_prod(v.z as int, w.y as int);
    lemma_coord_prod(v.x as int, w.z as int);
    lemma_coord_prod(v.z as int, w.x as int);
    lemma_coord_prod(v.x as int, w.y as int);
    lemma_coord_prod(v.y as int, w.x as int);
    lemma_minor_prod(u.x as int, v.y * w.z - v.z * w.y);
    lemma_minor_prod(u.y as int, v.x * w.z - v.z * w.x);
    lemma_minor_prod(u.z as int, v.x * w.y - v.y * w.x);
}

/// The difference vector from `a` to `b`.
pub open spec fn diff3(a: Point3, b: Point3) -> Vector3 {
    Vector3 { x: (b.x - a.x) as i64, y: (b.y - a.y) as i64, z: (b.z - a.z) as i64 }
}

/// Whether an edge handle occurs in a face's boundary.
pub open spec fn edge_in_face(f: Face, e: Handle) -> bool {
    exists|i: int| 0 <= i < f.edges@.len() && f.edges@[i] == e
}

/// In how many of the given faces an edge handle occurs.
pub open spec fn shared_count(faces: Seq<Face>, e: Handle) -> int
    decreases faces.len(),
{
    if faces.len() == 0 {
        0
    } else {
        shared_count(faces.drop_last(), e) + if edge_in_face(faces.last(), e) {
            1int
        } else {
            0int
        }
    }
}

/// The count over four faces, unfolded.
proof fn lemma_shared_count4(fs: Seq<Face>, e: Handle)
    requires
        fs.len() == 4,
    ensures
        shared_count(fs, e) == (if edge_in_face(fs[0], e) { 1int } else { 0int })
            + (if edge_in_face(fs[1], e) { 1int } else { 0int })
            + (if edge_in_face(fs[2], e) { 1int } else { 0int })
            + (if edge_in_face(fs[3], e) { 1int } else { 0int }),
{
    let s3 = fs.drop_last();
    let s2 = s3.drop_last();
    let s1 = s2.drop_last();
    let s0 = s1.drop_last();
    assert(s0.len() == 0);
    assert(shared_count(s0, e) == 0);
    assert(s1.last() == fs[0] && s2.last() == fs[1] && s3.last() == fs[2] && fs.last() == fs[3]);
    assert(shared_count(fs, e) == shared_count(s3, e)
        + if edge_in_face(fs[3], e) { 1int } else { 0int });
    assert(shared_count(s3, e) == shared_count(s2, e)
        + if edge_in_face(fs[2], e) { 1int } else { 0int });
    assert(shared_count(s2, e) == shared_count(s1, e)
        + if edge_in_face(fs[1], e) { 1int } else { 0int });
    assert(shared_count(s1, e) == shared_count(s0, e)
        + if edge_in_face(fs[0], e) { 1int } else { 0int });
}

/// The four given points are far enough apart, and far enough from every
/// stored vertex, to be inserted under the minimum-distance rule.
pub open spec fn corners_insertable(t: Topology, a: Point3, b: Point3, c: Point3, d: Point3)
    -> bool {
    let md = t.min_distance as int;
    &&& (forall|i: int, p: Point3| 0 <= i < t.vertices@.len()
        && (p == a || p == b || p == c || p == d)
        ==> #[trigger] spec_distsq3(t.vertices@[i].point, p) >= md * md)
    &&& spec_distsq3(a, b) >= md * md
    &&& spec_distsq3(a, c) >= md * md
    &&& spec_distsq3(a, d) >= md * md
    &&& spec_distsq3(b, c) >= md * md
    &&& spec_distsq3(b, d) >= md * md
    &&& spec_distsq3(c, d) >= md * md
}

/// Builder API for shells.
pub struct ShellBuilder {}

impl ShellBuilder {
    /// Create a tetrahedron from the provided points.
    ///
    /// Four vertices, six edges and four triangular faces are added to
    /// the store. Each of the six edges is constructed exactly once and
    /// reused by handle in both faces it bounds, preserving the
    /// shared-edge invariant: every edge of the shell is shared by
    /// exactly two of its four faces.
    ///
    /// Fails with [`BuildError::DegenerateGeometry`] when the four points
    /// are coplanar, and with [`BuildError::Validation`] when two of them
    /// — or a point and a stored vertex — are closer than the minimum
    /// distance.
    pub fn tetrahedron(points: (Point3, Point3, Point3, Point3), topology: &mut Topology)
        -> (r: Result<Shell, BuildError>)
        requires
            topology_wf(*old(topology)),
            p3_within(points.0, (COORD_MAX / 2) as int),
            p3_within(points.1, (COORD_MAX / 2) as int),
            p3_within(points.2, (COORD_MAX / 2) as int),
            p3_within(points.3, (COORD_MAX / 2) as int),
            old(topology).vertices@.len() + 4 < usize::MAX,
            old(topology).edges@.len() + 6 < usize::MAX,
            old(topology).faces@.len() + 4 < usize::MAX,
        ensures
            topology_wf(*final(topology)),
            ({
                let (a, b, c, d) = points;
                let degenerate = spec_det3(diff3(a, b), diff3(a, c), diff3(a, d)) == 0;
                &&& (r is Ok <==> !degenerate && corners_insertable(*old(topology), a, b, c, d))
                &&& (degenerate <==> r == Err::<Shell, BuildError>(BuildError::DegenerateGeometry))
                &&& r is Err ==> *final(topology) == *old(topology)
            }),
            r is Ok ==> ({
                let (a, b, c, d) = points;
                let t0 = *old(topology);
                let tf = *final(topology);
                let e0 = t0.edges@.len() as int;
                let f0 = t0.faces@.len() as int;
                let shell = r->Ok_0;
                &&& tf.vertices@ == t0.vertices@
                    + seq![Vertex { point: a }, Vertex { point: b }, Vertex { point: c },
                        Vertex { point: d }]
                &&& tf.edges@.len() == e0 + 6
                &&& forall|k: int| e0 <= k < e0 + 6 ==> edge_wf(#[trigger] tf.edges@[k])
                &&& edge_runs(tf.edges@[e0], a, b)
                &&& edge_runs(tf.edges@[e0 + 1], b, c)
                &&& edge_runs(tf.edges@[e0 + 2], c, a)
                &&& edge_runs(tf.edges@[e0 + 3], b, d)
                &&& edge_runs(tf.edges@[e0 + 4], d, a)
                &&& edge_runs(tf.edges@[e0 + 5], d, c)
                &&& tf.faces@.len() == f0 + 4
                &&& face_edges_are(tf.faces@[f0], e0, e0 + 1, e0 + 2)
                &&& face_edges_are(tf.faces@[f0 + 1], e0, e0 + 3, e0 + 4)
                &&& face_edges_are(tf.faces@[f0 + 2], e0 + 2, e0 + 4, e0 + 5)
                &&& face_edges_are(tf.faces@[f0 + 3], e0 + 1, e0 + 5, e0 + 3)
                &&& shell.faces@.len() == 4
                &&& shell.faces@[0] as int == f0 && shell.faces@[1] as int == f0 + 1
                    && shell.faces@[2] as int == f0 + 2 && shell.faces@[3] as int == f0 + 3
                &&& forall|e: Handle| e0 <= e < e0 + 6
                    ==> #[trigger] shared_count(tf.faces@.subrange(f0, f0 + 4), e) == 2
            }),
    {
        let (a, b, c, d) = points;
        let det = det3(
            Vector3 { x: b.x - a.x, y: b.y - a.y, z: b.z - a.z },
            Vector3 { x: c.x - a.x, y: c.y - a.y, z: c.z - a.z },
            Vector3 { x: d.x - a.x, y: d.y - a.y, z: d.z - a.z },
        );
        if det == 0 {
            return Err(BuildError::DegenerateGeometry);
        }
        if !corners_far_enough(topology, a, b, c, d) {
            return Err(BuildError::Validation);
        }
        let ra = topology.add_vertex(a);
        proof {
            crate::shape::lemma_distsq_symmetric(a, b);
            crate::shape::lemma_distsq_symmetric(a, c);
            crate::shape::lemma_distsq_symmetric(a, d);
            crate::shape::lemma_distsq_symmetric(b, c);
            crate::shape::lemma_distsq_symmetric(b, d);
            crate::shape::lemma_distsq_symmetric(c, d);
        }
        let rb = topology.add_vertex(b);
        let rc = topology.add_vertex(c);
        let rd = topology.add_vertex(d);
        proof {
            assert(ra is Ok && rb is Ok && rc is Ok && rd is Ok);
            let md = old(topology).min_distance as int;
            assert(md * md >= 1) by (nonlinear_arith)
                requires
                    md >= 1,
            ;
            lemma_distinct_corner(a, b, md);
            lemma_distinct_corner(a, c, md);
            lemma_distinct_corner(a, d, md);
            lemma_distinct_corner(b, c, md);
            lemma_distinct_corner(b, d, md);
            lemma_distinct_corner(c, d, md);
        }
        let e_ab = topology.add_edge(segment(a, b));
        let e_bc = topology.add_edge(segment(b, c));
        let e_ca = topology.add_edge(segment(c, a));
        let e_bd = topology.add_edge(segment(b, d));
        let e_da = topology.add_edge(segment(d, a));
        let e_dc = topology.add_edge(segment(d, c));
        let base = topology.add_face(Face {
            surface: triangle_plane(a, b, c),
            edges: vec![e_ab, e_bc, e_ca],
        });
        let side_a = topology.add_face(Face {
            surface: triangle_plane(a, b, d),
            edges: vec![e_ab, e_bd, e_da],
        });
        let side_b = topology.add_face(Face {
            surface: triangle_plane(c, a, d),
            edges: vec![e_ca, e_da, e_dc],
        });
        let side_c = topology.add_face(Face {
            surface: triangle_plane(b, c, d),
            edges: vec![e_bc, e_dc, e_bd],
        });
        let shell = Shell { faces: vec![base, side_a, side_b, side_c] };
        proof {
            let t0 = *old(topology);
            let tf = *final(topology);
            let e0 = t0.edges@.len();
            let f0 = t0.faces@.len();
            assert(tf.vertices@ =~= t0.vertices@
                + seq![Vertex { point: a }, Vertex { point: b }, Vertex { point: c },
                    Vertex { point: d }]);
            let e0i = t0.edges@.len() as int;
            let f0i = t0.faces@.len() as int;
            let fs = tf.faces@.subrange(f0i, f0i + 4);
            assert(fs.len() == 4);
            assert(fs[0] == tf.faces@[f0i] && fs[1] == tf.faces@[f0i + 1]
                && fs[2] == tf.faces@[f0i + 2] && fs[3] == tf.faces@[f0i + 3]);
            assert forall|e: Handle| e0i <= e < e0i + 6 implies
                #[trigger] shared_count(fs, e) == 2 by {
                lemma_shared_count4(fs, e);
                lemma_face_membership(fs[0], e0i, e0i + 1, e0i + 2, e);
                lemma_face_membership(fs[1], e0i, e0i + 3, e0i + 4, e);
                lemma_face_membership(fs[2], e0i + 2, e0i + 4, e0i + 5, e);
                lemma_face_membership(fs[3], e0i + 1, e0i + 5, e0i + 3, e);
            }
        }
        Ok(shell)
    }
}

/// A face whose boundary is exactly the three given edge handles.
pub open spec fn face_edges_are(f: Face, x: int, y: int, z: int) -> bool {
    &&& f.edges@.len() == 3
    &&& f.edges@[0] as int == x
    &&& f.edges@[1] as int == y
    &&& f.edges@[2] as int == z
}

/// Membership of a handle in a three-edge face is membership in the
/// triple.
proof fn lemma_face_membership(f: Face, x: int, y: int, z: int, e: Handle)
    requires
        face_edges_are(f, x, y, z),
    ensures
        edge_in_face(f, e) <==> (e as int == x || e as int == y || e as int == z),
{
    if e as int == x {
        assert(f.edges@[0] == e);
    } else if e as int == y {
        assert(f.edges@[1] == e);
    } else if e as int == z {
        assert(f.edges@[2] == e);
    }
}

/// An edge that runs on the line from `a` to `b`, bounded by them.
pub open spec fn edge_runs(e: Edge, a: Point3, b: Point3) -> bool {
    &&& e.curve == Curve::Line(Line { origin: a, direction: diff3(a, b) })
    &&& e.vertices is Some
    &&& edge_start_point(e) == a
    &&& edge_end_point(e) == b
    &&& e.reverse == false
}

/// Build the line-segment edge from `a` to `b`.
fn segment(a: Point3, b: Point3) -> (r: Edge)
    requires
        p3_within(a, (COORD_MAX / 2) as int),
        p3_within(b, (COORD_MAX / 2) as int),
        a != b,
    ensures
        edge_runs(r, a, b),
        edge_wf(r),
{
    let line = Line {
        origin: a,
        direction: Vector3 { x: b.x - a.x, y: b.y - a.y, z: b.z - a.z },
    };
    proof {
        lemma_nonzero_direction(a, b);
        lemma_line_param_origin(line);
        lemma_line_param_tip(line, b);
    }
    Edge::new(Curve::Line(line), Some((Vertex { point: a }, Vertex { point: b })))
}

/// The carrier plane of a triangle: its first corner with the two edge
/// directions as basis. The basis directions are generally not unit
/// vectors; the plane is the exact span of the triangle's corners.
fn triangle_plane(a: Point3, b: Point3, c: Point3) -> (r: Surface)
    requires
        p3_within(a, (COORD_MAX / 2) as int),
        p3_within(b, (COORD_MAX / 2) as int),
        p3_within(c, (COORD_MAX / 2) as int),
    ensures
        r == Surface::Plane(Plane { origin: a, u: diff3(a, b), v: diff3(a, c) }),
{
    Surface::Plane(Plane {
        origin: a,
        u: Vector3 { x: b.x - a.x, y: b.y - a.y, z: b.z - a.z },
        v: Vector3 { x: c.x - a.x, y: c.y - a.y, z: c.z - a.z },
    })
}

/// Check the corners of a tetrahedron against the store's minimum
/// distance: pairwise, and against every stored vertex.
fn corners_far_enough(topology: &Topology, a: Point3, b: Point3, c: Point3, d: Point3)
    -> (r: bool)
    requires
        topology_wf(*topology),
        p3_within(a, COORD_MAX as int),
        p3_within(b, COORD_MAX as int),
        p3_within(c, COORD_MAX as int),
        p3_within(d, COORD_MAX as int),
    ensures
        r == corners_insertable(*topology, a, b, c, d),
{
    let md = topology.min_distance;
    let ghost mdsq = (md as int) * (md as int);
    proof {
        assert((md as int) * (md as int) <= (COORD_MAX as int) * (COORD_MAX as int))
            by (nonlinear_arith)
            requires
                0 < md <= COORD_MAX,
        ;
    }
    let mdsq_e: i128 = (md as i128) * (md as i128);
    if crate::math::distsq3(a, b) < mdsq_e || crate::math::distsq3(a, c) < mdsq_e
        || crate::math::distsq3(a, d) < mdsq_e || crate::math::distsq3(b, c) < mdsq_e
        || crate::math::distsq3(b, d) < mdsq_e || crate::math::distsq3(c, d) < mdsq_e {
        return false;
    }
    let n = topology.vertices.len();
    let mut i: usize = 0;
    while i < n
        invariant
            topology_wf(*topology),
            n == topology.vertices@.len(),
            0 <= i <= n,
            md == topology.min_distance,
            mdsq == (md as int) * (md as int),
            mdsq_e == mdsq,
            p3_within(a, COORD_MAX as int),
            p3_within(b, COORD_MAX as int),
            p3_within(c, COORD_MAX as int),
            p3_within(d, COORD_MAX as int),
            forall|j: int, p: Point3| 0 <= j < i && (p == a || p == b || p == c || p == d)
                ==> #[trigger] spec_distsq3(topology.vertices@[j].point, p) >= mdsq,
        decreases n - i,
    {
        let v = topology.vertices[i].point;
        if crate::math::distsq3(v, a) < mdsq_e || crate::math::distsq3(v, b) < mdsq_e
            || crate::math::distsq3(v, c) < mdsq_e || crate::math::distsq3(v, d) < mdsq_e {
            return false;
        }
        i = i + 1;
    }
    true
}

/// Points at least the minimum distance apart are distinct.
proof fn lemma_distinct_corner(a: Point3, b: Point3, md: int)
    requires
        spec_distsq3(a, b) >= md * md,
        md * md >= 1,
    ensures
        a != b,
{
    if a == b {
        assert((a.x - b.x) * (a.x - b.x) == 0) by (nonlinear_arith)
            requires
                a.x == b.x,
        ;
        assert((a.y - b.y) * (a.y - b.y) == 0) by (nonlinear_arith)
            requires
                a.y == b.y,
        ;
        assert((a.z - b.z) * (a.z - b.z) == 0) by (nonlinear_arith)
            requires
                a.z == b.z,
        ;
        assert(spec_distsq3(a, b) == 0);
    }
}

/// Two distinct points give a segment with a direction of positive
/// length.
proof fn lemma_nonzero_direction(a: Point3, b: Point3)
    by (nonlinear_arith)
    requires
        a != b,
        p3_within(a, COORD_MAX as int),
        p3_within(b, COORD_MAX as int),
    ensures
        spec_normsq3(Vector3 {
            x: (b.x - a.x) as i64,
            y: (b.y - a.y) as i64,
            z: (b.z - a.z) as i64,
        }) > 0,
{
}

} // verus!
