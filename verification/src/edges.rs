//! Edges, cycles and edge collections of a shape.
//!
//! An edge owns its curve carrier and, unless it is connected to itself
//! like a full circle, a pair of bounding vertices expressed in curve-local
//! coordinates, each keeping its exact global position. Transforming an
//! edge produces a new edge value; nothing is mutated in place.

use vstd::prelude::*;
use crate::math::{
    Point3, Vector3, Transform, SCALE, FULL_TURN, COORD_MAX,
    p3_within, v3_within, spec_dot3, spec_normsq3, spec_transform_point, spec_rotate,
    transform_wf, div_floor, dot3,
};
use crate::curves::{
    Curve, Line, Circle, curve_wf, line_wf, circle_wf, PARAM_MAX,
};
use crate::approximation::{
    ApproxPoint1, Tolerance, RangeOnCurve, tolerance_wf, approx_global_path,
    spec_global_points,
};

verus! {

/// A vertex of a shape: a position in the global model space.
#[derive(Clone, Copy, Debug, PartialEq, Eq, Structural)]
pub struct Vertex {
    pub point: Point3,
}

impl Vertex {
    /// Create a vertex at the given position.
    pub fn create_at(point: Point3) -> (r: Vertex)
        ensures
            r == (Vertex { point }),
    {
        Vertex { point }
    }
}

/// A bounding vertex of an edge: its coordinate on the edge's curve, and
/// its exact position in the global model space.
#[derive(Clone, Copy, Debug, PartialEq, Eq, Structural)]
pub struct LocalVertex {
    pub local: i64,
    pub point: Point3,
}

/// An edge of a shape.
#[derive(Clone, Copy, Debug, PartialEq, Eq)]
pub struct Edge {
    /// The curve that defines the edge's geometry.
    pub curve: Curve,
    /// The vertices bounding the edge on the curve. `None` means the edge
    /// is connected to itself, like a full circle.
    pub vertices: Option<(LocalVertex, LocalVertex)>,
    /// Whether the curve's direction is reversed for this edge.
    pub reverse: bool,
}

/// A cycle of connected edges. The end of each edge must connect to the
/// beginning of the next, and the end of the last to the beginning of the
/// first.
#[derive(Clone, Debug, PartialEq, Eq)]
pub struct Cycle {
    pub edges: Vec<Edge>,
}

/// The edges of a shape, as the cycles they form. Cycles must not overlap.
#[derive(Clone, Debug, PartialEq, Eq)]
pub struct Edges {
    pub cycles: Vec<Cycle>,
}

/// The curve coordinate of the projection of a point onto a line, in
/// parameter ticks.
pub open spec fn spec_line_param(l: Line, p: Point3) -> int {
    let d = Vector3 {
        x: (p.x - l.origin.x) as i64,
        y: (p.y - l.origin.y) as i64,
        z: (p.z - l.origin.z) as i64,
    };
    (spec_dot3(d, l.direction) * (SCALE as int)) / spec_normsq3(l.direction)
}

/// A well-formed edge: its curve is well-formed; bounded edges run on a
/// line, with in-range vertex positions and parameters.
pub open spec fn edge_wf(e: Edge) -> bool {
    &&& curve_wf(e.curve)
    &&& match e.vertices {
        Some(vs) => {
            &&& e.curve is Line
            &&& p3_within(vs.0.point, COORD_MAX as int)
            &&& p3_within(vs.1.point, COORD_MAX as int)
            &&& -PARAM_MAX <= vs.0.local <= PARAM_MAX
            &&& -PARAM_MAX <= vs.1.local <= PARAM_MAX
        },
        None => true,
    }
}

/// The projection of a line's origin onto the line is parameter zero.
pub proof fn lemma_line_param_origin(l: Line)
    requires
        line_wf(l),
    ensures
        spec_line_param(l, l.origin) == 0,
{
    let d = Vector3 { x: 0, y: 0, z: 0 };
    assert(spec_dot3(d, l.direction) == 0);
    assert(spec_dot3(d, l.direction) * (SCALE as int) == 0);
    vstd::arithmetic::div_mod::lemma_div_of0(spec_normsq3(l.direction));
}

/// The projection of the point one direction-length along a line is one
/// scale unit of parameter.
pub proof fn lemma_line_param_tip(l: Line, p: Point3)
    requires
        line_wf(l),
        p.x == l.origin.x + l.direction.x,
        p.y == l.origin.y + l.direction.y,
        p.z == l.origin.z + l.direction.z,
    ensures
        spec_line_param(l, p) == SCALE,
{
    let d = Vector3 {
        x: (p.x - l.origin.x) as i64,
        y: (p.y - l.origin.y) as i64,
        z: (p.z - l.origin.z) as i64,
    };
    assert(d == l.direction);
    let nsq = spec_normsq3(l.direction);
    assert(spec_dot3(l.direction, l.direction) == nsq);
    assert(nsq * (SCALE as int) == (SCALE as int) * nsq) by (nonlinear_arith);
    vstd::arithmetic::div_mod::lemma_div_multiples_vanish(SCALE as int, nsq);
    assert((nsq * (SCALE as int)) / nsq == SCALE);
}

/// Compute the curve coordinate of a point's projection onto a line.
fn line_param(l: &Line, p: Point3) -> (t: i64)
    requires
        line_wf(*l),
        p3_within(p, COORD_MAX as int),
        -PARAM_MAX <= spec_line_param(*l, p) <= PARAM_MAX,
    ensures
        t == spec_line_param(*l, p),
{
    let d = p.sub(l.origin);
    let num = dot3(d, l.direction);
    let nsq = dot3(l.direction, l.direction);
    proof {
        crate::math::lemma_dot3_bound(d, l.direction, 2 * COORD_MAX as int, COORD_MAX as int);
        crate::math::lemma_dot3_bound(
            l.direction, l.direction, COORD_MAX as int, COORD_MAX as int);
        assert(3 * ((2 * COORD_MAX as int) * (COORD_MAX as int)) * (SCALE as int)
            < 1_000_000_000_000_000_000_000_000_000_000_000_000int) by (nonlinear_arith);
        assert(spec_dot3(d, l.direction) * (SCALE as int)
            <= 3 * ((2 * COORD_MAX as int) * (COORD_MAX as int)) * (SCALE as int)
            && -(3 * ((2 * COORD_MAX as int) * (COORD_MAX as int)) * (SCALE as int))
            <= spec_dot3(d, l.direction) * (SCALE as int)) by (nonlinear_arith)
            requires
                -3 * ((2 * COORD_MAX as int) * (COORD_MAX as int))
                    <= spec_dot3(d, l.direction)
                    <= 3 * ((2 * COORD_MAX as int) * (COORD_MAX as int)),
        ;
        assert(3 * ((COORD_MAX as int) * (COORD_MAX as int))
            < 1_000_000_000_000_000_000_000_000_000int) by (nonlinear_arith);
        assert(spec_normsq3(l.direction) > 0);
    }
    let t = div_floor(num * (SCALE as i128), nsq);
    t as i64
}

impl Edge {
    /// Construct an edge.
    ///
    /// If vertices are provided, they must be on the curve — a line — and
    /// their projections onto it must be in parameter range. The vertices
    /// are converted into curve coordinates; their exact global positions
    /// are kept.
    pub fn new(curve: Curve, vertices: Option<(Vertex, Vertex)>) -> (r: Edge)
        requires
            curve_wf(curve),
            match vertices {
                Some(vs) => {
                    &&& curve is Line
                    &&& p3_within(vs.0.point, COORD_MAX as int)
                    &&& p3_within(vs.1.point, COORD_MAX as int)
                    &&& -PARAM_MAX <= spec_line_param(curve->Line_0, vs.0.point) <= PARAM_MAX
                    &&& -PARAM_MAX <= spec_line_param(curve->Line_0, vs.1.point) <= PARAM_MAX
                },
                None => true,
            },
        ensures
            r.curve == curve,
            r.reverse == false,
            edge_wf(r),
            match (vertices, r.vertices) {
                (None, None) => true,
                (Some(vs), Some(ls)) => {
                    &&& ls.0.point == vs.0.point
                    &&& ls.1.point == vs.1.point
                    &&& ls.0.local == spec_line_param(curve->Line_0, vs.0.point)
                    &&& ls.1.local == spec_line_param(curve->Line_0, vs.1.point)
                },
                _ => false,
            },
    {
        match vertices {
            None => Edge { curve, vertices: None, reverse: false },
            Some((a, b)) => {
                let l = match &curve {
                    Curve::Line(l) => *l,
                    Curve::Circle(_) => {
                        proof {
                            assert(false);
                        }
                        Line {
                            origin: Point3 { x: 0, y: 0, z: 0 },
                            direction: Vector3 { x: SCALE, y: 0, z: 0 },
                        }
                    }
                };
                let ta = line_param(&l, a.point);
                let tb = line_param(&l, b.point);
                Edge {
                    curve,
                    vertices: Some((
                        LocalVertex { local: ta, point: a.point },
                        LocalVertex { local: tb, point: b.point },
                    )),
                    reverse: false,
                }
            }
        }
    }

    /// Construct an edge by sweeping a vertex along a path.
    ///
    /// The new edge runs on the line from the vertex along the path; its
    /// second bounding vertex is created at the far end.
    pub fn sweep_vertex(vertex: Vertex, path: Vector3) -> (r: Edge)
        requires
            p3_within(vertex.point, COORD_MAX as int),
            v3_within(path, COORD_MAX as int),
            spec_normsq3(path) > 0,
            p3_within(Point3 {
                x: (vertex.point.x + path.x) as i64,
                y: (vertex.point.y + path.y) as i64,
                z: (vertex.point.z + path.z) as i64,
            }, COORD_MAX as int),
        ensures
            r.curve == Curve::Line(Line { origin: vertex.point, direction: path }),
            r.reverse == false,
            edge_wf(r),
            match r.vertices {
                Some(ls) => {
                    &&& ls.0.local == 0 && ls.0.point == vertex.point
                    &&& ls.1.local == SCALE
                    &&& ls.1.point == (Point3 {
                        x: (vertex.point.x + path.x) as i64,
                        y: (vertex.point.y + path.y) as i64,
                        z: (vertex.point.z + path.z) as i64,
                    })
                },
                None => false,
            },
    {
        let line = Line { origin: vertex.point, direction: path };
        let a = vertex;
        let b = Vertex::create_at(Point3 {
            x: vertex.point.x + path.x,
            y: vertex.point.y + path.y,
            z: vertex.point.z + path.z,
        });
        proof {
            lemma_line_param_origin(line);
            lemma_line_param_tip(line, b.point);
        }
        Edge::new(Curve::Line(line), Some((a, b)))
    }

    /// Create a full circle of the given radius around the origin, in the
    /// plane of the x and y axes. The edge is connected to itself: it has
    /// no bounding vertices.
    pub fn circle(radius: i64) -> (r: Edge)
        requires
            0 < radius <= COORD_MAX,
        ensures
            r.curve == Curve::Circle(Circle {
                center: Point3 { x: 0, y: 0, z: 0 },
                a: Vector3 { x: radius, y: 0, z: 0 },
                b: Vector3 { x: 0, y: radius, z: 0 },
            }),
            r.vertices is None,
            r.reverse == false,
            edge_wf(r),
    {
        let c = Circle {
            center: Point3 { x: 0, y: 0, z: 0 },
            a: Vector3 { x: radius, y: 0, z: 0 },
            b: Vector3 { x: 0, y: radius, z: 0 },
        };
        proof {
            assert(spec_dot3(c.a, c.b) == 0 && spec_normsq3(c.a) == spec_normsq3(c.b)
                && spec_normsq3(c.a) > 0) by (nonlinear_arith)
                requires
                    c.a == (Vector3 { x: radius, y: 0, z: 0 }),
                    c.b == (Vector3 { x: 0, y: radius, z: 0 }),
                    0 < radius,
            ;
        }
        Edge { curve: Curve::Circle(c), vertices: None, reverse: false }
    }

    /// Reverse the edge.
    pub fn reverse(&mut self)
        ensures
            final(self).curve == old(self).curve,
            final(self).vertices == old(self).vertices,
            final(self).reverse == !old(self).reverse,
    {
        self.reverse = !self.reverse;
    }

    /// Approximate the edge: the curve's range approximation, with the
    /// edge's own exact start vertex inserted in front. The sampler's
    /// approximation of the boundary is never used — the vertex position
    /// is taken as it is stored.
    pub fn approx(&self, tol: Tolerance) -> (v: Vec<ApproxPoint1>)
        requires
            edge_wf(*self),
            tolerance_wf(tol),
        ensures
            ({
                let pts = spec_global_points(self.curve, 0, FULL_TURN as int, tol.ticks as int);
                match self.vertices {
                    None => v@ == pts,
                    Some(vs) => v@ == seq![
                        ApproxPoint1 { local: vs.0.local, global: vs.0.point }].add(pts),
                }
            }),
    {
        let range = RangeOnCurve { start: 0, end: FULL_TURN };
        let points = approx_global_path(&self.curve, range, tol);
        match &self.vertices {
            None => points,
            Some(vs) => {
                let mut v: Vec<ApproxPoint1> = Vec::new();
                v.push(ApproxPoint1 { local: vs.0.local, global: vs.0.point });
                let mut rest = points;
                v.append(&mut rest);
                proof {
                    assert(v@ =~= seq![
                        ApproxPoint1 { local: vs.0.local, global: vs.0.point }].add(
                        spec_global_points(self.curve, 0, FULL_TURN as int, tol.ticks as int)));
                }
                v
            }
        }
    }

    /// Transform the edge, producing a new edge value: the curve is
    /// transformed, the bounding vertices keep their curve coordinates and
    /// have their global positions transformed.
    pub fn transform(self, tr: &Transform) -> (r: Edge)
        requires
            edge_wf(self),
            transform_wf(*tr),
        ensures
            r.curve == self.curve.spec_transformed(*tr),
            r.reverse == self.reverse,
            match (self.vertices, r.vertices) {
                (None, None) => true,
                (Some(vs), Some(rs)) => {
                    &&& rs.0.local == vs.0.local
                    &&& rs.1.local == vs.1.local
                    &&& (rs.0.point.x as int, rs.0.point.y as int, rs.0.point.z as int)
                        == spec_transform_point(*tr, vs.0.point)
                    &&& (rs.1.point.x as int, rs.1.point.y as int, rs.1.point.z as int)
                        == spec_transform_point(*tr, vs.1.point)
                },
                _ => false,
            },
    {
        let curve = self.curve.transform(tr);
        let vertices = match &self.vertices {
            None => None,
            Some(vs) => Some((
                LocalVertex { local: vs.0.local, point: tr.transform_point(vs.0.point) },
                LocalVertex { local: vs.1.local, point: tr.transform_point(vs.1.point) },
            )),
        };
        Edge { curve, vertices, reverse: self.reverse }
    }
}

impl Edges {
    /// Construct a new instance with the given edges forming one single
    /// cycle.
    pub fn single_cycle(edges: Vec<Edge>) -> (r: Edges)
        ensures
            r.cycles@.len() == 1,
            r.cycles@[0].edges@ == edges@,
    {
        let cycle = Cycle { edges };
        Edges { cycles: vec![cycle] }
    }

    /// Transform the edges, producing a new value with every edge of every
    /// cycle transformed.
    pub fn transform(self, tr: &Transform) -> (r: Edges)
        requires
            transform_wf(*tr),
            forall|i: int, j: int| 0 <= i < self.cycles@.len()
                && 0 <= j < (#[trigger] self.cycles@[i]).edges@.len()
                ==> edge_wf(#[trigger] self.cycles@[i].edges@[j]),
        ensures
            r.cycles@.len() == self.cycles@.len(),
            forall|i: int| 0 <= i < self.cycles@.len()
                ==> (#[trigger] r.cycles@[i]).edges@.len() == self.cycles@[i].edges@.len(),
            forall|i: int, j: int| 0 <= i < self.cycles@.len()
                && 0 <= j < (#[trigger] self.cycles@[i]).edges@.len()
                ==> (#[trigger] r.cycles@[i].edges@[j]).curve
                    == self.cycles@[i].edges@[j].curve.spec_transformed(*tr)
                    && r.cycles@[i].edges@[j].reverse == self.cycles@[i].edges@[j].reverse,
    {
        let mut cycles: Vec<Cycle> = Vec::new();
        let n = self.cycles.len();
        let mut i: usize = 0;
        while i < n
            invariant
                n == self.cycles@.len(),
                0 <= i <= n,
                transform_wf(*tr),
                forall|a: int, b: int| 0 <= a < n
                    && 0 <= b < (#[trigger] self.cycles@[a]).edges@.len()
                    ==> edge_wf(#[trigger] self.cycles@[a].edges@[b]),
                cycles@.len() == i,
                forall|a: int| 0 <= a < i
                    ==> (#[trigger] cycles@[a]).edges@.len() == self.cycles@[a].edges@.len(),
                forall|a: int, b: int| 0 <= a < i
                    && 0 <= b < (#[trigger] self.cycles@[a]).edges@.len()
                    ==> (#[trigger] cycles@[a].edges@[b]).curve
                        == self.cycles@[a].edges@[b].curve.spec_transformed(*tr)
                        && cycles@[a].edges@[b].reverse == self.cycles@[a].edges@[b].reverse,
            decreases n - i,
        {
            let cycle = &self.cycles[i];
            let mut edges: Vec<Edge> = Vec::new();
            let m = cycle.edges.len();
            let mut j: usize = 0;
            while j < m
                invariant
                    0 <= i < n,
                    n == self.cycles@.len(),
                    *cycle == self.cycles@[i as int],
                    m == self.cycles@[i as int].edges@.len(),
                    0 <= j <= m,
                    transform_wf(*tr),
                    forall|b: int| 0 <= b < m
                        ==> edge_wf(#[trigger] self.cycles@[i as int].edges@[b]),
                    edges@.len() == j,
                    forall|b: int| 0 <= b < j
                        ==> (#[trigger] edges@[b]).curve
                            == self.cycles@[i as int].edges@[b].curve.spec_transformed(*tr)
                            && edges@[b].reverse == self.cycles@[i as int].edges@[b].reverse,
                decreases m - j,
            {
                let e = cycle.edges[j];
                edges.push(e.transform(tr));
                j = j + 1;
            }
            cycles.push(Cycle { edges });
            i = i + 1;
        }
        Edges { cycles }
    }
}

} // verus!
