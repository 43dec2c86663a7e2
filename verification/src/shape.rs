//! The boundary-representation store of a shape.
//!
//! The store is the single owner of all geometric and topological
//! entities. Entities refer to each other by handle — an index into the
//! owning arena — never by duplication. Vertex insertion enforces the
//! minimum-distance invariant: a new vertex closer than the shape's
//! minimum distance to a stored one is rejected, so near-duplicate
//! vertices can never corrupt downstream edge and cycle matching.

use vstd::prelude::*;
use crate::math::{Point3, COORD_MAX, DEFAULT_MIN_DISTANCE, p3_within, spec_distsq3, distsq3};
use crate::curves::Curve;
use crate::surfaces::Surface;
use crate::edges::{Vertex, Edge};

verus! {

/// A new vertex violated the minimum-distance-uniqueness invariant
/// against the vertices already stored.
#[derive(Clone, Copy, Debug, PartialEq, Eq, Structural)]
pub struct ValidationError;

/// A handle: a stable index into one of the store's arenas.
pub type Handle = usize;

/// A face of the store: its surface carrier and the boundary cycle of
/// edge handles.
#[derive(Clone, Debug, PartialEq, Eq)]
pub struct Face {
    pub surface: Surface,
    pub edges: Vec<Handle>,
}

/// A shell: a set of faces, by handle.
#[derive(Clone, Debug, PartialEq, Eq)]
pub struct Shell {
    pub faces: Vec<Handle>,
}

/// The geometric carriers of a shape.
#[derive(Clone, Debug, PartialEq, Eq)]
pub struct Geometry {
    pub points: Vec<Point3>,
    pub curves: Vec<Curve>,
    pub surfaces: Vec<Surface>,
}

/// The topological entities of a shape.
#[derive(Clone, Debug, PartialEq, Eq)]
pub struct Topology {
    /// The minimum distance between two vertices, in ticks.
    pub min_distance: i64,
    pub vertices: Vec<Vertex>,
    pub edges: Vec<Edge>,
    pub faces: Vec<Face>,
}

/// Every stored vertex is in coordinate range, and any two stored
/// vertices are at least the minimum distance apart.
pub open spec fn topology_wf(t: Topology) -> bool {
    &&& 0 < t.min_distance <= COORD_MAX
    &&& forall|i: int| 0 <= i < t.vertices@.len()
        ==> p3_within((#[trigger] t.vertices@[i]).point, COORD_MAX as int)
    &&& forall|i: int, j: int| 0 <= i < j < t.vertices@.len()
        ==> spec_distsq3((#[trigger] t.vertices@[i]).point, (#[trigger] t.vertices@[j]).point)
            >= t.min_distance * t.min_distance
}

impl Topology {
    /// Add a vertex at the given position.
    ///
    /// The vertex is rejected — reporting a validation error rather than
    /// being silently inserted — exactly when its position lies within
    /// the shape's minimum distance of an already-stored vertex.
    pub fn add_vertex(&mut self, point: Point3) -> (r: Result<Handle, ValidationError>)
        requires
            topology_wf(*old(self)),
            p3_within(point, COORD_MAX as int),
            old(self).vertices@.len() < usize::MAX,
        ensures
            topology_wf(*final(self)),
            final(self).min_distance == old(self).min_distance,
            final(self).edges@ == old(self).edges@,
            final(self).faces@ == old(self).faces@,
            r is Ok <==> (forall|i: int| 0 <= i < old(self).vertices@.len()
                ==> spec_distsq3((#[trigger] old(self).vertices@[i]).point, point)
                    >= old(self).min_distance * old(self).min_distance),
            r is Ok ==> r->Ok_0 == old(self).vertices@.len()
                && final(self).vertices@ == old(self).vertices@.push(Vertex { point }),
            r is Err ==> final(self).vertices@ == old(self).vertices@,
    {
        let md = self.min_distance;
        let ghost mdsq = (md as int) * (md as int);
        let n = self.vertices.len();
        let mut i: usize = 0;
        while i < n
            invariant
                topology_wf(*self),
                *self == *old(self),
                md == self.min_distance,
                mdsq == (md as int) * (md as int),
                p3_within(point, COORD_MAX as int),
                n == self.vertices@.len(),
                0 <= i <= n,
                forall|j: int| 0 <= j < i
                    ==> spec_distsq3((#[trigger] self.vertices@[j]).point, point) >= mdsq,
            decreases n - i,
        {
            let d = distsq3(self.vertices[i].point, point);
            proof {
                assert((md as int) * (md as int) <= (COORD_MAX as int) * (COORD_MAX as int))
                    by (nonlinear_arith)
                    requires
                        0 < md <= COORD_MAX,
                ;
            }
            if d < (md as i128) * (md as i128) {
                return Err(ValidationError);
            }
            i = i + 1;
        }
        let h = self.vertices.len();
        self.vertices.push(Vertex { point });
        proof {
            let t1 = *self;
            assert forall|a: int, b: int| 0 <= a < b < t1.vertices@.len() implies
                spec_distsq3((#[trigger] t1.vertices@[a]).point, (#[trigger] t1.vertices@[b]).point)
                    >= t1.min_distance * t1.min_distance by {
                if b == t1.vertices@.len() - 1 {
                    assert(spec_distsq3(old(self).vertices@[a].point, point) >= mdsq);
                    lemma_distsq_symmetric(t1.vertices@[a].point, point);
                }
            }
        }
        Ok(h)
    }

    /// Add an edge, returning its handle.
    pub fn add_edge(&mut self, edge: Edge) -> (r: Handle)
        requires
            old(self).edges@.len() < usize::MAX,
        ensures
            final(self).edges@ == old(self).edges@.push(edge),
            r == old(self).edges@.len(),
            final(self).vertices@ == old(self).vertices@,
            final(self).faces@ == old(self).faces@,
            final(self).min_distance == old(self).min_distance,
    {
        let h = self.edges.len();
        self.edges.push(edge);
        h
    }

    /// Add a face, returning its handle.
    pub fn add_face(&mut self, face: Face) -> (r: Handle)
        requires
            old(self).faces@.len() < usize::MAX,
        ensures
            final(self).faces@ == old(self).faces@.push(face),
            r == old(self).faces@.len(),
            final(self).vertices@ == old(self).vertices@,
            final(self).edges@ == old(self).edges@,
            final(self).min_distance == old(self).min_distance,
    {
        let h = self.faces.len();
        self.faces.push(face);
        h
    }
}

/// The squared distance does not depend on the order of its arguments.
pub proof fn lemma_distsq_symmetric(a: Point3, b: Point3)
    by (nonlinear_arith)
    ensures
        spec_distsq3(a, b) == spec_distsq3(b, a),
{
}

/// The boundary representation of a shape: the single owner of its
/// geometry and topology.
#[derive(Clone, Debug, PartialEq, Eq)]
pub struct Shape {
    geometry: Geometry,
    topology: Topology,
}

impl Shape {
    /// The shape's geometric carriers, for reading.
    pub closed spec fn spec_geometry(&self) -> Geometry {
        self.geometry
    }

    /// The shape's topological entities, for reading.
    pub closed spec fn spec_topology(&self) -> Topology {
        self.topology
    }

    /// Construct a new shape with the default minimum vertex distance.
    pub fn new() -> (r: Shape)
        ensures
            r.spec_topology().min_distance == DEFAULT_MIN_DISTANCE,
            r.spec_topology().vertices@.len() == 0,
            r.spec_topology().edges@.len() == 0,
            r.spec_topology().faces@.len() == 0,
            r.spec_geometry().points@.len() == 0,
            r.spec_geometry().curves@.len() == 0,
            r.spec_geometry().surfaces@.len() == 0,
            topology_wf(r.spec_topology()),
    {
        Shape {
            geometry: Geometry { points: Vec::new(), curves: Vec::new(), surfaces: Vec::new() },
            topology: Topology {
                min_distance: DEFAULT_MIN_DISTANCE,
                vertices: Vec::new(),
                edges: Vec::new(),
                faces: Vec::new(),
            },
        }
    }

    /// Override the minimum distance for this shape.
    pub fn with_min_distance(self, min_distance: i64) -> (r: Shape)
        requires
            0 < min_distance <= COORD_MAX,
        ensures
            r.spec_topology().min_distance == min_distance,
            r.spec_topology().vertices@ == self.spec_topology().vertices@,
            r.spec_topology().edges@ == self.spec_topology().edges@,
            r.spec_topology().faces@ == self.spec_topology().faces@,
            r.spec_geometry() == self.spec_geometry(),
            topology_wf(self.spec_topology()) && min_distance <= self.spec_topology().min_distance
                ==> topology_wf(r.spec_topology()),
    {
        let mut s = self;
        s.topology.min_distance = min_distance;
        proof {
            if topology_wf(self.spec_topology()) && min_distance <= self.spec_topology().min_distance {
                assert forall|i: int, j: int| 0 <= i < j < s.topology.vertices@.len() implies
                    spec_distsq3((#[trigger] s.topology.vertices@[i]).point,
                        (#[trigger] s.topology.vertices@[j]).point)
                        >= s.topology.min_distance * s.topology.min_distance by {
                    assert(spec_distsq3(self.spec_topology().vertices@[i].point,
                        self.spec_topology().vertices@[j].point)
                        >= self.spec_topology().min_distance * self.spec_topology().min_distance);
                    assert(min_distance * min_distance
                        <= self.spec_topology().min_distance * self.spec_topology().min_distance)
                        by (nonlinear_arith)
                        requires
                            0 < min_distance <= self.spec_topology().min_distance,
                    ;
                }
            }
        }
        s
    }

    /// Access the shape's geometry.
    pub fn geometry(&mut self) -> (r: &mut Geometry)
        ensures
            *r == old(self).spec_geometry(),
            final(self).spec_geometry() == *final(r),
            final(self).spec_topology() == old(self).spec_topology(),
    {
        &mut self.geometry
    }

    /// Access the shape's topology.
    pub fn topology(&mut self) -> (r: &mut Topology)
        ensures
            *r == old(self).spec_topology(),
            final(self).spec_topology() == *final(r),
            final(self).spec_geometry() == old(self).spec_geometry(),
    {
        &mut self.topology
    }
}

} // verus!
