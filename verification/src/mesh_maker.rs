//! Incremental construction of a deduplicated vertex/index mesh.
//!
//! Pushing a position that is already stored adds no new vertex: only a
//! further index referring to the stored one. Every index is valid, and
//! the stored vertices are pairwise distinct.

use vstd::prelude::*;
use crate::math::Point3;

verus! {

/// An index that refers to a vertex in a mesh.
pub type Index = u32;

/// Builder for a mesh of deduplicated vertices.
#[derive(Clone, Debug, PartialEq, Eq)]
pub struct MeshMaker {
    /// The distinct vertex positions, in order of first appearance.
    pub vertices: Vec<Point3>,
    /// One entry per pushed vertex: the index of its position.
    pub indices: Vec<Index>,
}

/// Stored vertices are pairwise distinct, every index refers to a stored
/// vertex, and the vertex count fits the index type.
pub open spec fn mesh_maker_wf(m: MeshMaker) -> bool {
    &&& forall|i: int, j: int| 0 <= i < j < m.vertices@.len()
        ==> m.vertices@[i] != m.vertices@[j]
    &&& forall|i: int| 0 <= i < m.indices@.len() ==> (#[trigger] m.indices@[i]) < m.vertices@.len()
    &&& m.vertices@.len() <= u32::MAX
}

/// Whether the sequence holds the given position.
pub open spec fn holds_vertex(s: Seq<Point3>, v: Point3) -> bool {
    exists|i: int| 0 <= i < s.len() && s[i] == v
}

impl MeshMaker {
    /// Create a new, empty instance.
    pub fn new() -> (r: MeshMaker)
        ensures
            r.vertices@.len() == 0,
            r.indices@.len() == 0,
            mesh_maker_wf(r),
    {
        MeshMaker { vertices: Vec::new(), indices: Vec::new() }
    }

    /// Add a vertex to the mesh.
    ///
    /// If the same position was pushed before, no vertex is stored: the
    /// new index refers to the old one. Otherwise the position is stored
    /// and the new index refers to it.
    pub fn push(&mut self, vertex: Point3)
        requires
            mesh_maker_wf(*old(self)),
            old(self).vertices@.len() < u32::MAX,
            old(self).indices@.len() < usize::MAX,
        ensures
            mesh_maker_wf(*final(self)),
            final(self).vertices@ == (if holds_vertex(old(self).vertices@, vertex) {
                old(self).vertices@
            } else {
                old(self).vertices@.push(vertex)
            }),
            final(self).indices@.len() == old(self).indices@.len() + 1,
            final(self).indices@ == old(self).indices@.push(
                final(self).indices@.last()),
            final(self).vertices@[final(self).indices@.last() as int] == vertex,
    {
        let n = self.vertices.len();
        let mut i: usize = 0;
        while i < n
            invariant
                n == self.vertices@.len(),
                0 <= i <= n,
                mesh_maker_wf(*self),
                *self == *old(self),
                self.indices@.len() < usize::MAX,
                forall|j: int| 0 <= j < i ==> self.vertices@[j] != vertex,
            decreases n - i,
        {
            if self.vertices[i] == vertex {
                self.indices.push(i as u32);
                proof {
                    assert(final(self).indices@ =~= old(self).indices@.push(i as u32));
                }
                return;
            }
            i = i + 1;
        }
        let idx = self.vertices.len() as u32;
        self.vertices.push(vertex);
        self.indices.push(idx);
        proof {
            assert(!holds_vertex(old(self).vertices@, vertex));
            assert(final(self).indices@ =~= old(self).indices@.push(idx));
        }
    }

    /// Access the vertices of the mesh.
    pub fn vertices(&self) -> (r: &Vec<Point3>)
        ensures
            r@ == self.vertices@,
    {
        &self.vertices
    }

    /// Access the indices of the mesh.
    pub fn indices(&self) -> (r: &Vec<Index>)
        ensures
            r@ == self.indices@,
    {
        &self.indices
    }
}

} // verus!
