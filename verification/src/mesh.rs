//! A triangle mesh with deduplicated vertices and colored triangles.
//!
//! Geometrically identical triangles — the same three points under any
//! rotation or reflection of their order — are recognised as duplicates by
//! comparing a canonical, fully sorted form of the point triple.

use vstd::prelude::*;
use crate::math::Point3;
use crate::mesh_maker::Index;

verus! {

/// RGBA color of a triangle.
#[derive(Clone, Copy, Debug, PartialEq, Eq, Structural)]
pub struct Color {
    pub r: u8,
    pub g: u8,
    pub b: u8,
    pub a: u8,
}

/// A colored triangle of the mesh.
#[derive(Clone, Copy, Debug, PartialEq, Eq)]
pub struct Triangle {
    /// The corner points of the triangle.
    pub points: (Point3, Point3, Point3),
    /// The color of the triangle.
    pub color: Color,
}

impl Triangle {
    /// Construct a new instance of `Triangle`.
    pub fn new(points: (Point3, Point3, Point3), color: Color) -> (r: Triangle)
        ensures
            r == (Triangle { points, color }),
    {
        Triangle { points, color }
    }
}

/// Lexicographic order on model-space points.
pub open spec fn lex3_le(a: Point3, b: Point3) -> bool {
    ||| a.x < b.x
    ||| (a.x == b.x && a.y < b.y)
    ||| (a.x == b.x && a.y == b.y && a.z <= b.z)
}

/// The fully sorted form of a point triple: the same set of points in
/// lexicographic order, regardless of the order given.
pub open spec fn sorted3(t: (Point3, Point3, Point3)) -> (Point3, Point3, Point3) {
    let (a, b, c) = t;
    if lex3_le(a, b) {
        if lex3_le(b, c) {
            (a, b, c)
        } else if lex3_le(a, c) {
            (a, c, b)
        } else {
            (c, a, b)
        }
    } else {
        if lex3_le(a, c) {
            (b, a, c)
        } else if lex3_le(b, c) {
            (b, c, a)
        } else {
            (c, b, a)
        }
    }
}

/// A triangle mesh.
#[derive(Clone, Debug, PartialEq, Eq)]
pub struct Mesh {
    /// The distinct vertex positions.
    pub vertices: Vec<Point3>,
    /// One index per pushed vertex, referring into `vertices`.
    pub indices: Vec<Index>,
    /// The triangles of the mesh.
    pub triangles: Vec<Triangle>,
}

/// Stored vertices are pairwise distinct, every index is valid, and the
/// vertex count fits the index type.
pub open spec fn mesh_wf(m: Mesh) -> bool {
    &&& forall|i: int, j: int| 0 <= i < j < m.vertices@.len()
        ==> m.vertices@[i] != m.vertices@[j]
    &&& forall|i: int| 0 <= i < m.indices@.len() ==> (#[trigger] m.indices@[i]) < m.vertices@.len()
    &&& m.vertices@.len() <= u32::MAX
}

/// Whether the sequence holds the given position.
pub open spec fn mesh_holds_vertex(s: Seq<Point3>, v: Point3) -> bool {
    exists|i: int| 0 <= i < s.len() && s[i] == v
}

/// Whether the mesh holds a triangle with the same point set as `t`,
/// under any rotation or reflection of the corner order.
pub open spec fn mesh_holds_triangle(m: Mesh, t: (Point3, Point3, Point3)) -> bool {
    exists|i: int| 0 <= i < m.triangles@.len()
        && sorted3((#[trigger] m.triangles@[i]).points) == sorted3(t)
}

impl Mesh {
    /// Construct a new instance of `Mesh`.
    pub fn new() -> (r: Mesh)
        ensures
            r.vertices@.len() == 0,
            r.indices@.len() == 0,
            r.triangles@.len() == 0,
            mesh_wf(r),
    {
        Mesh { vertices: Vec::new(), indices: Vec::new(), triangles: Vec::new() }
    }

    /// Add a vertex to the mesh. A position already stored is not stored
    /// again: the new index refers to the old entry.
    pub fn push_vertex(&mut self, vertex: Point3)
        requires
            mesh_wf(*old(self)),
            old(self).vertices@.len() < u32::MAX,
            old(self).indices@.len() < usize::MAX,
        ensures
            mesh_wf(*final(self)),
            final(self).triangles@ == old(self).triangles@,
            final(self).vertices@ == (if mesh_holds_vertex(old(self).vertices@, vertex) {
                old(self).vertices@
            } else {
                old(self).vertices@.push(vertex)
            }),
            final(self).indices@.len() == old(self).indices@.len() + 1,
            final(self).indices@ == old(self).indices@.push(final(self).indices@.last()),
            final(self).vertices@[final(self).indices@.last() as int] == vertex,
    {
        let n = self.vertices.len();
        let mut i: usize = 0;
        while i < n
            invariant
                n == self.vertices@.len(),
                0 <= i <= n,
                mesh_wf(*self),
                *self == *old(self),
                self.indices@.len() < usize::MAX,
                forall|j: int| 0 <= j < i ==> self.vertices@[j] != vertex,
            decreases n - i,
        {
            if self.vertices[i] == vertex {
                self.indices.push(i as u32);
                proof {
                    assert(final(self).indices@ =~= old(self).indices@.push(i as u32));
                }
                return;
            }
            i = i + 1;
        }
        let idx = self.vertices.len() as u32;
        self.vertices.push(vertex);
        self.indices.push(idx);
        proof {
            assert(!mesh_holds_vertex(old(self).vertices@, vertex));
            assert(final(self).indices@ =~= old(self).indices@.push(idx));
        }
    }

    /// Determine whether the mesh contains the provided triangle.
    ///
    /// Returns true if a triangle with any combination of the points of
    /// the provided triangle is part of the mesh.
    pub fn contains_triangle(&self, triangle: (Point3, Point3, Point3)) -> (r: bool)
        ensures
            r == mesh_holds_triangle(*self, triangle),
    {
        let goal = sort3_exec(triangle);
        let n = self.triangles.len();
        let mut i: usize = 0;
        while i < n
            invariant
                n == self.triangles@.len(),
                0 <= i <= n,
                goal == sorted3(triangle),
                forall|j: int| 0 <= j < i
                    ==> sorted3((#[trigger] self.triangles@[j]).points) != sorted3(triangle),
            decreases n - i,
        {
            let t = sort3_exec(self.triangles[i].points);
            if t.0 == goal.0 && t.1 == goal.1 && t.2 == goal.2 {
                return true;
            }
            i = i + 1;
        }
        false
    }

    /// Add a triangle to the mesh: its three corner points are pushed as
    /// vertices, with deduplication, and the colored triangle is stored.
    pub fn push_triangle(&mut self, triangle: (Point3, Point3, Point3), color: Color)
        requires
            mesh_wf(*old(self)),
            old(self).vertices@.len() + 3 < u32::MAX,
            old(self).indices@.len() + 3 < usize::MAX,
            old(self).triangles@.len() < usize::MAX,
        ensures
            mesh_wf(*final(self)),
            final(self).triangles@ == old(self).triangles@.push(
                Triangle { points: triangle, color }),
            final(self).indices@.len() == old(self).indices@.len() + 3,
            mesh_holds_vertex(final(self).vertices@, triangle.0),
            mesh_holds_vertex(final(self).vertices@, triangle.1),
            mesh_holds_vertex(final(self).vertices@, triangle.2),
            mesh_holds_triangle(*final(self), triangle),
    {
        self.push_vertex(triangle.0);
        proof {
            lemma_holds_after(old(self).vertices@, self.vertices@, triangle.0);
        }
        let ghost s1 = *self;
        self.push_vertex(triangle.1);
        proof {
            lemma_holds_after(s1.vertices@, self.vertices@, triangle.0);
            lemma_holds_after(s1.vertices@, self.vertices@, triangle.1);
        }
        let ghost s2 = *self;
        self.push_vertex(triangle.2);
        proof {
            lemma_holds_after(s2.vertices@, self.vertices@, triangle.0);
            lemma_holds_after(s2.vertices@, self.vertices@, triangle.1);
            lemma_holds_after(s2.vertices@, self.vertices@, triangle.2);
        }
        self.triangles.push(Triangle { points: triangle, color });
        proof {
            let m = *self;
            let k = m.triangles@.len() - 1;
            assert(m.triangles@[k].points == triangle);
            assert(sorted3(m.triangles@[k].points) == sorted3(triangle));
        }
    }

    /// Access the vertices of the mesh.
    pub fn vertices(&self) -> (r: &Vec<Point3>)
        ensures
            r@ == self.vertices@,
    {
        &self.vertices
    }

    /// Access the indices of the mesh.
    pub fn indices(&self) -> (r: &Vec<Index>)
        ensures
            r@ == self.indices@,
    {
        &self.indices
    }

    /// Access the triangles of the mesh.
    pub fn triangles(&self) -> (r: &Vec<Triangle>)
        ensures
            r@ == self.triangles@,
    {
        &self.triangles
    }
}

impl Default for Mesh {
    /// An empty mesh.
    fn default() -> (r: Mesh)
        ensures
            r.vertices@.len() == 0,
            r.indices@.len() == 0,
            r.triangles@.len() == 0,
            mesh_wf(r),
    {
        Mesh::new()
    }
}

/// A vertex held before a push, or pushed, is held afterwards.
proof fn lemma_holds_after(pre: Seq<Point3>, post: Seq<Point3>, v: Point3)
    requires
        post == pre || post == pre.push(v) || (mesh_holds_vertex(pre, v) && (post == pre
            || exists|w: Point3| post == pre.push(w))),
        mesh_holds_vertex(pre, v) || post == pre.push(v),
    ensures
        mesh_holds_vertex(post, v),
{
    if mesh_holds_vertex(pre, v) {
        let i = choose|i: int| 0 <= i < pre.len() && pre[i] == v;
        if post == pre {
            assert(post[i] == v);
        } else {
            let w = choose|w: Point3| post == pre.push(w);
            if post == pre.push(w) {
                assert(post[i] == v);
            }
        }
    } else {
        assert(post[pre.len() as int] == v);
    }
}

/// Sort a point triple lexicographically.
fn sort3_exec(t: (Point3, Point3, Point3)) -> (r: (Point3, Point3, Point3))
    ensures
        r == sorted3(t),
{
    let (a, b, c) = t;
    if lex3_exec(&a, &b) {
        if lex3_exec(&b, &c) {
            (a, b, c)
        } else if lex3_exec(&a, &c) {
            (a, c, b)
        } else {
            (c, a, b)
        }
    } else {
        if lex3_exec(&a, &c) {
            (b, a, c)
        } else if lex3_exec(&b, &c) {
            (b, c, a)
        } else {
            (c, b, a)
        }
    }
}

/// Compare two model-space points lexicographically.
fn lex3_exec(a: &Point3, b: &Point3) -> (r: bool)
    ensures
        r == lex3_le(*a, *b),
{
    a.x < b.x || (a.x == b.x && a.y < b.y) || (a.x == b.x && a.y == b.y && a.z <= b.z)
}

/// The sorted form of a triple does not depend on the order the points
/// were given in: all six orders of one point set sort to the same triple.
pub proof fn lemma_sorted3_order_blind(a: Point3, b: Point3, c: Point3)
    ensures
        sorted3((a, b, c)) == sorted3((b, c, a)),
        sorted3((a, b, c)) == sorted3((c, a, b)),
        sorted3((a, b, c)) == sorted3((c, b, a)),
        sorted3((a, b, c)) == sorted3((b, a, c)),
        sorted3((a, b, c)) == sorted3((a, c, b)),
{
}

} // verus!
