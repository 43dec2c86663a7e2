//! Shapes that can report the vertices they are made of.

use vstd::prelude::*;
use crate::math::Vector3;

verus! {

/// The vertex at the local origin of a shape.
#[derive(Clone, Copy, Debug, PartialEq, Eq, Structural)]
pub struct ShapeVertex;

/// A shape displaced by an offset.
#[derive(Clone, Copy, Debug, PartialEq, Eq, Structural)]
pub struct Translate<T> {
    pub shape: T,
    pub offset: Vector3,
}

/// Implemented by shapes that can return the vertices that make them up,
/// each as a translated vertex carrying its position in space.
pub trait Vertices {
    /// Return the vertices of the shape.
    fn vertices(&self) -> Vec<Translate<ShapeVertex>>;
}

impl Vertices for ShapeVertex {
    /// A vertex is its own single vertex, at offset zero.
    fn vertices(&self) -> (r: Vec<Translate<ShapeVertex>>)
        ensures
            r@.len() == 1,
            r@[0] == (Translate { shape: ShapeVertex, offset: Vector3 { x: 0, y: 0, z: 0 } }),
    {
        vec![Translate { shape: ShapeVertex, offset: Vector3 { x: 0, y: 0, z: 0 } }]
    }
}

impl Translate<ShapeVertex> {
    /// The vertices of a translated vertex: the vertex, displaced by the
    /// offset.
    pub fn vertices(&self) -> (r: Vec<Translate<ShapeVertex>>)
        requires
            -1_000_000_000_000_000_000 <= self.offset.x <= 1_000_000_000_000_000_000,
            -1_000_000_000_000_000_000 <= self.offset.y <= 1_000_000_000_000_000_000,
            -1_000_000_000_000_000_000 <= self.offset.z <= 1_000_000_000_000_000_000,
        ensures
            r@.len() == 1,
            r@[0] == *self,
    {
        let base = self.shape.vertices();
        let inner = base[0];
        vec![Translate {
            shape: inner.shape,
            offset: Vector3 {
                x: inner.offset.x + self.offset.x,
                y: inner.offset.y + self.offset.y,
                z: inner.offset.z + self.offset.z,
            },
        }]
    }
}

} // verus!
