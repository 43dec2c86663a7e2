//! Authoring-side descriptions of 2-dimensional shapes.
//!
//! A caller constructs these values and hands them to the builder layer.
//! The sketch owns its points as a plain sequence: handing the points out
//! copies them, and the sketch keeps its own, independently owned data.

use vstd::prelude::*;
use crate::math::Point2;

verus! {

/// A circle, described by its radius in ticks.
#[derive(Clone, Copy, Debug, PartialEq, Eq, Structural)]
pub struct Circle {
    radius: i64,
}

impl Circle {
    /// The radius, for specifications.
    pub closed spec fn spec_radius(&self) -> i64 {
        self.radius
    }

    /// Describe a circle from its radius.
    pub fn from_radius(radius: i64) -> (r: Circle)
        ensures
            r.spec_radius() == radius,
    {
        Circle { radius }
    }

    /// The circle's radius.
    pub fn radius(&self) -> (r: i64)
        ensures
            r == self.spec_radius(),
    {
        self.radius
    }
}

/// A sketch: a single cycle of straight lines through the given points.
/// Algorithms may assume the resulting edges do not overlap; nothing about
/// them is checked here.
#[derive(Clone, Debug, PartialEq, Eq)]
pub struct Sketch {
    points: Vec<Point2>,
}

impl Sketch {
    /// The points, for specifications.
    pub closed spec fn spec_points(&self) -> Seq<Point2> {
        self.points@
    }

    /// Create a sketch from a sequence of points.
    pub fn from_points(points: Vec<Point2>) -> (r: Sketch)
        ensures
            r.spec_points() == points@,
    {
        Sketch { points }
    }

    /// Return a copy of the points of the sketch; the sketch keeps its
    /// own.
    pub fn to_points(&self) -> (r: Vec<Point2>)
        ensures
            r@ == self.spec_points(),
    {
        let mut r: Vec<Point2> = Vec::new();
        let n = self.points.len();
        let mut i: usize = 0;
        while i < n
            invariant
                n == self.points@.len(),
                0 <= i <= n,
                r@ == self.points@.subrange(0, i as int),
            decreases n - i,
        {
            r.push(self.points[i]);
            proof {
                assert(r@ =~= self.points@.subrange(0, i + 1));
            }
            i = i + 1;
        }
        proof {
            assert(r@ =~= self.points@);
        }
        r
    }
}

/// A 2-dimensional shape description.
#[derive(Clone, Debug, PartialEq, Eq)]
pub enum Shape2d {
    /// A circle
    Circle(Circle),
    /// A sketch
    Sketch(Sketch),
}

/// A difference between two shapes: the original and the one subtracted
/// from it. Evaluating the difference is the concern of a boolean
/// combination engine; this type only describes the request.
#[derive(Clone, Debug, PartialEq, Eq)]
pub struct Difference2d {
    /// The original shape.
    pub a: Shape2d,
    /// The shape being subtracted.
    pub b: Shape2d,
}

} // verus!
