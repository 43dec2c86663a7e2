//! Validated triangles with a canonical point order.
//!
//! Construction rejects degenerate input: coincident points, and points
//! that lie on one line. The accepted points are rotated — never reflected,
//! so the winding is preserved — until the lexicographically smallest point
//! comes first; the three rotations of one triangle therefore construct
//! equal values.

use vstd::prelude::*;
use crate::math::{Point2, COORD_MAX, p2_within};

verus! {

/// Why a triangle could not be constructed.
#[derive(Clone, Copy, Debug, PartialEq, Eq, Structural)]
pub enum Error {
    /// Two of the given points coincide.
    CollapsedPoints,
    /// The three points lie on one line.
    IsALineSegment,
}

/// A validated triangle in surface coordinates, its points in canonical
/// rotation.
#[derive(Clone, Copy, Debug, PartialEq, Eq)]
pub struct Triangle {
    points: (Point2, Point2, Point2),
}

/// Lexicographic order on points: by the first coordinate, then the
/// second.
pub open spec fn lex_le(a: Point2, b: Point2) -> bool {
    a.x < b.x || (a.x == b.x && a.y <= b.y)
}

/// The three points lie on one line: the cross product of two edge
/// vectors vanishes.
pub open spec fn collinear(a: Point2, b: Point2, c: Point2) -> bool {
    (b.x - a.x) * (c.y - a.y) - (b.y - a.y) * (c.x - a.x) == 0
}

/// The canonical rotation: the cyclic rotation of `(a, b, c)` that starts
/// with the lexicographically smallest point.
pub open spec fn spec_canonical(a: Point2, b: Point2, c: Point2) -> (Point2, Point2, Point2) {
    if lex_le(a, b) && lex_le(a, c) {
        (a, b, c)
    } else if lex_le(b, a) && lex_le(b, c) {
        (b, c, a)
    } else {
        (c, a, b)
    }
}

impl Triangle {
    /// Create a new triangle from three points.
    ///
    /// Fails with [`Error::CollapsedPoints`] when two points coincide, and
    /// with [`Error::IsALineSegment`] when the three points lie on one
    /// line. Otherwise the points are stored in canonical rotation.
    pub fn new(a: Point2, b: Point2, c: Point2) -> (r: Result<Triangle, Error>)
        requires
            p2_within(a, COORD_MAX as int),
            p2_within(b, COORD_MAX as int),
            p2_within(c, COORD_MAX as int),
        ensures
            r == Err::<Triangle, Error>(Error::CollapsedPoints)
                <==> (a == b || a == c || b == c),
            r == Err::<Triangle, Error>(Error::IsALineSegment)
                <==> (a != b && a != c && b != c && collinear(a, b, c)),
            r is Ok <==> (a != b && a != c && b != c && !collinear(a, b, c)),
            r is Ok ==> r->Ok_0@ == spec_canonical(a, b, c),
    {
        if (a.x == b.x && a.y == b.y) || (a.x == c.x && a.y == c.y)
            || (b.x == c.x && b.y == c.y) {
            return Err(Error::CollapsedPoints);
        }
        proof {
            lemma_area_bound(b.x - a.x, c.y - a.y);
            lemma_area_bound(b.y - a.y, c.x - a.x);
        }
        let lhs: i128 = ((b.x - a.x) as i128) * ((c.y - a.y) as i128);
        let rhs: i128 = ((b.y - a.y) as i128) * ((c.x - a.x) as i128);
        if lhs == rhs {
            return Err(Error::IsALineSegment);
        }
        let points = if lex_le_exec(a, b) && lex_le_exec(a, c) {
            (a, b, c)
        } else if lex_le_exec(b, a) && lex_le_exec(b, c) {
            (b, c, a)
        } else {
            (c, a, b)
        };
        Ok(Triangle { points })
    }

    /// Return the points of the triangle.
    pub fn points(&self) -> (r: (Point2, Point2, Point2))
        ensures
            r == self@,
    {
        self.points
    }
}

impl Triangle {
    /// The stored points, for specifications.
    pub closed spec fn view(&self) -> (Point2, Point2, Point2) {
        self.points
    }
}

/// Compare two points lexicographically.
fn lex_le_exec(a: Point2, b: Point2) -> (r: bool)
    ensures
        r == lex_le(a, b),
{
    a.x < b.x || (a.x == b.x && a.y <= b.y)
}

/// Products of in-range differences stay within machine range.
proof fn lemma_area_bound(p: int, q: int)
    by (nonlinear_arith)
    requires
        -2 * (COORD_MAX as int) <= p <= 2 * (COORD_MAX as int),
        -2 * (COORD_MAX as int) <= q <= 2 * (COORD_MAX as int),
    ensures
        -4 * ((COORD_MAX as int) * (COORD_MAX as int)) <= p * q
            <= 4 * ((COORD_MAX as int) * (COORD_MAX as int)),
{
}

/// Triangle canonicalisation: the three rotations of one point triple
/// construct the same canonical triple, and degeneracy does not depend on
/// the rotation either.
pub proof fn lemma_canonical_rotation(a: Point2, b: Point2, c: Point2)
    requires
        a != b,
        a != c,
        b != c,
    ensures
        collinear(a, b, c) == collinear(b, c, a),
        collinear(a, b, c) == collinear(c, a, b),
        spec_canonical(a, b, c) == spec_canonical(b, c, a),
        spec_canonical(a, b, c) == spec_canonical(c, a, b),
{
    assert((b.x - a.x) * (c.y - a.y) - (b.y - a.y) * (c.x - a.x)
        == (c.x - b.x) * (a.y - b.y) - (c.y - b.y) * (a.x - b.x)) by (nonlinear_arith);
    assert((b.x - a.x) * (c.y - a.y) - (b.y - a.y) * (c.x - a.x)
        == (a.x - c.x) * (b.y - c.y) - (a.y - c.y) * (b.x - c.x)) by (nonlinear_arith);
}

} // verus!
