//! A boundary-representation geometric kernel over fixed-point coordinates.
//!
//! Solids are modelled as topological graphs of vertices, edges, cycles,
//! faces and shells, anchored to continuous geometric carriers (points,
//! lines, circles, planes). The approximation engine converts carriers into
//! finite, tolerance-bounded point sequences, with an identity-keyed cache
//! that guarantees at-most-once sampling per global curve.
//!
//! All coordinates are fixed-point: an `i64` counts ticks of `10^-7` model
//! units (see [`math::SCALE`]). Angles use the same scale, in radians.

pub mod angle;
pub mod approximation;
pub mod attributes;
pub mod builder;
pub mod curves;
pub mod edges;
pub mod shape;
pub mod shape_2d;
pub mod surfaces;
pub mod sweep;
pub mod triangle;
pub mod math;
pub mod mesh;
pub mod mesh_maker;
