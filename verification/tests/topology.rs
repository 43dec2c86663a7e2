//! Tests of triangles, meshes, the entity store, the builders and the
//! sweep.

use fj_kernel::attributes::{ShapeVertex, Translate, Vertices};
use fj_kernel::builder::{BuildError, PartialCycle, ShellBuilder};
use fj_kernel::curves::{Curve, Line};
use fj_kernel::edges::{Edge, Edges, Vertex};
use fj_kernel::math::{Point2, Point3, Transform, Vector3, SCALE};
use fj_kernel::mesh::{Color, Mesh};
use fj_kernel::mesh_maker::MeshMaker;
use fj_kernel::shape::Shape;
use fj_kernel::shape_2d::{Circle as Circle2d, Shape2d, Sketch};
use fj_kernel::surfaces::Surface;
use fj_kernel::sweep::sweep;
use fj_kernel::triangle::{Error, Triangle};

fn units(v: i64) -> i64 {
    v * SCALE
}

#[test]
fn validation() {
    let triangle = Triangle::new(
        Point2::new(0, 0),
        Point2::new(0, units(1)),
        Point2::new(units(1), units(1)),
    );
    let points_on_a_line = Triangle::new(
        Point2::new(0, 0),
        Point2::new(units(1), units(1)),
        Point2::new(units(2), units(2)),
    );
    let collapsed_points = Triangle::new(
        Point2::new(0, 0),
        Point2::new(units(1), units(1)),
        Point2::new(units(1), units(1)),
    );

    assert!(triangle.is_ok());
    assert_eq!(points_on_a_line, Err(Error::IsALineSegment));
    assert_eq!(collapsed_points, Err(Error::CollapsedPoints));
}

#[test]
fn normalization() {
    let a = Point2::new(0, 0);
    let b = Point2::new(0, units(1));
    let c = Point2::new(units(1), units(1));

    // Test with triangles in both directions, to make sure the
    // normalization preserves direction.
    for (a, b, c) in [(a, b, c), (a, c, b)] {
        let abc = Triangle::new(a, b, c).unwrap();
        let bca = Triangle::new(b, c, a).unwrap();
        let cab = Triangle::new(c, a, b).unwrap();

        assert_eq!(abc.points(), bca.points());
        assert_eq!(abc.points(), cab.points());

        // But don't change order of triangle points.
        assert!(
            abc.points() == (a, b, c) || abc.points() == (b, c, a) || abc.points() == (c, b, a)
        );
    }
}

#[test]
fn mesh_maker_deduplicates_vertices() {
    // Pushing the same position twice stores one vertex and two index
    // references to it.
    let mut maker = MeshMaker::new();
    let p = Point3::new(units(1), units(2), units(3));
    maker.push(p);
    maker.push(p);
    assert_eq!(maker.vertices().len(), 1);
    assert_eq!(maker.indices().len(), 2);
    assert_eq!(maker.indices()[0], maker.indices()[1]);

    let q = Point3::new(units(4), units(5), units(6));
    maker.push(q);
    assert_eq!(maker.vertices().len(), 2);
    assert_eq!(maker.indices().len(), 3);
}

#[test]
fn mesh_recognizes_triangles_in_any_corner_order() {
    let a = Point3::new(0, 0, 0);
    let b = Point3::new(units(1), 0, 0);
    let c = Point3::new(0, units(1), 0);
    let d = Point3::new(0, 0, units(1));
    let color = Color { r: 255, g: 0, b: 0, a: 255 };

    let mut mesh = Mesh::new();
    mesh.push_triangle((a, b, c), color);

    // Any rotation, and the reversed winding, count as the same triangle.
    assert!(mesh.contains_triangle((a, b, c)));
    assert!(mesh.contains_triangle((b, c, a)));
    assert!(mesh.contains_triangle((c, a, b)));
    assert!(mesh.contains_triangle((c, b, a)));
    assert!(!mesh.contains_triangle((a, b, d)));
}

#[test]
fn mesh_deduplicates_vertices() {
    let a = Point3::new(0, 0, 0);
    let b = Point3::new(units(1), 0, 0);
    let c = Point3::new(0, units(1), 0);
    let color = Color { r: 0, g: 0, b: 0, a: 255 };

    let mut mesh = Mesh::new();
    mesh.push_triangle((a, b, c), color);
    mesh.push_triangle((a, c, b), color);
    // The two triangles share all three corners: no new vertices.
    assert_eq!(mesh.vertices().len(), 3);
    assert_eq!(mesh.indices().len(), 6);
    assert_eq!(mesh.triangles().len(), 2);
}

#[test]
fn shape_rejects_near_duplicate_vertices() {
    let mut shape = Shape::new().with_min_distance(units(1));
    let topology = shape.topology();
    assert!(topology.add_vertex(Point3::new(0, 0, 0)).is_ok());
    // Half a unit away: within the minimum distance, rejected.
    assert!(topology.add_vertex(Point3::new(units(1) / 2, 0, 0)).is_err());
    // A full unit away: acceptable.
    assert!(topology.add_vertex(Point3::new(units(1), 0, 0)).is_ok());
    assert_eq!(topology.vertices.len(), 2);
}

#[test]
fn shape_default_min_distance_is_half_a_micrometre() {
    let mut shape = Shape::new();
    let topology = shape.topology();
    assert_eq!(topology.min_distance, 5);
    assert!(topology.add_vertex(Point3::new(0, 0, 0)).is_ok());
    // Four ticks away: closer than the default minimum distance.
    assert!(topology.add_vertex(Point3::new(4, 0, 0)).is_err());
    assert!(topology.add_vertex(Point3::new(5, 0, 0)).is_ok());
}

#[test]
fn tetrahedron_shares_each_edge_between_two_faces() {
    // Four non-coplanar points build a shell of 4 faces and exactly 6
    // distinct edges, each shared by exactly 2 faces.
    let mut shape = Shape::new();
    let topology = shape.topology();
    let shell = ShellBuilder::tetrahedron(
        (
            Point3::new(0, 0, 0),
            Point3::new(units(1), 0, 0),
            Point3::new(0, units(1), 0),
            Point3::new(0, 0, units(1)),
        ),
        topology,
    )
    .unwrap();

    assert_eq!(shell.faces.len(), 4);
    assert_eq!(topology.vertices.len(), 4);
    assert_eq!(topology.edges.len(), 6);
    assert_eq!(topology.faces.len(), 4);

    // Collect all edge handles referenced by the shell's faces.
    let mut used: Vec<usize> = Vec::new();
    for &f in &shell.faces {
        for &e in &topology.faces[f].edges {
            used.push(e);
        }
    }
    // 4 faces with 3 edges each, over 6 distinct edges.
    assert_eq!(used.len(), 12);
    for e in 0..6usize {
        let count = used.iter().filter(|&&x| x == e).count();
        assert_eq!(count, 2);
    }
}

#[test]
fn tetrahedron_rejects_coplanar_points() {
    let mut shape = Shape::new();
    let topology = shape.topology();
    let result = ShellBuilder::tetrahedron(
        (
            Point3::new(0, 0, 0),
            Point3::new(units(1), 0, 0),
            Point3::new(0, units(1), 0),
            Point3::new(units(1), units(1), 0),
        ),
        topology,
    );
    assert_eq!(result, Err(BuildError::DegenerateGeometry));
    assert_eq!(topology.vertices.len(), 0);
}

#[test]
fn polygon_from_points_closes_the_cycle() {
    let mut cycle = PartialCycle::new();
    let points = vec![
        Point3::new(0, 0, 0),
        Point3::new(units(1), 0, 0),
        Point3::new(units(1), units(1), 0),
        Point3::new(0, units(1), 0),
    ];
    cycle.update_as_polygon_from_points(&points).unwrap();
    assert_eq!(cycle.half_edges.len(), 4);
    for (i, edge) in cycle.half_edges.iter().enumerate() {
        let (start, end) = edge.vertices.expect("polygon edges are bounded");
        assert_eq!(start.point, points[i]);
        assert_eq!(end.point, points[(i + 1) % points.len()]);
    }
}

#[test]
fn polygon_rejects_repeated_consecutive_points() {
    let mut cycle = PartialCycle::new();
    let points = vec![Point3::new(0, 0, 0), Point3::new(0, 0, 0)];
    assert_eq!(
        cycle.update_as_polygon_from_points(&points),
        Err(BuildError::DegenerateGeometry)
    );
}

#[test]
fn connect_to_edges_shares_start_vertices() {
    let mut polygon = PartialCycle::new();
    let points = vec![
        Point3::new(0, 0, 0),
        Point3::new(units(1), 0, 0),
        Point3::new(0, units(1), 0),
    ];
    polygon.update_as_polygon_from_points(&points).unwrap();

    let mut connected = PartialCycle::new();
    connected.connect_to_edges(&polygon.half_edges);
    assert_eq!(connected.half_edges.len(), 3);
    for (i, edge) in connected.half_edges.iter().enumerate() {
        let (start, _) = edge.vertices.expect("connected edges are bounded");
        let prev = &polygon.half_edges[(i + polygon.half_edges.len() - 1) % polygon.half_edges.len()];
        let (prev_start, _) = prev.vertices.unwrap();
        assert_eq!(start, prev_start);
    }
}

#[test]
fn single_cycle_collects_edges() {
    let e = Edge::circle(units(1));
    let edges = Edges::single_cycle(vec![e]);
    assert_eq!(edges.cycles.len(), 1);
    assert_eq!(edges.cycles[0].edges.len(), 1);
}

#[test]
fn edge_reverse_flips_the_flag() {
    let mut e = Edge::circle(units(1));
    assert!(!e.reverse);
    e.reverse();
    assert!(e.reverse);
    e.reverse();
    assert!(!e.reverse);
}

#[test]
fn sweep_vertex_builds_a_bounded_edge() {
    let v = Vertex::create_at(Point3::new(units(1), 0, 0));
    let edge = Edge::sweep_vertex(v, Vector3::new(0, 0, units(2)));
    let (a, b) = edge.vertices.unwrap();
    assert_eq!(a.point, Point3::new(units(1), 0, 0));
    assert_eq!(b.point, Point3::new(units(1), 0, units(2)));
    assert_eq!(a.local, 0);
    assert_eq!(b.local, SCALE);
}

#[test]
fn edge_transform_translates_vertices() {
    let v = Vertex::create_at(Point3::new(0, 0, 0));
    let edge = Edge::sweep_vertex(v, Vector3::new(units(1), 0, 0));
    let tr = Transform::translation(Vector3::new(0, units(3), 0));
    let moved = edge.transform(&tr);
    let (a, b) = moved.vertices.unwrap();
    assert_eq!(a.point, Point3::new(0, units(3), 0));
    assert_eq!(b.point, Point3::new(units(1), units(3), 0));
}

#[test]
fn sweep_builds_bottom_top_and_sides() {
    let mut boundary = PartialCycle::new();
    let points = vec![
        Point3::new(0, 0, 0),
        Point3::new(units(1), 0, 0),
        Point3::new(0, units(1), 0),
    ];
    boundary.update_as_polygon_from_points(&points).unwrap();
    let cycle = fj_kernel::edges::Cycle { edges: boundary.half_edges };

    let faces = sweep(&cycle, &Surface::x_y_plane(), Vector3::new(0, 0, units(2))).unwrap();
    // Bottom, top, and one side wall per boundary edge.
    assert_eq!(faces.len(), 5);
    assert!(faces[0].surface.is_some());
    assert!(faces[1].surface.is_some());
    for side in &faces[2..] {
        assert_eq!(side.cycles.len(), 1);
        assert_eq!(side.cycles[0].edges.len(), 4);
    }
    // The bottom is reversed, the top is not.
    for edge in &faces[0].cycles[0].edges {
        assert!(edge.reverse);
    }
    for edge in &faces[1].cycles[0].edges {
        assert!(!edge.reverse);
    }
}

#[test]
fn sweep_of_closed_curve_is_a_seamless_tube() {
    // A full circle has no bounding vertices: its side wall is a closed
    // tube of two cycles, with no synthetic corner vertices.
    let circle = Edge::circle(units(1));
    let cycle = fj_kernel::edges::Cycle { edges: vec![circle] };
    let faces = sweep(&cycle, &Surface::x_y_plane(), Vector3::new(0, 0, units(2))).unwrap();
    assert_eq!(faces.len(), 3);
    let tube = &faces[2];
    assert!(tube.surface.is_none());
    assert_eq!(tube.cycles.len(), 2);
    assert_eq!(tube.cycles[0].edges.len(), 1);
    assert_eq!(tube.cycles[1].edges.len(), 1);
    assert!(tube.cycles[0].edges[0].vertices.is_none());
    assert!(tube.cycles[1].edges[0].vertices.is_none());
}

#[test]
fn sweep_rejects_a_bounded_circular_edge() {
    // A circular edge bounded by vertices would sweep into a wall no
    // supported surface variant describes.
    let circle = Edge::circle(units(1));
    let bounded = Edge {
        curve: circle.curve,
        vertices: Edge::sweep_vertex(
            Vertex::create_at(Point3::new(units(1), 0, 0)),
            Vector3::new(0, 0, units(1)),
        )
        .vertices,
        reverse: false,
    };
    let cycle = fj_kernel::edges::Cycle { edges: vec![bounded] };
    let result = sweep(&cycle, &Surface::x_y_plane(), Vector3::new(0, 0, units(2)));
    assert_eq!(result, Err(BuildError::UnsupportedOperation));
}

#[test]
fn test_vertices_for_vertex() {
    let vertices = ShapeVertex.vertices();
    assert_eq!(vertices.len(), 1);
    assert_eq!(
        vertices[0],
        Translate { shape: ShapeVertex, offset: fj_kernel::math::Vector3::new(0, 0, 0) }
    );
}

#[test]
fn test_vertices_for_translate_vertices() {
    let vertex = Translate {
        shape: ShapeVertex,
        offset: Vector3::new(units(2), units(3), units(4)),
    };
    assert_eq!(vertex.vertices(), vec![vertex]);
}

#[test]
fn sketch_round_trips_its_points() {
    let points = vec![Point2::new(0, 0), Point2::new(units(1), 0), Point2::new(0, units(1))];
    let sketch = Sketch::from_points(points.clone());
    assert_eq!(sketch.to_points(), points);
}

#[test]
fn circle_shape_keeps_its_radius() {
    let circle = Circle2d::from_radius(units(3));
    assert_eq!(circle.radius(), units(3));
    let shape = Shape2d::Circle(circle);
    assert!(matches!(shape, Shape2d::Circle(_)));
}

#[test]
fn edge_circle_is_self_connected() {
    let e = Edge::circle(units(1));
    assert!(e.vertices.is_none());
    assert!(!e.reverse);
    match e.curve {
        Curve::Circle(c) => {
            assert_eq!(c.center, Point3::new(0, 0, 0));
            assert_eq!(c.a, Vector3::new(units(1), 0, 0));
            assert_eq!(c.b, Vector3::new(0, units(1), 0));
        }
        Curve::Line(Line { .. }) => panic!("a circle edge carries a circle"),
    }
}
