//! Tests of the geometric carriers: planes, conversions, transforms.
//!
//! Coordinates are in ticks: `10_000_000` ticks make one model unit.

use fj_kernel::math::{Point2, Point3, Vector2, Vector3, Transform, SCALE};
use fj_kernel::surfaces::{Plane, Surface, IncidenceError};

fn units(v: i64) -> i64 {
    v * SCALE
}

fn plane_123() -> Plane {
    Plane {
        origin: Point3::new(units(1), units(2), units(3)),
        u: Vector3::new(0, SCALE, 0),
        v: Vector3::new(0, 0, SCALE),
    }
}

#[test]
fn test_transform() {
    let plane = Plane {
        origin: Point3::new(units(1), units(2), units(3)),
        u: Vector3::new(SCALE, 0, 0),
        v: Vector3::new(0, SCALE, 0),
    };

    // Quarter turn about the z axis, then translation by (2, 4, 6).
    let tr = Transform::from_rows(
        Vector3::new(0, -SCALE, 0),
        Vector3::new(SCALE, 0, 0),
        Vector3::new(0, 0, SCALE),
        Vector3::new(units(2), units(4), units(6)),
    );

    let moved = plane.transform(&tr);

    assert_eq!(moved.origin, Point3::new(units(0), units(5), units(9)));
    assert_eq!(moved.u, Vector3::new(0, SCALE, 0));
    assert_eq!(moved.v, Vector3::new(-SCALE, 0, 0));
}

#[test]
fn test_model_to_surface_point_conversion() {
    let plane = plane_123();

    let valid_model_point = Point3::new(units(1), units(4), units(6));
    let invalid_model_point = Point3::new(units(2), units(4), units(6));

    assert_eq!(
        plane.point_model_to_surface(valid_model_point),
        Ok(Point2::new(units(2), units(3))),
    );
    assert_eq!(
        plane.point_model_to_surface(invalid_model_point),
        Err(IncidenceError),
    );
}

#[test]
fn test_surface_to_model_point_conversion() {
    let plane = plane_123();

    assert_eq!(
        plane.point_surface_to_model(Point2::new(units(2), units(4))),
        Point3::new(units(1), units(4), units(7)),
    );
}

#[test]
fn test_surface_to_model_vector_conversion() {
    let plane = plane_123();

    assert_eq!(
        plane.vector_surface_to_model(Vector2::new(units(2), units(4))),
        Vector3::new(units(0), units(2), units(4)),
    );
}

#[test]
fn surface_enum_delegates_to_plane() {
    let surface = Surface::Plane(plane_123());

    assert_eq!(
        surface.point_model_to_surface(Point3::new(units(1), units(4), units(6))),
        Ok(Point2::new(units(2), units(3))),
    );
    assert_eq!(
        surface.point_surface_to_model(Point2::new(units(2), units(4))),
        Point3::new(units(1), units(4), units(7)),
    );
    assert_eq!(
        surface.vector_surface_to_model(Vector2::new(units(2), units(4))),
        Vector3::new(units(0), units(2), units(4)),
    );
}

#[test]
fn x_y_plane_has_axis_basis() {
    let surface = Surface::x_y_plane();
    let Surface::Plane(plane) = surface;
    assert_eq!(plane.origin, Point3::new(0, 0, 0));
    assert_eq!(plane.u, Vector3::new(SCALE, 0, 0));
    assert_eq!(plane.v, Vector3::new(0, SCALE, 0));
}

#[test]
fn incidence_boundary_is_at_epsilon() {
    // Ten ticks is the incidence epsilon: a point ten ticks off the plane
    // is still incident, eleven ticks is not.
    let plane = plane_123();
    let just_on = Point3::new(units(1) + 10, units(4), units(6));
    let just_off = Point3::new(units(1) + 11, units(4), units(6));
    assert!(plane.point_model_to_surface(just_on).is_ok());
    assert_eq!(plane.point_model_to_surface(just_off), Err(IncidenceError));
}
