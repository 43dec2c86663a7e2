//! Tests of the approximation engine: cache discipline, boundary
//! exclusion, tolerance behaviour.

use fj_kernel::approximation::{
    ApproxCache, CurveApprox, GlobalCurve, LocalCurve, RangeOnCurve, Tolerance,
    InvalidTolerance, approx_global_path, approx_global_with_cache, approx_with_cache,
};
use fj_kernel::curves::{Circle, Circle2, Curve, Line, SurfacePath};
use fj_kernel::math::{Point2, Point3, Vector2, Vector3, FULL_TURN, SCALE};

fn unit_circle() -> Curve {
    Curve::Circle(Circle {
        center: Point3::new(0, 0, 0),
        a: Vector3::new(SCALE, 0, 0),
        b: Vector3::new(0, SCALE, 0),
    })
}

fn full_range() -> RangeOnCurve {
    RangeOnCurve { start: 0, end: FULL_TURN }
}

#[test]
fn tolerance_must_be_positive() {
    assert!(Tolerance::from_ticks(1).is_ok());
    assert_eq!(Tolerance::from_ticks(0), Err(InvalidTolerance));
    assert_eq!(Tolerance::from_ticks(-5), Err(InvalidTolerance));
}

#[test]
fn cache_computes_once_and_returns_identical_sequences() {
    let g = GlobalCurve { id: 7, path: unit_circle() };
    let tol = Tolerance::from_ticks(100_000).unwrap();
    let mut cache = ApproxCache::new();

    let first = approx_global_with_cache(&g, full_range(), tol, &mut cache);
    assert_eq!(cache.computations, 1);

    let second = approx_global_with_cache(&g, full_range(), tol, &mut cache);
    assert_eq!(cache.computations, 1);
    assert_eq!(first.points, second.points);
}

#[test]
fn cache_is_keyed_by_identity() {
    let g1 = GlobalCurve { id: 1, path: unit_circle() };
    let g2 = GlobalCurve { id: 2, path: unit_circle() };
    let tol = Tolerance::from_ticks(100_000).unwrap();
    let mut cache = ApproxCache::new();

    approx_global_with_cache(&g1, full_range(), tol, &mut cache);
    approx_global_with_cache(&g2, full_range(), tol, &mut cache);
    assert_eq!(cache.computations, 2);

    approx_global_with_cache(&g1, full_range(), tol, &mut cache);
    approx_global_with_cache(&g2, full_range(), tol, &mut cache);
    assert_eq!(cache.computations, 2);
}

#[test]
fn boundaries_are_excluded() {
    let tol = Tolerance::from_ticks(100_000).unwrap();
    let points = approx_global_path(&unit_circle(), full_range(), tol);
    assert!(!points.is_empty());
    for p in &points {
        assert!(0 < p.local && p.local < FULL_TURN);
    }

    let half = RangeOnCurve { start: 1_000_000, end: 31_000_000 };
    let points = approx_global_path(&unit_circle(), half, tol);
    assert!(!points.is_empty());
    for p in &points {
        assert!(half.start < p.local && p.local < half.end);
    }
}

#[test]
fn line_needs_no_interior_samples() {
    let line = Curve::Line(Line {
        origin: Point3::new(0, 0, 0),
        direction: Vector3::new(SCALE, 0, 0),
    });
    let tol = Tolerance::from_ticks(10).unwrap();
    let range = RangeOnCurve { start: 0, end: SCALE };
    let points = approx_global_path(&line, range, tol);
    assert!(points.is_empty());
}

#[test]
fn circle_samples_stay_within_tolerance_of_radius() {
    // A unit circle, approximated with tolerance 0.01: every sample's
    // distance from the centre is within 0.01 of 1.0.
    let tol_ticks: i64 = 100_000;
    let tol = Tolerance::from_ticks(tol_ticks).unwrap();
    let points = approx_global_path(&unit_circle(), full_range(), tol);
    assert!(!points.is_empty());
    let r = SCALE as i128;
    let lo = (r - tol_ticks as i128) * (r - tol_ticks as i128);
    let hi = (r + tol_ticks as i128) * (r + tol_ticks as i128);
    for p in &points {
        let x = p.global.x as i128;
        let y = p.global.y as i128;
        let z = p.global.z as i128;
        let dsq = x * x + y * y + z * z;
        assert!(lo <= dsq && dsq <= hi);
    }
}

#[test]
fn sample_count_grows_as_tolerance_shrinks() {
    let coarse = Tolerance::from_ticks(100_000).unwrap();
    let medium = Tolerance::from_ticks(10_000).unwrap();
    let fine = Tolerance::from_ticks(1_000).unwrap();
    let n_coarse = approx_global_path(&unit_circle(), full_range(), coarse).len();
    let n_medium = approx_global_path(&unit_circle(), full_range(), medium).len();
    let n_fine = approx_global_path(&unit_circle(), full_range(), fine).len();
    assert!(n_coarse <= n_medium && n_medium <= n_fine);
    assert!(n_coarse < n_fine);
}

#[test]
fn approx_with_cache_pairs_local_and_global_forms() {
    // A circle in the x-y plane, embedded in that surface: each produced
    // point carries surface-local and global coordinates and the source
    // tag of the global curve.
    let local = LocalCurve {
        path: SurfacePath::Circle(Circle2 {
            center: Point2::new(0, 0),
            radius: Vector2::new(SCALE, 0),
        }),
        global_form: GlobalCurve { id: 3, path: unit_circle() },
    };
    let tol = Tolerance::from_ticks(100_000).unwrap();
    let mut cache = ApproxCache::new();
    let approx = approx_with_cache(&local, full_range(), tol, &mut cache);
    assert_eq!(cache.computations, 1);
    assert!(!approx.points.is_empty());
    for p in &approx.points {
        let source = p.source.expect("every cached sample carries its source");
        assert_eq!(source.curve_id, 3);
        // The circle lies in the x-y plane with the surface axes aligned
        // to the model axes: local and global coordinates agree.
        assert_eq!(p.local.x, p.global.x);
        assert_eq!(p.local.y, p.global.y);
        assert_eq!(p.global.z, 0);
    }

    let again = approx_with_cache(&local, full_range(), tol, &mut cache);
    assert_eq!(cache.computations, 1);
    assert_eq!(approx.points, again.points);
}

#[test]
fn curve_approx_collects_points() {
    let empty = CurveApprox::empty();
    assert!(empty.points.is_empty());
    let tol = Tolerance::from_ticks(100_000).unwrap();
    let local = LocalCurve {
        path: SurfacePath::Circle(Circle2 {
            center: Point2::new(0, 0),
            radius: Vector2::new(SCALE, 0),
        }),
        global_form: GlobalCurve { id: 9, path: unit_circle() },
    };
    let mut cache = ApproxCache::new();
    let approx = approx_with_cache(&local, full_range(), tol, &mut cache);
    let n = approx.points.len();
    let collected = CurveApprox::empty().with_points(approx.points);
    assert_eq!(collected.points.len(), n);
}
