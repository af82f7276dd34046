use sphere_voronoi::geometry::RatPoint;
use sphere_voronoi::pipeline::build_spherical_triangulation;
use sphere_voronoi::projection::{forward, inverse, project_to_grid, rat_to_plane, PlanePoint, SpherePoint};
use sphere_voronoi::reconstruct::{reconstruct_by_inverse, spherical_circumcenter, Direction3};
use sphere_voronoi::triangulation::InsertError;
use sphere_voronoi::voronoi::extract_voronoi;

/// Exact rational points on the unit sphere (x^2 + y^2 + z^2 == w^2),
/// excluding the projection pole (0, -1, 0).
fn sample_sphere_points() -> Vec<SpherePoint> {
    vec![
        SpherePoint::new(1, 2, 2, 3),
        SpherePoint::new(2, 3, 6, 7),
        SpherePoint::new(-1, 4, 8, 9),
        SpherePoint::new(2, -6, 9, 11),
        SpherePoint::new(0, 3, -4, 5),
        SpherePoint::new(0, 1, 0, 1),
        SpherePoint::new(-4, 0, 3, 5),
        SpherePoint::new(6, -2, -3, 7),
    ]
}

#[test]
fn forward_then_inverse_is_the_identity_on_the_sphere() {
    for p in sample_sphere_points() {
        let q = forward(&p);
        let r = inverse(&q);
        // Exact homogeneous equality: the same point of the sphere.
        assert_eq!(r.x as i128 * p.w as i128, p.x as i128 * r.w as i128);
        assert_eq!(r.y as i128 * p.w as i128, p.y as i128 * r.w as i128);
        assert_eq!(r.z as i128 * p.w as i128, p.z as i128 * r.w as i128);
        // And, a fortiori, within the 1e-9 tolerance in real coordinates.
        let (px, py, pz) = (
            p.x as f64 / p.w as f64,
            p.y as f64 / p.w as f64,
            p.z as f64 / p.w as f64,
        );
        let (rx, ry, rz) = (
            r.x as f64 / r.w as f64,
            r.y as f64 / r.w as f64,
            r.z as f64 / r.w as f64,
        );
        assert!((px - rx).abs() < 1e-9);
        assert!((py - ry).abs() < 1e-9);
        assert!((pz - rz).abs() < 1e-9);
    }
}

#[test]
fn inverse_lands_exactly_on_the_unit_sphere() {
    let samples = vec![
        PlanePoint::new(0, 0, 1),
        PlanePoint::new(1, 1, 2),
        PlanePoint::new(-7, 3, 5),
        PlanePoint::new(20_000, -20_000, 1),
    ];
    for q in samples {
        let r = inverse(&q);
        let (x, y, z, w) = (r.x as i128, r.y as i128, r.z as i128, r.w as i128);
        assert_eq!(x * x + y * y + z * z, w * w);
        assert!(w > 0);
    }
}

#[test]
fn plane_origin_maps_to_the_antipode_of_the_pole() {
    let r = inverse(&PlanePoint::new(0, 0, 1));
    assert_eq!((r.x, r.y, r.z, r.w), (0, 1, 0, 1));
}

#[test]
fn project_to_grid_truncates_toward_zero() {
    assert_eq!(
        {
            let p = project_to_grid(&PlanePoint::new(1, 1, 2), 1000);
            (p.x, p.y)
        },
        (500, 500)
    );
    assert_eq!(
        {
            let p = project_to_grid(&PlanePoint::new(-1, -1, 2), 1000);
            (p.x, p.y)
        },
        (-500, -500)
    );
    assert_eq!(
        {
            let p = project_to_grid(&PlanePoint::new(1, -1, 3), 10);
            (p.x, p.y)
        },
        (3, -3)
    );
}

#[test]
fn spherical_circumcenter_of_an_octant_triangle() {
    let a = SpherePoint::new(1, 0, 0, 1);
    let b = SpherePoint::new(0, 1, 0, 1);
    let c = SpherePoint::new(0, 0, 1, 1);
    let d = spherical_circumcenter(&a, &b, &c).expect("non-degenerate triangle");
    // The symmetric direction (1, 1, 1), equidistant from all three corners.
    assert_eq!(d, Direction3 { x: 1, y: 1, z: 1 });
}

#[test]
fn spherical_circumcenter_is_oriented_toward_the_triangle() {
    let a = SpherePoint::new(1, 0, 0, 1);
    let b = SpherePoint::new(0, 0, 1, 1);
    let c = SpherePoint::new(0, 1, 0, 1);
    // Same triangle with the opposite winding: same oriented center.
    let d = spherical_circumcenter(&a, &b, &c).expect("non-degenerate triangle");
    assert_eq!(d, Direction3 { x: 1, y: 1, z: 1 });
}

#[test]
fn spherical_circumcenter_rejects_a_great_circle_triangle() {
    // Three points on one great circle: the plane passes through the center,
    // so no hemisphere is preferred.
    let a = SpherePoint::new(1, 0, 0, 1);
    let b = SpherePoint::new(0, 1, 0, 1);
    let c = SpherePoint::new(-1, 0, 0, 1);
    assert!(spherical_circumcenter(&a, &b, &c).is_none());
}

#[test]
fn reconstruct_by_inverse_scales_to_the_radius() {
    let r = reconstruct_by_inverse(&PlanePoint::new(0, 0, 1), 1000);
    assert_eq!((r.x, r.y, r.z, r.w), (0, 1000, 0, 1));
    let s = reconstruct_by_inverse(&PlanePoint::new(1, 1, 2), 1000);
    let (x, y, z, w) = (s.x as i128, s.y as i128, s.z as i128, s.w as i128);
    assert_eq!(x * x + y * y + z * z, 1_000_000 * (w * w));
}

#[test]
fn spherical_circumcenter_is_equidistant_from_the_corners() {
    // The defining property of the direct strategy: the oriented plane
    // normal makes equal angles with the three unit-sphere corners.
    let a = SpherePoint::new(1, 2, 2, 3);
    let b = SpherePoint::new(2, 3, 6, 7);
    let c = SpherePoint::new(0, 3, -4, 5);
    let d = spherical_circumcenter(&a, &b, &c).expect("non-degenerate");
    let n = ((d.x * d.x + d.y * d.y + d.z * d.z) as f64).sqrt();
    let unit = (d.x as f64 / n, d.y as f64 / n, d.z as f64 / n);
    let angle_cos = |p: &SpherePoint| {
        (unit.0 * p.x as f64 + unit.1 * p.y as f64 + unit.2 * p.z as f64) / p.w as f64
    };
    let (ca, cb, cc) = (angle_cos(&a), angle_cos(&b), angle_cos(&c));
    assert!((ca - cb).abs() < 1e-9);
    assert!((ca - cc).abs() < 1e-9);
    // It is oriented toward the hemisphere holding the triangle: both
    // strategies agree on that side. The projection round trip is only an
    // approximation of the direct center, so no closer agreement is asserted.
    let q = forward(&a);
    let s = reconstruct_by_inverse(&q, 1_000);
    let side = unit.0 * s.x as f64 + unit.1 * s.y as f64 + unit.2 * s.z as f64;
    assert!(side > 0.0);
}

#[test]
fn pipeline_builds_a_triangulation_and_stitches_the_pole() {
    // The antipode of the pole is left out: it projects to the plane origin,
    // which the pole stand-in occupies.
    let pts: Vec<SpherePoint> = sample_sphere_points()
        .into_iter()
        .filter(|p| !(p.x == 0 && p.z == 0 && p.y == p.w))
        .collect();
    let (tri, results) = build_spherical_triangulation(&pts, 500_000, 0);
    assert_eq!(results.len(), pts.len() + 1);
    for r in &results {
        assert!(r.is_ok(), "a valid sphere point was rejected: {:?}", r);
    }
    assert_eq!(tri.num_vertices(), pts.len() + 1);
    assert!(tri.num_faces() > 0);
    assert!(tri.is_delaunay());
    assert!(tri.has_symmetric_neighbors());
    assert_eq!(tri.legalize_debt, 0);
    let dual = extract_voronoi(&tri);
    assert!(dual.edges.len() > 0);
    assert_eq!(dual.warnings.len(), 0);
}

#[test]
fn rat_to_plane_quantizes_circumcenters() {
    // The point (1/2, 1/2) in grid units at grid scale 1: quantized onto the
    // denominator 10_000 it is exactly (5000, 5000) / 10_000.
    let c = RatPoint { xn: 1, yn: 1, d: 2 };
    let q = rat_to_plane(&c, 1, 10_000).expect("within the plane domain");
    assert_eq!((q.u, q.v, q.w), (5000, 5000, 10_000));
    // Truncation toward zero, negative coordinates included.
    let c2 = RatPoint { xn: -10, yn: 7, d: 3 };
    let q2 = rat_to_plane(&c2, 1, 3).expect("within the plane domain");
    assert_eq!((q2.u, q2.v, q2.w), (-10, 7, 3));
    // A center too far out to quantize is reported, not clamped.
    let c3 = RatPoint { xn: 3_000_000, yn: 0, d: 1 };
    assert!(rat_to_plane(&c3, 1, 1_000_000).is_none());
}

#[test]
fn pipeline_rejects_the_pole_and_off_sphere_points() {
    let pts = vec![
        SpherePoint::new(0, -1, 0, 1),  // the projection pole
        SpherePoint::new(1, 0, 0, 0),   // not a valid homogeneous point
        SpherePoint::new(0, -3, 0, 2),  // outside the unit ball
        SpherePoint::new(1, 2, 2, 3),   // fine
    ];
    let (_tri, results) = build_spherical_triangulation(&pts, 1_000_000, 0);
    assert_eq!(results[0], Err(InsertError::DegenerateInput));
    assert_eq!(results[1], Err(InsertError::DegenerateInput));
    assert_eq!(results[2], Err(InsertError::DegenerateInput));
    assert!(results[3].is_ok());
    assert!(results[4].is_ok());
}
