use sphere_voronoi::geometry::Point;
use sphere_voronoi::triangulation::{DelaunayTriangulation, Face};
use sphere_voronoi::voronoi::{extract_voronoi, VoronoiEdge};

fn insert_all(tri: &mut DelaunayTriangulation, pts: &[(i64, i64)]) {
    for &(x, y) in pts {
        tri.insert(Point::new(x, y)).expect("insertion should succeed");
    }
}

fn count_segments(edges: &[VoronoiEdge]) -> usize {
    edges.iter().filter(|e| matches!(e, VoronoiEdge::Segment { .. })).count()
}

fn count_rays(edges: &[VoronoiEdge]) -> usize {
    edges.iter().filter(|e| matches!(e, VoronoiEdge::Ray { .. })).count()
}

#[test]
fn single_triangle_yields_no_segments() {
    let mut tri = DelaunayTriangulation::new();
    insert_all(&mut tri, &[(0, 0), (1, 0), (0, 1)]);
    assert_eq!(tri.num_faces(), 1);
    let dual = extract_voronoi(&tri);
    // No interior edge exists, so no bounded Voronoi edge; each of the three
    // hull edges casts one unbounded ray.
    assert_eq!(count_segments(&dual.edges), 0);
    assert_eq!(count_rays(&dual.edges), 3);
    assert_eq!(dual.warnings.len(), 0);
}

#[test]
fn square_yields_one_segment_and_four_rays() {
    let mut tri = DelaunayTriangulation::new();
    insert_all(&mut tri, &[(0, 0), (1, 0), (0, 1), (1, 1)]);
    assert_eq!(tri.num_faces(), 2);
    let dual = extract_voronoi(&tri);
    assert_eq!(count_segments(&dual.edges), 1);
    assert_eq!(count_rays(&dual.edges), 4);
    assert_eq!(dual.warnings.len(), 0);
    // Both circumcenters sit at the square's center (1/2, 1/2); the one
    // bounded Voronoi edge joins them.
    for e in &dual.edges {
        if let VoronoiEdge::Segment { a, b } = e {
            assert_eq!(2 * a.center.xn, a.center.d);
            assert_eq!(2 * a.center.yn, a.center.d);
            assert_eq!(2 * b.center.xn, b.center.d);
            assert_eq!(2 * b.center.yn, b.center.d);
        }
    }
}

#[test]
fn collinear_input_yields_no_voronoi_edges() {
    let mut tri = DelaunayTriangulation::new();
    insert_all(&mut tri, &[(0, 0), (1, 0), (2, 0)]);
    assert_eq!(tri.num_faces(), 0);
    let dual = extract_voronoi(&tri);
    assert_eq!(dual.edges.len(), 0);
    assert_eq!(dual.warnings.len(), 0);
}

#[test]
fn extraction_is_idempotent() {
    let mut tri = DelaunayTriangulation::new();
    insert_all(
        &mut tri,
        &[(0, 0), (100, 0), (50, 80), (50, 30), (20, 60), (80, 60), (50, -40)],
    );
    let first = extract_voronoi(&tri);
    let second = extract_voronoi(&tri);
    assert_eq!(first.edges, second.edges);
    assert_eq!(first.warnings, second.warnings);
}

#[test]
fn ray_directions_point_outward() {
    let mut tri = DelaunayTriangulation::new();
    insert_all(&mut tri, &[(0, 0), (4, 0), (0, 4)]);
    let dual = extract_voronoi(&tri);
    assert_eq!(count_rays(&dual.edges), 3);
    // The centroid of the single face is at (4/3, 4/3); every ray direction
    // must point away from it: positive dot product with the vector from the
    // centroid to the hull edge midpoint, and never inward.
    for e in &dual.edges {
        if let VoronoiEdge::Ray { from: _, to } = e {
            let face = tri.face(to.face);
            let verts = [face.v0, face.v1, face.v2];
            let corner = |i: usize| {
                let p = tri.vertex(verts[i]);
                (p.x as f64, p.y as f64)
            };
            let (ax, ay) = corner(to.corner);
            let b = corner((to.corner + 1) % 3);
            let c = corner((to.corner + 2) % 3);
            let mid = ((b.0 + c.0) / 2.0, (b.1 + c.1) / 2.0);
            let outward = (mid.0 - (ax + b.0 + c.0) / 3.0, mid.1 - (ay + b.1 + c.1) / 3.0);
            let dot = outward.0 * to.dir_x as f64 + outward.1 * to.dir_y as f64;
            assert!(dot > 0.0, "ray direction points inward");
        }
    }
}

#[test]
fn degenerate_face_is_skipped_with_a_warning() {
    // A handmade arena holding one exactly collinear (zero-area) face: the
    // extractor must skip it and report it, rather than divide by zero.
    let tri = DelaunayTriangulation {
        points: vec![
            Point::new(0, 0),
            Point::new(1, 0),
            Point::new(2, 0),
            Point::new(0, 5),
        ],
        faces: vec![Face { v0: 0, v1: 1, v2: 2, n0: None, n1: None, n2: None }],
        tol_sq: 0,
        legalize_debt: 0,
    };
    let dual = extract_voronoi(&tri);
    assert_eq!(dual.edges.len(), 0);
    assert_eq!(dual.warnings.len(), 1);
    assert_eq!(dual.warnings[0].face, 0);
}

#[test]
fn circumcenters_are_equidistant_from_face_corners() {
    let mut tri = DelaunayTriangulation::new();
    insert_all(&mut tri, &[(0, 0), (100, 0), (50, 80), (50, 30)]);
    let dual = extract_voronoi(&tri);
    let check = |face: usize, center: &sphere_voronoi::geometry::RatPoint| {
        let f = tri.face(face);
        let cx = center.xn as f64 / center.d as f64;
        let cy = center.yn as f64 / center.d as f64;
        let d2 = |v: usize| {
            let p = tri.vertex(v);
            (cx - p.x as f64).powi(2) + (cy - p.y as f64).powi(2)
        };
        let (da, db, dc) = (d2(f.v0), d2(f.v1), d2(f.v2));
        assert!((da - db).abs() < 1e-6 && (da - dc).abs() < 1e-6);
    };
    let mut seen = 0;
    for e in &dual.edges {
        match e {
            VoronoiEdge::Segment { a, b } => {
                check(a.face, &a.center);
                check(b.face, &b.center);
                seen += 1;
            }
            VoronoiEdge::Ray { from, .. } => {
                check(from.face, &from.center);
                seen += 1;
            }
        }
    }
    assert!(seen > 0);
}
