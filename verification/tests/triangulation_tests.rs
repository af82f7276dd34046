use sphere_voronoi::geometry::Point;
use sphere_voronoi::triangulation::{DelaunayTriangulation, InsertError};

fn insert_all(tri: &mut DelaunayTriangulation, pts: &[(i64, i64)]) {
    for &(x, y) in pts {
        tri.insert(Point::new(x, y)).expect("insertion should succeed");
    }
}

/// The canonical shape of the triangulation: each face as its three vertex
/// positions, sorted, the whole collection sorted. Two triangulations with
/// the same shape have the same topology regardless of handle numbering.
fn face_shape(tri: &DelaunayTriangulation) -> Vec<[(i64, i64); 3]> {
    let mut shape = Vec::new();
    for f in 0..tri.num_faces() {
        let face = tri.face(f);
        let mut tri_pts = [
            (tri.vertex(face.v0).x, tri.vertex(face.v0).y),
            (tri.vertex(face.v1).x, tri.vertex(face.v1).y),
            (tri.vertex(face.v2).x, tri.vertex(face.v2).y),
        ];
        tri_pts.sort();
        shape.push(tri_pts);
    }
    shape.sort();
    shape
}

#[test]
fn single_triangle_has_one_face() {
    let mut tri = DelaunayTriangulation::new();
    insert_all(&mut tri, &[(0, 0), (1, 0), (0, 1)]);
    assert_eq!(tri.num_faces(), 1);
    assert_eq!(tri.num_vertices(), 3);
    assert!(tri.is_delaunay());
}

#[test]
fn square_has_two_faces() {
    let mut tri = DelaunayTriangulation::new();
    insert_all(&mut tri, &[(0, 0), (1, 0), (0, 1), (1, 1)]);
    assert_eq!(tri.num_faces(), 2);
    assert!(tri.is_delaunay());
    assert!(tri.has_symmetric_neighbors());
    assert_eq!(tri.legalize_debt, 0);
}

#[test]
fn collinear_points_produce_no_faces() {
    let mut tri = DelaunayTriangulation::new();
    insert_all(&mut tri, &[(0, 0), (1, 0), (2, 0)]);
    assert_eq!(tri.num_faces(), 0);
    assert_eq!(tri.num_vertices(), 3);
}

#[test]
fn collinear_prefix_is_triangulated_by_first_offline_point() {
    let mut tri = DelaunayTriangulation::new();
    insert_all(&mut tri, &[(0, 0), (2, 0), (1, 0), (4, 0), (3, 0)]);
    assert_eq!(tri.num_faces(), 0);
    tri.insert(Point::new(2, 3)).unwrap();
    // Six vertices, five of them on a line plus one apex: four triangles.
    assert_eq!(tri.num_vertices(), 6);
    assert_eq!(tri.num_faces(), 4);
    assert!(tri.is_delaunay());
    assert!(tri.has_symmetric_neighbors());
}

#[test]
fn duplicate_point_is_rejected_and_state_unchanged() {
    let mut tri = DelaunayTriangulation::new();
    insert_all(&mut tri, &[(0, 0), (5, 0), (0, 5)]);
    let before_vertices = tri.num_vertices();
    let before_faces = tri.num_faces();
    assert_eq!(tri.insert(Point::new(5, 0)), Err(InsertError::DuplicatePoint));
    assert_eq!(tri.num_vertices(), before_vertices);
    assert_eq!(tri.num_faces(), before_faces);
}

#[test]
fn tolerance_rejects_nearby_points() {
    let mut tri = DelaunayTriangulation::with_tolerance(4);
    tri.insert(Point::new(0, 0)).unwrap();
    // Squared distance 4 is within the tolerance, 5 is not.
    assert_eq!(tri.insert(Point::new(2, 0)), Err(InsertError::DuplicatePoint));
    assert_eq!(tri.insert(Point::new(2, 1)), Ok(1));
}

#[test]
fn out_of_grid_point_is_degenerate_input() {
    let mut tri = DelaunayTriangulation::new();
    assert_eq!(
        tri.insert(Point::new(1_000_001, 0)),
        Err(InsertError::DegenerateInput)
    );
    assert_eq!(
        tri.insert(Point::new(0, -1_000_001)),
        Err(InsertError::DegenerateInput)
    );
    assert_eq!(tri.num_vertices(), 0);
}

#[test]
fn vertex_handles_are_permanent_and_sequential() {
    let mut tri = DelaunayTriangulation::new();
    assert_eq!(tri.insert(Point::new(0, 0)), Ok(0));
    assert_eq!(tri.insert(Point::new(7, 0)), Ok(1));
    assert_eq!(tri.insert(Point::new(0, 7)), Ok(2));
    assert_eq!(tri.insert(Point::new(7, 7)), Ok(3));
    assert_eq!(tri.vertex(0), Point::new(0, 0));
    assert_eq!(tri.vertex(1), Point::new(7, 0));
    assert_eq!(tri.vertex(2), Point::new(0, 7));
    assert_eq!(tri.vertex(3), Point::new(7, 7));
}

#[test]
fn interior_point_splits_face_into_three() {
    let mut tri = DelaunayTriangulation::new();
    insert_all(&mut tri, &[(0, 0), (4, 0), (0, 4)]);
    tri.insert(Point::new(1, 1)).unwrap();
    assert_eq!(tri.num_faces(), 3);
    assert!(tri.is_delaunay());
}

#[test]
fn point_on_hull_edge_splits_face_into_two() {
    let mut tri = DelaunayTriangulation::new();
    insert_all(&mut tri, &[(0, 0), (4, 0), (0, 4)]);
    tri.insert(Point::new(2, 0)).unwrap();
    assert_eq!(tri.num_faces(), 2);
    assert!(tri.is_delaunay());
}

#[test]
fn point_on_interior_edge_splits_both_faces() {
    let mut tri = DelaunayTriangulation::new();
    // Two triangles sharing the interior edge from (0, 4) to (4, 0).
    insert_all(&mut tri, &[(0, 0), (4, 0), (0, 4), (4, 4)]);
    assert_eq!(tri.num_faces(), 2);
    tri.insert(Point::new(2, 2)).unwrap();
    assert_eq!(tri.num_faces(), 4);
    assert!(tri.is_delaunay());
}

#[test]
fn empty_circle_property_holds_on_general_position_sets() {
    let point_sets: Vec<Vec<(i64, i64)>> = vec![
        vec![(0, 0), (100, 0), (50, 80), (50, 30), (20, 60), (80, 60)],
        vec![(0, 0), (1000, 10), (400, 700), (900, 900), (200, 400), (650, 150), (333, 280)],
        vec![(-500, -500), (500, -480), (0, 600), (20, 30), (-200, 100), (250, -100), (100, 450)],
        vec![(0, 0), (10, 0), (5, 15), (5, 5), (5, -9), (14, 7), (-4, 7)],
    ];
    for pts in point_sets {
        let mut tri = DelaunayTriangulation::new();
        insert_all(&mut tri, &pts);
        assert!(tri.is_delaunay(), "empty-circle property violated for {:?}", pts);
        assert_eq!(tri.num_vertices(), pts.len());
    }
}

#[test]
fn insertion_order_does_not_change_topology() {
    // Four points in strict general position (no four cocircular), under
    // every insertion order.
    let pts = [(0i64, 0i64), (100, 10), (30, 80), (90, 90)];
    let mut orders: Vec<[usize; 4]> = Vec::new();
    for a in 0..4 {
        for b in 0..4 {
            for c in 0..4 {
                for d in 0..4 {
                    if a != b && a != c && a != d && b != c && b != d && c != d {
                        orders.push([a, b, c, d]);
                    }
                }
            }
        }
    }
    assert_eq!(orders.len(), 24);
    let mut reference: Option<Vec<[(i64, i64); 3]>> = None;
    for order in orders {
        let mut tri = DelaunayTriangulation::new();
        for &i in order.iter() {
            tri.insert(Point::new(pts[i].0, pts[i].1)).unwrap();
        }
        assert!(tri.is_delaunay());
        assert!(tri.has_symmetric_neighbors());
        let shape = face_shape(&tri);
        match &reference {
            None => reference = Some(shape),
            Some(r) => assert_eq!(&shape, r, "topology differs for order {:?}", order),
        }
    }
}

#[test]
fn legalization_flips_a_non_delaunay_diagonal() {
    let mut tri = DelaunayTriangulation::new();
    // A thin pair: without flipping, the diagonal from (0, 1) to (10, 1)
    // would survive even though both far vertices invade the circumcircles.
    insert_all(&mut tri, &[(0, 1), (10, 1), (5, 2), (5, -8)]);
    assert!(tri.is_delaunay());
}

#[test]
fn larger_point_set_stays_delaunay() {
    let pts: Vec<(i64, i64)> = vec![
        (-647, -443),
        (281, 299),
        (-42, -605),
        (-31, -779),
        (-448, -805),
        (-708, -152),
        (391, 384),
        (293, -774),
        (-757, -408),
        (781, 197),
        (240, 858),
        (-237, -592),
        (-824, -724),
        (-802, -752),
        (207, -659),
        (-92, 433),
        (139, -461),
        (-88, -799),
        (-12, -44),
        (-628, -307),
        (269, -269),
        (-715, 228),
        (293, -782),
        (793, 258),
        (0, 0),
        (300, 0),
        (600, 0),
        (450, 0),
        (0, 300),
        (0, 600),
    ];
    let mut tri = DelaunayTriangulation::new();
    for &(x, y) in &pts {
        tri.insert(Point::new(x, y)).unwrap();
    }
    assert_eq!(tri.num_vertices(), pts.len());
    assert!(tri.num_faces() > pts.len());
    assert!(tri.is_delaunay());
    assert!(tri.has_symmetric_neighbors());
    assert_eq!(tri.legalize_debt, 0);
}
