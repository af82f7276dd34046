//! The spherical pipeline: validates a batch of sphere points, projects each
//! one onto the plane, quantizes it to the triangulation grid and inserts
//! it, then stitches the projection pole.
//!
//! The pole `(0, -1, 0)` has no finite image, so it is never projected.
//! Instead, a stand-in vertex is inserted at the plane origin after all other
//! points ("pole stitching"), and its insertion outcome is the final entry of
//! the returned results. Under the fixed projection convention the plane
//! origin is the image of the pole's antipode `(0, 1, 0)`; the stand-in
//! simply reserves that most distant image point as an ordinary site, while
//! the pole's own Voronoi region remains represented by the unbounded rays.

use vstd::prelude::*;

verus! {

use crate::geometry::Point;
use crate::projection::{SpherePoint, SPHERE_LIMIT, forward, project_to_grid, spec_forward, spec_grid};
use crate::triangulation::{DelaunayTriangulation, InsertError, seq_has_duplicate};

/// The pipeline accepts exactly the well-formed grid points of the unit ball
/// strictly above the pole plane `y == -w` (every unit-sphere point but the
/// pole is such a point).
pub open spec fn sphere_point_ok(p: SpherePoint) -> bool {
    p.wf() && p.y + p.w > 0
}

/// What the pipeline does with one input point, given the grid points
/// `accepted` so far: reject it as degenerate when it is not an acceptable
/// sphere point or its quantized image leaves the grid, reject it as a
/// duplicate when that image falls within the tolerance of an accepted
/// point, and otherwise accept it under the next vertex handle.
pub open spec fn point_outcome(
    accepted: Seq<Point>,
    p: SpherePoint,
    scale: int,
    tol_sq: int,
) -> Result<usize, InsertError> {
    if !sphere_point_ok(p) {
        Err(InsertError::DegenerateInput)
    } else {
        let g = spec_grid(spec_forward(p), scale);
        if !g.in_range() {
            Err(InsertError::DegenerateInput)
        } else if seq_has_duplicate(accepted, g, tol_sq) {
            Err(InsertError::DuplicatePoint)
        } else {
            Ok(accepted.len() as usize)
        }
    }
}

/// The grid points the pipeline accepts out of `pts`, in input order.
pub open spec fn accepted_grid_points(pts: Seq<SpherePoint>, scale: int, tol_sq: int) -> Seq<Point>
    decreases pts.len(),
{
    if pts.len() == 0 {
        Seq::empty()
    } else {
        let prev = accepted_grid_points(pts.drop_last(), scale, tol_sq);
        if point_outcome(prev, pts.last(), scale, tol_sq) is Ok {
            prev.push(spec_grid(spec_forward(pts.last()), scale))
        } else {
            prev
        }
    }
}

/// The per-point outcomes of the pipeline over `pts`, in input order.
pub open spec fn pipeline_outcomes(pts: Seq<SpherePoint>, scale: int, tol_sq: int) -> Seq<
    Result<usize, InsertError>,
>
    decreases pts.len(),
{
    if pts.len() == 0 {
        Seq::empty()
    } else {
        pipeline_outcomes(pts.drop_last(), scale, tol_sq).push(
            point_outcome(
                accepted_grid_points(pts.drop_last(), scale, tol_sq),
                pts.last(),
                scale,
                tol_sq,
            ),
        )
    }
}

/// Builds the planar Delaunay triangulation of a batch of sphere points.
///
/// Result entry `i` reports the outcome for input point `i` exactly as
/// [`point_outcome`] describes it, the final extra entry reports the pole
/// stand-in inserted at the plane origin, and the triangulation's vertex
/// arena holds exactly the accepted grid points in input order, followed by
/// the origin if the stand-in was not a duplicate.
pub fn build_spherical_triangulation(pts: &Vec<SpherePoint>, scale: i64, tol_sq: i64) -> (r: (
    DelaunayTriangulation,
    Vec<Result<usize, InsertError>>,
))
    requires
        0 < scale <= 1_000_000,
        tol_sq >= 0,
    ensures
        r.0.wf(),
        r.0.tol_sq == tol_sq,
        r.1@.len() == pts@.len() + 1,
        r.1@.subrange(0, pts@.len() as int) == pipeline_outcomes(
            pts@,
            scale as int,
            tol_sq as int,
        ),
        ({
            let accepted = accepted_grid_points(pts@, scale as int, tol_sq as int);
            if seq_has_duplicate(accepted, (Point { x: 0, y: 0 }), tol_sq as int) {
                r.1@[pts@.len() as int] == Err::<usize, InsertError>(InsertError::DuplicatePoint)
                    && r.0.points@ == accepted
            } else {
                r.1@[pts@.len() as int] == Ok::<usize, InsertError>(accepted.len() as usize)
                    && r.0.points@ == accepted.push((Point { x: 0, y: 0 }))
            }
        }),
{
    let mut tri = DelaunayTriangulation::with_tolerance(tol_sq);
    let mut results: Vec<Result<usize, InsertError>> = Vec::new();
    let n = pts.len();
    proof {
        assert(pts@.subrange(0, 0) =~= Seq::<SpherePoint>::empty());
    }
    for i in 0..n
        invariant
            n == pts@.len(),
            tri.wf(),
            tri.tol_sq == tol_sq,
            results@.len() == i,
            0 < scale <= 1_000_000,
            tri.points@ == accepted_grid_points(
                pts@.subrange(0, i as int),
                scale as int,
                tol_sq as int,
            ),
            results@ == pipeline_outcomes(pts@.subrange(0, i as int), scale as int, tol_sq as int),
    {
        let ghost prefix = pts@.subrange(0, i as int);
        let ghost prefix1 = pts@.subrange(0, i as int + 1);
        proof {
            assert(prefix1.drop_last() =~= prefix);
            assert(prefix1.last() == pts@[i as int]);
        }
        let p = pts[i];
        let ok_wf = p.w >= 1 && p.w <= SPHERE_LIMIT && p.x >= -p.w && p.x <= p.w && p.y >= -p.w
            && p.y <= p.w && p.z >= -p.w && p.z <= p.w;
        if ok_wf && p.y > -p.w {
            let q = forward(&p);
            let g = project_to_grid(&q, scale);
            let res = tri.insert(g);
            results.push(res);
            proof {
                assert(sphere_point_ok(p));
                assert(g == spec_grid(spec_forward(p), scale as int));
            }
        } else {
            results.push(Err(InsertError::DegenerateInput));
            proof {
                assert(!sphere_point_ok(p));
            }
        }
    }
    proof {
        assert(pts@.subrange(0, n as int) =~= pts@);
    }
    // Pole stitching: a stand-in vertex at the plane origin, inserted after
    // every projected point.
    let pole_res = tri.insert(Point::new(0, 0));
    results.push(pole_res);
    proof {
        assert(results@.subrange(0, pts@.len() as int) =~= pipeline_outcomes(
            pts@,
            scale as int,
            tol_sq as int,
        ));
    }
    (tri, results)
}

} // verus!
