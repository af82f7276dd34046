//! Dual-graph extraction: reads a finished triangulation and produces the
//! Voronoi diagram's edges, visiting every undirected triangulation edge
//! exactly once: an interior edge is emitted only from the lower of its two
//! face handles, so emission is once per adjacent face pair — which is once
//! per undirected edge exactly when the arena's adjacency is symmetric (the
//! invariant that `DelaunayTriangulation::neighbors_symmetric` states and
//! `has_symmetric_neighbors` decides).
//!
//! An interior edge (two incident faces) yields a [`VoronoiEdge::Segment`]
//! between the two circumcenters; a hull edge (one incident face) yields a
//! [`VoronoiEdge::Ray`] from the circumcenter outward, perpendicular to the
//! hull edge; with no faces at all (collinear input) nothing is emitted. A
//! zero-area face is skipped and reported as a
//! [`NumericalInstabilityWarning`] instead of dividing by zero.

use vstd::prelude::*;

verus! {

use crate::geometry::{
    Point,
    RatPoint,
    orient2d,
    orient2d_spec,
    circumcenter,
    circum_xn,
    circum_yn,
    circum_den,
    lemma_mul_bound,
};
use crate::triangulation::{DelaunayTriangulation, nxt, next_corner};

/// A bounded Voronoi vertex: the exact circumcenter of the face with the
/// given handle.
#[derive(Clone, Copy, PartialEq, Eq, Structural, Debug)]
pub struct InnerVertex {
    pub face: usize,
    pub center: RatPoint,
}

/// An unbounded Voronoi vertex: the hull edge of `face` opposite `corner`,
/// together with the outward direction of the Voronoi ray that crosses it.
/// The direction is an exact non-zero integer vector perpendicular to the
/// hull edge, pointing away from the face; consumers normalize its length.
#[derive(Clone, Copy, PartialEq, Eq, Structural, Debug)]
pub struct OuterVertex {
    pub face: usize,
    pub corner: usize,
    pub dir_x: i64,
    pub dir_y: i64,
}

/// One edge of the Voronoi diagram: a bounded segment between two
/// circumcenters, or a ray from a circumcenter through a hull edge. A
/// conceptual edge with no incident face on either side (collinear input)
/// is never emitted.
#[derive(Clone, Copy, PartialEq, Eq, Structural, Debug)]
pub enum VoronoiEdge {
    Segment { a: InnerVertex, b: InnerVertex },
    Ray { from: InnerVertex, to: OuterVertex },
}

/// A face whose three vertices are exactly collinear was skipped during
/// extraction: its circumcenter does not exist.
#[derive(Clone, Copy, PartialEq, Eq, Structural, Debug)]
pub struct NumericalInstabilityWarning {
    pub face: usize,
}

/// The extracted dual graph: the Voronoi edges in face order, and one
/// warning for every zero-area face that had to be skipped.
pub struct VoronoiDiagram {
    pub edges: Vec<VoronoiEdge>,
    pub warnings: Vec<NumericalInstabilityWarning>,
}

/// The position of corner `i` of face `f`.
pub open spec fn corner_point(t: DelaunayTriangulation, f: int, i: int) -> Point {
    t.points@[t.faces@[f].vert(i) as int]
}

/// The face's three corners are exactly collinear, so it has no
/// circumcenter.
pub open spec fn face_degenerate(t: DelaunayTriangulation, f: int) -> bool {
    orient2d_spec(corner_point(t, f, 0), corner_point(t, f, 1), corner_point(t, f, 2)) == 0
}

/// The exact circumcenter of face `f`.
pub open spec fn spec_center(t: DelaunayTriangulation, f: int) -> RatPoint {
    RatPoint {
        xn: circum_xn(corner_point(t, f, 0), corner_point(t, f, 1), corner_point(t, f, 2)) as i128,
        yn: circum_yn(corner_point(t, f, 0), corner_point(t, f, 1), corner_point(t, f, 2)) as i128,
        d: circum_den(corner_point(t, f, 0), corner_point(t, f, 1), corner_point(t, f, 2)) as i128,
    }
}

/// The bounded Voronoi vertex of face `f`.
pub open spec fn spec_inner(t: DelaunayTriangulation, f: int) -> InnerVertex {
    InnerVertex { face: f as usize, center: spec_center(t, f) }
}

/// First component of the outward ray direction for the hull edge `(b, c)`
/// of a face whose remaining corner is `a`: the perpendicular of the edge
/// vector, oriented away from `a`.
pub open spec fn ray_dir_x(a: Point, b: Point, c: Point) -> int {
    let vx = c.x - b.x;
    let vy = c.y - b.y;
    let wx = 2 * a.x - b.x - c.x;
    let wy = 2 * a.y - b.y - c.y;
    if vy * wx - vx * wy < 0 {
        vy
    } else {
        -vy
    }
}

/// Second component of the outward ray direction (see [`ray_dir_x`]).
pub open spec fn ray_dir_y(a: Point, b: Point, c: Point) -> int {
    let vx = c.x - b.x;
    let vy = c.y - b.y;
    let wx = 2 * a.x - b.x - c.x;
    let wy = 2 * a.y - b.y - c.y;
    if vy * wx - vx * wy < 0 {
        -vx
    } else {
        vx
    }
}

/// The unbounded Voronoi vertex for the hull edge of face `f` opposite
/// corner `e`.
pub open spec fn spec_outer(t: DelaunayTriangulation, f: int, e: int) -> OuterVertex {
    let a = corner_point(t, f, e);
    let b = corner_point(t, f, nxt(e));
    let c = corner_point(t, f, nxt(nxt(e)));
    OuterVertex {
        face: f as usize,
        corner: e as usize,
        dir_x: ray_dir_x(a, b, c) as i64,
        dir_y: ray_dir_y(a, b, c) as i64,
    }
}

/// What the edge of face `f` opposite corner `e` contributes to the Voronoi
/// diagram: nothing for a degenerate face; for an interior edge, one segment,
/// emitted only from the lower face handle and only when both faces are
/// non-degenerate; for a hull edge, one ray.
pub open spec fn emits(t: DelaunayTriangulation, f: int, e: int) -> Seq<VoronoiEdge> {
    if face_degenerate(t, f) {
        Seq::empty()
    } else {
        match t.faces@[f].nbr(e) {
            Some(g) => if f < g && !face_degenerate(t, g as int) {
                seq![VoronoiEdge::Segment { a: spec_inner(t, f), b: spec_inner(t, g as int) }]
            } else {
                Seq::empty()
            },
            None => seq![VoronoiEdge::Ray { from: spec_inner(t, f), to: spec_outer(t, f, e) }],
        }
    }
}

/// The edges contributed by the first `e` edges of face `f`.
pub open spec fn face_edges_upto(t: DelaunayTriangulation, f: int, e: int) -> Seq<VoronoiEdge>
    decreases e,
{
    if e <= 0 {
        Seq::empty()
    } else {
        face_edges_upto(t, f, e - 1) + emits(t, f, e - 1)
    }
}

/// The edges contributed by the first `f` faces.
pub open spec fn edges_upto(t: DelaunayTriangulation, f: int) -> Seq<VoronoiEdge>
    decreases f,
{
    if f <= 0 {
        Seq::empty()
    } else {
        edges_upto(t, f - 1) + face_edges_upto(t, f - 1, 3)
    }
}

/// The full Voronoi edge collection of the triangulation: every undirected
/// triangulation edge visited exactly once, in face order.
pub open spec fn voronoi_edges_spec(t: DelaunayTriangulation) -> Seq<VoronoiEdge> {
    edges_upto(t, t.faces@.len() as int)
}

/// The warnings produced by the first `f` faces: one per degenerate face.
pub open spec fn warns_upto(t: DelaunayTriangulation, f: int) -> Seq<NumericalInstabilityWarning>
    decreases f,
{
    if f <= 0 {
        Seq::empty()
    } else {
        warns_upto(t, f - 1) + (if face_degenerate(t, f - 1) {
            seq![NumericalInstabilityWarning { face: (f - 1) as usize }]
        } else {
            Seq::empty()
        })
    }
}

/// All warnings of the extraction.
pub open spec fn voronoi_warnings_spec(t: DelaunayTriangulation) -> Seq<
    NumericalInstabilityWarning,
> {
    warns_upto(t, t.faces@.len() as int)
}

/// Computes the unbounded Voronoi vertex of the hull edge `(b, c)` whose far
/// corner is `a`, exactly as the specification describes it.
fn compute_outer(a: Point, b: Point, c: Point, f: usize, e: usize) -> (r: OuterVertex)
    requires
        a.in_range(),
        b.in_range(),
        c.in_range(),
    ensures
        r.face == f,
        r.corner == e,
        r.dir_x as int == ray_dir_x(a, b, c),
        r.dir_y as int == ray_dir_y(a, b, c),
{
    let vx = c.x - b.x;
    let vy = c.y - b.y;
    let wx = 2 * a.x - b.x - c.x;
    let wy = 2 * a.y - b.y - c.y;
    proof {
        lemma_mul_bound(vy as int, wx as int, 2_000_000, 4_000_000);
        lemma_mul_bound(vx as int, wy as int, 2_000_000, 4_000_000);
    }
    let d = vy * wx - vx * wy;
    if d < 0 {
        OuterVertex { face: f, corner: e, dir_x: vy, dir_y: -vx }
    } else {
        OuterVertex { face: f, corner: e, dir_x: -vy, dir_y: vx }
    }
}

/// Extracts the Voronoi diagram of the triangulation: exactly the edges and
/// warnings that the specification functions [`voronoi_edges_spec`] and
/// [`voronoi_warnings_spec`] describe, so the output is a pure function of
/// the triangulation.
pub fn extract_voronoi(t: &DelaunayTriangulation) -> (r: VoronoiDiagram)
    requires
        t.wf(),
    ensures
        r.edges@ == voronoi_edges_spec(*t),
        r.warnings@ == voronoi_warnings_spec(*t),
{
    let mut edges: Vec<VoronoiEdge> = Vec::new();
    let mut warnings: Vec<NumericalInstabilityWarning> = Vec::new();
    let nf = t.faces.len();
    for f in 0..nf
        invariant
            nf == t.faces@.len(),
            t.wf(),
            edges@ == edges_upto(*t, f as int),
            warnings@ == warns_upto(*t, f as int),
    {
        proof {
            assert(t.face_wf(t.faces@[f as int]));
        }
        let face = t.faces[f];
        let pa = t.points[face.v0];
        let pb = t.points[face.v1];
        let pc = t.points[face.v2];
        let o = orient2d(pa, pb, pc);
        if o == 0 {
            warnings.push(NumericalInstabilityWarning { face: f });
            proof {
                assert(face_degenerate(*t, f as int));
                assert(emits(*t, f as int, 0) =~= Seq::<VoronoiEdge>::empty());
                assert(emits(*t, f as int, 1) =~= Seq::<VoronoiEdge>::empty());
                assert(emits(*t, f as int, 2) =~= Seq::<VoronoiEdge>::empty());
                reveal_with_fuel(face_edges_upto, 4);
                assert(face_edges_upto(*t, f as int, 1) =~= Seq::<VoronoiEdge>::empty());
                assert(face_edges_upto(*t, f as int, 2) =~= Seq::<VoronoiEdge>::empty());
                assert(face_edges_upto(*t, f as int, 3) =~= Seq::<VoronoiEdge>::empty());
                assert(edges@ =~= edges_upto(*t, f as int + 1));
                assert(warnings@ =~= warns_upto(*t, f as int + 1));
            }
        } else {
            let center = circumcenter(pa, pb, pc);
            let inner_f = InnerVertex { face: f, center };
            proof {
                assert(!face_degenerate(*t, f as int));
                assert(inner_f == spec_inner(*t, f as int));
            }
            for e in 0..3usize
                invariant
                    nf == t.faces@.len(),
                    t.wf(),
                    f < nf,
                    face == t.faces@[f as int],
                    !face_degenerate(*t, f as int),
                    inner_f == spec_inner(*t, f as int),
                    edges@ == edges_upto(*t, f as int) + face_edges_upto(*t, f as int, e as int),
                    warnings@ == warns_upto(*t, f as int),
            {
                match face.nbr_at(e) {
                    Some(g) => {
                        if f < g {
                            proof {
                                assert(t.face_wf(t.faces@[g as int]));
                            }
                            let gface = t.faces[g];
                            let qa = t.points[gface.v0];
                            let qb = t.points[gface.v1];
                            let qc = t.points[gface.v2];
                            let og = orient2d(qa, qb, qc);
                            if og != 0 {
                                let cg = circumcenter(qa, qb, qc);
                                let inner_g = InnerVertex { face: g, center: cg };
                                proof {
                                    assert(!face_degenerate(*t, g as int));
                                    assert(inner_g == spec_inner(*t, g as int));
                                }
                                edges.push(VoronoiEdge::Segment { a: inner_f, b: inner_g });
                                proof {
                                    assert(emits(*t, f as int, e as int) =~= seq![
                                        VoronoiEdge::Segment {
                                            a: spec_inner(*t, f as int),
                                            b: spec_inner(*t, g as int),
                                        },
                                    ]);
                                }
                            } else {
                                proof {
                                    assert(face_degenerate(*t, g as int));
                                    assert(emits(*t, f as int, e as int) =~= Seq::<
                                        VoronoiEdge,
                                    >::empty());
                                }
                            }
                        } else {
                            proof {
                                assert(emits(*t, f as int, e as int) =~= Seq::<
                                    VoronoiEdge,
                                >::empty());
                            }
                        }
                    },
                    None => {
                        let e1 = next_corner(e);
                        let e2 = next_corner(e1);
                        let ra = t.points[face.vert_at(e)];
                        let rb = t.points[face.vert_at(e1)];
                        let rc = t.points[face.vert_at(e2)];
                        let outer = compute_outer(ra, rb, rc, f, e);
                        proof {
                            assert(outer == spec_outer(*t, f as int, e as int));
                        }
                        edges.push(VoronoiEdge::Ray { from: inner_f, to: outer });
                        proof {
                            assert(emits(*t, f as int, e as int) =~= seq![
                                VoronoiEdge::Ray {
                                    from: spec_inner(*t, f as int),
                                    to: spec_outer(*t, f as int, e as int),
                                },
                            ]);
                        }
                    },
                }
                proof {
                    assert(face_edges_upto(*t, f as int, e as int + 1) =~= face_edges_upto(
                        *t,
                        f as int,
                        e as int,
                    ) + emits(*t, f as int, e as int));
                    assert(edges@ =~= edges_upto(*t, f as int) + face_edges_upto(
                        *t,
                        f as int,
                        e as int + 1,
                    ));
                }
            }
            proof {
                assert(edges@ =~= edges_upto(*t, f as int + 1));
                assert(warnings@ =~= warns_upto(*t, f as int + 1));
            }
        }
    }
    VoronoiDiagram { edges, warnings }
}

/// The Dual Graph Extractor is idempotent: running it twice over one
/// unmodified triangulation yields the identical Voronoi edge collection
/// (and so, in particular, an identical set of edges).
pub proof fn lemma_extraction_idempotent(
    t: DelaunayTriangulation,
    e1: Seq<VoronoiEdge>,
    e2: Seq<VoronoiEdge>,
)
    requires
        e1 == voronoi_edges_spec(t),
        e2 == voronoi_edges_spec(t),
    ensures
        e1 == e2,
        e1.to_set() == e2.to_set(),
{
}

} // verus!
