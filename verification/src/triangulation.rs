//! Incremental planar Delaunay triangulation over exact grid coordinates.
//!
//! Vertices and faces live in growable arenas and are addressed by integer
//! handles. A vertex handle is permanent: insertion never renumbers earlier
//! vertices. Faces are created by point insertion (fan splits and hull
//! extension) and replaced in place by edge-flip legalization; the face arena
//! never shrinks.

use vstd::prelude::*;

verus! {

use crate::geometry::{
    Point,
    MAX_COORD,
    orient2d,
    orient2d_spec,
    dist_sq,
    dist_sq_spec,
    incircle,
    strictly_inside_circumcircle,
};

/// Why an insertion was rejected.
///
/// A rejected insertion never changes the triangulation.
#[derive(Clone, Copy, PartialEq, Eq, Structural, Debug)]
pub enum InsertError {
    /// The new point coincides with an existing vertex within the
    /// configured tolerance.
    DuplicatePoint,
    /// A coordinate lies outside the representable grid (the analogue of a
    /// non-finite coordinate).
    DegenerateInput,
}

/// One triangle of the arena: three vertex handles and, across each edge, an
/// optional neighboring face handle. Neighbor `nK` lies across the edge
/// opposite vertex `vK`, that is, the edge joining the other two vertices.
/// An absent neighbor marks a convex-hull edge.
#[derive(Clone, Copy, PartialEq, Eq, Structural, Debug)]
pub struct Face {
    pub v0: usize,
    pub v1: usize,
    pub v2: usize,
    pub n0: Option<usize>,
    pub n1: Option<usize>,
    pub n2: Option<usize>,
}

impl Face {
    /// Vertex handle at corner `i`.
    pub open spec fn vert(self, i: int) -> usize {
        if i == 0 {
            self.v0
        } else if i == 1 {
            self.v1
        } else {
            self.v2
        }
    }

    /// Neighbor handle across the edge opposite corner `i`.
    pub open spec fn nbr(self, i: int) -> Option<usize> {
        if i == 0 {
            self.n0
        } else if i == 1 {
            self.n1
        } else {
            self.n2
        }
    }

    /// Executable corner access.
    pub fn vert_at(&self, i: usize) -> (r: usize)
        requires
            i < 3,
        ensures
            r == self.vert(i as int),
    {
        if i == 0 {
            self.v0
        } else if i == 1 {
            self.v1
        } else {
            self.v2
        }
    }

    /// Executable neighbor access.
    pub fn nbr_at(&self, i: usize) -> (r: Option<usize>)
        requires
            i < 3,
        ensures
            r == self.nbr(i as int),
    {
        if i == 0 {
            self.n0
        } else if i == 1 {
            self.n1
        } else {
            self.n2
        }
    }
}

/// The corner index after `i`, cyclically.
pub open spec fn nxt(i: int) -> int {
    if i == 0 {
        1
    } else if i == 1 {
        2
    } else {
        0
    }
}

/// Executable cyclic successor of a corner index.
pub fn next_corner(i: usize) -> (r: usize)
    requires
        i < 3,
    ensures
        r == nxt(i as int),
        r < 3,
{
    if i == 0 {
        1
    } else if i == 1 {
        2
    } else {
        0
    }
}

/// Some three of the points make a proper (non-degenerate) triangle.
pub open spec fn noncollinear_triple(s: Seq<Point>) -> bool {
    exists|i: int, j: int, k: int|
        0 <= i < s.len() && 0 <= j < s.len() && 0 <= k < s.len() && orient2d_spec(
            s[i],
            s[j],
            s[k],
        ) != 0
}

/// The point lies within the squared-distance tolerance of some point of
/// the sequence.
pub open spec fn seq_has_duplicate(s: Seq<Point>, p: Point, tol_sq: int) -> bool {
    exists|i: int| 0 <= i < s.len() && dist_sq_spec(p, #[trigger] s[i]) <= tol_sq
}

/// Every point lies on the line through the first two points (trivially true
/// with fewer than three points).
pub open spec fn base_collinear(s: Seq<Point>) -> bool {
    s.len() >= 3 ==> forall|i: int|
        0 <= i < s.len() ==> orient2d_spec(s[0], s[1], #[trigger] s[i]) == 0
}

/// An incremental Delaunay triangulation: a vertex arena, a face arena and
/// the duplicate-point tolerance (compared against squared distances).
///
/// `legalize_debt` counts the legalization checks that the work budget cut
/// off; it stays zero on any realistic input, and a non-zero value is the
/// contract-visible sign that some edge may have been left unlegalized.
pub struct DelaunayTriangulation {
    pub points: Vec<Point>,
    pub faces: Vec<Face>,
    pub tol_sq: i64,
    pub legalize_debt: u64,
}

impl DelaunayTriangulation {
    /// A face stores only valid vertex and face handles.
    pub open spec fn face_wf(self, f: Face) -> bool {
        &&& f.v0 < self.points@.len()
        &&& f.v1 < self.points@.len()
        &&& f.v2 < self.points@.len()
        &&& (f.n0 matches Some(j) ==> j < self.faces@.len())
        &&& (f.n1 matches Some(j) ==> j < self.faces@.len())
        &&& (f.n2 matches Some(j) ==> j < self.faces@.len())
    }

    /// Structural well-formedness: every vertex lies on the grid, every face
    /// holds valid handles, and the face arena is non-empty exactly when the
    /// inserted points span the plane — as long as all points are collinear
    /// the triangulation has no faces, and faces appear only once a
    /// non-degenerate triple exists.
    pub open spec fn wf(self) -> bool {
        &&& self.tol_sq >= 0
        &&& forall|i: int| 0 <= i < self.points@.len() ==> (#[trigger] self.points@[i]).in_range()
        &&& forall|i: int| 0 <= i < self.faces@.len() ==> self.face_wf(#[trigger] self.faces@[i])
        &&& (self.faces@.len() == 0 ==> base_collinear(self.points@))
        &&& (self.faces@.len() > 0 ==> noncollinear_triple(self.points@))
    }

    /// The point coincides, within the tolerance, with some existing vertex.
    pub open spec fn has_duplicate(self, p: Point) -> bool {
        seq_has_duplicate(self.points@, p, self.tol_sq as int)
    }

    /// An empty triangulation that rejects only exact duplicates.
    pub fn new() -> (r: DelaunayTriangulation)
        ensures
            r.wf(),
            r.points@.len() == 0,
            r.faces@.len() == 0,
            r.tol_sq == 0,
            r.legalize_debt == 0,
    {
        DelaunayTriangulation { points: Vec::new(), faces: Vec::new(), tol_sq: 0, legalize_debt: 0 }
    }

    /// An empty triangulation that rejects points whose squared distance to
    /// an existing vertex is at most `tol_sq`.
    pub fn with_tolerance(tol_sq: i64) -> (r: DelaunayTriangulation)
        requires
            tol_sq >= 0,
        ensures
            r.wf(),
            r.points@.len() == 0,
            r.faces@.len() == 0,
            r.tol_sq == tol_sq,
            r.legalize_debt == 0,
    {
        DelaunayTriangulation { points: Vec::new(), faces: Vec::new(), tol_sq, legalize_debt: 0 }
    }

    /// Number of vertices inserted so far.
    pub fn num_vertices(&self) -> (r: usize)
        ensures
            r == self.points@.len(),
    {
        self.points.len()
    }

    /// Number of faces of the current triangulation.
    pub fn num_faces(&self) -> (r: usize)
        ensures
            r == self.faces@.len(),
    {
        self.faces.len()
    }

    /// Position of the vertex with handle `i`.
    pub fn vertex(&self, i: usize) -> (r: Point)
        requires
            i < self.points@.len(),
        ensures
            r == self.points@[i as int],
    {
        self.points[i]
    }

    /// The face with handle `f`.
    pub fn face(&self, f: usize) -> (r: Face)
        requires
            f < self.faces@.len(),
        ensures
            r == self.faces@[f as int],
    {
        self.faces[f]
    }

    /// Decides exactly whether `p` duplicates an existing vertex.
    fn find_duplicate(&self, p: Point) -> (r: bool)
        requires
            self.wf(),
            p.in_range(),
        ensures
            r == self.has_duplicate(p),
    {
        let n = self.points.len();
        for i in 0..n
            invariant
                n == self.points@.len(),
                self.wf(),
                p.in_range(),
                forall|j: int|
                    0 <= j < i ==> dist_sq_spec(p, #[trigger] self.points@[j]) > self.tol_sq,
        {
            if dist_sq(p, self.points[i]) <= self.tol_sq {
                return true;
            }
        }
        false
    }
    /// Redirects the neighbor slot of `g` that points to `from` so that it
    /// points to `to` (used after a face slot is subdivided or flipped).
    fn replace_neighbor(&mut self, g: usize, from: usize, to: usize)
        requires
            old(self).wf(),
            g < old(self).faces@.len(),
            to < old(self).faces@.len(),
        ensures
            final(self).wf(),
            final(self).points@ == old(self).points@,
            final(self).tol_sq == old(self).tol_sq,
            final(self).legalize_debt == old(self).legalize_debt,
            final(self).faces@.len() == old(self).faces@.len(),
    {
        let mut face = self.faces[g];
        proof {
            assert(self.face_wf(self.faces@[g as int]));
        }
        let hit0 = if let Some(j) = face.n0 {
            j == from
        } else {
            false
        };
        let hit1 = if let Some(j) = face.n1 {
            j == from
        } else {
            false
        };
        if hit0 {
            face.n0 = Some(to);
        } else if hit1 {
            face.n1 = Some(to);
        } else {
            let hit2 = if let Some(j) = face.n2 {
                j == from
            } else {
                false
            };
            if hit2 {
                face.n2 = Some(to);
            }
        }
        self.faces[g] = face;
    }

    /// Overwrites one neighbor slot of a face with a valid handle.
    fn set_neighbor(&mut self, f: usize, corner: usize, val: Option<usize>)
        requires
            old(self).wf(),
            f < old(self).faces@.len(),
            corner < 3,
            val matches Some(j) ==> j < old(self).faces@.len(),
        ensures
            final(self).wf(),
            final(self).points@ == old(self).points@,
            final(self).tol_sq == old(self).tol_sq,
            final(self).legalize_debt == old(self).legalize_debt,
            final(self).faces@.len() == old(self).faces@.len(),
    {
        let mut face = self.faces[f];
        proof {
            assert(self.face_wf(self.faces@[f as int]));
        }
        if corner == 0 {
            face.n0 = val;
        } else if corner == 1 {
            face.n1 = val;
        } else {
            face.n2 = val;
        }
        self.faces[f] = face;
    }

    /// The corner of `face` that holds the vertex handle `v`, if any.
    fn find_corner(&self, face: &Face, v: usize) -> (r: Option<usize>)
        ensures
            r matches Some(i) ==> i < 3 && face.vert(i as int) == v,
            r is None ==> face.v0 != v && face.v1 != v && face.v2 != v,
    {
        if face.v0 == v {
            Some(0)
        } else if face.v1 == v {
            Some(1)
        } else if face.v2 == v {
            Some(2)
        } else {
            None
        }
    }
}

/// Where a point lies relative to the current faces.
enum Location {
    /// Strictly inside the face with this handle.
    Inside(usize),
    /// Exactly on the edge of the face opposite the given corner.
    OnEdge(usize, usize),
    /// In no face: beyond the convex hull (or no faces exist yet).
    Outside,
}

impl DelaunayTriangulation {
    /// Walks the face arena and classifies `p`: strictly inside some face, on
    /// an edge of some face, or outside all of them.
    fn locate(&self, p: Point) -> (r: Location)
        requires
            self.wf(),
            p.in_range(),
        ensures
            r matches Location::Inside(f) ==> f < self.faces@.len(),
            r matches Location::OnEdge(f, e) ==> f < self.faces@.len() && e < 3,
    {
        let n = self.faces.len();
        for f in 0..n
            invariant
                n == self.faces@.len(),
                self.wf(),
                p.in_range(),
        {
            proof {
                assert(self.face_wf(self.faces@[f as int]));
            }
            let face = self.faces[f];
            let a = self.points[face.v0];
            let b = self.points[face.v1];
            let c = self.points[face.v2];
            let s = orient2d(a, b, c);
            if s != 0 {
                // Edge opposite corner 2 is (v0, v1), opposite corner 0 is
                // (v1, v2), opposite corner 1 is (v2, v0).
                let o_ab = orient2d(a, b, p);
                let o_bc = orient2d(b, c, p);
                let o_ca = orient2d(c, a, p);
                if s > 0 {
                    if o_ab > 0 && o_bc > 0 && o_ca > 0 {
                        return Location::Inside(f);
                    }
                    if o_ab == 0 && o_bc > 0 && o_ca > 0 {
                        return Location::OnEdge(f, 2);
                    }
                    if o_bc == 0 && o_ab > 0 && o_ca > 0 {
                        return Location::OnEdge(f, 0);
                    }
                    if o_ca == 0 && o_ab > 0 && o_bc > 0 {
                        return Location::OnEdge(f, 1);
                    }
                } else {
                    if o_ab < 0 && o_bc < 0 && o_ca < 0 {
                        return Location::Inside(f);
                    }
                    if o_ab == 0 && o_bc < 0 && o_ca < 0 {
                        return Location::OnEdge(f, 2);
                    }
                    if o_bc == 0 && o_ab < 0 && o_ca < 0 {
                        return Location::OnEdge(f, 0);
                    }
                    if o_ca == 0 && o_ab < 0 && o_bc < 0 {
                        return Location::OnEdge(f, 1);
                    }
                }
            }
        }
        Location::Outside
    }

    /// Replaces the face containing the new vertex `k` strictly in its
    /// interior by the fan of three faces from `k` to its corners, wiring the
    /// fan siblings to each other and to the face's former outside neighbors, and
    /// queues the three outside edges for legalization.
    fn split_face(&mut self, f: usize, k: usize, stack: &mut Vec<(usize, usize)>)
        requires
            old(self).wf(),
            f < old(self).faces@.len(),
            k < old(self).points@.len(),
        ensures
            final(self).wf(),
            final(self).points@ == old(self).points@,
            final(self).tol_sq == old(self).tol_sq,
            final(self).legalize_debt == old(self).legalize_debt,
            final(self).faces@.len() >= old(self).faces@.len(),
            old(self).faces@.len() < usize::MAX - 2
                ==> final(self).faces@.len() == old(self).faces@.len() + 2,
    {
        let m = self.faces.len();
        if m >= usize::MAX - 2 {
            // The face arena cannot grow this large in practice; leave the
            // triangulation unchanged rather than overflow a handle.
            return ;
        }
        let pf = self.faces[f];
        proof {
            assert(self.face_wf(self.faces@[f as int]));
        }
        let child0 = Face {
            v0: pf.v0,
            v1: pf.v1,
            v2: k,
            n0: Some(m),
            n1: Some(m + 1),
            n2: pf.n2,
        };
        let child1 = Face {
            v0: pf.v1,
            v1: pf.v2,
            v2: k,
            n0: Some(m + 1),
            n1: Some(f),
            n2: pf.n0,
        };
        let child2 = Face { v0: pf.v2, v1: pf.v0, v2: k, n0: Some(f), n1: Some(m), n2: pf.n1 };
        self.faces.push(child1);
        self.faces.push(child2);
        self.faces[f] = child0;
        proof {
            assert forall|i: int| 0 <= i < self.faces@.len() implies self.face_wf(
                #[trigger] self.faces@[i],
            ) by {
                if i != f && i != m && i != m + 1 {
                    assert(self.faces@[i] == old(self).faces@[i]);
                    assert(old(self).face_wf(old(self).faces@[i]));
                }
            }
        }
        if let Some(g) = pf.n0 {
            self.replace_neighbor(g, f, m);
        }
        if let Some(g) = pf.n1 {
            self.replace_neighbor(g, f, m + 1);
        }
        stack.push((f, 2));
        stack.push((m, 2));
        stack.push((m + 1, 2));
    }

    /// Splits the face `f` — and, if the edge is interior, its neighbor
    /// across that edge — around the new vertex `k` that lies exactly on the
    /// edge of `f` opposite corner `e`: each incident face is replaced by two
    /// faces fanning from `k`, and the outside edges are queued for
    /// legalization.
    fn split_edge(&mut self, f: usize, e: usize, k: usize, stack: &mut Vec<(usize, usize)>)
        requires
            old(self).wf(),
            f < old(self).faces@.len(),
            e < 3,
            k < old(self).points@.len(),
        ensures
            final(self).wf(),
            final(self).points@ == old(self).points@,
            final(self).tol_sq == old(self).tol_sq,
            final(self).legalize_debt == old(self).legalize_debt,
            final(self).faces@.len() >= old(self).faces@.len(),
            old(self).faces@.len() < usize::MAX - 2
                ==> final(self).faces@.len() == old(self).faces@.len() + 1
                    || final(self).faces@.len() == old(self).faces@.len() + 2,
    {
        let m = self.faces.len();
        if m >= usize::MAX - 2 {
            // The face arena cannot grow this large in practice; leave the
            // triangulation unchanged rather than overflow a handle.
            return ;
        }
        let pf = self.faces[f];
        proof {
            assert(self.face_wf(self.faces@[f as int]));
        }
        let e1 = next_corner(e);
        let e2 = next_corner(e1);
        let ai = pf.vert_at(e);
        let bi = pf.vert_at(e1);
        let ci = pf.vert_at(e2);
        // The neighbor across the split edge (b, c), if the edge is interior.
        let gopt = pf.nbr_at(e);
        let mut g_corners: Option<(usize, usize, usize)> = None;
        if let Some(g) = gopt {
            let gf = self.faces[g];
            let sb_opt = self.find_corner(&gf, bi);
            let sc_opt = self.find_corner(&gf, ci);
            if let (Some(sb), Some(sc)) = (sb_opt, sc_opt) {
                if sb != sc {
                    let sd = 3 - sb - sc;
                    g_corners = Some((sb, sc, sd));
                }
            }
        }
        // Children of `f`: (a, b, k) stays in slot `f`, (a, k, c) goes to a
        // fresh slot `m`.
        let f_a = Face {
            v0: ai,
            v1: bi,
            v2: k,
            n0: if g_corners.is_some() {
                Some(f)  // overwritten below once the slot of g's child is known
            } else {
                None
            },
            n1: Some(m),
            n2: pf.nbr_at(e2),
        };
        let f_b = Face {
            v0: ai,
            v1: k,
            v2: ci,
            n0: None,  // fixed below when the edge is interior
            n1: pf.nbr_at(e1),
            n2: Some(f),
        };
        self.faces.push(f_b);
        self.faces[f] = f_a;
        proof {
            assert forall|i: int| 0 <= i < self.faces@.len() implies self.face_wf(
                #[trigger] self.faces@[i],
            ) by {
                if i != f && i != m {
                    assert(self.faces@[i] == old(self).faces@[i]);
                    assert(old(self).face_wf(old(self).faces@[i]));
                }
            }
        }
        if let Some(g) = pf.nbr_at(e1) {
            self.replace_neighbor(g, f, m);
        }
        if let (Some(g), Some((sb, sc, sd))) = (gopt, g_corners) {
            // Children of `g`: (d, b, k) stays in slot `g`, (d, k, c) goes to
            // the fresh slot `m2`.
            let m2 = self.faces.len();
            if m2 >= usize::MAX - 2 {
                return ;
            }
            let gf = self.faces[g];
            proof {
                assert(self.face_wf(self.faces@[g as int]));
            }
            let di = gf.vert_at(sd);
            let g_a = Face {
                v0: di,
                v1: bi,
                v2: k,
                n0: Some(f),
                n1: Some(m2),
                n2: gf.nbr_at(sc),
            };
            let g_b = Face {
                v0: di,
                v1: k,
                v2: ci,
                n0: Some(m),
                n1: gf.nbr_at(sb),
                n2: Some(g),
            };
            self.faces.push(g_b);
            self.faces[g] = g_a;
            proof {
                assert forall|i: int| 0 <= i < self.faces@.len() implies self.face_wf(
                    #[trigger] self.faces@[i],
                ) by {
                    if i != g && i != m2 {
                        assert(self.face_wf(self.faces@[i]));
                    }
                }
            }
            // The two `f`-side children face the matching `g`-side children.
            self.set_neighbor(f, 0, Some(g));
            self.set_neighbor(m, 0, Some(m2));
            if let Some(x) = gf.nbr_at(sb) {
                self.replace_neighbor(x, g, m2);
            }
            stack.push((g, 2));
            stack.push((m2, 1));
        }
        stack.push((f, 2));
        stack.push((m, 1));
    }

    /// Wires the neighbor slot only when it is still empty, so that an
    /// already-established adjacency is never overwritten.
    fn wire_if_empty(&mut self, f: usize, corner: usize, to: usize)
        requires
            old(self).wf(),
            f < old(self).faces@.len(),
            to < old(self).faces@.len(),
            corner < 3,
        ensures
            final(self).wf(),
            final(self).points@ == old(self).points@,
            final(self).tol_sq == old(self).tol_sq,
            final(self).legalize_debt == old(self).legalize_debt,
            final(self).faces@.len() == old(self).faces@.len(),
    {
        let face = self.faces[f];
        if face.nbr_at(corner).is_none() {
            self.set_neighbor(f, corner, Some(to));
        }
    }

    /// Connects the new vertex `k` (at position `p`, strictly outside the
    /// convex hull) to every hull edge from which it is visible: one new face
    /// per visible edge, the new faces wired to the old hull faces and to
    /// each other, and every old hull edge queued for legalization.
    fn hull_extend(&mut self, k: usize, p: Point, stack: &mut Vec<(usize, usize)>)
        requires
            old(self).wf(),
            k < old(self).points@.len(),
            p.in_range(),
        ensures
            final(self).wf(),
            final(self).points@ == old(self).points@,
            final(self).tol_sq == old(self).tol_sq,
            final(self).legalize_debt == old(self).legalize_debt,
            final(self).faces@.len() >= old(self).faces@.len(),
    {
        let n = self.faces.len();
        let np = self.points.len();
        // A hull edge (b, c) of face f with far corner a is visible from p
        // when p and a lie strictly on opposite sides of the edge line.
        let mut vis: Vec<(usize, usize, usize, usize)> = Vec::new();
        for f in 0..n
            invariant
                n == self.faces@.len(),
                np == self.points@.len(),
                self.wf(),
                p.in_range(),
                forall|t: int|
                    0 <= t < vis@.len() ==> (#[trigger] vis@[t]).0 < n && vis@[t].1 < 3
                        && vis@[t].2 < np && vis@[t].3 < np,
        {
            proof {
                assert(self.face_wf(self.faces@[f as int]));
            }
            let face = self.faces[f];
            for e in 0..3usize
                invariant
                    n == self.faces@.len(),
                    np == self.points@.len(),
                    self.wf(),
                    p.in_range(),
                    f < n,
                    face == self.faces@[f as int],
                    forall|t: int|
                        0 <= t < vis@.len() ==> (#[trigger] vis@[t]).0 < n && vis@[t].1 < 3
                            && vis@[t].2 < np && vis@[t].3 < np,
            {
                proof {
                    assert(self.face_wf(self.faces@[f as int]));
                }
                if face.nbr_at(e).is_none() {
                    let e1 = next_corner(e);
                    let e2 = next_corner(e1);
                    let aiv = face.vert_at(e);
                    let bi = face.vert_at(e1);
                    let ci = face.vert_at(e2);
                    let pa = self.points[aiv];
                    let pb = self.points[bi];
                    let pc = self.points[ci];
                    let o_edge = orient2d(pb, pc, p);
                    let o_far = orient2d(pb, pc, pa);
                    if (o_edge > 0 && o_far < 0) || (o_edge < 0 && o_far > 0) {
                        vis.push((f, e, bi, ci));
                    }
                }
            }
        }
        let base = self.faces.len();
        let nv = vis.len();
        if nv >= usize::MAX - 2 || base >= usize::MAX - nv - 2 {
            // The face arena cannot grow this large in practice; leave the
            // triangulation unchanged rather than overflow a handle.
            return ;
        }
        // One new face per visible hull edge, facing the old hull face.
        for idx in 0..nv
            invariant
                nv == vis@.len(),
                np == self.points@.len(),
                base + nv < usize::MAX,
                self.wf(),
                self.points@ == old(self).points@,
                self.tol_sq == old(self).tol_sq,
                self.legalize_debt == old(self).legalize_debt,
                self.faces@.len() == base + idx,
                base >= n,
                forall|t: int|
                    0 <= t < vis@.len() ==> (#[trigger] vis@[t]).0 < n && vis@[t].1 < 3
                        && vis@[t].2 < np && vis@[t].3 < np,
                k < np,
        {
            let (f, _e, bi, ci) = vis[idx];
            self.faces.push(Face { v0: bi, v1: ci, v2: k, n0: None, n1: None, n2: Some(f) });
        }
        // Point the old hull faces back at their new outer neighbors.
        for idx in 0..nv
            invariant
                nv == vis@.len(),
                np == self.points@.len(),
                self.wf(),
                self.points@ == old(self).points@,
                self.tol_sq == old(self).tol_sq,
                self.legalize_debt == old(self).legalize_debt,
                self.faces@.len() == base + nv,
                base + nv < usize::MAX,
                base >= n,
                forall|t: int|
                    0 <= t < vis@.len() ==> (#[trigger] vis@[t]).0 < n && vis@[t].1 < 3
                        && vis@[t].2 < np && vis@[t].3 < np,
        {
            let (f, e, _bi, _ci) = vis[idx];
            self.set_neighbor(f, e, Some(base + idx));
        }
        // Consecutive new faces share the spoke edge from their common hull
        // vertex to k; wire each such pair once.
        for i in 0..nv
            invariant
                nv == vis@.len(),
                np == self.points@.len(),
                self.wf(),
                self.points@ == old(self).points@,
                self.tol_sq == old(self).tol_sq,
                self.legalize_debt == old(self).legalize_debt,
                self.faces@.len() == base + nv,
                base + nv < usize::MAX,
                forall|t: int|
                    0 <= t < vis@.len() ==> (#[trigger] vis@[t]).0 < n && vis@[t].1 < 3
                        && vis@[t].2 < np && vis@[t].3 < np,
        {
            let (_, _, bi, ci) = vis[i];
            let si = base + i;
            let mut j = i + 1;
            while j < nv
                invariant
                    nv == vis@.len(),
                    np == self.points@.len(),
                    self.wf(),
                    self.points@ == old(self).points@,
                    self.tol_sq == old(self).tol_sq,
                    self.legalize_debt == old(self).legalize_debt,
                    self.faces@.len() == base + nv,
                    base + nv < usize::MAX,
                    i < nv,
                    si == base + i,
                    forall|t: int|
                        0 <= t < vis@.len() ==> (#[trigger] vis@[t]).0 < n && vis@[t].1 < 3
                            && vis@[t].2 < np && vis@[t].3 < np,
                decreases nv - j,
            {
                let (_, _, bj, cj) = vis[j];
                let sj = base + j;
                // The spoke from hull vertex q to k sits, in the face
                // (b, c, k), at corner 1 when q == b and corner 0 when q == c.
                if bi == bj {
                    self.wire_if_empty(si, 1, sj);
                    self.wire_if_empty(sj, 1, si);
                } else if bi == cj {
                    self.wire_if_empty(si, 1, sj);
                    self.wire_if_empty(sj, 0, si);
                } else if ci == bj {
                    self.wire_if_empty(si, 0, sj);
                    self.wire_if_empty(sj, 1, si);
                } else if ci == cj {
                    self.wire_if_empty(si, 0, sj);
                    self.wire_if_empty(sj, 0, si);
                }
                j = j + 1;
            }
            stack.push((si, 2));
        }
    }

    /// Lawson legalization: while the work stack holds entries `(f, c)` — the
    /// face `f` whose corner `c` is the freshly inserted vertex, with the
    /// edge to check opposite that corner — pop one, and if the far vertex of
    /// the neighboring face lies strictly inside the circumcircle of `f`,
    /// flip the shared edge and queue the two newly exposed edges. An exactly
    /// cocircular configuration is never flipped, so the pre-existing
    /// diagonal wins ties. A generous work budget bounds the loop; Lawson
    /// flipping needs far fewer steps than the budget on any real input.
    fn legalize(&mut self, stack: &mut Vec<(usize, usize)>)
        requires
            old(self).wf(),
        ensures
            final(self).wf(),
            final(self).points@ == old(self).points@,
            final(self).tol_sq == old(self).tol_sq,
            final(self).legalize_debt >= old(self).legalize_debt,
            final(self).faces@.len() == old(self).faces@.len(),
    {
        let nf = self.faces.len();
        let cap: u64 = if nf > 1_000_000 {
            1_000_000
        } else {
            nf as u64
        };
        proof {
            crate::geometry::lemma_mul_bound((cap + 8) as int, (cap + 8) as int, 1_000_008, 1_000_008);
        }
        let mut budget: u64 = (cap + 8) * (cap + 8) * 8;
        while stack.len() > 0 && budget > 0
            invariant
                self.wf(),
                self.points@ == old(self).points@,
                self.tol_sq == old(self).tol_sq,
                self.legalize_debt == old(self).legalize_debt,
                self.faces@.len() == old(self).faces@.len(),
            decreases budget,
        {
            budget = budget - 1;
            let entry = stack.pop().unwrap();
            let (f, c) = entry;
            if f >= self.faces.len() || c >= 3 {
                continue ;
            }
            let face = self.faces[f];
            proof {
                assert(self.face_wf(self.faces@[f as int]));
            }
            let c1 = next_corner(c);
            let c2 = next_corner(c1);
            let a_i = face.vert_at(c);
            let bi = face.vert_at(c1);
            let ci = face.vert_at(c2);
            let gopt = face.nbr_at(c);
            if let Some(g) = gopt {
                let gf = self.faces[g];
                proof {
                    assert(self.face_wf(self.faces@[g as int]));
                }
                let sb_opt = self.find_corner(&gf, bi);
                let sc_opt = self.find_corner(&gf, ci);
                if let (Some(sb), Some(sc)) = (sb_opt, sc_opt) {
                    if sb != sc {
                        let sd = 3 - sb - sc;
                        let di = gf.vert_at(sd);
                        let pa = self.points[a_i];
                        let pb = self.points[bi];
                        let pc = self.points[ci];
                        let pd = self.points[di];
                        let o = orient2d(pa, pb, pc);
                        let ic = incircle(pa, pb, pc, pd);
                        if (o > 0 && ic > 0) || (o < 0 && ic < 0) {
                            proof {
                                assert(strictly_inside_circumcircle(pa, pb, pc, pd));
                            }
                            // Replace the diagonal (b, c) by (a, d): the face
                            // slot f takes (a, b, d), the slot g takes
                            // (a, d, c).
                            let f_new = Face {
                                v0: a_i,
                                v1: bi,
                                v2: di,
                                n0: gf.nbr_at(sc),
                                n1: Some(g),
                                n2: face.nbr_at(c2),
                            };
                            let g_new = Face {
                                v0: a_i,
                                v1: di,
                                v2: ci,
                                n0: gf.nbr_at(sb),
                                n1: face.nbr_at(c1),
                                n2: Some(f),
                            };
                            let ghost pre = *self;
                            self.faces[f] = f_new;
                            self.faces[g] = g_new;
                            proof {
                                assert forall|i: int|
                                    0 <= i < self.faces@.len() implies self.face_wf(
                                    #[trigger] self.faces@[i],
                                ) by {
                                    if i != f && i != g {
                                        assert(self.faces@[i] == pre.faces@[i]);
                                        assert(pre.face_wf(pre.faces@[i]));
                                    }
                                }
                            }
                            if let Some(x) = gf.nbr_at(sc) {
                                self.replace_neighbor(x, g, f);
                            }
                            if let Some(x) = face.nbr_at(c1) {
                                self.replace_neighbor(x, f, g);
                            }
                            stack.push((f, 0));
                            stack.push((g, 0));
                        }
                    }
                }
            }
        }
        if stack.len() > 0 {
            // The budget ran out with checks pending: record the cut-off
            // work so that the early exit is visible to callers.
            let left = stack.len() as u64;
            self.legalize_debt = if self.legalize_debt > u64::MAX - left {
                u64::MAX
            } else {
                self.legalize_debt + left
            };
        }
    }

    /// Joins the vertex `k` (already stored, not yet part of any face) to the
    /// mesh: splits the face or edge containing it, or extends the hull when
    /// it lies outside, then restores the Delaunay condition locally.
    fn connect_vertex(&mut self, k: usize)
        requires
            old(self).wf(),
            k < old(self).points@.len(),
        ensures
            final(self).wf(),
            final(self).points@ == old(self).points@,
            final(self).tol_sq == old(self).tol_sq,
            final(self).legalize_debt >= old(self).legalize_debt,
            final(self).faces@.len() >= old(self).faces@.len(),
    {
        let p = self.points[k];
        let mut stack: Vec<(usize, usize)> = Vec::new();
        match self.locate(p) {
            Location::Inside(f) => {
                self.split_face(f, k, &mut stack);
            },
            Location::OnEdge(f, e) => {
                self.split_edge(f, e, k, &mut stack);
            },
            Location::Outside => {
                self.hull_extend(k, p, &mut stack);
            },
        }
        self.legalize(&mut stack);
    }

    /// The Delaunay empty-circle property: no input point lies strictly
    /// inside the circumcircle of any face.
    pub open spec fn delaunay_spec(self) -> bool {
        forall|f: int, i: int|
            0 <= f < self.faces@.len() && 0 <= i < self.points@.len()
                ==> !strictly_inside_circumcircle(
                self.points@[(#[trigger] self.faces@[f]).v0 as int],
                self.points@[self.faces@[f].v1 as int],
                self.points@[self.faces@[f].v2 as int],
                #[trigger] self.points@[i],
            )
    }

    /// Decides the Delaunay empty-circle property exactly, face by face:
    /// true exactly when no inserted point lies strictly inside the
    /// circumcircle of any face.
    pub fn is_delaunay(&self) -> (r: bool)
        requires
            self.wf(),
        ensures
            r == self.delaunay_spec(),
    {
        let nf = self.faces.len();
        let np = self.points.len();
        for f in 0..nf
            invariant
                nf == self.faces@.len(),
                np == self.points@.len(),
                self.wf(),
                forall|g: int, i: int|
                    0 <= g < f && 0 <= i < np ==> !strictly_inside_circumcircle(
                        self.points@[(#[trigger] self.faces@[g]).v0 as int],
                        self.points@[self.faces@[g].v1 as int],
                        self.points@[self.faces@[g].v2 as int],
                        #[trigger] self.points@[i],
                    ),
        {
            proof {
                assert(self.face_wf(self.faces@[f as int]));
            }
            let face = self.faces[f];
            let pa = self.points[face.v0];
            let pb = self.points[face.v1];
            let pc = self.points[face.v2];
            let o = orient2d(pa, pb, pc);
            for i in 0..np
                invariant
                    nf == self.faces@.len(),
                    np == self.points@.len(),
                    self.wf(),
                    f < nf,
                    face == self.faces@[f as int],
                    pa == self.points@[face.v0 as int],
                    pb == self.points@[face.v1 as int],
                    pc == self.points@[face.v2 as int],
                    o as int == orient2d_spec(pa, pb, pc),
                    forall|g: int, i2: int|
                        0 <= g < f && 0 <= i2 < np ==> !strictly_inside_circumcircle(
                            self.points@[(#[trigger] self.faces@[g]).v0 as int],
                            self.points@[self.faces@[g].v1 as int],
                            self.points@[self.faces@[g].v2 as int],
                            #[trigger] self.points@[i2],
                        ),
                    forall|i2: int|
                        0 <= i2 < i ==> !strictly_inside_circumcircle(
                            pa,
                            pb,
                            pc,
                            #[trigger] self.points@[i2],
                        ),
            {
                let pd = self.points[i];
                let ic = incircle(pa, pb, pc, pd);
                if (o > 0 && ic > 0) || (o < 0 && ic < 0) {
                    proof {
                        assert(strictly_inside_circumcircle(pa, pb, pc, pd));
                    }
                    return false;
                }
            }
        }
        true
    }

    /// The neighbor slot `e` of face `i` is sound: if it names a face, that
    /// face is another valid face that names `i` back across an edge with
    /// the same two endpoints.
    pub open spec fn slot_symmetric(self, i: int, e: int) -> bool {
        self.faces@[i].nbr(e) matches Some(g) ==> g != i && g < self.faces@.len()
            && exists|e2: int|
            0 <= e2 < 3 && self.faces@[g as int].nbr(e2) == Some(i as usize) && edge_matches(
                self.faces@[i],
                e,
                self.faces@[g as int],
                e2,
            )
    }

    /// The topological soundness of the adjacency: every interior edge is
    /// shared by exactly the two faces that name each other across it, so
    /// each neighbor reference is mutual and names the common edge.
    pub open spec fn neighbors_symmetric(self) -> bool {
        forall|i: int, e: int|
            0 <= i < self.faces@.len() && 0 <= e < 3 ==> #[trigger] self.slot_symmetric(i, e)
    }

    /// Decides exactly whether every neighbor reference of the arena is
    /// mutual and names the shared edge.
    pub fn has_symmetric_neighbors(&self) -> (r: bool)
        requires
            self.wf(),
        ensures
            r == self.neighbors_symmetric(),
    {
        let nf = self.faces.len();
        for i in 0..nf
            invariant
                nf == self.faces@.len(),
                self.wf(),
                forall|i2: int, e2: int|
                    0 <= i2 < i && 0 <= e2 < 3 ==> #[trigger] self.slot_symmetric(i2, e2),
        {
            let face = self.faces[i];
            for e in 0..3usize
                invariant
                    nf == self.faces@.len(),
                    self.wf(),
                    i < nf,
                    face == self.faces@[i as int],
                    forall|i2: int, e2: int|
                        0 <= i2 < i && 0 <= e2 < 3 ==> #[trigger] self.slot_symmetric(i2, e2),
                    forall|e2: int| 0 <= e2 < e ==> #[trigger] self.slot_symmetric(i as int, e2),
            {
                if let Some(g) = face.nbr_at(e) {
                    proof {
                        assert(self.face_wf(self.faces@[i as int]));
                    }
                    let gf = self.faces[g];
                    if g == i || !reciprocates(&face, e, &gf, i) {
                        proof {
                            assert(!self.slot_symmetric(i as int, e as int));
                            assert(!self.neighbors_symmetric());
                        }
                        return false;
                    }
                    proof {
                        assert(self.slot_symmetric(i as int, e as int));
                    }
                } else {
                    proof {
                        assert(self.slot_symmetric(i as int, e as int));
                    }
                }
            }
        }
        true
    }

    /// Inserts a point and returns its permanent vertex handle.
    ///
    /// Exactly the points on the coordinate grid that do not duplicate an
    /// existing vertex are accepted; the handle is the number of vertices
    /// inserted before, and earlier vertices keep their handles and
    /// positions. A point off the grid is rejected as
    /// [`InsertError::DegenerateInput`], a point within the tolerance of an
    /// existing vertex as [`InsertError::DuplicatePoint`], and a rejected
    /// insertion leaves the triangulation untouched. Collinear input
    /// accumulates without producing faces; the first point off the common
    /// line triangulates everything inserted so far — in particular, the
    /// third point makes exactly the one face over the first two. Any
    /// legalization work cut off by the budget shows up in `legalize_debt`.
    pub fn insert(&mut self, p: Point) -> (r: Result<usize, InsertError>)
        requires
            old(self).wf(),
        ensures
            final(self).wf(),
            final(self).tol_sq == old(self).tol_sq,
            r matches Ok(h) ==> h == old(self).points@.len() && final(self).points@ == old(
                self,
            ).points@.push(p) && final(self).faces@.len() >= old(self).faces@.len(),
            r matches Err(e) ==> final(self).points@ == old(self).points@ && final(self).faces@
                == old(self).faces@ && final(self).legalize_debt == old(self).legalize_debt && ((e
                == InsertError::DegenerateInput && !p.in_range()) || (e
                == InsertError::DuplicatePoint && p.in_range() && old(self).has_duplicate(p))),
            final(self).legalize_debt >= old(self).legalize_debt,
            (r matches Ok(_)) <==> (p.in_range() && !old(self).has_duplicate(p)),
            r matches Ok(_) && old(self).faces@.len() == 0 && old(self).points@.len() < 2
                ==> final(self).faces@.len() == 0,
            r matches Ok(_) && old(self).faces@.len() == 0 && old(self).points@.len() >= 2
                && orient2d_spec(old(self).points@[0], old(self).points@[1], p) == 0
                ==> final(self).faces@.len() == 0,
            r matches Ok(_) && old(self).faces@.len() == 0 && old(self).points@.len() == 2
                && orient2d_spec(old(self).points@[0], old(self).points@[1], p) != 0
                ==> final(self).faces@ == seq![
                (Face { v0: 0, v1: 1, v2: 2, n0: None, n1: None, n2: None }),
            ],
    {
        if p.x > MAX_COORD || p.x < -MAX_COORD || p.y > MAX_COORD || p.y < -MAX_COORD {
            return Err(InsertError::DegenerateInput);
        }
        if self.find_duplicate(p) {
            return Err(InsertError::DuplicatePoint);
        }
        let h = self.points.len();
        self.points.push(p);
        proof {
            assert forall|i: int| 0 <= i < self.faces@.len() implies self.face_wf(
                #[trigger] self.faces@[i],
            ) by {
                assert(old(self).face_wf(old(self).faces@[i]));
            }
        }
        if self.faces.len() == 0 {
            if self.points.len() >= 3 {
                let p0 = self.points[0];
                let p1 = self.points[1];
                let o = orient2d(p0, p1, p);
                if o != 0 {
                    // The points finally span the plane: make the first face
                    // from the first two points and the new vertex, then join
                    // each point that was waiting on the common line.
                    self.faces.push(Face { v0: 0, v1: 1, v2: h, n0: None, n1: None, n2: None });
                    proof {
                        assert(self.faces@ =~= seq![
                            (Face { v0: 0, v1: 1, v2: h, n0: None, n1: None, n2: None }),
                        ]);
                        assert(self.points@[h as int] == p);
                        assert(orient2d_spec(self.points@[0], self.points@[1], self.points@[h as int]) != 0);
                        assert(noncollinear_triple(self.points@));
                    }
                    let mut j: usize = 2;
                    while j < h
                        invariant
                            self.wf(),
                            self.points@ == old(self).points@.push(p),
                            self.tol_sq == old(self).tol_sq,
                            self.faces@.len() >= 1,
                            self.legalize_debt >= old(self).legalize_debt,
                            j >= 2,
                            h == 2 ==> self.faces@ == seq![
                                (Face { v0: 0, v1: 1, v2: 2, n0: None, n1: None, n2: None }),
                            ],
                            h < self.points@.len(),
                        decreases h - j,
                    {
                        self.connect_vertex(j);
                        j = j + 1;
                    }
                } else {
                    proof {
                        lemma_base_collinear_push(old(self).points@, p);
                    }
                }
            }
        } else {
            proof {
                lemma_noncollinear_push(old(self).points@, p);
            }
            self.connect_vertex(h);
        }
        Ok(h)
    }
}

/// The edge opposite corner `e` of `fa` has the same two endpoints as the
/// edge opposite corner `e2` of `fb`, in either order.
pub open spec fn edge_matches(fa: Face, e: int, fb: Face, e2: int) -> bool {
    (fa.vert(nxt(e)) == fb.vert(nxt(e2)) && fa.vert(nxt(nxt(e))) == fb.vert(nxt(nxt(e2)))) || (
    fa.vert(nxt(e)) == fb.vert(nxt(nxt(e2))) && fa.vert(nxt(nxt(e))) == fb.vert(nxt(e2)))
}

/// Decides exactly whether `fb` has a corner whose opposite edge names `i`
/// back and shares its endpoints with the edge of `fa` opposite corner `e`.
fn reciprocates(fa: &Face, e: usize, fb: &Face, i: usize) -> (r: bool)
    requires
        e < 3,
    ensures
        r == exists|e2: int|
            0 <= e2 < 3 && fb.nbr(e2) == Some(i) && edge_matches(*fa, e as int, *fb, e2),
{
    let m0 = slot_reciprocates(fa, e, fb, 0, i);
    let m1 = slot_reciprocates(fa, e, fb, 1, i);
    let m2 = slot_reciprocates(fa, e, fb, 2, i);
    if m0 || m1 || m2 {
        proof {
            if m0 {
                assert(fb.nbr(0) == Some(i) && edge_matches(*fa, e as int, *fb, 0));
            } else if m1 {
                assert(fb.nbr(1) == Some(i) && edge_matches(*fa, e as int, *fb, 1));
            } else {
                assert(fb.nbr(2) == Some(i) && edge_matches(*fa, e as int, *fb, 2));
            }
        }
        true
    } else {
        proof {
            assert forall|e2: int|
                0 <= e2 < 3 implies !(fb.nbr(e2) == Some(i) && edge_matches(
                *fa,
                e as int,
                *fb,
                e2,
            )) by {
                if e2 == 0 {
                } else if e2 == 1 {
                } else {
                }
            }
        }
        false
    }
}

/// One slot of the reciprocity check (see [`reciprocates`]).
fn slot_reciprocates(fa: &Face, e: usize, fb: &Face, e2: usize, i: usize) -> (r: bool)
    requires
        e < 3,
        e2 < 3,
    ensures
        r == (fb.nbr(e2 as int) == Some(i) && edge_matches(*fa, e as int, *fb, e2 as int)),
{
    let back = match fb.nbr_at(e2) {
        Some(j) => j == i,
        None => false,
    };
    if !back {
        return false;
    }
    let a1 = fa.vert_at(next_corner(e));
    let a2 = fa.vert_at(next_corner(next_corner(e)));
    let b1 = fb.vert_at(next_corner(e2));
    let b2 = fb.vert_at(next_corner(next_corner(e2)));
    (a1 == b1 && a2 == b2) || (a1 == b2 && a2 == b1)
}

/// A non-degenerate triple survives appending a point.
proof fn lemma_noncollinear_push(s: Seq<Point>, p: Point)
    requires
        noncollinear_triple(s),
    ensures
        noncollinear_triple(s.push(p)),
{
    let (i, j, k): (int, int, int) = choose|i: int, j: int, k: int|
        0 <= i < s.len() && 0 <= j < s.len() && 0 <= k < s.len() && orient2d_spec(
            s[i],
            s[j],
            s[k],
        ) != 0;
    assert(s.push(p)[i] == s[i]);
    assert(s.push(p)[j] == s[j]);
    assert(s.push(p)[k] == s[k]);
    assert(orient2d_spec(s.push(p)[i], s.push(p)[j], s.push(p)[k]) != 0);
}

/// The base points themselves are collinear with the base line.
proof fn lemma_orient_degenerate(a: Point, b: Point)
    ensures
        orient2d_spec(a, b, a) == 0,
        orient2d_spec(a, b, b) == 0,
{
    assert((b.x - a.x) * (a.y - a.y) - (b.y - a.y) * (a.x - a.x) == 0) by (nonlinear_arith);
    assert((b.x - a.x) * (b.y - a.y) - (b.y - a.y) * (b.x - a.x) == 0) by (nonlinear_arith);
}

/// Appending a point on the base line keeps the whole sequence on it.
proof fn lemma_base_collinear_push(s: Seq<Point>, p: Point)
    requires
        s.len() >= 2,
        base_collinear(s),
        orient2d_spec(s[0], s[1], p) == 0,
    ensures
        base_collinear(s.push(p)),
{
    let t = s.push(p);
    assert(t[0] == s[0]);
    assert(t[1] == s[1]);
    assert forall|i: int| 0 <= i < t.len() implies orient2d_spec(t[0], t[1], #[trigger] t[i])
        == 0 by {
        if i < s.len() {
            assert(t[i] == s[i]);
            if s.len() >= 3 {
                assert(orient2d_spec(s[0], s[1], s[i]) == 0);
            } else {
                lemma_orient_degenerate(s[0], s[1]);
            }
        } else {
            assert(t[i] == p);
        }
    }
}

/// Fully collinear input is a valid terminal state, not an error: as long as
/// every triple of inserted points is collinear, the triangulation holds no
/// faces at all (and its dual, in turn, holds no Voronoi edges).
pub proof fn lemma_collinear_input_has_no_faces(t: DelaunayTriangulation)
    requires
        t.wf(),
        !noncollinear_triple(t.points@),
    ensures
        t.faces@.len() == 0,
{
}

} // verus!
