//! Exact planar geometric primitives: grid points, the orientation and
//! in-circle predicates, squared distances, and rational circumcenters.

use vstd::prelude::*;

verus! {

/// Largest magnitude a grid coordinate may have. Coordinates are fixed-point
/// values on this grid; a caller converting real-valued input scales it so
/// that it lands inside the grid, and anything outside is rejected as
/// degenerate input (the grid bound plays the role that finiteness plays for
/// floating-point coordinates).
pub const MAX_COORD: i64 = 1_000_000;

/// A planar vertex position: an exact point on the bounded integer grid.
#[derive(Clone, Copy, PartialEq, Eq, Structural, Debug, Hash)]
pub struct Point {
    pub x: i64,
    pub y: i64,
}

impl Point {
    /// Both coordinates lie on the bounded grid.
    pub open spec fn in_range(self) -> bool {
        -(MAX_COORD as int) <= self.x <= MAX_COORD as int
            && -(MAX_COORD as int) <= self.y <= MAX_COORD as int
    }

    pub fn new(x: i64, y: i64) -> (r: Point)
        ensures
            r.x == x,
            r.y == y,
    {
        Point { x, y }
    }
}

/// Twice the signed area of the triangle `a b c`: positive when the three
/// points make a counter-clockwise turn, negative when clockwise, zero when
/// collinear.
pub open spec fn orient2d_spec(a: Point, b: Point, c: Point) -> int {
    (b.x - a.x) * (c.y - a.y) - (b.y - a.y) * (c.x - a.x)
}

/// Squared euclidean distance between two grid points.
pub open spec fn dist_sq_spec(a: Point, b: Point) -> int {
    (b.x - a.x) * (b.x - a.x) + (b.y - a.y) * (b.y - a.y)
}

/// The product of two values bounded in magnitude is bounded by the product
/// of the bounds.
pub proof fn lemma_mul_bound(x: int, y: int, bx: int, by: int)
    by (nonlinear_arith)
    requires
        -bx <= x <= bx,
        -by <= y <= by,
        0 <= bx,
        0 <= by,
    ensures
        -(bx * by) <= x * y <= bx * by,
{
}

/// Exact orientation predicate, evaluated without overflow on grid points.
pub fn orient2d(a: Point, b: Point, c: Point) -> (r: i64)
    requires
        a.in_range(),
        b.in_range(),
        c.in_range(),
    ensures
        r as int == orient2d_spec(a, b, c),
{
    let bax = b.x - a.x;
    let cay = c.y - a.y;
    let bay = b.y - a.y;
    let cax = c.x - a.x;
    proof {
        lemma_mul_bound(bax as int, cay as int, 2_000_000, 2_000_000);
        lemma_mul_bound(bay as int, cax as int, 2_000_000, 2_000_000);
    }
    bax * cay - bay * cax
}

/// Exact squared distance, evaluated without overflow on grid points.
pub fn dist_sq(a: Point, b: Point) -> (r: i64)
    requires
        a.in_range(),
        b.in_range(),
    ensures
        r as int == dist_sq_spec(a, b),
        r >= 0,
    {
    let dx = b.x - a.x;
    let dy = b.y - a.y;
    proof {
        lemma_mul_bound(dx as int, dx as int, 2_000_000, 2_000_000);
        lemma_mul_bound(dy as int, dy as int, 2_000_000, 2_000_000);
        lemma_square_nonneg(dx as int);
        lemma_square_nonneg(dy as int);
    }
    dx * dx + dy * dy
}

/// A square is never negative.
pub proof fn lemma_square_nonneg(x: int)
    by (nonlinear_arith)
    ensures
        x * x >= 0,
{
}

/// The in-circle determinant
///
/// ```text
/// | a.x - d.x   a.y - d.y   (a.x - d.x)^2 + (a.y - d.y)^2 |
/// | b.x - d.x   b.y - d.y   (b.x - d.x)^2 + (b.y - d.y)^2 |
/// | c.x - d.x   c.y - d.y   (c.x - d.x)^2 + (c.y - d.y)^2 |
/// ```
///
/// For a counter-clockwise triangle `a b c` it is positive exactly when `d`
/// lies strictly inside the circumcircle, negative when strictly outside and
/// zero when the four points are cocircular; for a clockwise triangle the
/// signs flip.
pub open spec fn incircle_spec(a: Point, b: Point, c: Point, d: Point) -> int {
    let adx = a.x - d.x;
    let ady = a.y - d.y;
    let bdx = b.x - d.x;
    let bdy = b.y - d.y;
    let cdx = c.x - d.x;
    let cdy = c.y - d.y;
    let ad2 = adx * adx + ady * ady;
    let bd2 = bdx * bdx + bdy * bdy;
    let cd2 = cdx * cdx + cdy * cdy;
    adx * (bdy * cd2 - cdy * bd2) - ady * (bdx * cd2 - cdx * bd2) + ad2 * (bdx * cdy - cdx * bdy)
}

/// `d` lies strictly inside the circumcircle of the triangle `a b c`,
/// whichever way the triangle is wound.
pub open spec fn strictly_inside_circumcircle(a: Point, b: Point, c: Point, d: Point) -> bool {
    (orient2d_spec(a, b, c) > 0 && incircle_spec(a, b, c, d) > 0) || (orient2d_spec(a, b, c) < 0
        && incircle_spec(a, b, c, d) < 0)
}

/// Exact in-circle determinant, evaluated without overflow on grid points.
pub fn incircle(a: Point, b: Point, c: Point, d: Point) -> (r: i128)
    requires
        a.in_range(),
        b.in_range(),
        c.in_range(),
        d.in_range(),
    ensures
        r as int == incircle_spec(a, b, c, d),
{
    let adx: i128 = (a.x - d.x) as i128;
    let ady: i128 = (a.y - d.y) as i128;
    let bdx: i128 = (b.x - d.x) as i128;
    let bdy: i128 = (b.y - d.y) as i128;
    let cdx: i128 = (c.x - d.x) as i128;
    let cdy: i128 = (c.y - d.y) as i128;
    proof {
        lemma_mul_bound(adx as int, adx as int, 2_000_000, 2_000_000);
        lemma_mul_bound(ady as int, ady as int, 2_000_000, 2_000_000);
        lemma_mul_bound(bdx as int, bdx as int, 2_000_000, 2_000_000);
        lemma_mul_bound(bdy as int, bdy as int, 2_000_000, 2_000_000);
        lemma_mul_bound(cdx as int, cdx as int, 2_000_000, 2_000_000);
        lemma_mul_bound(cdy as int, cdy as int, 2_000_000, 2_000_000);
    }
    let ad2: i128 = adx * adx + ady * ady;
    let bd2: i128 = bdx * bdx + bdy * bdy;
    let cd2: i128 = cdx * cdx + cdy * cdy;
    proof {
        lemma_mul_bound(bdy as int, cd2 as int, 2_000_000, 8_000_000_000_000);
        lemma_mul_bound(cdy as int, bd2 as int, 2_000_000, 8_000_000_000_000);
        lemma_mul_bound(bdx as int, cd2 as int, 2_000_000, 8_000_000_000_000);
        lemma_mul_bound(cdx as int, bd2 as int, 2_000_000, 8_000_000_000_000);
        lemma_mul_bound(bdx as int, cdy as int, 2_000_000, 2_000_000);
        lemma_mul_bound(cdx as int, bdy as int, 2_000_000, 2_000_000);
    }
    let t1: i128 = bdy * cd2 - cdy * bd2;
    let t2: i128 = bdx * cd2 - cdx * bd2;
    let t3: i128 = bdx * cdy - cdx * bdy;
    proof {
        lemma_mul_bound(adx as int, t1 as int, 2_000_000, 32_000_000_000_000_000_000);
        lemma_mul_bound(ady as int, t2 as int, 2_000_000, 32_000_000_000_000_000_000);
        lemma_mul_bound(ad2 as int, t3 as int, 8_000_000_000_000, 8_000_000_000_000);
    }
    adx * t1 - ady * t2 + ad2 * t3
}

/// An exact rational point of the plane: the point `(xn / d, yn / d)` with a
/// positive denominator. Circumcenters and Voronoi vertices are such points.
#[derive(Clone, Copy, PartialEq, Eq, Structural, Debug, Hash)]
pub struct RatPoint {
    pub xn: i128,
    pub yn: i128,
    pub d: i128,
}

impl RatPoint {
    /// The denominator is positive, so the point is well defined.
    pub open spec fn wf(self) -> bool {
        self.d > 0
    }
}

/// Numerator of `x` of the circumcenter of `a b c`, before sign
/// normalization, over the denominator `circum_raw_den`.
pub open spec fn circum_raw_xn(a: Point, b: Point, c: Point) -> int {
    let ux = b.x - a.x;
    let uy = b.y - a.y;
    let vx = c.x - a.x;
    let vy = c.y - a.y;
    let u2 = ux * ux + uy * uy;
    let v2 = vx * vx + vy * vy;
    a.x * circum_raw_den(a, b, c) + (vy * u2 - uy * v2)
}

/// Numerator of `y` of the circumcenter, before sign normalization.
pub open spec fn circum_raw_yn(a: Point, b: Point, c: Point) -> int {
    let ux = b.x - a.x;
    let uy = b.y - a.y;
    let vx = c.x - a.x;
    let vy = c.y - a.y;
    let u2 = ux * ux + uy * uy;
    let v2 = vx * vx + vy * vy;
    a.y * circum_raw_den(a, b, c) + (ux * v2 - vx * u2)
}

/// Denominator of the circumcenter before sign normalization: twice the
/// signed doubled area of the triangle.
pub open spec fn circum_raw_den(a: Point, b: Point, c: Point) -> int {
    2 * orient2d_spec(a, b, c)
}

/// Circumcenter numerators and denominator with the denominator made
/// positive.
pub open spec fn circum_xn(a: Point, b: Point, c: Point) -> int {
    if orient2d_spec(a, b, c) >= 0 {
        circum_raw_xn(a, b, c)
    } else {
        -circum_raw_xn(a, b, c)
    }
}

pub open spec fn circum_yn(a: Point, b: Point, c: Point) -> int {
    if orient2d_spec(a, b, c) >= 0 {
        circum_raw_yn(a, b, c)
    } else {
        -circum_raw_yn(a, b, c)
    }
}

pub open spec fn circum_den(a: Point, b: Point, c: Point) -> int {
    if orient2d_spec(a, b, c) >= 0 {
        circum_raw_den(a, b, c)
    } else {
        -circum_raw_den(a, b, c)
    }
}

/// Squared distance, scaled by the square of the denominator, between the
/// rational point `(xn / d, yn / d)` and the grid point `p`.
pub open spec fn sq_dist_num(xn: int, yn: int, d: int, p: Point) -> int {
    (xn - p.x * d) * (xn - p.x * d) + (yn - p.y * d) * (yn - p.y * d)
}

/// The displacement `(relx, rely)` from `a` to the circumcenter, scaled by
/// the denominator, has the defining dot products with the two triangle edge
/// vectors.
proof fn lemma_rel_dot(ux: int, uy: int, vx: int, vy: int, u2: int, v2: int, relx: int, rely: int)
    by (nonlinear_arith)
    requires
        u2 == ux * ux + uy * uy,
        v2 == vx * vx + vy * vy,
        relx == vy * u2 - uy * v2,
        rely == ux * v2 - vx * u2,
    ensures
        ux * relx + uy * rely == u2 * (ux * vy - uy * vx),
        vx * relx + vy * rely == v2 * (ux * vy - uy * vx),
{
}

/// Shifting the scaled displacement by a full edge vector keeps its squared
/// length: the algebraic heart of the equidistance of the circumcenter.
proof fn lemma_shift_sq(relx: int, rely: int, wx: int, wy: int, den: int, o: int, w2: int)
    requires
        den == 2 * o,
        w2 == wx * wx + wy * wy,
        wx * relx + wy * rely == w2 * o,
    ensures
        (relx - wx * den) * (relx - wx * den) + (rely - wy * den) * (rely - wy * den) == relx * relx
            + rely * rely,
{
    let bx = wx * den;
    let by = wy * den;
    assert((relx - bx) * (relx - bx) == relx * relx - 2 * (bx * relx) + bx * bx)
        by (nonlinear_arith);
    assert((rely - by) * (rely - by) == rely * rely - 2 * (by * rely) + by * by)
        by (nonlinear_arith);
    assert(bx * bx + by * by == w2 * (den * den)) by (nonlinear_arith)
        requires
            bx == wx * den,
            by == wy * den,
            w2 == wx * wx + wy * wy,
    ;
    assert(bx * relx + by * rely == den * (w2 * o)) by (nonlinear_arith)
        requires
            bx == wx * den,
            by == wy * den,
            wx * relx + wy * rely == w2 * o,
    ;
    assert(den * (w2 * o) == w2 * (den * den) - den * (w2 * o)) by (nonlinear_arith)
        requires
            den == 2 * o,
    ;
}

/// Negating numerators and denominator together does not change the scaled
/// squared distance to a grid point.
proof fn lemma_sq_dist_num_neg(xn: int, yn: int, d: int, px: int, py: int)
    by (nonlinear_arith)
    ensures
        (-xn - px * -d) * (-xn - px * -d) + (-yn - py * -d) * (-yn - py * -d) == (xn - px * d) * (xn
            - px * d) + (yn - py * d) * (yn - py * d),
{
}

/// The circumcenter is equidistant from the three triangle vertices: with
/// `xn`, `yn`, `d` the exact rational circumcenter of `a b c`, the squared
/// distances to `a`, `b` and `c`, each scaled by `d * d`, coincide.
pub proof fn lemma_circumcenter_equidistant(a: Point, b: Point, c: Point)
    ensures
        sq_dist_num(circum_xn(a, b, c), circum_yn(a, b, c), circum_den(a, b, c), a) == sq_dist_num(
            circum_xn(a, b, c),
            circum_yn(a, b, c),
            circum_den(a, b, c),
            b,
        ),
        sq_dist_num(circum_xn(a, b, c), circum_yn(a, b, c), circum_den(a, b, c), a) == sq_dist_num(
            circum_xn(a, b, c),
            circum_yn(a, b, c),
            circum_den(a, b, c),
            c,
        ),
{
    let ux = b.x - a.x;
    let uy = b.y - a.y;
    let vx = c.x - a.x;
    let vy = c.y - a.y;
    let u2 = ux * ux + uy * uy;
    let v2 = vx * vx + vy * vy;
    let o = orient2d_spec(a, b, c);
    let den = circum_raw_den(a, b, c);
    let relx = vy * u2 - uy * v2;
    let rely = ux * v2 - vx * u2;
    let xn = circum_raw_xn(a, b, c);
    let yn = circum_raw_yn(a, b, c);
    assert(o == ux * vy - uy * vx);
    assert(den == 2 * o);
    assert(xn == a.x * den + relx);
    assert(yn == a.y * den + rely);
    lemma_rel_dot(ux, uy, vx, vy, u2, v2, relx, rely);
    lemma_shift_sq(relx, rely, ux, uy, den, o, u2);
    lemma_shift_sq(relx, rely, vx, vy, den, o, v2);
    assert(xn - a.x * den == relx);
    assert(yn - a.y * den == rely);
    assert(xn - b.x * den == relx - ux * den) by (nonlinear_arith)
        requires
            xn == a.x * den + relx,
            ux == b.x - a.x,
    ;
    assert(yn - b.y * den == rely - uy * den) by (nonlinear_arith)
        requires
            yn == a.y * den + rely,
            uy == b.y - a.y,
    ;
    assert(xn - c.x * den == relx - vx * den) by (nonlinear_arith)
        requires
            xn == a.x * den + relx,
            vx == c.x - a.x,
    ;
    assert(yn - c.y * den == rely - vy * den) by (nonlinear_arith)
        requires
            yn == a.y * den + rely,
            vy == c.y - a.y,
    ;
    assert(sq_dist_num(xn, yn, den, a) == sq_dist_num(xn, yn, den, b));
    assert(sq_dist_num(xn, yn, den, a) == sq_dist_num(xn, yn, den, c));
    if o < 0 {
        lemma_sq_dist_num_neg(xn, yn, den, a.x as int, a.y as int);
        lemma_sq_dist_num_neg(xn, yn, den, b.x as int, b.y as int);
        lemma_sq_dist_num_neg(xn, yn, den, c.x as int, c.y as int);
        assert(circum_xn(a, b, c) == -xn);
        assert(circum_yn(a, b, c) == -yn);
        assert(circum_den(a, b, c) == -den);
    }
}

/// Exact circumcenter of the triangle `a b c`, derived from the
/// perpendicular-bisector equations in one algebraic closed form.
pub fn circumcenter(a: Point, b: Point, c: Point) -> (r: RatPoint)
    requires
        a.in_range(),
        b.in_range(),
        c.in_range(),
        orient2d_spec(a, b, c) != 0,
    ensures
        r.wf(),
        r.xn as int == circum_xn(a, b, c),
        r.yn as int == circum_yn(a, b, c),
        r.d as int == circum_den(a, b, c),
{
    let ux: i128 = (b.x - a.x) as i128;
    let uy: i128 = (b.y - a.y) as i128;
    let vx: i128 = (c.x - a.x) as i128;
    let vy: i128 = (c.y - a.y) as i128;
    proof {
        lemma_mul_bound(ux as int, ux as int, 2_000_000, 2_000_000);
        lemma_mul_bound(uy as int, uy as int, 2_000_000, 2_000_000);
        lemma_mul_bound(vx as int, vx as int, 2_000_000, 2_000_000);
        lemma_mul_bound(vy as int, vy as int, 2_000_000, 2_000_000);
        lemma_mul_bound(ux as int, vy as int, 2_000_000, 2_000_000);
        lemma_mul_bound(uy as int, vx as int, 2_000_000, 2_000_000);
    }
    let u2: i128 = ux * ux + uy * uy;
    let v2: i128 = vx * vx + vy * vy;
    let den: i128 = 2 * (ux * vy - uy * vx);
    proof {
        lemma_mul_bound(vy as int, u2 as int, 2_000_000, 8_000_000_000_000);
        lemma_mul_bound(uy as int, v2 as int, 2_000_000, 8_000_000_000_000);
        lemma_mul_bound(ux as int, v2 as int, 2_000_000, 8_000_000_000_000);
        lemma_mul_bound(vx as int, u2 as int, 2_000_000, 8_000_000_000_000);
        lemma_mul_bound(a.x as int, den as int, 1_000_000, 16_000_000_000_000);
        lemma_mul_bound(a.y as int, den as int, 1_000_000, 16_000_000_000_000);
    }
    let relx: i128 = vy * u2 - uy * v2;
    let rely: i128 = ux * v2 - vx * u2;
    let xn: i128 = (a.x as i128) * den + relx;
    let yn: i128 = (a.y as i128) * den + rely;
    if den > 0 {
        RatPoint { xn, yn, d: den }
    } else {
        RatPoint { xn: -xn, yn: -yn, d: -den }
    }
}

} // verus!

