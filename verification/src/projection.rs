//! Stereographic projection between the unit sphere and the plane, carried
//! out exactly on homogeneous integer coordinates.
//!
//! A sphere point is the quadruple `(x, y, z, w)` standing for
//! `(x/w, y/w, z/w)` with `w > 0`; a plane point is the triple `(u, v, w)`
//! standing for `(u/w, v/w)`. One canonical right-handed convention is fixed:
//! the projection pole is the sphere point `(0, -1, 0)`, `forward` maps
//! `(x, y, z)` to `(x, -z) / (1 + y)`, and `inverse` maps `(u, v)` to
//! `(2u, 1 - u^2 - v^2, -2v) / (u^2 + v^2 + 1)`. On these exact
//! representations the inverse is algebraically exact: `inverse(forward(p))`
//! is the same sphere point as `p` for every `p` other than the pole itself.
//! The pole has no finite image and is handled by explicit re-insertion
//! ("pole stitching") by the pipeline, never by projecting it.

use vstd::prelude::*;

verus! {

use crate::geometry::{Point, RatPoint, lemma_mul_bound};

/// Largest homogeneous denominator (and so coordinate magnitude) of a sphere
/// point: sphere positions are resolved to this fixed-point grid.
pub const SPHERE_LIMIT: i64 = 10_000;

/// Largest magnitude of a plane point's homogeneous components: wide enough
/// for every projected sphere point, every triangulation grid point, and the
/// quantized circumcenters of the dual graph.
pub const PLANE_LIMIT: i64 = 1_000_000;

/// A point of (or within) the unit sphere, as a homogeneous integer
/// quadruple `(x/w, y/w, z/w)`.
#[derive(Clone, Copy, PartialEq, Eq, Structural, Debug)]
pub struct SpherePoint {
    pub x: i64,
    pub y: i64,
    pub z: i64,
    pub w: i64,
}

/// A point of the projection plane, as a homogeneous integer triple
/// `(u/w, v/w)`.
#[derive(Clone, Copy, PartialEq, Eq, Structural, Debug)]
pub struct PlanePoint {
    pub u: i64,
    pub v: i64,
    pub w: i64,
}

impl SpherePoint {
    /// Positive bounded denominator, coordinates within the unit ball.
    pub open spec fn wf(self) -> bool {
        &&& 0 < self.w <= SPHERE_LIMIT as int
        &&& -self.w <= self.x <= self.w
        &&& -self.w <= self.y <= self.w
        &&& -self.w <= self.z <= self.w
    }

    /// The point lies exactly on the unit sphere.
    pub open spec fn on_unit_sphere(self) -> bool {
        self.x * self.x + self.y * self.y + self.z * self.z == self.w * self.w
    }

    /// The point is the projection pole `(0, -1, 0)`, which has no finite
    /// image under `forward`.
    pub open spec fn is_pole(self) -> bool {
        self.x == 0 && self.z == 0 && self.y == -self.w
    }

    /// The two homogeneous quadruples name the same point of space.
    pub open spec fn same_point(self, other: SpherePoint) -> bool {
        &&& self.x * other.w == other.x * self.w
        &&& self.y * other.w == other.y * self.w
        &&& self.z * other.w == other.z * self.w
    }

    pub fn new(x: i64, y: i64, z: i64, w: i64) -> (r: SpherePoint)
        ensures
            r.x == x,
            r.y == y,
            r.z == z,
            r.w == w,
    {
        SpherePoint { x, y, z, w }
    }
}

impl PlanePoint {
    /// Positive bounded denominator and bounded numerators: satisfied by the
    /// image of every well-formed sphere point and by every quantized plane
    /// point of the pipeline.
    pub open spec fn wf(self) -> bool {
        &&& 0 < self.w <= PLANE_LIMIT as int
        &&& -(PLANE_LIMIT as int) <= self.u <= PLANE_LIMIT as int
        &&& -(PLANE_LIMIT as int) <= self.v <= PLANE_LIMIT as int
    }

    pub fn new(u: i64, v: i64, w: i64) -> (r: PlanePoint)
        ensures
            r.u == u,
            r.v == v,
            r.w == w,
    {
        PlanePoint { u, v, w }
    }
}

/// The image of a sphere point under stereographic projection from the pole
/// `(0, -1, 0)`: `(x, -z) / (w + y)` in homogeneous form.
pub open spec fn spec_forward(p: SpherePoint) -> PlanePoint {
    PlanePoint { u: p.x, v: (-p.z) as i64, w: (p.w + p.y) as i64 }
}

/// The preimage of a plane point on the unit sphere:
/// `(2uw, w^2 - u^2 - v^2, -2vw) / (u^2 + v^2 + w^2)` in homogeneous form.
pub open spec fn spec_inverse(q: PlanePoint) -> SpherePoint {
    SpherePoint {
        x: (2 * q.u * q.w) as i64,
        y: (q.w * q.w - q.u * q.u - q.v * q.v) as i64,
        z: (-2 * q.v * q.w) as i64,
        w: (q.u * q.u + q.v * q.v + q.w * q.w) as i64,
    }
}

/// Stereographic projection onto the plane; exact, with no arithmetic
/// beyond one addition. The formula is well defined for every point of the
/// unit ball strictly above the pole plane `y == -w` — in particular for
/// every point of the unit sphere other than the pole itself.
pub fn forward(p: &SpherePoint) -> (q: PlanePoint)
    requires
        p.wf(),
        p.y + p.w > 0,
    ensures
        q == spec_forward(*p),
        q.wf(),
{
    PlanePoint { u: p.x, v: -p.z, w: p.w + p.y }
}

/// Exact inverse stereographic projection: the result lies exactly on the
/// unit sphere.
pub fn inverse(q: &PlanePoint) -> (r: SpherePoint)
    requires
        q.wf(),
    ensures
        r == spec_inverse(*q),
        r.w > 0,
        r.on_unit_sphere(),
        -2_000_000_000_000 <= r.x <= 2_000_000_000_000,
        -2_000_000_000_000 <= r.y <= 2_000_000_000_000,
        -2_000_000_000_000 <= r.z <= 2_000_000_000_000,
        r.w <= 3_000_000_000_000,
{
    proof {
        lemma_mul_bound(q.u as int, q.u as int, 1_000_000, 1_000_000);
        lemma_mul_bound(q.v as int, q.v as int, 1_000_000, 1_000_000);
        lemma_mul_bound(q.w as int, q.w as int, 1_000_000, 1_000_000);
        lemma_mul_bound(q.u as int, q.w as int, 1_000_000, 1_000_000);
        lemma_mul_bound(q.v as int, q.w as int, 1_000_000, 1_000_000);
        lemma_mul_bound(2 * q.u as int, q.w as int, 2_000_000, 1_000_000);
        lemma_mul_bound(-2 * q.v as int, q.w as int, 2_000_000, 1_000_000);
        lemma_on_sphere_identity(q.u as int, q.v as int, q.w as int);
        crate::geometry::lemma_square_nonneg(q.u as int);
        crate::geometry::lemma_square_nonneg(q.v as int);
        assert(q.w * q.w >= 1) by (nonlinear_arith)
            requires
                q.w >= 1,
        ;
    }
    SpherePoint {
        x: 2 * q.u * q.w,
        y: q.w * q.w - q.u * q.u - q.v * q.v,
        z: -2 * q.v * q.w,
        w: q.u * q.u + q.v * q.v + q.w * q.w,
    }
}

/// The algebraic identity behind `inverse`: its image satisfies the unit
/// sphere equation.
proof fn lemma_on_sphere_identity(u: int, v: int, w: int)
    ensures
        (2 * u * w) * (2 * u * w) + (w * w - u * u - v * v) * (w * w - u * u - v * v) + (-2 * v * w)
            * (-2 * v * w) == (u * u + v * v + w * w) * (u * u + v * v + w * w),
{
    let s = u * u + v * v;
    let t = w * w;
    assert((2 * u * w) * (2 * u * w) == 4 * ((u * u) * (w * w))) by (nonlinear_arith);
    assert((-2 * v * w) * (-2 * v * w) == 4 * ((v * v) * (w * w))) by (nonlinear_arith);
    assert(4 * ((u * u) * (w * w)) + 4 * ((v * v) * (w * w)) == 4 * (s * t)) by (nonlinear_arith)
        requires
            s == u * u + v * v,
            t == w * w,
    ;
    assert((t - s) * (t - s) + 4 * (s * t) == (s + t) * (s + t)) by (nonlinear_arith);
}

/// The projection round trip is exact: for every point on the unit sphere
/// other than the pole, `inverse(forward(p))` is the same sphere point as
/// `p` (so in particular it agrees within any tolerance).
pub proof fn lemma_inverse_forward_roundtrip(p: SpherePoint)
    requires
        p.wf(),
        p.on_unit_sphere(),
        !p.is_pole(),
        p.y + p.w > 0,
    ensures
        spec_inverse(spec_forward(p)).same_point(p),
        spec_inverse(spec_forward(p)).w > 0,
{
    let x = p.x as int;
    let y = p.y as int;
    let z = p.z as int;
    let w = p.w as int;
    let q = spec_forward(p);
    assert(q.u == x && q.v == -z && q.w == w + y);
    let r = spec_inverse(q);
    // The homogeneous result is (x, y, z, w) scaled by the positive factor
    // 2 (w + y).
    assert((w + y) * (w + y) - x * x - (-z) * (-z) == 2 * y * (w + y)) by (nonlinear_arith)
        requires
            x * x + y * y + z * z == w * w,
    ;
    assert(x * x + (-z) * (-z) + (w + y) * (w + y) == 2 * w * (w + y)) by (nonlinear_arith)
        requires
            x * x + y * y + z * z == w * w,
    ;
    assert(2 * w * (w + y) <= 4 * 10_000 * 10_000 && 2 * y * (w + y) <= 4 * 10_000 * 10_000 && -(4
        * 10_000 * 10_000) <= 2 * y * (w + y) && 2 * x * (w + y) <= 4 * 10_000 * 10_000 && -(4
        * 10_000 * 10_000) <= 2 * x * (w + y) && -2 * z * (w + y) <= 4 * 10_000 * 10_000 && -(4
        * 10_000 * 10_000) <= -2 * z * (w + y)) by (nonlinear_arith)
        requires
            0 < w <= 10_000,
            -w <= x <= w,
            -w <= y <= w,
            -w <= z <= w,
            w + y > 0,
    ;
    assert(r.x == 2 * x * (w + y));
    assert(r.y == 2 * y * (w + y));
    assert(q.v == -z);
    assert(q.w == w + y);
    assert(-2 * q.v * q.w == 2 * z * (w + y) && -(4 * 10_000 * 10_000) <= 2 * z * (w + y) <= 4
        * 10_000 * 10_000) by (nonlinear_arith)
        requires
            q.v == -z,
            q.w == w + y,
            0 < w <= 10_000,
            -w <= z <= w,
            -w <= y <= w,
            w + y > 0,
    ;
    assert(r.z == 2 * z * (w + y));
    assert(r.w == 2 * w * (w + y));
    assert(r.w > 0) by (nonlinear_arith)
        requires
            r.w == 2 * w * (w + y),
            w > 0,
            w + y > 0,
    ;
    assert((2 * x * (w + y)) * w == x * (2 * w * (w + y))) by (nonlinear_arith);
    assert((2 * y * (w + y)) * w == y * (2 * w * (w + y))) by (nonlinear_arith);
    assert((2 * z * (w + y)) * w == z * (2 * w * (w + y))) by (nonlinear_arith);
}

/// Division rounded toward zero, for a positive divisor.
pub open spec fn div_toward_zero(n: int, d: int) -> int {
    if n >= 0 {
        n / d
    } else {
        -((-n) / d)
    }
}

/// The grid point that quantizes the plane point `(u/w, v/w)` at the given
/// scale: each coordinate times `scale`, rounded toward zero.
pub open spec fn spec_grid(q: PlanePoint, scale: int) -> Point {
    Point {
        x: div_toward_zero(q.u * scale, q.w as int) as i64,
        y: div_toward_zero(q.v * scale, q.w as int) as i64,
    }
}

/// Quantizes an exact plane point onto the triangulation grid: each
/// coordinate of `(u/w, v/w)`, multiplied by `scale`, is rounded toward
/// zero. This is the one documented approximation of the spherical pipeline.
pub fn project_to_grid(q: &PlanePoint, scale: i64) -> (r: Point)
    requires
        q.wf(),
        0 < scale <= 1_000_000,
    ensures
        r == spec_grid(*q, scale as int),
{
    proof {
        lemma_mul_bound(q.u as int, scale as int, 1_000_000, 1_000_000);
        lemma_mul_bound(q.v as int, scale as int, 1_000_000, 1_000_000);
        lemma_mul_bound((-q.u) as int, scale as int, 1_000_000, 1_000_000);
        lemma_mul_bound((-q.v) as int, scale as int, 1_000_000, 1_000_000);
    }
    let x = if q.u >= 0 {
        (q.u * scale) / q.w
    } else {
        -((-q.u * scale) / q.w)
    };
    let y = if q.v >= 0 {
        (q.v * scale) / q.w
    } else {
        -((-q.v * scale) / q.w)
    };
    proof {
        lemma_div_bound(q.u as int * scale as int, q.w as int);
        lemma_div_bound((-q.u) as int * scale as int, q.w as int);
        lemma_div_bound(q.v as int * scale as int, q.w as int);
        lemma_div_bound((-q.v) as int * scale as int, q.w as int);
        assert(q.u >= 0 ==> q.u * scale >= 0) by (nonlinear_arith)
            requires
                scale > 0,
        ;
        assert(q.u < 0 ==> q.u * scale < 0 && (-q.u) * scale == -(q.u * scale))
            by (nonlinear_arith)
            requires
                scale > 0,
        ;
        assert(q.v >= 0 ==> q.v * scale >= 0) by (nonlinear_arith)
            requires
                scale > 0,
        ;
        assert(q.v < 0 ==> q.v * scale < 0 && (-q.v) * scale == -(q.v * scale))
            by (nonlinear_arith)
            requires
                scale > 0,
        ;
    }
    Point { x, y }
}

/// Quantizes an exact rational plane point — a circumcenter of the dual
/// graph, whose coordinates are in grid units over the grid scale — to a
/// plane point with the given homogeneous denominator, rounding each
/// coordinate toward zero. Returns nothing exactly when a quantized
/// coordinate falls outside the plane-point domain (a circumcenter
/// arbitrarily far from the origin), so every returned point is well formed
/// and ready for the inverse projection.
pub fn rat_to_plane(c: &RatPoint, grid_scale: i64, denom: i64) -> (r: Option<PlanePoint>)
    requires
        c.wf(),
        0 < grid_scale <= 1_000_000,
        0 < denom <= 1_000_000,
        -100_000_000_000_000_000_000 <= c.xn <= 100_000_000_000_000_000_000,
        -100_000_000_000_000_000_000 <= c.yn <= 100_000_000_000_000_000_000,
        c.d <= 100_000_000_000_000_000_000,
    ensures
        ({
            let u = div_toward_zero(c.xn * denom, c.d * grid_scale);
            let v = div_toward_zero(c.yn * denom, c.d * grid_scale);
            &&& (r is Some) <==> (-(PLANE_LIMIT as int) <= u <= PLANE_LIMIT as int && -(
            PLANE_LIMIT as int) <= v <= PLANE_LIMIT as int)
            &&& (r matches Some(q) ==> q.u == u && q.v == v && q.w == denom && q.wf())
        }),
{
    proof {
        lemma_mul_bound(
            c.xn as int,
            denom as int,
            100_000_000_000_000_000_000,
            1_000_000,
        );
        lemma_mul_bound(
            c.yn as int,
            denom as int,
            100_000_000_000_000_000_000,
            1_000_000,
        );
        lemma_mul_bound(
            c.d as int,
            grid_scale as int,
            100_000_000_000_000_000_000,
            1_000_000,
        );
        assert(c.d * grid_scale >= 1) by (nonlinear_arith)
            requires
                c.d >= 1,
                grid_scale >= 1,
        ;
    }
    let den: i128 = c.d * (grid_scale as i128);
    let nu: i128 = c.xn * (denom as i128);
    let nv: i128 = c.yn * (denom as i128);
    proof {
        lemma_div_bound(nu as int, den as int);
        lemma_div_bound(-nu as int, den as int);
        lemma_div_bound(nv as int, den as int);
        lemma_div_bound(-nv as int, den as int);
    }
    let u: i128 = if nu >= 0 {
        nu / den
    } else {
        -((-nu) / den)
    };
    let v: i128 = if nv >= 0 {
        nv / den
    } else {
        -((-nv) / den)
    };
    if u > PLANE_LIMIT as i128 || u < -(PLANE_LIMIT as i128) || v > PLANE_LIMIT as i128 || v < -(
    PLANE_LIMIT as i128) {
        None
    } else {
        Some(PlanePoint { u: u as i64, v: v as i64, w: denom })
    }
}

/// Euclidean division of a non-negative value by a positive value is
/// non-negative and no larger than the dividend.
proof fn lemma_div_bound(a: int, b: int)
    requires
        b >= 1,
    ensures
        a >= 0 ==> 0 <= a / b <= a,
{
    if a >= 0 {
        assert(0 <= a / b <= a) by (nonlinear_arith)
            requires
                a >= 0,
                b >= 1,
        ;
    }
}

} // verus!
