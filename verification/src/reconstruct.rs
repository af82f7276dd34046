//! Spherical reconstruction: maps extracted Voronoi geometry back onto the
//! sphere, by either of two interchangeable exact strategies.
//!
//! Strategy one applies the inverse stereographic projection to a planar
//! point and scales the result to the target sphere radius. Strategy two
//! computes the spherical circumcenter of a face directly from its three
//! sphere-surface vertices: the normal of their plane (a cross product of
//! two chord vectors), oriented toward the hemisphere that contains the
//! triangle, is the spherical circumcenter's direction from the sphere
//! center. Both produce exact integer data; scaling a direction to unit
//! length is left to the consumer, since square roots leave the rational
//! domain. Output edges joining two reconstructed points approximate
//! great-circle arcs as straight chords — a documented approximation, not an
//! error.

use vstd::prelude::*;

verus! {

use crate::geometry::lemma_mul_bound;
use crate::projection::{SpherePoint, PlanePoint, spec_inverse, inverse};

/// An exact direction in space: a non-normalized vector from the sphere
/// center. Consumers scale it to the radius they need.
#[derive(Clone, Copy, PartialEq, Eq, Structural, Debug)]
pub struct Direction3 {
    pub x: i64,
    pub y: i64,
    pub z: i64,
}

/// Chord vector from `a` to `b`, scaled by the positive factor `a.w * b.w`.
pub open spec fn chord_x(a: SpherePoint, b: SpherePoint) -> int {
    b.x * a.w - a.x * b.w
}

pub open spec fn chord_y(a: SpherePoint, b: SpherePoint) -> int {
    b.y * a.w - a.y * b.w
}

pub open spec fn chord_z(a: SpherePoint, b: SpherePoint) -> int {
    b.z * a.w - a.z * b.w
}

/// Cross product of the two chord vectors out of `a`: a normal of the plane
/// through the three points.
pub open spec fn normal_x(a: SpherePoint, b: SpherePoint, c: SpherePoint) -> int {
    chord_y(a, b) * chord_z(a, c) - chord_z(a, b) * chord_y(a, c)
}

pub open spec fn normal_y(a: SpherePoint, b: SpherePoint, c: SpherePoint) -> int {
    chord_z(a, b) * chord_x(a, c) - chord_x(a, b) * chord_z(a, c)
}

pub open spec fn normal_z(a: SpherePoint, b: SpherePoint, c: SpherePoint) -> int {
    chord_x(a, b) * chord_y(a, c) - chord_y(a, b) * chord_x(a, c)
}

/// The direction of the triangle's centroid, scaled by the positive factor
/// `a.w * b.w * c.w`.
pub open spec fn centroid_x(a: SpherePoint, b: SpherePoint, c: SpherePoint) -> int {
    a.x * (b.w * c.w) + b.x * (a.w * c.w) + c.x * (a.w * b.w)
}

pub open spec fn centroid_y(a: SpherePoint, b: SpherePoint, c: SpherePoint) -> int {
    a.y * (b.w * c.w) + b.y * (a.w * c.w) + c.y * (a.w * b.w)
}

pub open spec fn centroid_z(a: SpherePoint, b: SpherePoint, c: SpherePoint) -> int {
    a.z * (b.w * c.w) + b.z * (a.w * c.w) + c.z * (a.w * b.w)
}

/// How the plane normal relates to the centroid's hemisphere: positive when
/// it already points that way, negative when it points away, zero exactly
/// when the three points and the sphere center are coplanar.
pub open spec fn hemisphere_dot(a: SpherePoint, b: SpherePoint, c: SpherePoint) -> int {
    normal_x(a, b, c) * centroid_x(a, b, c) + normal_y(a, b, c) * centroid_y(a, b, c) + normal_z(
        a,
        b,
        c,
    ) * centroid_z(a, b, c)
}

/// Strategy two: the spherical circumcenter of the triangle with vertices
/// `a`, `b`, `c` on the sphere, as the plane normal oriented toward the
/// hemisphere containing the triangle's centroid. Returns nothing exactly
/// when the three points and the center are coplanar (a degenerate triangle,
/// whose spherical circumcenter is ambiguous).
pub fn spherical_circumcenter(a: &SpherePoint, b: &SpherePoint, c: &SpherePoint) -> (r: Option<
    Direction3,
>)
    requires
        a.wf(),
        b.wf(),
        c.wf(),
    ensures
        (r is Some) <==> hemisphere_dot(*a, *b, *c) != 0,
        r matches Some(d) ==> {
            &&& hemisphere_dot(*a, *b, *c) > 0 ==> d.x == normal_x(*a, *b, *c) && d.y == normal_y(
                *a,
                *b,
                *c,
            ) && d.z == normal_z(*a, *b, *c)
            &&& hemisphere_dot(*a, *b, *c) < 0 ==> d.x == -normal_x(*a, *b, *c) && d.y
                == -normal_y(*a, *b, *c) && d.z == -normal_z(*a, *b, *c)
        },
{
    proof {
        lemma_mul_bound(b.x as int, a.w as int, 10_000, 10_000);
        lemma_mul_bound(a.x as int, b.w as int, 10_000, 10_000);
        lemma_mul_bound(b.y as int, a.w as int, 10_000, 10_000);
        lemma_mul_bound(a.y as int, b.w as int, 10_000, 10_000);
        lemma_mul_bound(b.z as int, a.w as int, 10_000, 10_000);
        lemma_mul_bound(a.z as int, b.w as int, 10_000, 10_000);
        lemma_mul_bound(c.x as int, a.w as int, 10_000, 10_000);
        lemma_mul_bound(a.x as int, c.w as int, 10_000, 10_000);
        lemma_mul_bound(c.y as int, a.w as int, 10_000, 10_000);
        lemma_mul_bound(a.y as int, c.w as int, 10_000, 10_000);
        lemma_mul_bound(c.z as int, a.w as int, 10_000, 10_000);
        lemma_mul_bound(a.z as int, c.w as int, 10_000, 10_000);
    }
    let ux = b.x * a.w - a.x * b.w;
    let uy = b.y * a.w - a.y * b.w;
    let uz = b.z * a.w - a.z * b.w;
    let vx = c.x * a.w - a.x * c.w;
    let vy = c.y * a.w - a.y * c.w;
    let vz = c.z * a.w - a.z * c.w;
    proof {
        lemma_mul_bound(uy as int, vz as int, 200_000_000, 200_000_000);
        lemma_mul_bound(uz as int, vy as int, 200_000_000, 200_000_000);
        lemma_mul_bound(uz as int, vx as int, 200_000_000, 200_000_000);
        lemma_mul_bound(ux as int, vz as int, 200_000_000, 200_000_000);
        lemma_mul_bound(ux as int, vy as int, 200_000_000, 200_000_000);
        lemma_mul_bound(uy as int, vx as int, 200_000_000, 200_000_000);
    }
    let nx = uy * vz - uz * vy;
    let ny = uz * vx - ux * vz;
    let nz = ux * vy - uy * vx;
    proof {
        lemma_mul_bound(b.w as int, c.w as int, 10_000, 10_000);
        lemma_mul_bound(a.w as int, c.w as int, 10_000, 10_000);
        lemma_mul_bound(a.w as int, b.w as int, 10_000, 10_000);
        lemma_mul_bound(a.x as int, (b.w * c.w) as int, 10_000, 100_000_000);
        lemma_mul_bound(b.x as int, (a.w * c.w) as int, 10_000, 100_000_000);
        lemma_mul_bound(c.x as int, (a.w * b.w) as int, 10_000, 100_000_000);
        lemma_mul_bound(a.y as int, (b.w * c.w) as int, 10_000, 100_000_000);
        lemma_mul_bound(b.y as int, (a.w * c.w) as int, 10_000, 100_000_000);
        lemma_mul_bound(c.y as int, (a.w * b.w) as int, 10_000, 100_000_000);
        lemma_mul_bound(a.z as int, (b.w * c.w) as int, 10_000, 100_000_000);
        lemma_mul_bound(b.z as int, (a.w * c.w) as int, 10_000, 100_000_000);
        lemma_mul_bound(c.z as int, (a.w * b.w) as int, 10_000, 100_000_000);
    }
    let gx = a.x * (b.w * c.w) + b.x * (a.w * c.w) + c.x * (a.w * b.w);
    let gy = a.y * (b.w * c.w) + b.y * (a.w * c.w) + c.y * (a.w * b.w);
    let gz = a.z * (b.w * c.w) + b.z * (a.w * c.w) + c.z * (a.w * b.w);
    proof {
        lemma_mul_bound(
            nx as int,
            gx as int,
            400_000_000_000_000_000,
            3_000_000_000_000,
        );
        lemma_mul_bound(
            ny as int,
            gy as int,
            400_000_000_000_000_000,
            3_000_000_000_000,
        );
        lemma_mul_bound(
            nz as int,
            gz as int,
            400_000_000_000_000_000,
            3_000_000_000_000,
        );
    }
    let dot: i128 = (nx as i128) * (gx as i128) + (ny as i128) * (gy as i128) + (nz as i128) * (
    gz as i128);
    if dot > 0 {
        Some(Direction3 { x: nx, y: ny, z: nz })
    } else if dot < 0 {
        Some(Direction3 { x: -nx, y: -ny, z: -nz })
    } else {
        None
    }
}

/// The spherical circumcenter is equidistant, in angle, from the three
/// triangle corners: the plane normal makes the same (denominator-scaled)
/// dot product with each corner direction, so the three corners lie on one
/// circle around it. Negating the normal preserves the equalities, so they
/// hold for the oriented center as well.
pub proof fn lemma_spherical_center_equidistant(a: SpherePoint, b: SpherePoint, c: SpherePoint)
    ensures
        (normal_x(a, b, c) * b.x + normal_y(a, b, c) * b.y + normal_z(a, b, c) * b.z) * a.w == (
        normal_x(a, b, c) * a.x + normal_y(a, b, c) * a.y + normal_z(a, b, c) * a.z) * b.w,
        (normal_x(a, b, c) * c.x + normal_y(a, b, c) * c.y + normal_z(a, b, c) * c.z) * a.w == (
        normal_x(a, b, c) * a.x + normal_y(a, b, c) * a.y + normal_z(a, b, c) * a.z) * c.w,
{
    let ux = chord_x(a, b);
    let uy = chord_y(a, b);
    let uz = chord_z(a, b);
    let vx = chord_x(a, c);
    let vy = chord_y(a, c);
    let vz = chord_z(a, c);
    let nx = normal_x(a, b, c);
    let ny = normal_y(a, b, c);
    let nz = normal_z(a, b, c);
    lemma_cross_perpendicular(ux, uy, uz, vx, vy, vz);
    assert(nx * ux + ny * uy + nz * uz == 0);
    assert(nx * vx + ny * vy + nz * vz == 0);
    lemma_dot_chord_expand(
        nx,
        ny,
        nz,
        a.x as int,
        a.y as int,
        a.z as int,
        a.w as int,
        b.x as int,
        b.y as int,
        b.z as int,
        b.w as int,
    );
    lemma_dot_chord_expand(
        nx,
        ny,
        nz,
        a.x as int,
        a.y as int,
        a.z as int,
        a.w as int,
        c.x as int,
        c.y as int,
        c.z as int,
        c.w as int,
    );
}

/// A cross product is perpendicular to both of its factors.
proof fn lemma_cross_perpendicular(ux: int, uy: int, uz: int, vx: int, vy: int, vz: int)
    by (nonlinear_arith)
    ensures
        (uy * vz - uz * vy) * ux + (uz * vx - ux * vz) * uy + (ux * vy - uy * vx) * uz == 0,
        (uy * vz - uz * vy) * vx + (uz * vx - ux * vz) * vy + (ux * vy - uy * vx) * vz == 0,
{
}

/// The dot product with a chord between two homogeneous points splits into
/// the difference of the scaled dot products with the points themselves.
proof fn lemma_dot_chord_expand(
    nx: int,
    ny: int,
    nz: int,
    px: int,
    py: int,
    pz: int,
    pw: int,
    qx: int,
    qy: int,
    qz: int,
    qw: int,
)
    ensures
        nx * (qx * pw - px * qw) + ny * (qy * pw - py * qw) + nz * (qz * pw - pz * qw) == (nx * qx
            + ny * qy + nz * qz) * pw - (nx * px + ny * py + nz * pz) * qw,
{
    assert(nx * (qx * pw - px * qw) == (nx * qx) * pw - (nx * px) * qw) by (nonlinear_arith);
    assert(ny * (qy * pw - py * qw) == (ny * qy) * pw - (ny * py) * qw) by (nonlinear_arith);
    assert(nz * (qz * pw - pz * qw) == (nz * qz) * pw - (nz * pz) * qw) by (nonlinear_arith);
    lemma_distribute3(nx * qx, ny * qy, nz * qz, pw);
    lemma_distribute3(nx * px, ny * py, nz * pz, qw);
}

/// Multiplication distributes over a three-term sum.
proof fn lemma_distribute3(a: int, b: int, c: int, m: int)
    by (nonlinear_arith)
    ensures
        (a + b + c) * m == a * m + b * m + c * m,
{
}

/// Scaling each coordinate of a point on the unit sphere by the radius gives
/// a point on the sphere of that radius.
proof fn lemma_scaled_sphere(x: int, y: int, z: int, w: int, r: int)
    requires
        x * x + y * y + z * z == w * w,
    ensures
        (r * x) * (r * x) + (r * y) * (r * y) + (r * z) * (r * z) == (r * r) * (w * w),
{
    assert((r * x) * (r * x) == (r * r) * (x * x)) by (nonlinear_arith);
    assert((r * y) * (r * y) == (r * r) * (y * y)) by (nonlinear_arith);
    assert((r * z) * (r * z) == (r * r) * (z * z)) by (nonlinear_arith);
    assert((r * r) * (x * x) + (r * r) * (y * y) + (r * r) * (z * z) == (r * r) * (x * x + y * y + z
        * z)) by (nonlinear_arith);
}

/// Strategy one: reconstruct a sphere point from a planar point by the exact
/// inverse projection, scaled to the target radius. The result is the
/// homogeneous point `radius * inverse(q)`, exactly on the sphere of that
/// radius.
pub fn reconstruct_by_inverse(q: &PlanePoint, radius: i64) -> (r: SpherePoint)
    requires
        q.wf(),
        0 < radius <= 1_000_000,
    ensures
        r.x == radius * spec_inverse(*q).x,
        r.y == radius * spec_inverse(*q).y,
        r.z == radius * spec_inverse(*q).z,
        r.w == spec_inverse(*q).w,
        r.w > 0,
        r.x * r.x + r.y * r.y + r.z * r.z == (radius * radius) * (r.w * r.w),
{
    let s = inverse(q);
    proof {
        lemma_mul_bound(radius as int, s.x as int, 1_000_000, 3_000_000_000_000);
        lemma_mul_bound(radius as int, s.y as int, 1_000_000, 3_000_000_000_000);
        lemma_mul_bound(radius as int, s.z as int, 1_000_000, 3_000_000_000_000);
        lemma_scaled_sphere(s.x as int, s.y as int, s.z as int, s.w as int, radius as int);
    }
    SpherePoint { x: radius * s.x, y: radius * s.y, z: radius * s.z, w: s.w }
}

} // verus!
