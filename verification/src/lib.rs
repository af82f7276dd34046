//! Planar Delaunay triangulation with Voronoi dual extraction and
//! stereographic lifting between the plane and a sphere.
//!
//! All geometry is carried out exactly: planar vertices are integer points on
//! a bounded grid (fixed-point coordinates), sphere and plane points of the
//! projection layer are homogeneous integer quadruples and triples, and
//! circumcenters are exact rational points. Every predicate (orientation,
//! in-circle) is decided by exact integer arithmetic, so the usual
//! floating-point robustness pitfalls cannot arise; the one remaining
//! degeneracy, a zero-area triangle, is detected exactly and reported as a
//! [`voronoi::NumericalInstabilityWarning`] instead of producing overflow or
//! division by zero.

pub mod geometry;
pub mod triangulation;
pub mod pipeline;
pub mod projection;
pub mod reconstruct;
pub mod voronoi;
