//! Contact-manifold generation between two convex shapes on an exact
//! integer grid.
//!
//! Two supporting features, one per shape, are clipped against each other
//! along a contact direction. The resulting contact points are described
//! exactly, by vertices and rational interpolation weights, and are merged
//! into a persistent manifold that keeps the slot of every feature pair
//! that is produced again from one frame to the next.
//!
//! Beside the generator stand two utilities on the same grid: the
//! location of the point of a triangle closest to a given point, and the
//! bookkeeping of an incremental triangulation.

pub mod feature;
pub mod arith;
pub mod polyface;
pub mod contact;
pub mod clip2d;
pub mod clip3d;
pub mod clip;
pub mod kinematic;
pub mod allocator;
pub mod manifold;
pub mod frames;
pub mod generator;
pub mod triangulate;
pub mod point_triangle;
