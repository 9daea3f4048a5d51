//! How a contact point is tracked while the two shapes move.

use vstd::prelude::*;
use crate::arith::Point;
use crate::feature::{Dimension, FeatureId, FeatureKind};
use crate::polyface::ConvexPolyface;

verus! {

/// The way the two points of a contact follow their shapes. The line
/// variants carry the direction of the edge that the contact slides along,
/// from the edge's first end to its second.
#[derive(Clone, Copy, Debug, PartialEq, Eq, Structural)]
pub enum ContactKinematic {
    PointPoint,
    PointPlane,
    PlanePoint,
    PointLine(Point),
    LinePoint(Point),
    LineLine(Point, Point),
}

/// Why a contact on an edge cannot be classified. Both are defects of the
/// feature that the shape handed in, and are no sign of a missing contact.
#[derive(Clone, Copy, Debug, PartialEq, Eq, Structural)]
pub enum KinematicError {
    /// The feature has no edge with the identifier of the contact.
    UnknownEdge,
    /// The two ends of the edge coincide, so that it has no direction.
    DegenerateEdge,
}

/// The direction of the edge named `id` of `face`.
pub open spec fn edge_direction_spec(face: &ConvexPolyface, id: FeatureId) -> Result<Point, KinematicError> {
    match face.edge_spec(id) {
        None => Err(KinematicError::UnknownEdge),
        Some((a, b)) => if a == b {
            Err(KinematicError::DegenerateEdge)
        } else {
            Ok(Point { x: (b.x - a.x) as i64, y: (b.y - a.y) as i64, z: (b.z - a.z) as i64 })
        },
    }
}

/// The classification of a contact between the features `f1` and `f2` in
/// the plane. Only a vertex against an edge is a contact of a point with a
/// plane; every other pair is tracked as two points.
pub open spec fn kinematic_2d_spec(f1: FeatureId, f2: FeatureId) -> ContactKinematic {
    match (f1.kind_spec(), f2.kind_spec()) {
        (FeatureKind::Vertex, FeatureKind::Edge) => ContactKinematic::PointPlane,
        (FeatureKind::Edge, FeatureKind::Vertex) => ContactKinematic::PlanePoint,
        _ => ContactKinematic::PointPoint,
    }
}

/// The classification of a contact between the features `f1` of `face1`
/// and `f2` of `face2` in space. A pair of two faces, or of an edge and a
/// face, is tracked as two points. Where both features are edges and both
/// fail, the error is that of the first.
pub open spec fn kinematic_3d_spec(
    face1: &ConvexPolyface,
    f1: FeatureId,
    face2: &ConvexPolyface,
    f2: FeatureId,
) -> Result<ContactKinematic, KinematicError> {
    match (f1.kind_spec(), f2.kind_spec()) {
        (FeatureKind::Vertex, FeatureKind::Face) => Ok(ContactKinematic::PointPlane),
        (FeatureKind::Face, FeatureKind::Vertex) => Ok(ContactKinematic::PlanePoint),
        (FeatureKind::Edge, FeatureKind::Vertex) => match edge_direction_spec(face1, f1) {
            Ok(d1) => Ok(ContactKinematic::LinePoint(d1)),
            Err(e) => Err(e),
        },
        (FeatureKind::Vertex, FeatureKind::Edge) => match edge_direction_spec(face2, f2) {
            Ok(d2) => Ok(ContactKinematic::PointLine(d2)),
            Err(e) => Err(e),
        },
        (FeatureKind::Edge, FeatureKind::Edge) => match edge_direction_spec(face1, f1) {
            Ok(d1) => match edge_direction_spec(face2, f2) {
                Ok(d2) => Ok(ContactKinematic::LineLine(d1, d2)),
                Err(e) => Err(e),
            },
            Err(e) => Err(e),
        },
        _ => Ok(ContactKinematic::PointPoint),
    }
}

/// The classification of a contact in a space of dimension `dim`.
pub open spec fn contact_kinematic_spec(
    dim: Dimension,
    face1: &ConvexPolyface,
    f1: FeatureId,
    face2: &ConvexPolyface,
    f2: FeatureId,
) -> Result<ContactKinematic, KinematicError> {
    match dim {
        Dimension::Two => Ok(kinematic_2d_spec(f1, f2)),
        Dimension::Three => kinematic_3d_spec(face1, f1, face2, f2),
    }
}

/// Looks up the edge named `id` of `face` and returns its direction.
pub fn edge_direction(face: &ConvexPolyface, id: FeatureId) -> (r: Result<Point, KinematicError>)
    requires
        face.wf(),
    ensures
        r == edge_direction_spec(face, id),
{
    match face.edge(id) {
        None => Err(KinematicError::UnknownEdge),
        Some((a, b)) => {
            if a.x == b.x && a.y == b.y && a.z == b.z {
                Err(KinematicError::DegenerateEdge)
            } else {
                Ok(Point { x: b.x - a.x, y: b.y - a.y, z: b.z - a.z })
            }
        },
    }
}

/// Classifies a contact between the features `f1` of `face1` and `f2` of
/// `face2`.
pub fn contact_kinematic(
    dim: Dimension,
    face1: &ConvexPolyface,
    f1: FeatureId,
    face2: &ConvexPolyface,
    f2: FeatureId,
) -> (r: Result<ContactKinematic, KinematicError>)
    requires
        face1.wf(),
        face2.wf(),
    ensures
        r == contact_kinematic_spec(dim, face1, f1, face2, f2),
        dim == Dimension::Two ==> r is Ok,
{
    match dim {
        Dimension::Two => match (f1.kind(), f2.kind()) {
            (FeatureKind::Vertex, FeatureKind::Edge) => Ok(ContactKinematic::PointPlane),
            (FeatureKind::Edge, FeatureKind::Vertex) => Ok(ContactKinematic::PlanePoint),
            _ => Ok(ContactKinematic::PointPoint),
        },
        Dimension::Three => match (f1.kind(), f2.kind()) {
            (FeatureKind::Vertex, FeatureKind::Face) => Ok(ContactKinematic::PointPlane),
            (FeatureKind::Face, FeatureKind::Vertex) => Ok(ContactKinematic::PlanePoint),
            (FeatureKind::Edge, FeatureKind::Vertex) => match edge_direction(face1, f1) {
                Ok(d1) => Ok(ContactKinematic::LinePoint(d1)),
                Err(e) => Err(e),
            },
            (FeatureKind::Vertex, FeatureKind::Edge) => match edge_direction(face2, f2) {
                Ok(d2) => Ok(ContactKinematic::PointLine(d2)),
                Err(e) => Err(e),
            },
            (FeatureKind::Edge, FeatureKind::Edge) => match edge_direction(face1, f1) {
                Ok(d1) => match edge_direction(face2, f2) {
                    Ok(d2) => Ok(ContactKinematic::LineLine(d1, d2)),
                    Err(e) => Err(e),
                },
                Err(e) => Err(e),
            },
            _ => Ok(ContactKinematic::PointPoint),
        },
    }
}

} // verus!
