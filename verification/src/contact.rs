//! Raw contacts: what the clipping of two features produces.

use vstd::prelude::*;
use crate::arith::{Point, Ratio};
use crate::feature::FeatureId;

verus! {

/// Where a contact point lies on one of the two features.
#[derive(Clone, Copy, Debug, PartialEq, Eq, Structural)]
pub enum Witness {
    /// Exactly the vertex `index` of the feature.
    Vertex { index: usize },
    /// On the segment between two vertices of the feature, at
    /// `from * (1 - weight) + to * weight`.
    Edge { from: usize, to: usize, weight: Ratio },
    /// The vertex `index` of the other feature, moved along the contact
    /// direction by `shift` times that direction.
    Cast { index: usize, shift: Ratio },
    /// A point given by its coordinates.
    At { point: Point },
}

/// One contact point between two features, with the identifiers of the
/// sub-features that produced it.
#[derive(Clone, Copy, Debug, PartialEq, Eq, Structural)]
pub struct RawContact {
    pub on1: Witness,
    pub on2: Witness,
    pub feature1: FeatureId,
    pub feature2: FeatureId,
}

} // verus!
