//! Identifiers of the geometric features of a shape.

use vstd::prelude::*;

verus! {

/// The stable identity of a vertex, an edge or a face of a shape.
///
/// The number is an index into the shape's fixed list of features of that
/// kind. Two identifiers are equal when both kind and index agree.
#[derive(Clone, Copy, Debug, PartialEq, Eq, Structural, Hash)]
pub enum FeatureId {
    Vertex(usize),
    Edge(usize),
    Face(usize),
}

/// The kind of a feature, without its index.
#[derive(Clone, Copy, Debug, PartialEq, Eq, Structural)]
pub enum FeatureKind {
    Vertex,
    Edge,
    Face,
}

/// The dimension of the ambient space, chosen by the caller at run time.
#[derive(Clone, Copy, Debug, PartialEq, Eq, Structural)]
pub enum Dimension {
    Two,
    Three,
}

impl FeatureId {
    /// The kind of this feature.
    pub open spec fn kind_spec(self) -> FeatureKind {
        match self {
            FeatureId::Vertex(_) => FeatureKind::Vertex,
            FeatureId::Edge(_) => FeatureKind::Edge,
            FeatureId::Face(_) => FeatureKind::Face,
        }
    }

    /// The index of this feature in its shape's list.
    pub open spec fn index_spec(self) -> usize {
        match self {
            FeatureId::Vertex(i) => i,
            FeatureId::Edge(i) => i,
            FeatureId::Face(i) => i,
        }
    }

    /// Returns the kind of this feature.
    pub fn kind(&self) -> (k: FeatureKind)
        ensures
            k == self.kind_spec(),
    {
        match self {
            FeatureId::Vertex(_) => FeatureKind::Vertex,
            FeatureId::Edge(_) => FeatureKind::Edge,
            FeatureId::Face(_) => FeatureKind::Face,
        }
    }

    /// Returns the index of this feature.
    pub fn index(&self) -> (i: usize)
        ensures
            i == self.index_spec(),
    {
        match self {
            FeatureId::Vertex(i) => *i,
            FeatureId::Edge(i) => *i,
            FeatureId::Face(i) => *i,
        }
    }

    /// Tells whether two identifiers name the same feature.
    pub fn same(&self, other: &FeatureId) -> (r: bool)
        ensures
            r == (*self == *other),
    {
        match (self, other) {
            (FeatureId::Vertex(a), FeatureId::Vertex(b)) => *a == *b,
            (FeatureId::Edge(a), FeatureId::Edge(b)) => *a == *b,
            (FeatureId::Face(a), FeatureId::Face(b)) => *a == *b,
            _ => false,
        }
    }
}

} // verus!
