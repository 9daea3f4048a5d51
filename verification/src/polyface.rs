//! The supporting feature of a shape toward a direction.

use vstd::prelude::*;
use crate::feature::FeatureId;
use crate::arith::Point;

verus! {

/// The part of a convex shape that lies furthest toward a direction: a
/// single vertex, an edge of two vertices, or a face of three or more.
///
/// `vertices_id` runs parallel to `vertices`. `edges_id` names the edges:
/// edge `i` joins vertex `i` to vertex `(i + 1) % n`. `feature_id` names
/// the feature as a whole.
#[derive(Clone, Debug)]
pub struct ConvexPolyface {
    pub vertices: Vec<Point>,
    pub vertices_id: Vec<FeatureId>,
    pub edges_id: Vec<FeatureId>,
    pub normal: Option<Point>,
    pub feature_id: FeatureId,
}

/// The number of edges of a feature of `n` vertices.
pub open spec fn edge_count(n: int) -> int {
    if n <= 1 {
        0
    } else if n == 2 {
        1
    } else {
        n
    }
}

/// The first index at or after `from` at which `ids` holds `id`, or the
/// length of `ids` where there is none.
pub open spec fn first_index_of(ids: Seq<FeatureId>, id: FeatureId, from: int) -> int
    decreases ids.len() - from,
{
    if from >= ids.len() {
        ids.len() as int
    } else if ids[from] == id {
        from
    } else {
        first_index_of(ids, id, from + 1)
    }
}

impl ConvexPolyface {
    /// The feature is well formed: the identifier lists match the vertices
    /// and edges, every vertex lies within the grid, and a face carries
    /// its normal.
    pub open spec fn wf(&self) -> bool {
        &&& self.vertices_id@.len() == self.vertices@.len()
        &&& self.edges_id@.len() == edge_count(self.vertices@.len() as int)
        &&& forall|i: int| 0 <= i < self.vertices@.len() ==> (#[trigger] self.vertices@[i]).in_range()
        &&& self.vertices@.len() > 2 ==> self.normal is Some
        &&& self.normal is Some ==> self.normal->0.in_range()
    }

    /// The end points of the edge named `id`, where the feature has one.
    pub open spec fn edge_spec(&self, id: FeatureId) -> Option<(Point, Point)> {
        let i = first_index_of(self.edges_id@, id, 0);
        if i < self.edges_id@.len() && self.vertices@.len() > 0 {
            Some((self.vertices@[i], self.vertices@[(i + 1) % (self.vertices@.len() as int)]))
        } else {
            None
        }
    }

    /// An empty feature named `feature_id`.
    pub fn new(feature_id: FeatureId) -> (f: ConvexPolyface)
        ensures
            f.wf(),
            f.vertices@.len() == 0,
            f.vertices_id@.len() == 0,
            f.edges_id@.len() == 0,
            f.normal is None,
            f.feature_id == feature_id,
    {
        ConvexPolyface {
            vertices: Vec::new(),
            vertices_id: Vec::new(),
            edges_id: Vec::new(),
            normal: None,
            feature_id,
        }
    }

    /// Removes every vertex, edge and the normal; the name stays.
    pub fn clear(&mut self)
        ensures
            final(self).wf(),
            final(self).vertices@.len() == 0,
            final(self).vertices_id@.len() == 0,
            final(self).edges_id@.len() == 0,
            final(self).normal is None,
            final(self).feature_id == old(self).feature_id,
    {
        self.vertices.clear();
        self.vertices_id.clear();
        self.edges_id.clear();
        self.normal = None;
    }

    /// Tells whether the feature is well formed.
    pub fn is_well_formed(&self) -> (r: bool)
        ensures
            r == self.wf(),
    {
        let n: usize = self.vertices.len();
        if self.vertices_id.len() != n || self.edges_id.len() != self.nedges() {
            return false;
        }
        match self.normal {
            None => {
                if n > 2 {
                    return false;
                }
            },
            Some(d) => {
                if !d.is_in_range() {
                    return false;
                }
            },
        }
        let mut i: usize = 0;
        while i < n
            invariant
                0 <= i <= n,
                n == self.vertices@.len(),
                forall|k: int| 0 <= k < i ==> (#[trigger] self.vertices@[k]).in_range(),
            decreases n - i,
        {
            if !self.vertices[i].is_in_range() {
                return false;
            }
            i += 1;
        }
        true
    }

    /// The number of edges.
    pub fn nedges(&self) -> (n: usize)
        ensures
            n == edge_count(self.vertices@.len() as int),
    {
        let l: usize = self.vertices.len();
        if l <= 1 {
            0
        } else if l == 2 {
            1
        } else {
            l
        }
    }

    /// Looks up the edge named `id` and returns its two end points.
    pub fn edge(&self, id: FeatureId) -> (r: Option<(Point, Point)>)
        requires
            self.wf(),
        ensures
            r == self.edge_spec(id),
            r matches Some(ends) ==> ends.0.in_range() && ends.1.in_range(),
    {
        let n: usize = self.edges_id.len();
        let mut i: usize = 0;
        while i < n
            invariant
                0 <= i <= n,
                n == self.edges_id@.len(),
                self.wf(),
                first_index_of(self.edges_id@, id, 0) == first_index_of(self.edges_id@, id, i as int),
            decreases n - i,
        {
            if self.edges_id[i].same(&id) {
                let j: usize = (i + 1) % self.vertices.len();
                return Some((self.vertices[i], self.vertices[j]));
            }
            i += 1;
        }
        None
    }
}

} // verus!
