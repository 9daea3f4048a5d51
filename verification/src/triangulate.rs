//! The bookkeeping of an incremental triangulation.
//!
//! A triangulation grows point by point. Each new point removes the
//! triangles whose circumcircle contains it, and is joined to every edge
//! that only one of the removed triangles had. Which circumcircles contain
//! the point is the caller's to say; the triangles and their edges are
//! kept here.

use vstd::prelude::*;

verus! {

/// A triangle, by the indices of its three vertices.
#[derive(Clone, Copy, Debug, PartialEq, Eq, Structural)]
pub struct Triangle {
    pub x: usize,
    pub y: usize,
    pub z: usize,
}

/// An edge, by the indices of its two ends, the smaller first.
pub open spec fn edge_key(a: usize, b: usize) -> (usize, usize) {
    if a > b {
        (b, a)
    } else {
        (a, b)
    }
}

/// The three edges of a triangle.
pub open spec fn edges_of(t: Triangle) -> Seq<(usize, usize)> {
    seq![edge_key(t.x, t.y), edge_key(t.y, t.z), edge_key(t.z, t.x)]
}

/// The first `upto` triangles that stay, in their order: those that are
/// not marked.
pub open spec fn kept(ts: Seq<Triangle>, marked: Seq<bool>, upto: int) -> Seq<Triangle>
    decreases upto,
{
    if upto <= 0 {
        Seq::empty()
    } else if marked[upto - 1] {
        kept(ts, marked, upto - 1)
    } else {
        kept(ts, marked, upto - 1).push(ts[upto - 1])
    }
}

/// The edges of the marked triangles among the first `upto`, in the order
/// of the triangles.
pub open spec fn removed_edges(ts: Seq<Triangle>, marked: Seq<bool>, upto: int) -> Seq<(usize, usize)>
    decreases upto,
{
    if upto <= 0 {
        Seq::empty()
    } else if marked[upto - 1] {
        removed_edges(ts, marked, upto - 1) + edges_of(ts[upto - 1])
    } else {
        removed_edges(ts, marked, upto - 1)
    }
}

/// How often `key` occurs among the first `upto` edges.
pub open spec fn occurrences(edges: Seq<(usize, usize)>, key: (usize, usize), upto: int) -> nat
    decreases upto,
{
    if upto <= 0 {
        0
    } else {
        occurrences(edges, key, upto - 1) + (if edges[upto - 1] == key {
            1nat
        } else {
            0nat
        })
    }
}

/// The triangles that join the point `apex` to the edges that occur
/// exactly once in `edges`, for the first `upto` edges, in their order.
pub open spec fn fan(edges: Seq<(usize, usize)>, apex: usize, upto: int) -> Seq<Triangle>
    decreases upto,
{
    if upto <= 0 {
        Seq::empty()
    } else if occurrences(edges, edges[upto - 1], edges.len() as int) == 1 {
        fan(edges, apex, upto - 1).push(Triangle { x: edges[upto - 1].0, y: edges[upto - 1].1, z: apex })
    } else {
        fan(edges, apex, upto - 1)
    }
}

/// The triangles after a point is added as vertex `apex`: those that
/// stay, then the fan around the point.
pub open spec fn after_point(ts: Seq<Triangle>, marked: Seq<bool>, apex: usize) -> Seq<Triangle> {
    let edges = removed_edges(ts, marked, ts.len() as int);
    kept(ts, marked, ts.len() as int) + fan(edges, apex, edges.len() as int)
}

/// An index after the three first vertices are taken away: the last three
/// vertices take their places, every other stays.
pub open spec fn shifted(i: usize, count: usize) -> usize {
    if i >= count {
        (i - count) as usize
    } else {
        i
    }
}

/// A triangle touches none of the three first vertices.
pub open spec fn is_inner(t: Triangle) -> bool {
    t.x > 2 && t.y > 2 && t.z > 2
}

/// The index triples of the first `upto` triangles that touch none of the
/// three first vertices, shifted for `count` remaining vertices.
pub open spec fn mesh_indices(ts: Seq<Triangle>, count: usize, upto: int) -> Seq<(usize, usize, usize)>
    decreases upto,
{
    if upto <= 0 {
        Seq::empty()
    } else if is_inner(ts[upto - 1]) {
        mesh_indices(ts, count, upto - 1).push(
            (
                shifted(ts[upto - 1].x, count),
                shifted(ts[upto - 1].y, count),
                shifted(ts[upto - 1].z, count),
            ),
        )
    } else {
        mesh_indices(ts, count, upto - 1)
    }
}

/// Every vertex of every triangle is one of the first `count` vertices.
pub open spec fn indices_below(ts: Seq<Triangle>, count: int) -> bool {
    forall|i: int|
        0 <= i < ts.len() ==> (#[trigger] ts[i]).x < count && ts[i].y < count && ts[i].z < count
}

/// An incremental triangulation: the number of its vertices and its
/// triangles. The three first vertices are those of a triangle that
/// encloses every point to come.
#[derive(Clone, Debug)]
pub struct Triangulator {
    num_vertices: usize,
    triangles: Vec<Triangle>,
}

/// What a triangulation holds.
pub struct Triangulation {
    pub num_vertices: usize,
    pub triangles: Seq<Triangle>,
}

impl View for Triangulator {
    type V = Triangulation;

    closed spec fn view(&self) -> Triangulation {
        Triangulation { num_vertices: self.num_vertices, triangles: self.triangles@ }
    }
}

impl Triangulation {
    /// There are the three first vertices at least, and every triangle
    /// joins vertices that exist.
    pub open spec fn wf(self) -> bool {
        self.num_vertices >= 3 && indices_below(self.triangles, self.num_vertices as int)
    }
}

/// Returns the edge between two vertices, the smaller index first.
pub fn sorted_edge(a: usize, b: usize) -> (e: (usize, usize))
    ensures
        e == edge_key(a, b),
{
    if a > b {
        (b, a)
    } else {
        (a, b)
    }
}

/// Counts how often `key` occurs in `edges`.
pub fn count_edge(edges: &Vec<(usize, usize)>, key: (usize, usize)) -> (n: usize)
    ensures
        n == occurrences(edges@, key, edges@.len() as int),
{
    let len: usize = edges.len();
    let mut n: usize = 0;
    let mut i: usize = 0;
    while i < len
        invariant
            0 <= i <= len,
            len == edges@.len(),
            n <= i,
            n == occurrences(edges@, key, i as int),
        decreases len - i,
    {
        if edges[i].0 == key.0 && edges[i].1 == key.1 {
            n += 1;
        }
        i += 1;
    }
    n
}

/// Every edge of marked triangles joins vertices below `count`.
proof fn lemma_removed_edges_below(ts: Seq<Triangle>, marked: Seq<bool>, upto: int, count: int)
    requires
        indices_below(ts, count),
        0 <= upto <= ts.len(),
    ensures
        forall|k: int|
            0 <= k < removed_edges(ts, marked, upto).len() ==> (#[trigger] removed_edges(ts, marked, upto)[k]).0
                < count && removed_edges(ts, marked, upto)[k].1 < count,
    decreases upto,
{
    if upto > 0 {
        lemma_removed_edges_below(ts, marked, upto - 1, count);
        let t = ts[upto - 1];
        assert(t.x < count && t.y < count && t.z < count);
        let prev = removed_edges(ts, marked, upto - 1);
        let now = removed_edges(ts, marked, upto);
        assert forall|k: int| 0 <= k < now.len() implies (#[trigger] now[k]).0 < count && now[k].1 < count by {
            if marked[upto - 1] {
                if k < prev.len() {
                    assert(now[k] == prev[k]);
                } else {
                    assert(now[k] == edges_of(t)[k - prev.len()]);
                }
            }
        }
    }
}

impl Triangle {
    /// The triangle of the vertices `a`, `b` and `c`.
    pub fn new(a: usize, b: usize, c: usize) -> (t: Triangle)
        ensures
            t == (Triangle { x: a, y: b, z: c }),
    {
        Triangle { x: a, y: b, z: c }
    }
}

impl Triangulator {
    /// A triangulation of the three vertices of the enclosing triangle.
    pub fn new() -> (t: Triangulator)
        ensures
            t@.num_vertices == 3,
            t@.triangles == seq![Triangle { x: 0, y: 1, z: 2 }],
            t@.wf(),
    {
        let mut triangles: Vec<Triangle> = Vec::new();
        triangles.push(Triangle { x: 0, y: 1, z: 2 });
        Triangulator { num_vertices: 3, triangles }
    }

    /// The number of vertices, the three first included.
    pub fn num_vertices(&self) -> (n: usize)
        ensures
            n == self@.num_vertices,
    {
        self.num_vertices
    }

    /// The triangles.
    pub fn triangles(&self) -> (ts: &Vec<Triangle>)
        ensures
            ts@ == self@.triangles,
    {
        &self.triangles
    }

    /// Adds a point as the next vertex. `marked[i]` tells whether the
    /// circumcircle of triangle `i` contains the point.
    pub fn add_point(&mut self, marked: &Vec<bool>)
        requires
            old(self)@.wf(),
            old(self)@.num_vertices < usize::MAX,
            marked@.len() == old(self)@.triangles.len(),
        ensures
            final(self)@.num_vertices == old(self)@.num_vertices + 1,
            final(self)@.triangles == after_point(
                old(self)@.triangles,
                marked@,
                old(self)@.num_vertices,
            ),
            final(self)@.wf(),
    {
        let apex: usize = self.num_vertices;
        let len: usize = self.triangles.len();
        let mut staying: Vec<Triangle> = Vec::new();
        let mut edges: Vec<(usize, usize)> = Vec::new();
        let mut i: usize = 0;
        while i < len
            invariant
                0 <= i <= len,
                len == self.triangles@.len(),
                *self == *old(self),
                marked@.len() == len,
                indices_below(self.triangles@, apex as int),
                staying@ == kept(self.triangles@, marked@, i as int),
                edges@ == removed_edges(self.triangles@, marked@, i as int),
                indices_below(staying@, apex as int),
            decreases len - i,
        {
            let t: Triangle = self.triangles[i];
            if marked[i] {
                edges.push(sorted_edge(t.x, t.y));
                edges.push(sorted_edge(t.y, t.z));
                edges.push(sorted_edge(t.z, t.x));
                assert(edges@ =~= removed_edges(self.triangles@, marked@, i as int) + edges_of(t));
            } else {
                staying.push(t);
            }
            i += 1;
        }
        proof {
            lemma_removed_edges_below(self.triangles@, marked@, len as int, apex as int);
        }
        let ghost base = staying@;
        let m: usize = edges.len();
        let mut j: usize = 0;
        assert(staying@ =~= base + fan(edges@, apex, 0));
        while j < m
            invariant
                0 <= j <= m,
                m == edges@.len(),
                apex < usize::MAX,
                forall|k: int| 0 <= k < edges@.len() ==> (#[trigger] edges@[k]).0 < apex && edges@[k].1 < apex,
                staying@ == base + fan(edges@, apex, j as int),
                indices_below(staying@, apex + 1),
            decreases m - j,
        {
            let e: (usize, usize) = edges[j];
            if count_edge(&edges, e) == 1 {
                staying.push(Triangle { x: e.0, y: e.1, z: apex });
            }
            j += 1;
            assert(staying@ =~= base + fan(edges@, apex, j as int));
        }
        self.triangles = staying;
        self.num_vertices = apex + 1;
    }

    /// The triangles of the points alone: those that touch none of the
    /// three first vertices. Their indices are those of the points once
    /// the three first vertices are taken away, each replaced by one of
    /// the last three.
    pub fn to_trimesh(&self) -> (out: Vec<(usize, usize, usize)>)
        requires
            self@.wf(),
        ensures
            out@ == mesh_indices(
                self@.triangles,
                (self@.num_vertices - 3) as usize,
                self@.triangles.len() as int,
            ),
            self@.num_vertices >= 6 ==> forall|k: int|
                0 <= k < out@.len() ==> (#[trigger] out@[k]).0 < self@.num_vertices - 3 && out@[k].1
                    < self@.num_vertices - 3 && out@[k].2 < self@.num_vertices - 3,
    {
        let count: usize = self.num_vertices - 3;
        let len: usize = self.triangles.len();
        let mut out: Vec<(usize, usize, usize)> = Vec::new();
        let mut i: usize = 0;
        while i < len
            invariant
                0 <= i <= len,
                len == self.triangles@.len(),
                count == self.num_vertices - 3,
                self@.wf(),
                out@ == mesh_indices(self.triangles@, count, i as int),
                self.num_vertices >= 6 ==> forall|k: int|
                    0 <= k < out@.len() ==> (#[trigger] out@[k]).0 < count && out@[k].1 < count && out@[k].2
                        < count,
            decreases len - i,
        {
            let t: Triangle = self.triangles[i];
            if t.x > 2 && t.y > 2 && t.z > 2 {
                let a: usize = if t.x >= count { t.x - count } else { t.x };
                let b: usize = if t.y >= count { t.y - count } else { t.y };
                let c: usize = if t.z >= count { t.z - count } else { t.z };
                out.push((a, b, c));
            }
            i += 1;
        }
        out
    }
}

} // verus!
