//! Where on a triangle the point closest to a given point lies.

use vstd::prelude::*;
use crate::arith::{dot_from, dot_from_exec, lemma_product_bound, product, Point, Ratio};
use crate::feature::{Dimension, FeatureId};

verus! {

/// The largest magnitude of a coordinate for which the closest edge of a
/// triangle of the plane is found.
pub const PLANAR_LIMIT: i64 = 524_288;

/// A triangle of the grid.
#[derive(Clone, Copy, Debug, PartialEq, Eq, Structural)]
pub struct Triangle {
    pub a: Point,
    pub b: Point,
    pub c: Point,
}

/// The weights of the three vertices of a triangle, up to their sum.
#[derive(Clone, Copy, Debug, PartialEq, Eq, Structural)]
pub struct FaceWeights {
    pub a: i128,
    pub b: i128,
    pub c: i128,
}

/// The part of a triangle on which a projected point lies.
///
/// Vertex 0 is `a`, 1 is `b`, 2 is `c`. Edge 0 runs from `a` to `b`, edge
/// 1 from `b` to `c`, edge 2 from `a` to `c`; the weight is that of the
/// second end of the edge.
#[derive(Clone, Copy, Debug, PartialEq, Eq, Structural)]
pub enum TrianglePointLocation {
    OnVertex(usize),
    OnEdge(usize, Ratio),
    OnFace(FaceWeights),
    OnSolid,
}

/// The direction from `from` to `to`.
pub open spec fn diff(to: Point, from: Point) -> Point {
    Point { x: (to.x - from.x) as i64, y: (to.y - from.y) as i64, z: (to.z - from.z) as i64 }
}

/// The scalar products that place a point with respect to a triangle:
/// `ab_ap` is the product of the directions from `a` to `b` and from `a` to
/// the point, and so on.
pub struct Products {
    pub ab_ap: int,
    pub ac_ap: int,
    pub ab_bp: int,
    pub ac_bp: int,
    pub ab_cp: int,
    pub ac_cp: int,
}

/// The scalar products of the point `p` and the triangle `t`.
pub open spec fn products(t: Triangle, p: Point) -> Products {
    let ab = diff(t.b, t.a);
    let ac = diff(t.c, t.a);
    Products {
        ab_ap: dot_from(p, t.a, ab),
        ac_ap: dot_from(p, t.a, ac),
        ab_bp: dot_from(p, t.b, ab),
        ac_bp: dot_from(p, t.b, ac),
        ab_cp: dot_from(p, t.c, ab),
        ac_cp: dot_from(p, t.c, ac),
    }
}

impl Products {
    /// Negative where the point lies beyond the edge from `b` to `c`.
    pub open spec fn va(self) -> int {
        self.ab_bp * self.ac_cp - self.ab_cp * self.ac_bp
    }

    /// Negative where the point lies beyond the edge from `a` to `c`.
    pub open spec fn vb(self) -> int {
        self.ab_cp * self.ac_ap - self.ab_ap * self.ac_cp
    }

    /// Negative where the point lies beyond the edge from `a` to `b`.
    pub open spec fn vc(self) -> int {
        self.ab_ap * self.ac_bp - self.ab_bp * self.ac_ap
    }

    /// The squared length of the edge from `a` to `b`.
    pub open spec fn len_ab(self) -> int {
        self.ab_ap - self.ab_bp
    }

    /// The squared length of the edge from `a` to `c`.
    pub open spec fn len_ac(self) -> int {
        self.ac_ap - self.ac_cp
    }

    /// The scalar product of the directions from `b` to `c` and from `b`
    /// to the point.
    pub open spec fn bc_bp(self) -> int {
        self.ac_bp - self.ab_bp
    }

    /// The squared length of the edge from `b` to `c`.
    pub open spec fn len_bc(self) -> int {
        self.ac_bp - self.ab_bp + self.ab_cp - self.ac_cp
    }

    /// The point on edge 0 closest to the point.
    pub open spec fn on_ab(self) -> TrianglePointLocation {
        TrianglePointLocation::OnEdge(0, Ratio { num: self.ab_ap as i128, den: self.len_ab() as i128 })
    }

    /// The point on edge 2 closest to the point.
    pub open spec fn on_ac(self) -> TrianglePointLocation {
        TrianglePointLocation::OnEdge(2, Ratio { num: self.ac_ap as i128, den: self.len_ac() as i128 })
    }

    /// The point on edge 1 closest to the point.
    pub open spec fn on_bc(self) -> TrianglePointLocation {
        TrianglePointLocation::OnEdge(1, Ratio { num: self.bc_bp() as i128, den: self.len_bc() as i128 })
    }

    /// The vertex or the edge whose region holds the point, if there is
    /// one. The regions are tried in this order: the three vertices, then
    /// the edges 0, 2 and 1.
    pub open spec fn border(self) -> Option<TrianglePointLocation> {
        if self.ab_ap <= 0 && self.ac_ap <= 0 {
            Some(TrianglePointLocation::OnVertex(0))
        } else if self.ab_bp >= 0 && self.ac_bp <= self.ab_bp {
            Some(TrianglePointLocation::OnVertex(1))
        } else if self.ac_cp >= 0 && self.ab_cp <= self.ac_cp {
            Some(TrianglePointLocation::OnVertex(2))
        } else if self.vc() < 0 && self.ab_ap >= 0 && self.ab_bp <= 0 {
            Some(self.on_ab())
        } else if self.vb() < 0 && self.ac_ap >= 0 && self.ac_cp <= 0 {
            Some(self.on_ac())
        } else if self.va() < 0 && self.ac_bp - self.ab_bp >= 0 && self.ab_cp - self.ac_cp >= 0 {
            Some(self.on_bc())
        } else {
            None
        }
    }
}

/// The planar vector product of the directions from `o` to `e` and from
/// `o` to `p`.
pub open spec fn perp_at(e: Point, o: Point, p: Point) -> int {
    (e.x - o.x) * (p.y - o.y) - (e.y - o.y) * (p.x - o.x)
}

/// The squared distance `n1 * n1 / l1` is smaller than `n2 * n2 / l2`,
/// compared without division.
pub open spec fn nearer(n1: int, l1: int, n2: int, l2: int) -> bool {
    n1 * n1 * l2 < n2 * n2 * l1
}

/// The edge of a triangle of the plane whose line is closest to a point
/// inside it. Edge 1 wins every tie.
pub open spec fn closest_edge(t: Triangle, p: Point) -> TrianglePointLocation {
    let d = products(t, p);
    let nab = perp_at(t.b, t.a, p);
    let nac = perp_at(t.c, t.a, p);
    let nbc = perp_at(t.c, t.b, p);
    if nearer(nab, d.len_ab(), nac, d.len_ac()) {
        if nearer(nab, d.len_ab(), nbc, d.len_bc()) {
            d.on_ab()
        } else {
            d.on_bc()
        }
    } else if nearer(nac, d.len_ac(), nbc, d.len_bc()) {
        d.on_ac()
    } else {
        d.on_bc()
    }
}

/// Where the point of the triangle closest to `p` lies.
///
/// A point in the region of a vertex or of an edge projects there. Any
/// other point projects inside the face in space. In the plane it lies in
/// the triangle: a solid triangle holds it as it is, a hollow one sends it
/// to its closest edge.
pub open spec fn location_spec(dim: Dimension, t: Triangle, p: Point, solid: bool) -> TrianglePointLocation {
    let d = products(t, p);
    match d.border() {
        Some(loc) => loc,
        None => if dim != Dimension::Two {
            TrianglePointLocation::OnFace(FaceWeights { a: d.va() as i128, b: d.vb() as i128, c: d.vc() as i128 })
        } else if solid {
            TrianglePointLocation::OnSolid
        } else {
            closest_edge(t, p)
        },
    }
}

/// The feature of the triangle that a location belongs to.
pub open spec fn feature_of(loc: TrianglePointLocation) -> FeatureId {
    match loc {
        TrianglePointLocation::OnVertex(i) => FeatureId::Vertex(i),
        TrianglePointLocation::OnEdge(i, _) => FeatureId::Edge(i),
        TrianglePointLocation::OnFace(_) => FeatureId::Face(0),
        TrianglePointLocation::OnSolid => FeatureId::Face(0),
    }
}

/// The point lies in the plane of the first two coordinates, not too far
/// out for the closest edge to be found.
pub open spec fn planar(p: Point) -> bool {
    &&& -PLANAR_LIMIT <= p.x <= PLANAR_LIMIT
    &&& -PLANAR_LIMIT <= p.y <= PLANAR_LIMIT
    &&& p.z == 0
}

/// Tells whether a point lies in the plane, within `PLANAR_LIMIT`.
pub fn is_planar_point(p: &Point) -> (r: bool)
    ensures
        r == planar(*p),
{
    -PLANAR_LIMIT <= p.x && p.x <= PLANAR_LIMIT && -PLANAR_LIMIT <= p.y && p.y <= PLANAR_LIMIT && p.z == 0
}

impl Triangle {
    /// Every vertex lies within the grid.
    pub open spec fn wf(self) -> bool {
        self.a.in_range() && self.b.in_range() && self.c.in_range()
    }

    /// Every vertex lies in the plane, within `PLANAR_LIMIT`.
    pub open spec fn is_planar(self) -> bool {
        planar(self.a) && planar(self.b) && planar(self.c)
    }

    /// Tells whether every vertex lies within the grid.
    pub fn is_well_formed(&self) -> (r: bool)
        ensures
            r == self.wf(),
    {
        self.a.is_in_range() && self.b.is_in_range() && self.c.is_in_range()
    }

    /// Tells whether every vertex lies in the plane, within
    /// `PLANAR_LIMIT`.
    pub fn lies_in_plane(&self) -> (r: bool)
        ensures
            r == self.is_planar(),
    {
        is_planar_point(&self.a) && is_planar_point(&self.b) && is_planar_point(&self.c)
    }

    /// The triangle of three points.
    pub fn new(a: Point, b: Point, c: Point) -> (t: Triangle)
        ensures
            t == (Triangle { a, b, c }),
    {
        Triangle { a, b, c }
    }

    /// Finds where the point of the triangle closest to `pt` lies.
    pub fn project_point_with_location(&self, dim: Dimension, pt: &Point, solid: bool) -> (loc:
        TrianglePointLocation)
        requires
            self.wf(),
            pt.in_range(),
            dim == Dimension::Two && !solid ==> self.is_planar() && planar(*pt),
        ensures
            loc == location_spec(dim, *self, *pt, solid),
    {
        let a: Point = self.a;
        let b: Point = self.b;
        let c: Point = self.c;
        let ab: Point = Point { x: b.x - a.x, y: b.y - a.y, z: b.z - a.z };
        let ac: Point = Point { x: c.x - a.x, y: c.y - a.y, z: c.z - a.z };
        let ab_ap: i128 = dot_from_exec(pt, &a, &ab, Ghost(2097152));
        let ac_ap: i128 = dot_from_exec(pt, &a, &ac, Ghost(2097152));
        if ab_ap <= 0 && ac_ap <= 0 {
            return TrianglePointLocation::OnVertex(0);
        }
        let ab_bp: i128 = dot_from_exec(pt, &b, &ab, Ghost(2097152));
        let ac_bp: i128 = dot_from_exec(pt, &b, &ac, Ghost(2097152));
        if ab_bp >= 0 && ac_bp <= ab_bp {
            return TrianglePointLocation::OnVertex(1);
        }
        let ab_cp: i128 = dot_from_exec(pt, &c, &ab, Ghost(2097152));
        let ac_cp: i128 = dot_from_exec(pt, &c, &ac, Ghost(2097152));
        if ac_cp >= 0 && ab_cp <= ac_cp {
            return TrianglePointLocation::OnVertex(2);
        }
        let ghost d = products(*self, *pt);
        let vc: i128 = product(ab_ap, ac_bp, Ghost(13194139533312), Ghost(13194139533312)) - product(
            ab_bp,
            ac_ap,
            Ghost(13194139533312),
            Ghost(13194139533312),
        );
        if vc < 0 && ab_ap >= 0 && ab_bp <= 0 {
            return TrianglePointLocation::OnEdge(0, Ratio { num: ab_ap, den: ab_ap - ab_bp });
        }
        let vb: i128 = product(ab_cp, ac_ap, Ghost(13194139533312), Ghost(13194139533312)) - product(
            ab_ap,
            ac_cp,
            Ghost(13194139533312),
            Ghost(13194139533312),
        );
        if vb < 0 && ac_ap >= 0 && ac_cp <= 0 {
            return TrianglePointLocation::OnEdge(2, Ratio { num: ac_ap, den: ac_ap - ac_cp });
        }
        let va: i128 = product(ab_bp, ac_cp, Ghost(13194139533312), Ghost(13194139533312)) - product(
            ab_cp,
            ac_bp,
            Ghost(13194139533312),
            Ghost(13194139533312),
        );
        let bc_bp: i128 = ac_bp - ab_bp;
        let len_bc: i128 = ac_bp - ab_bp + ab_cp - ac_cp;
        if va < 0 && ac_bp - ab_bp >= 0 && ab_cp - ac_cp >= 0 {
            return TrianglePointLocation::OnEdge(1, Ratio { num: bc_bp, den: len_bc });
        }
        assert(d.border() is None);
        match dim {
            Dimension::Three => TrianglePointLocation::OnFace(FaceWeights { a: va, b: vb, c: vc }),
            Dimension::Two => {
                if solid {
                    TrianglePointLocation::OnSolid
                } else {
                    proof {
                        lemma_planar_dot_bound(*pt, a, b, a);
                        lemma_planar_dot_bound(*pt, a, c, a);
                        lemma_planar_dot_bound(*pt, b, b, a);
                        lemma_planar_dot_bound(*pt, b, c, a);
                        lemma_planar_dot_bound(*pt, c, b, a);
                        lemma_planar_dot_bound(*pt, c, c, a);
                    }
                    let len_ab: i128 = ab_ap - ab_bp;
                    let len_ac: i128 = ac_ap - ac_cp;
                    let nab: i128 = perp_exec(&b, &a, pt);
                    let nac: i128 = perp_exec(&c, &a, pt);
                    let nbc: i128 = perp_exec(&c, &b, pt);
                    let on_ab: TrianglePointLocation = TrianglePointLocation::OnEdge(
                        0,
                        Ratio { num: ab_ap, den: len_ab },
                    );
                    let on_ac: TrianglePointLocation = TrianglePointLocation::OnEdge(
                        2,
                        Ratio { num: ac_ap, den: len_ac },
                    );
                    let on_bc: TrianglePointLocation = TrianglePointLocation::OnEdge(
                        1,
                        Ratio { num: bc_bp, den: len_bc },
                    );
                    if nearer_exec(nab, len_ab, nac, len_ac) {
                        if nearer_exec(nab, len_ab, nbc, len_bc) {
                            on_ab
                        } else {
                            on_bc
                        }
                    } else if nearer_exec(nac, len_ac, nbc, len_bc) {
                        on_ac
                    } else {
                        on_bc
                    }
                }
            },
        }
    }

    /// Finds the feature of the triangle on which the point closest to
    /// `pt` lies. A triangle of the plane is taken as hollow.
    pub fn project_point_with_feature(&self, dim: Dimension, pt: &Point) -> (f: FeatureId)
        requires
            self.wf(),
            pt.in_range(),
            dim == Dimension::Two ==> self.is_planar() && planar(*pt),
        ensures
            f == feature_of(location_spec(dim, *self, *pt, dim != Dimension::Two)),
    {
        let solid: bool = match dim {
            Dimension::Two => false,
            Dimension::Three => true,
        };
        match self.project_point_with_location(dim, pt, solid) {
            TrianglePointLocation::OnVertex(i) => FeatureId::Vertex(i),
            TrianglePointLocation::OnEdge(i, _) => FeatureId::Edge(i),
            TrianglePointLocation::OnFace(_) => FeatureId::Face(0),
            TrianglePointLocation::OnSolid => FeatureId::Face(0),
        }
    }
}

/// In the plane, within `PLANAR_LIMIT`, the scalar product of two
/// directions between points is small.
pub proof fn lemma_planar_dot_bound(p: Point, o: Point, to: Point, from: Point)
    requires
        planar(p),
        planar(o),
        planar(to),
        planar(from),
    ensures
        -2199023255552 <= dot_from(p, o, diff(to, from)) <= 2199023255552,
{
    let d = diff(to, from);
    lemma_product_bound(p.x - o.x, d.x as int, 1048576, 1048576);
    lemma_product_bound(p.y - o.y, d.y as int, 1048576, 1048576);
    assert((p.z - o.z) * d.z == 0) by (nonlinear_arith)
        requires
            p.z - o.z == 0,
    ;
}

/// Computes the planar vector product of the directions from `o` to `e`
/// and from `o` to `p`.
pub fn perp_exec(e: &Point, o: &Point, p: &Point) -> (r: i128)
    requires
        planar(*e),
        planar(*o),
        planar(*p),
    ensures
        r == perp_at(*e, *o, *p),
        -2199023255552 <= r <= 2199023255552,
{
    let ex: i128 = e.x as i128 - o.x as i128;
    let ey: i128 = e.y as i128 - o.y as i128;
    let px: i128 = p.x as i128 - o.x as i128;
    let py: i128 = p.y as i128 - o.y as i128;
    product(ex, py, Ghost(1048576), Ghost(1048576)) - product(ey, px, Ghost(1048576), Ghost(1048576))
}

/// Compares two squared distances, each a squared number over a squared
/// length.
pub fn nearer_exec(n1: i128, l1: i128, n2: i128, l2: i128) -> (r: bool)
    requires
        -2199023255552 <= n1 <= 2199023255552,
        -2199023255552 <= n2 <= 2199023255552,
        -8796093022208 <= l1 <= 8796093022208,
        -8796093022208 <= l2 <= 8796093022208,
    ensures
        r == nearer(n1 as int, l1 as int, n2 as int, l2 as int),
{
    let s1: i128 = product(n1, n1, Ghost(2199023255552), Ghost(2199023255552));
    let s2: i128 = product(n2, n2, Ghost(2199023255552), Ghost(2199023255552));
    let left: i128 = product(s1, l2, Ghost(4835703278458516698824704), Ghost(8796093022208));
    let right: i128 = product(s2, l1, Ghost(4835703278458516698824704), Ghost(8796093022208));
    left < right
}

/// The scalar product of two directions between grid points stays far
/// below the machine's limits.
pub proof fn lemma_dot_diff_bound(p: Point, o: Point, to: Point, from: Point)
    requires
        p.in_range(),
        o.in_range(),
        to.in_range(),
        from.in_range(),
    ensures
        -13194139533312 <= dot_from(p, o, diff(to, from)) <= 13194139533312,
{
    let d = diff(to, from);
    lemma_product_bound(p.x - o.x, d.x as int, 2097152, 2097152);
    lemma_product_bound(p.y - o.y, d.y as int, 2097152, 2097152);
    lemma_product_bound(p.z - o.z, d.z as int, 2097152, 2097152);
}

/// A point in the region of a vertex or of an edge projects on one of the
/// three vertices or edges, and on an edge it lies between the two ends:
/// its weight is at least zero and at most one.
pub proof fn lemma_border_lies_on_the_triangle(t: Triangle, p: Point)
    requires
        t.wf(),
        p.in_range(),
    ensures
        match products(t, p).border() {
            Some(TrianglePointLocation::OnVertex(i)) => i <= 2,
            Some(TrianglePointLocation::OnEdge(i, w)) => i <= 2 && 0 <= w.num <= w.den,
            Some(_) => false,
            None => true,
        },
{
    lemma_dot_diff_bound(p, t.a, t.b, t.a);
    lemma_dot_diff_bound(p, t.a, t.c, t.a);
    lemma_dot_diff_bound(p, t.b, t.b, t.a);
    lemma_dot_diff_bound(p, t.b, t.c, t.a);
    lemma_dot_diff_bound(p, t.c, t.b, t.a);
    lemma_dot_diff_bound(p, t.c, t.c, t.a);
}

} // verus!
