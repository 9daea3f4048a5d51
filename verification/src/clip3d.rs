//! Clipping of two polygons in space.

use vstd::prelude::*;
use crate::arith::{
    dot, dot_from, dot_from_exec, lemma_product_bound, product, vector_perp, Point, Ratio,
};
use crate::contact::{RawContact, Witness};
use crate::polyface::{edge_count, ConvexPolyface};

verus! {

/// The largest magnitude of the first planar coordinate of a grid point.
pub const FLAT_U_LIMIT: i128 = 6_597_069_766_656;

/// The largest magnitude of the second planar coordinate of a grid point.
pub const FLAT_V_LIMIT: i128 = 13_835_058_055_282_163_712;

/// A point of the plane orthogonal to the contact direction.
#[derive(Clone, Copy, Debug, PartialEq, Eq, Structural)]
pub struct Flat {
    pub u: i128,
    pub v: i128,
}

/// Planar coordinates of both features, kept between calls so that their
/// storage is reused.
#[derive(Clone, Debug)]
pub struct ClippingCache {
    pub poly1: Vec<Flat>,
    pub poly2: Vec<Flat>,
}

/// A first direction orthogonal to `n`.
pub open spec fn basis0(n: Point) -> Point {
    if n.x == 0 && n.y == 0 {
        Point { x: 1, y: 0, z: 0 }
    } else {
        Point { x: (-n.y) as i64, y: n.x, z: 0 }
    }
}

/// A second direction orthogonal to `n`: the vector product of `n` and
/// `basis0(n)`.
pub open spec fn basis1(n: Point) -> Point {
    let b = basis0(n);
    Point { x: (-(n.z * b.y)) as i64, y: (n.z * b.x) as i64, z: (n.x * b.y - n.y * b.x) as i64 }
}

/// The planar coordinates of `p`: its scalar products with the two basis
/// directions, measured from `origin`.
pub open spec fn flat(p: Point, origin: Point, n: Point) -> Flat {
    Flat {
        u: dot_from(p, origin, basis0(n)) as i128,
        v: dot_from(p, origin, basis1(n)) as i128,
    }
}

/// The planar coordinates of a list of points.
pub open spec fn flatten(points: Seq<Point>, origin: Point, n: Point) -> Seq<Flat> {
    Seq::new(points.len(), |i: int| flat(points[i], origin, n))
}

impl Flat {
    /// The coordinates are those of some grid point.
    pub open spec fn bounded(self) -> bool {
        &&& -FLAT_U_LIMIT <= self.u <= FLAT_U_LIMIT
        &&& -FLAT_V_LIMIT <= self.v <= FLAT_V_LIMIT
    }
}

/// Every point of the list is bounded.
pub open spec fn all_bounded(poly: Seq<Flat>) -> bool {
    forall|i: int| 0 <= i < poly.len() ==> (#[trigger] poly[i]).bounded()
}

/// The planar vector product of `(au, av)` and `(bu, bv)`.
pub open spec fn cross(au: int, av: int, bu: int, bv: int) -> int {
    au * bv - av * bu
}

/// On which side of the line from `a` to `b` the point `pt` lies: the
/// vector product of `pt - a` and `b - a`.
pub open spec fn side(pt: Flat, a: Flat, b: Flat) -> int {
    cross(pt.u - a.u, pt.v - a.v, b.u - a.u, b.v - a.v)
}

/// The side of `pt` with respect to edge `i` of the polygon.
pub open spec fn side_at(pt: Flat, poly: Seq<Flat>, i: int) -> int {
    side(pt, poly[i], poly[(i + 1) % (poly.len() as int)])
}

/// The point lies in the polygon, whatever its orientation: it is on no
/// two edges' opposite sides. Points of the boundary are inside.
pub open spec fn inside(pt: Flat, poly: Seq<Flat>) -> bool {
    &&& poly.len() > 0
    &&& {
        ||| forall|i: int| 0 <= i < poly.len() ==> #[trigger] side_at(pt, poly, i) >= 0
        ||| forall|i: int| 0 <= i < poly.len() ==> #[trigger] side_at(pt, poly, i) <= 0
    }
}

/// The point lies strictly inside the polygon: on the same side of every
/// edge, and on none.
pub open spec fn strictly_inside(pt: Flat, poly: Seq<Flat>) -> bool {
    &&& poly.len() > 0
    &&& {
        ||| forall|i: int| 0 <= i < poly.len() ==> #[trigger] side_at(pt, poly, i) > 0
        ||| forall|i: int| 0 <= i < poly.len() ==> #[trigger] side_at(pt, poly, i) < 0
    }
}

/// Vertex `i` of `src` gives a contact on `dst`: `dst` is a polygon whose
/// plane the contact direction meets, and the vertex lies in it.
pub open spec fn vertex_hit(src: &ConvexPolyface, dst: &ConvexPolyface, origin: Point, n: Point, i: int) -> bool {
    &&& dst.vertices@.len() > 2
    &&& dot(n, dst.normal->0) != 0
    &&& inside(flat(src.vertices@[i], origin, n), flatten(dst.vertices@, origin, n))
}

/// How far vertex `i` of `src` moves along `n` to reach the plane of `dst`.
pub open spec fn cast_shift(src: &ConvexPolyface, dst: &ConvexPolyface, n: Point, i: int) -> Ratio {
    Ratio {
        num: dot_from(dst.vertices@[0], src.vertices@[i], dst.normal->0) as i128,
        den: dot(n, dst.normal->0) as i128,
    }
}

/// The contact of vertex `i` of `src` with the face `dst`. `src_is_first`
/// tells which of the two is the first feature of the pair.
pub open spec fn cast_contact(
    src: &ConvexPolyface,
    dst: &ConvexPolyface,
    n: Point,
    i: int,
    src_is_first: bool,
) -> RawContact {
    let at = Witness::Vertex { index: i as usize };
    let cast = Witness::Cast { index: i as usize, shift: cast_shift(src, dst, n, i) };
    if src_is_first {
        RawContact { on1: at, on2: cast, feature1: src.vertices_id@[i], feature2: dst.feature_id }
    } else {
        RawContact { on1: cast, on2: at, feature1: dst.feature_id, feature2: src.vertices_id@[i] }
    }
}

/// The contacts of the first `upto` vertices of `src` with the face `dst`,
/// in the order of the vertices.
pub open spec fn vertex_contacts(
    src: &ConvexPolyface,
    dst: &ConvexPolyface,
    origin: Point,
    n: Point,
    upto: int,
    src_is_first: bool,
) -> Seq<RawContact>
    decreases upto,
{
    if upto <= 0 {
        Seq::empty()
    } else {
        let prev = vertex_contacts(src, dst, origin, n, upto - 1, src_is_first);
        if vertex_hit(src, dst, origin, n, upto - 1) {
            prev.push(cast_contact(src, dst, n, upto - 1, src_is_first))
        } else {
            prev
        }
    }
}

/// The common denominator of the two parameters at which the lines through
/// two segments meet. It is zero where they are parallel.
pub open spec fn crossing_den(a1: Flat, b1: Flat, a2: Flat, b2: Flat) -> int {
    cross(b1.u - a1.u, b1.v - a1.v, b2.u - a2.u, b2.v - a2.v)
}

/// The numerator of the parameter on the first segment.
pub open spec fn crossing_num1(a1: Flat, b1: Flat, a2: Flat, b2: Flat) -> int {
    cross(b2.u - a2.u, b2.v - a2.v, a1.u - a2.u, a1.v - a2.v)
}

/// The numerator of the parameter on the second segment.
pub open spec fn crossing_num2(a1: Flat, b1: Flat, a2: Flat, b2: Flat) -> int {
    cross(b1.u - a1.u, b1.v - a1.v, a1.u - a2.u, a1.v - a2.v)
}

/// The two segments meet in a point that is an end of neither.
pub open spec fn crosses(a1: Flat, b1: Flat, a2: Flat, b2: Flat) -> bool {
    let d = crossing_den(a1, b1, a2, b2);
    let s = crossing_num1(a1, b1, a2, b2);
    let t = crossing_num2(a1, b1, a2, b2);
    ||| (d > 0 && 0 < s < d && 0 < t < d)
    ||| (d < 0 && d < s < 0 && d < t < 0)
}

/// The quotient `num / den` written with a positive denominator.
pub open spec fn weight_of(num: int, den: int) -> Ratio {
    if den < 0 {
        Ratio { num: (-num) as i128, den: (-den) as i128 }
    } else {
        Ratio { num: num as i128, den: den as i128 }
    }
}

/// The index of the vertex that ends edge `i` of a feature of `n` vertices.
pub open spec fn next_index(i: int, n: int) -> int {
    (i + 1) % n
}

/// Edge `i1` of the first feature crosses edge `i2` of the second.
pub open spec fn edge_hit(pa: Seq<Flat>, pb: Seq<Flat>, i1: int, i2: int) -> bool {
    crosses(
        pa[i1],
        pa[next_index(i1, pa.len() as int)],
        pb[i2],
        pb[next_index(i2, pb.len() as int)],
    )
}

/// The contact at the crossing of edge `i1` of the first feature and edge
/// `i2` of the second. Each point lies on its own edge, at the parameter of
/// the crossing in the plane.
pub open spec fn edge_contact(
    f1: &ConvexPolyface,
    f2: &ConvexPolyface,
    pa: Seq<Flat>,
    pb: Seq<Flat>,
    i1: int,
    i2: int,
) -> RawContact {
    let j1 = next_index(i1, pa.len() as int);
    let j2 = next_index(i2, pb.len() as int);
    let d = crossing_den(pa[i1], pa[j1], pb[i2], pb[j2]);
    let s = crossing_num1(pa[i1], pa[j1], pb[i2], pb[j2]);
    let t = crossing_num2(pa[i1], pa[j1], pb[i2], pb[j2]);
    RawContact {
        on1: Witness::Edge { from: i1 as usize, to: j1 as usize, weight: weight_of(s, d) },
        on2: Witness::Edge { from: i2 as usize, to: j2 as usize, weight: weight_of(t, d) },
        feature1: f1.edges_id@[i1],
        feature2: f2.edges_id@[i2],
    }
}

/// The contacts of edge `i1` of the first feature with the first `upto`
/// edges of the second.
pub open spec fn edge_row(
    f1: &ConvexPolyface,
    f2: &ConvexPolyface,
    pa: Seq<Flat>,
    pb: Seq<Flat>,
    i1: int,
    upto: int,
) -> Seq<RawContact>
    decreases upto,
{
    if upto <= 0 {
        Seq::empty()
    } else {
        let prev = edge_row(f1, f2, pa, pb, i1, upto - 1);
        if edge_hit(pa, pb, i1, upto - 1) {
            prev.push(edge_contact(f1, f2, pa, pb, i1, upto - 1))
        } else {
            prev
        }
    }
}

/// The contacts of the first `upto` edges of the first feature with every
/// edge of the second.
pub open spec fn edge_contacts(
    f1: &ConvexPolyface,
    f2: &ConvexPolyface,
    pa: Seq<Flat>,
    pb: Seq<Flat>,
    upto: int,
) -> Seq<RawContact>
    decreases upto,
{
    if upto <= 0 {
        Seq::empty()
    } else {
        edge_contacts(f1, f2, pa, pb, upto - 1) + edge_row(
            f1,
            f2,
            pa,
            pb,
            upto - 1,
            edge_count_of(pb),
        )
    }
}

/// The number of edges of a polygon given by its planar coordinates.
pub open spec fn edge_count_of(poly: Seq<Flat>) -> int {
    edge_count(poly.len() as int)
}

/// Neither feature is a polygon, or one of them has no vertex: there is
/// nothing to clip.
pub open spec fn degenerate_3d(f1: &ConvexPolyface, f2: &ConvexPolyface) -> bool {
    ||| (f1.vertices@.len() <= 2 && f2.vertices@.len() <= 2)
    ||| f1.vertices@.len() == 0
    ||| f2.vertices@.len() == 0
}

/// The contacts between two features in space.
///
/// Both are projected on the plane orthogonal to `n`, from the first
/// vertex of the first feature. The result holds, in this order: the
/// vertices of the first that lie in the second, the vertices of the second
/// that lie in the first, and the crossings of their edges.
pub open spec fn clip_3d_spec(f1: &ConvexPolyface, f2: &ConvexPolyface, n: Point) -> Seq<RawContact> {
    if degenerate_3d(f1, f2) {
        Seq::empty()
    } else {
        let origin = f1.vertices@[0];
        let pa = flatten(f1.vertices@, origin, n);
        let pb = flatten(f2.vertices@, origin, n);
        vertex_contacts(f1, f2, origin, n, f1.vertices@.len() as int, true) + vertex_contacts(
            f2,
            f1,
            origin,
            n,
            f2.vertices@.len() as int,
            false,
        ) + edge_contacts(f1, f2, pa, pb, edge_count_of(pa))
    }
}

impl ClippingCache {
    /// A cache that holds no coordinates.
    pub fn new() -> (c: ClippingCache)
        ensures
            c.poly1@.len() == 0,
            c.poly2@.len() == 0,
    {
        ClippingCache { poly1: Vec::with_capacity(4), poly2: Vec::with_capacity(4) }
    }

    /// Forgets the coordinates of both features.
    pub fn clear(&mut self)
        ensures
            final(self).poly1@.len() == 0,
            final(self).poly2@.len() == 0,
    {
        self.poly1.clear();
        self.poly2.clear();
    }
}

/// Computes the two basis directions orthogonal to `n`.
pub fn basis(n: &Point) -> (b: (Point, Point))
    requires
        n.in_range(),
    ensures
        b.0 == basis0(*n),
        b.1 == basis1(*n),
        b.0.in_range(),
        -2199023255552 <= b.1.x <= 2199023255552,
        -2199023255552 <= b.1.y <= 2199023255552,
        -2199023255552 <= b.1.z <= 2199023255552,
{
    let b0: Point = if n.x == 0 && n.y == 0 {
        Point { x: 1, y: 0, z: 0 }
    } else {
        Point { x: -n.y, y: n.x, z: 0 }
    };
    let zy: i128 = product(n.z as i128, b0.y as i128, Ghost(1048576), Ghost(1048576));
    let zx: i128 = product(n.z as i128, b0.x as i128, Ghost(1048576), Ghost(1048576));
    let xy: i128 = product(n.x as i128, b0.y as i128, Ghost(1048576), Ghost(1048576));
    let yx: i128 = product(n.y as i128, b0.x as i128, Ghost(1048576), Ghost(1048576));
    let b1: Point = Point { x: (-zy) as i64, y: zx as i64, z: (xy - yx) as i64 };
    (b0, b1)
}

/// Computes the planar coordinates of every vertex of `face`.
pub fn project_face(face: &ConvexPolyface, origin: &Point, n: &Point, out: &mut Vec<Flat>)
    requires
        face.wf(),
        origin.in_range(),
        n.in_range(),
    ensures
        final(out)@ == flatten(face.vertices@, *origin, *n),
        all_bounded(final(out)@),
{
    out.clear();
    let b: (Point, Point) = basis(n);
    let len: usize = face.vertices.len();
    let mut i: usize = 0;
    while i < len
        invariant
            0 <= i <= len,
            len == face.vertices@.len(),
            face.wf(),
            origin.in_range(),
            b.0 == basis0(*n),
            b.1 == basis1(*n),
            b.0.in_range(),
            -2199023255552 <= b.1.x <= 2199023255552,
            -2199023255552 <= b.1.y <= 2199023255552,
            -2199023255552 <= b.1.z <= 2199023255552,
            out@.len() == i,
            forall|k: int| 0 <= k < i ==> #[trigger] out@[k] == flat(face.vertices@[k], *origin, *n),
            all_bounded(out@),
        decreases len - i,
    {
        let u: i128 = dot_from_exec(&face.vertices[i], origin, &b.0, Ghost(1048576));
        let v: i128 = dot_from_exec(&face.vertices[i], origin, &b.1, Ghost(2199023255552));
        out.push(Flat { u, v });
        i += 1;
    }
    assert(out@ =~= flatten(face.vertices@, *origin, *n));
}

/// Computes the planar vector product of two differences of bounded points.
pub fn cross_exec(au: i128, av: i128, bu: i128, bv: i128) -> (r: i128)
    requires
        -2 * FLAT_U_LIMIT <= au <= 2 * FLAT_U_LIMIT,
        -2 * FLAT_V_LIMIT <= av <= 2 * FLAT_V_LIMIT,
        -2 * FLAT_U_LIMIT <= bu <= 2 * FLAT_U_LIMIT,
        -2 * FLAT_V_LIMIT <= bv <= 2 * FLAT_V_LIMIT,
    ensures
        r == cross(au as int, av as int, bu as int, bv as int),
        -0x2000_0000_0000_0000_0000_0000_0000_0000 <= r <= 0x2000_0000_0000_0000_0000_0000_0000_0000,
{
    proof {
        lemma_product_bound(au as int, bv as int, 13194139533312, 27670116110564327424);
        lemma_product_bound(av as int, bu as int, 27670116110564327424, 13194139533312);
    }
    vector_perp(au, av, bu, bv)
}

/// Computes on which side of the line from `a` to `b` the point `pt` lies.
pub fn side_exec(pt: &Flat, a: &Flat, b: &Flat) -> (r: i128)
    requires
        pt.bounded(),
        a.bounded(),
        b.bounded(),
    ensures
        r == side(*pt, *a, *b),
{
    cross_exec(pt.u - a.u, pt.v - a.v, b.u - a.u, b.v - a.v)
}

/// Tells whether `pt` lies in the polygon, boundary included.
pub fn point_in_poly(pt: &Flat, poly: &Vec<Flat>) -> (r: bool)
    requires
        pt.bounded(),
        all_bounded(poly@),
    ensures
        r == inside(*pt, poly@),
{
    let len: usize = poly.len();
    if len == 0 {
        return false;
    }
    let mut above: bool = false;
    let mut below: bool = false;
    let ghost mut ia: int = 0;
    let ghost mut ib: int = 0;
    let mut i: usize = 0;
    while i < len
        invariant
            0 <= i <= len,
            len == poly@.len(),
            pt.bounded(),
            all_bounded(poly@),
            above ==> 0 <= ia < len && side_at(*pt, poly@, ia) > 0,
            below ==> 0 <= ib < len && side_at(*pt, poly@, ib) < 0,
            !above ==> forall|k: int| 0 <= k < i ==> #[trigger] side_at(*pt, poly@, k) <= 0,
            !below ==> forall|k: int| 0 <= k < i ==> #[trigger] side_at(*pt, poly@, k) >= 0,
        decreases len - i,
    {
        let j: usize = (i + 1) % len;
        let s: i128 = side_exec(pt, &poly[i], &poly[j]);
        if s > 0 {
            above = true;
            proof {
                ia = i as int;
            }
        }
        if s < 0 {
            below = true;
            proof {
                ib = i as int;
            }
        }
        i += 1;
    }
    !(above && below)
}

/// Appends the contacts of the vertices of `src` that lie in the face `dst`.
pub fn push_vertex_contacts(
    src: &ConvexPolyface,
    dst: &ConvexPolyface,
    origin: &Point,
    n: &Point,
    src_flat: &Vec<Flat>,
    dst_flat: &Vec<Flat>,
    src_is_first: bool,
    out: &mut Vec<RawContact>,
)
    requires
        src.wf(),
        dst.wf(),
        n.in_range(),
        dst.vertices@.len() > 0,
        src_flat@ == flatten(src.vertices@, *origin, *n),
        dst_flat@ == flatten(dst.vertices@, *origin, *n),
        all_bounded(src_flat@),
        all_bounded(dst_flat@),
    ensures
        final(out)@ == old(out)@ + vertex_contacts(
            src,
            dst,
            *origin,
            *n,
            src.vertices@.len() as int,
            src_is_first,
        ),
{
    let len: usize = src.vertices.len();
    let is_poly: bool = dst.vertices.len() > 2;
    let zero: Point = Point { x: 0, y: 0, z: 0 };
    let n2: Point = match dst.normal {
        Some(p) => p,
        None => zero,
    };
    let den: i128 = dot_from_exec(n, &zero, &n2, Ghost(1048576));
    assert(is_poly ==> den == dot(*n, dst.normal->0));
    let mut i: usize = 0;
    assert(out@ =~= old(out)@ + vertex_contacts(src, dst, *origin, *n, 0, src_is_first));
    while i < len
        invariant
            0 <= i <= len,
            len == src.vertices@.len(),
            src.wf(),
            dst.wf(),
            dst.vertices@.len() > 0,
            is_poly == (dst.vertices@.len() > 2),
            is_poly ==> n2 == dst.normal->0,
            is_poly ==> den == dot(*n, dst.normal->0),
            n2.in_range(),
            src_flat@ == flatten(src.vertices@, *origin, *n),
            dst_flat@ == flatten(dst.vertices@, *origin, *n),
            all_bounded(src_flat@),
            all_bounded(dst_flat@),
            out@ == old(out)@ + vertex_contacts(src, dst, *origin, *n, i as int, src_is_first),
        decreases len - i,
    {
        let ghost before = out@;
        assert(src_flat@[i as int].bounded());
        if is_poly && den != 0 && point_in_poly(&src_flat[i], dst_flat) {
            let num: i128 = dot_from_exec(&dst.vertices[0], &src.vertices[i], &n2, Ghost(1048576));
            let at: Witness = Witness::Vertex { index: i };
            let cast: Witness = Witness::Cast { index: i, shift: Ratio { num, den } };
            let c: RawContact = if src_is_first {
                RawContact { on1: at, on2: cast, feature1: src.vertices_id[i], feature2: dst.feature_id }
            } else {
                RawContact { on1: cast, on2: at, feature1: dst.feature_id, feature2: src.vertices_id[i] }
            };
            assert(c == cast_contact(src, dst, *n, i as int, src_is_first));
            out.push(c);
        }
        i += 1;
        assert(out@ =~= old(out)@ + vertex_contacts(src, dst, *origin, *n, i as int, src_is_first));
    }
}

/// Appends the contacts at the crossings of the edges of two features.
pub fn push_edge_contacts(
    f1: &ConvexPolyface,
    f2: &ConvexPolyface,
    pa: &Vec<Flat>,
    pb: &Vec<Flat>,
    out: &mut Vec<RawContact>,
)
    requires
        f1.wf(),
        f2.wf(),
        pa@.len() == f1.vertices@.len(),
        pb@.len() == f2.vertices@.len(),
        all_bounded(pa@),
        all_bounded(pb@),
    ensures
        final(out)@ == old(out)@ + edge_contacts(f1, f2, pa@, pb@, edge_count_of(pa@)),
{
    let nedges1: usize = f1.nedges();
    let nedges2: usize = f2.nedges();
    let len1: usize = pa.len();
    let len2: usize = pb.len();
    let mut i1: usize = 0;
    assert(out@ =~= old(out)@ + edge_contacts(f1, f2, pa@, pb@, 0));
    while i1 < nedges1
        invariant
            0 <= i1 <= nedges1,
            nedges1 == edge_count(len1 as int),
            nedges2 == edge_count(len2 as int),
            len1 == pa@.len(),
            len2 == pb@.len(),
            f1.wf(),
            f2.wf(),
            pa@.len() == f1.vertices@.len(),
            pb@.len() == f2.vertices@.len(),
            all_bounded(pa@),
            all_bounded(pb@),
            out@ == old(out)@ + edge_contacts(f1, f2, pa@, pb@, i1 as int),
        decreases nedges1 - i1,
    {
        let j1: usize = (i1 + 1) % len1;
        let a1: Flat = pa[i1];
        let b1: Flat = pa[j1];
        let ghost base = out@;
        let mut i2: usize = 0;
        assert(out@ =~= base + edge_row(f1, f2, pa@, pb@, i1 as int, 0));
        while i2 < nedges2
            invariant
                0 <= i2 <= nedges2,
                0 <= i1 < nedges1,
                nedges1 == edge_count(len1 as int),
                nedges2 == edge_count(len2 as int),
                len1 == pa@.len(),
                len2 == pb@.len(),
                f1.wf(),
                f2.wf(),
                pa@.len() == f1.vertices@.len(),
                pb@.len() == f2.vertices@.len(),
                all_bounded(pb@),
                a1.bounded(),
                b1.bounded(),
                j1 == next_index(i1 as int, len1 as int),
                a1 == pa@[i1 as int],
                b1 == pa@[j1 as int],
                out@ == base + edge_row(f1, f2, pa@, pb@, i1 as int, i2 as int),
            decreases nedges2 - i2,
        {
            let j2: usize = (i2 + 1) % len2;
            let a2: Flat = pb[i2];
            let b2: Flat = pb[j2];
            let d: i128 = cross_exec(b1.u - a1.u, b1.v - a1.v, b2.u - a2.u, b2.v - a2.v);
            let s: i128 = cross_exec(b2.u - a2.u, b2.v - a2.v, a1.u - a2.u, a1.v - a2.v);
            let t: i128 = cross_exec(b1.u - a1.u, b1.v - a1.v, a1.u - a2.u, a1.v - a2.v);
            let forward: bool = d > 0 && 0 < s && s < d && 0 < t && t < d;
            let backward: bool = d < 0 && d < s && s < 0 && d < t && t < 0;
            if forward || backward {
                let ws: Ratio = if d < 0 {
                    Ratio { num: -s, den: -d }
                } else {
                    Ratio { num: s, den: d }
                };
                let wt: Ratio = if d < 0 {
                    Ratio { num: -t, den: -d }
                } else {
                    Ratio { num: t, den: d }
                };
                let c: RawContact = RawContact {
                    on1: Witness::Edge { from: i1, to: j1, weight: ws },
                    on2: Witness::Edge { from: i2, to: j2, weight: wt },
                    feature1: f1.edges_id[i1],
                    feature2: f2.edges_id[i2],
                };
                assert(c == edge_contact(f1, f2, pa@, pb@, i1 as int, i2 as int));
                out.push(c);
            }
            i2 += 1;
            assert(out@ =~= base + edge_row(f1, f2, pa@, pb@, i1 as int, i2 as int));
        }
        i1 += 1;
        assert(out@ =~= old(out)@ + edge_contacts(f1, f2, pa@, pb@, i1 as int));
    }
}

/// Clips two features in space against each other.
pub fn clip_3d(f1: &ConvexPolyface, f2: &ConvexPolyface, n: &Point, cache: &mut ClippingCache) -> (out:
    Vec<RawContact>)
    requires
        f1.wf(),
        f2.wf(),
        n.in_range(),
    ensures
        out@ == clip_3d_spec(f1, f2, *n),
        f1.vertices@.len() <= 2 && f2.vertices@.len() <= 2 ==> out@.len() == 0,
{
    let mut out: Vec<RawContact> = Vec::new();
    let len1: usize = f1.vertices.len();
    let len2: usize = f2.vertices.len();
    if (len1 <= 2 && len2 <= 2) || len1 == 0 || len2 == 0 {
        return out;
    }
    cache.clear();
    let origin: Point = f1.vertices[0];
    project_face(f1, &origin, n, &mut cache.poly1);
    project_face(f2, &origin, n, &mut cache.poly2);
    push_vertex_contacts(f1, f2, &origin, n, &cache.poly1, &cache.poly2, true, &mut out);
    push_vertex_contacts(f2, f1, &origin, n, &cache.poly2, &cache.poly1, false, &mut out);
    push_edge_contacts(f1, f2, &cache.poly1, &cache.poly2, &mut out);
    assert(out@ =~= clip_3d_spec(f1, f2, *n));
    out
}

} // verus!
