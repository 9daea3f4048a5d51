//! The clipping engine: the contacts between two supporting features.

use vstd::prelude::*;
use crate::arith::{dot, dot_from, lemma_dot_bounds, lemma_product_bound, Point, Ratio};
use crate::clip2d::{
    axis_coord, clip_2d, clip_2d_spec, disjoint, high_contacts, low_contacts, ortho, span_of,
};
use crate::clip3d::{
    basis0, basis1, cast_contact, cast_shift, clip_3d, clip_3d_spec, crosses, crossing_den, crossing_num1,
    crossing_num2, edge_contacts, edge_count_of, edge_row, flat, flatten, inside, side_at,
    strictly_inside, vertex_contacts, vertex_hit, ClippingCache, Flat,
};
use crate::contact::{RawContact, Witness};
use crate::feature::Dimension;
use crate::polyface::ConvexPolyface;

verus! {

/// The contacts between two features along the direction `n`, in a space
/// of dimension `dim`.
pub open spec fn clip_spec(dim: Dimension, f1: &ConvexPolyface, f2: &ConvexPolyface, n: Point) -> Seq<
    RawContact,
> {
    match dim {
        Dimension::Two => clip_2d_spec(f1, f2, n),
        Dimension::Three => clip_3d_spec(f1, f2, n),
    }
}

/// Clips two features against each other along the direction `n`.
pub fn clip_polyfaces(
    dim: Dimension,
    f1: &ConvexPolyface,
    f2: &ConvexPolyface,
    n: &Point,
    cache: &mut ClippingCache,
) -> (out: Vec<RawContact>)
    requires
        f1.wf(),
        f2.wf(),
        n.in_range(),
    ensures
        out@ == clip_spec(dim, f1, f2, *n),
{
    match dim {
        Dimension::Two => clip_2d(f1, f2, n),
        Dimension::Three => clip_3d(f1, f2, n, cache),
    }
}

/// Two segments in the plane whose ranges on the axis orthogonal to the
/// contact direction are disjoint have no contact.
pub proof fn lemma_disjoint_segments_have_no_contact(f1: &ConvexPolyface, f2: &ConvexPolyface, n: Point)
    requires
        disjoint(span_of(f1, f1.vertices@[0], n), span_of(f2, f1.vertices@[0], n)),
    ensures
        clip_spec(Dimension::Two, f1, f2, n) == Seq::<RawContact>::empty(),
{
}

/// In space, two features of at most two vertices each have no contact,
/// wherever they lie.
pub proof fn lemma_two_edges_have_no_contact(f1: &ConvexPolyface, f2: &ConvexPolyface, n: Point)
    requires
        f1.vertices@.len() <= 2,
        f2.vertices@.len() <= 2,
    ensures
        clip_spec(Dimension::Three, f1, f2, n) == Seq::<RawContact>::empty(),
{
}

/// The vertex of the source feature that a vertex contact starts from, or
/// -1 where the contact starts from none.
pub open spec fn source_index(c: RawContact, src_is_first: bool) -> int {
    match (if src_is_first { c.on1 } else { c.on2 }) {
        Witness::Vertex { index } => index as int,
        _ => -1,
    }
}

/// The point `start + n * shift` lies on the plane through `plane_point`
/// with normal `plane_normal`. The equation is multiplied by the
/// denominator of `shift`.
pub open spec fn cast_on_plane(start: Point, n: Point, shift: Ratio, plane_point: Point, plane_normal: Point) -> bool {
    &&& shift.den != 0
    &&& shift.den * dot_from(start, plane_point, plane_normal) + shift.num * dot(n, plane_normal) == 0
}

/// The vertex contacts come in the order of the vertices, one for each
/// vertex that hits and none for another.
pub proof fn lemma_vertex_contacts_shape(
    src: &ConvexPolyface,
    dst: &ConvexPolyface,
    origin: Point,
    n: Point,
    upto: int,
    src_is_first: bool,
)
    requires
        0 <= upto <= usize::MAX,
    ensures
        ({
            let s = vertex_contacts(src, dst, origin, n, upto, src_is_first);
            &&& forall|k: int|
                0 <= k < s.len() ==> {
                    let idx = source_index(#[trigger] s[k], src_is_first);
                    &&& 0 <= idx < upto
                    &&& vertex_hit(src, dst, origin, n, idx)
                    &&& s[k] == cast_contact(src, dst, n, idx, src_is_first)
                }
            &&& forall|j: int, k: int|
                0 <= j < k < s.len() ==> source_index(#[trigger] s[j], src_is_first) < source_index(
                    #[trigger] s[k],
                    src_is_first,
                )
            &&& forall|i: int|
                0 <= i < upto && #[trigger] vertex_hit(src, dst, origin, n, i) ==> s.contains(
                    cast_contact(src, dst, n, i, src_is_first),
                )
        }),
    decreases upto,
{
    if upto > 0 {
        lemma_vertex_contacts_shape(src, dst, origin, n, upto - 1, src_is_first);
        let prev = vertex_contacts(src, dst, origin, n, upto - 1, src_is_first);
        let s = vertex_contacts(src, dst, origin, n, upto, src_is_first);
        let c = cast_contact(src, dst, n, upto - 1, src_is_first);
        assert(source_index(c, src_is_first) == upto - 1);
        assert forall|i: int|
            0 <= i < upto && #[trigger] vertex_hit(src, dst, origin, n, i) implies s.contains(
            cast_contact(src, dst, n, i, src_is_first),
        ) by {
            if i < upto - 1 {
                let ci = cast_contact(src, dst, n, i, src_is_first);
                assert(prev.contains(ci));
                let k = choose|k: int| 0 <= k < prev.len() && prev[k] == ci;
                assert(s[k] == ci);
            } else {
                assert(s[s.len() - 1] == c);
            }
        }
    }
}

/// No crossing of two edges starts from a vertex.
pub proof fn lemma_edge_row_shape(
    f1: &ConvexPolyface,
    f2: &ConvexPolyface,
    pa: Seq<Flat>,
    pb: Seq<Flat>,
    i1: int,
    upto: int,
)
    ensures
        forall|k: int|
            0 <= k < edge_row(f1, f2, pa, pb, i1, upto).len() ==> (#[trigger] edge_row(
                f1,
                f2,
                pa,
                pb,
                i1,
                upto,
            )[k]).on1 is Edge,
    decreases upto,
{
    if upto > 0 {
        lemma_edge_row_shape(f1, f2, pa, pb, i1, upto - 1);
    }
}

/// No contact between two edges starts from a vertex.
pub proof fn lemma_edge_contacts_shape(
    f1: &ConvexPolyface,
    f2: &ConvexPolyface,
    pa: Seq<Flat>,
    pb: Seq<Flat>,
    upto: int,
)
    ensures
        forall|k: int|
            0 <= k < edge_contacts(f1, f2, pa, pb, upto).len() ==> (#[trigger] edge_contacts(
                f1,
                f2,
                pa,
                pb,
                upto,
            )[k]).on1 is Edge,
    decreases upto,
{
    if upto > 0 {
        lemma_edge_contacts_shape(f1, f2, pa, pb, upto - 1);
        lemma_edge_row_shape(f1, f2, pa, pb, upto - 1, edge_count_of(pb));
    }
}

/// A contact pairs vertex `i` of the first feature with a point of the
/// second feature's face.
pub open spec fn is_vertex_on_face(c: RawContact, i: int) -> bool {
    c.on1 == (Witness::Vertex { index: i as usize }) && c.on2 is Cast
}

/// In space, a vertex of the first feature that lies strictly inside the
/// second, a face whose plane the contact direction meets, has exactly one
/// contact with that face. The contact carries the identifiers of the
/// vertex and of the face, and its point on the second feature lies on the
/// face's plane.
pub proof fn lemma_vertex_inside_face_has_one_contact(
    f1: &ConvexPolyface,
    f2: &ConvexPolyface,
    n: Point,
    i: int,
)
    requires
        f1.wf(),
        f2.wf(),
        n.in_range(),
        0 <= i < f1.vertices@.len(),
        f2.vertices@.len() > 2,
        dot(n, f2.normal->0) != 0,
        strictly_inside(
            flat(f1.vertices@[i], f1.vertices@[0], n),
            flatten(f2.vertices@, f1.vertices@[0], n),
        ),
    ensures
        ({
            let out = clip_spec(Dimension::Three, f1, f2, n);
            let c = cast_contact(f1, f2, n, i, true);
            &&& out.contains(c)
            &&& is_vertex_on_face(c, i)
            &&& c.feature1 == f1.vertices_id@[i]
            &&& c.feature2 == f2.feature_id
            &&& forall|j: int, k: int|
                0 <= j < out.len() && 0 <= k < out.len() && is_vertex_on_face(#[trigger] out[j], i)
                    && is_vertex_on_face(#[trigger] out[k], i) ==> j == k
            &&& cast_on_plane(f1.vertices@[i], n, cast_shift(f1, f2, n, i), f2.vertices@[0], f2.normal->0)
        }),
{
    let origin = f1.vertices@[0];
    let len1 = f1.vertices@.len() as int;
    let len2 = f2.vertices@.len() as int;
    assert(len1 == f1.vertices.len() && len2 == f2.vertices.len());
    let pa = flatten(f1.vertices@, origin, n);
    let pb = flatten(f2.vertices@, origin, n);
    let a = vertex_contacts(f1, f2, origin, n, len1, true);
    let b = vertex_contacts(f2, f1, origin, n, len2, false);
    let e = edge_contacts(f1, f2, pa, pb, edge_count_of(pa));
    let out = clip_spec(Dimension::Three, f1, f2, n);
    let c = cast_contact(f1, f2, n, i, true);
    assert(out == a + b + e);
    let pt = flat(f1.vertices@[i], origin, n);
    assert(inside(pt, pb)) by {
        if forall|k: int| 0 <= k < pb.len() ==> #[trigger] side_at(pt, pb, k) > 0 {
            assert forall|k: int| 0 <= k < pb.len() implies #[trigger] side_at(pt, pb, k) >= 0 by {}
        } else {
            assert forall|k: int| 0 <= k < pb.len() implies #[trigger] side_at(pt, pb, k) <= 0 by {}
        }
    }
    assert(vertex_hit(f1, f2, origin, n, i));
    lemma_vertex_contacts_shape(f1, f2, origin, n, len1, true);
    lemma_vertex_contacts_shape(f2, f1, origin, n, len2, false);
    lemma_edge_contacts_shape(f1, f2, pa, pb, edge_count_of(pa));
    assert(a.contains(c));
    let ka = choose|k: int| 0 <= k < a.len() && a[k] == c;
    assert(out[ka] == c);
    assert forall|j: int, k: int|
        0 <= j < out.len() && 0 <= k < out.len() && is_vertex_on_face(#[trigger] out[j], i)
            && is_vertex_on_face(#[trigger] out[k], i) implies j == k by {
        if j >= a.len() + b.len() {
            assert(out[j] == e[j - a.len() - b.len()]);
        } else if j >= a.len() {
            assert(out[j] == b[j - a.len()]);
        } else {
            assert(out[j] == a[j]);
        }
        if k >= a.len() + b.len() {
            assert(out[k] == e[k - a.len() - b.len()]);
        } else if k >= a.len() {
            assert(out[k] == b[k - a.len()]);
        } else {
            assert(out[k] == a[k]);
        }
        assert(j < a.len() && k < a.len());
        assert(source_index(a[j], true) == i);
        assert(source_index(a[k], true) == i);
    }
    lemma_dot_bounds(f2.vertices@[0], f1.vertices@[i], f2.normal->0);
    lemma_dot_bounds(n, n, f2.normal->0);
    let x = dot_from(f1.vertices@[i], f2.vertices@[0], f2.normal->0);
    let y = dot_from(f2.vertices@[0], f1.vertices@[i], f2.normal->0);
    let d = dot(n, f2.normal->0);
    assert(y == -x) by (nonlinear_arith)
        requires
            x == dot_from(f1.vertices@[i], f2.vertices@[0], f2.normal->0),
            y == dot_from(f2.vertices@[0], f1.vertices@[i], f2.normal->0),
    ;
    assert(d * x + y * d == 0) by (nonlinear_arith)
        requires
            y == -x,
    ;
}

/// The coordinate on the axis of the point that a witness names on a
/// segment, multiplied by `axis_den` of the witness.
pub open spec fn axis_num(face: &ConvexPolyface, origin: Point, n: Point, w: Witness) -> int {
    match w {
        Witness::Vertex { index } => axis_coord(face.vertices@[index as int], origin, n),
        Witness::Edge { from, to, weight } => axis_coord(face.vertices@[from as int], origin, n) * (weight.den
            - weight.num) + axis_coord(face.vertices@[to as int], origin, n) * weight.num,
        _ => 0,
    }
}

/// The denominator of the coordinate of a witness on the axis.
pub open spec fn axis_den(w: Witness) -> int {
    match w {
        Witness::Edge { from, to, weight } => weight.den as int,
        _ => 1,
    }
}

/// The weight of a witness on an edge lies between zero and one.
pub open spec fn weight_in_unit(w: Witness) -> bool {
    match w {
        Witness::Edge { from, to, weight } => 0 <= weight.num <= weight.den && weight.den > 0,
        _ => true,
    }
}

/// The two points of a contact in the plane lie at the same coordinate of
/// the axis, and each lies on its segment.
pub open spec fn meets_on_axis(f1: &ConvexPolyface, f2: &ConvexPolyface, n: Point, c: RawContact) -> bool {
    let origin = f1.vertices@[0];
    &&& weight_in_unit(c.on1)
    &&& weight_in_unit(c.on2)
    &&& axis_num(f1, origin, n, c.on1) * axis_den(c.on2) == axis_num(f2, origin, n, c.on2) * axis_den(c.on1)
}

/// Every contact between two segments in the plane pairs two points that
/// lie at the same coordinate of the axis orthogonal to the contact
/// direction: an end of one segment, and the point of the other segment
/// across it.
pub proof fn lemma_contacts_in_plane_meet_on_axis(f1: &ConvexPolyface, f2: &ConvexPolyface, n: Point)
    requires
        f1.wf(),
        f2.wf(),
        n.in_range(),
    ensures
        forall|k: int|
            0 <= k < clip_spec(Dimension::Two, f1, f2, n).len() ==> meets_on_axis(
                f1,
                f2,
                n,
                #[trigger] clip_spec(Dimension::Two, f1, f2, n)[k],
            ),
{
    let out = clip_spec(Dimension::Two, f1, f2, n);
    if out.len() > 0 {
        let origin = f1.vertices@[0];
        let s1 = span_of(f1, origin, n);
        let s2 = span_of(f2, origin, n);
        let o = ortho(n);
        assert(o.in_range());
        lemma_dot_bounds(f1.vertices@[0], origin, o);
        lemma_dot_bounds(f1.vertices@[1], origin, o);
        lemma_dot_bounds(f2.vertices@[0], origin, o);
        lemma_dot_bounds(f2.vertices@[1], origin, o);
        let low = low_contacts(f1, f2, s1, s2);
        let high = high_contacts(f1, f2, s1, s2);
        assert(out == low + high);
        assert(axis_coord(f1.vertices@[s1.low as int], origin, n) == s1.lo);
        assert(axis_coord(f1.vertices@[s1.high as int], origin, n) == s1.hi);
        assert(axis_coord(f2.vertices@[s2.low as int], origin, n) == s2.lo);
        assert(axis_coord(f2.vertices@[s2.high as int], origin, n) == s2.hi);
        assert forall|k: int| 0 <= k < out.len() implies meets_on_axis(f1, f2, n, #[trigger] out[k]) by {
            let c = out[k];
            if k < low.len() {
                assert(c == low[k]);
                if s2.lo > s1.lo {
                    lemma_interpolation(s1.lo, s1.hi, s2.lo);
                } else {
                    lemma_interpolation(s2.lo, s2.hi, s1.lo);
                }
            } else {
                assert(c == high[k - low.len()]);
                if s2.hi < s1.hi {
                    lemma_interpolation(s1.lo, s1.hi, s2.hi);
                } else {
                    lemma_interpolation(s2.lo, s2.hi, s1.hi);
                }
            }
        }
    }
}

/// Interpolating between `lo` and `hi` with the weight
/// `(at - lo) / (hi - lo)` gives `at`.
pub proof fn lemma_interpolation(lo: int, hi: int, at: int)
    ensures
        lo * ((hi - lo) - (at - lo)) + hi * (at - lo) == at * (hi - lo),
{
    assert(lo * ((hi - lo) - (at - lo)) + hi * (at - lo) == at * (hi - lo)) by (nonlinear_arith);
}

/// Where two segments of the plane cross, the two parameters of the
/// crossing name the same point, once on each segment, and the point is an
/// end of neither. The parameters are `crossing_num1 / crossing_den` on
/// the first segment and `crossing_num2 / crossing_den` on the second.
pub proof fn lemma_crossing_names_one_point(a1: Flat, b1: Flat, a2: Flat, b2: Flat)
    requires
        crosses(a1, b1, a2, b2),
    ensures
        ({
            let d = crossing_den(a1, b1, a2, b2);
            let s = crossing_num1(a1, b1, a2, b2);
            let t = crossing_num2(a1, b1, a2, b2);
            &&& d != 0
            &&& 0 < s * d < d * d
            &&& 0 < t * d < d * d
            &&& d * a1.u + (b1.u - a1.u) * s == d * a2.u + (b2.u - a2.u) * t
            &&& d * a1.v + (b1.v - a1.v) * s == d * a2.v + (b2.v - a2.v) * t
        }),
{
    let d = crossing_den(a1, b1, a2, b2);
    let s = crossing_num1(a1, b1, a2, b2);
    let t = crossing_num2(a1, b1, a2, b2);
    let (p, q) = (b1.u - a1.u, b1.v - a1.v);
    let (r, w) = (b2.u - a2.u, b2.v - a2.v);
    let (e, f) = (a1.u - a2.u, a1.v - a2.v);
    assert(d == p * w - q * r && s == r * f - w * e && t == p * f - q * e);
    assert(0 < s * d < d * d && 0 < t * d < d * d) by (nonlinear_arith)
        requires
            (d > 0 && 0 < s < d && 0 < t < d) || (d < 0 && d < s < 0 && d < t < 0),
    ;
    lemma_cramer(p, q, r, w, e, f);
    assert(d * a1.u - d * a2.u == d * e && d * a1.v - d * a2.v == d * f) by (nonlinear_arith)
        requires
            e == a1.u - a2.u,
            f == a1.v - a2.v,
    ;
}

/// For the directions `(p, q)` and `(r, w)` of two lines and the vector
/// `(e, f)` between their starting points: the starting points, moved
/// along their lines by the two vector products, meet.
pub proof fn lemma_cramer(p: int, q: int, r: int, w: int, e: int, f: int)
    ensures
        (p * w - q * r) * e + p * (r * f - w * e) == r * (p * f - q * e),
        (p * w - q * r) * f + q * (r * f - w * e) == w * (p * f - q * e),
{
    assert((p * w - q * r) * e == p * w * e - q * r * e) by (nonlinear_arith);
    assert(p * (r * f - w * e) == p * r * f - p * w * e) by (nonlinear_arith);
    assert(r * (p * f - q * e) == p * r * f - q * r * e) by (nonlinear_arith);
    assert((p * w - q * r) * f == p * w * f - q * r * f) by (nonlinear_arith);
    assert(q * (r * f - w * e) == q * r * f - q * w * e) by (nonlinear_arith);
    assert(w * (p * f - q * e) == p * w * f - q * w * e) by (nonlinear_arith);
}

/// The two basis directions of the clipping plane are orthogonal to the
/// contact direction and to each other, and neither vanishes unless the
/// contact direction does.
pub proof fn lemma_basis_is_orthogonal(n: Point)
    requires
        n.in_range(),
    ensures
        dot(basis0(n), n) == 0,
        dot(basis1(n), n) == 0,
        dot(basis0(n), basis1(n)) == 0,
        n != (Point { x: 0, y: 0, z: 0 }) ==> basis0(n) != (Point { x: 0, y: 0, z: 0 }) && basis1(n) != (Point {
            x: 0,
            y: 0,
            z: 0,
        }),
{
    let b = basis0(n);
    let c = basis1(n);
    lemma_product_bound(n.z as int, b.y as int, 1048576, 1048576);
    lemma_product_bound(n.z as int, b.x as int, 1048576, 1048576);
    lemma_product_bound(n.x as int, b.y as int, 1048576, 1048576);
    lemma_product_bound(n.y as int, b.x as int, 1048576, 1048576);
    assert(c.x == -(n.z * b.y) && c.y == n.z * b.x && c.z == n.x * b.y - n.y * b.x);
    let (nx, ny, nz) = (n.x as int, n.y as int, n.z as int);
    let (bx, by) = (b.x as int, b.y as int);
    assert(bx * nx + by * ny == 0) by (nonlinear_arith)
        requires
            (bx == 1 && by == 0 && nx == 0 && ny == 0) || (bx == -ny && by == nx),
    ;
    assert((-(nz * by)) * nx + (nz * bx) * ny + (nx * by - ny * bx) * nz == 0) by (nonlinear_arith);
    assert(bx * (-(nz * by)) + by * (nz * bx) == 0) by (nonlinear_arith);
    if n != (Point { x: 0, y: 0, z: 0 }) {
        if nx == 0 && ny == 0 {
            assert(nz * 1 == nz);
            assert(c.y == nz);
        } else {
            assert(nx * by - ny * bx == nx * nx + ny * ny) by (nonlinear_arith)
                requires
                    bx == -ny && by == nx,
            ;
            assert(nx * nx + ny * ny > 0) by (nonlinear_arith)
                requires
                    nx != 0 || ny != 0,
            ;
        }
    }
}

} // verus!
