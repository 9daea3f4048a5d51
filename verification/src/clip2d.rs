//! Clipping of two segments in the plane.

use vstd::prelude::*;
use crate::arith::{dot_from, dot_from_exec, Point, Ratio};
use crate::contact::{RawContact, Witness};
use crate::polyface::ConvexPolyface;

verus! {

/// The direction orthogonal to `normal` in the plane.
pub open spec fn ortho(normal: Point) -> Point {
    Point { x: (-normal.y) as i64, y: normal.x, z: 0 }
}

/// The coordinate of `p` along the axis orthogonal to `normal`, measured
/// from `origin`.
pub open spec fn axis_coord(p: Point, origin: Point, normal: Point) -> int {
    dot_from(p, origin, ortho(normal))
}

/// The range that a segment covers on the axis, in ascending order, with
/// the indices of the vertices at its low and high end.
pub struct Span {
    pub lo: int,
    pub hi: int,
    pub low: usize,
    pub high: usize,
}

/// The range of the segment made of the first two vertices of `face`.
pub open spec fn span_of(face: &ConvexPolyface, origin: Point, normal: Point) -> Span {
    let r0 = axis_coord(face.vertices@[0], origin, normal);
    let r1 = axis_coord(face.vertices@[1], origin, normal);
    if r1 < r0 {
        Span { lo: r1, hi: r0, low: 1, high: 0 }
    } else {
        Span { lo: r0, hi: r1, low: 0, high: 1 }
    }
}

/// Two ranges have no coordinate in common.
pub open spec fn disjoint(s1: Span, s2: Span) -> bool {
    s2.lo > s1.hi || s1.lo > s2.hi
}

/// A contact between a point inside the first segment and an end of the
/// second, which lies at coordinate `at`.
pub open spec fn inner1_contact(
    f1: &ConvexPolyface,
    f2: &ConvexPolyface,
    s1: Span,
    at: int,
    end2: usize,
) -> RawContact {
    RawContact {
        on1: Witness::Edge {
            from: s1.low,
            to: s1.high,
            weight: Ratio { num: (at - s1.lo) as i128, den: (s1.hi - s1.lo) as i128 },
        },
        on2: Witness::Vertex { index: end2 },
        feature1: f1.feature_id,
        feature2: f2.vertices_id@[end2 as int],
    }
}

/// A contact between an end of the first segment, which lies at
/// coordinate `at`, and a point inside the second.
pub open spec fn inner2_contact(
    f1: &ConvexPolyface,
    f2: &ConvexPolyface,
    s2: Span,
    at: int,
    end1: usize,
) -> RawContact {
    RawContact {
        on1: Witness::Vertex { index: end1 },
        on2: Witness::Edge {
            from: s2.low,
            to: s2.high,
            weight: Ratio { num: (at - s2.lo) as i128, den: (s2.hi - s2.lo) as i128 },
        },
        feature1: f1.vertices_id@[end1 as int],
        feature2: f2.feature_id,
    }
}

/// The contact at the low end of the overlap of two ranges that meet.
///
/// Where the second range starts inside the first, its low vertex is
/// paired with the point of the first segment above it. Otherwise the low
/// vertex of the first segment is paired with a point of the second, unless
/// the second covers a single coordinate, which gives no contact.
pub open spec fn low_contacts(f1: &ConvexPolyface, f2: &ConvexPolyface, s1: Span, s2: Span) -> Seq<
    RawContact,
> {
    if s2.lo > s1.lo {
        seq![inner1_contact(f1, f2, s1, s2.lo, s2.low)]
    } else if s2.hi > s2.lo {
        seq![inner2_contact(f1, f2, s2, s1.lo, s1.low)]
    } else {
        Seq::empty()
    }
}

/// The contact at the high end of the overlap of two ranges that meet.
pub open spec fn high_contacts(f1: &ConvexPolyface, f2: &ConvexPolyface, s1: Span, s2: Span) -> Seq<
    RawContact,
> {
    if s2.hi < s1.hi {
        seq![inner1_contact(f1, f2, s1, s2.hi, s2.high)]
    } else if s2.hi > s2.lo {
        seq![inner2_contact(f1, f2, s2, s1.hi, s1.high)]
    } else {
        Seq::empty()
    }
}

/// The contacts between two segments in the plane.
///
/// A feature of fewer than two vertices gives none, and so do two
/// segments whose ranges on the axis orthogonal to `normal` are disjoint.
/// The axis is measured from the first vertex of the first feature.
pub open spec fn clip_2d_spec(f1: &ConvexPolyface, f2: &ConvexPolyface, normal: Point) -> Seq<
    RawContact,
> {
    if f1.vertices@.len() <= 1 || f2.vertices@.len() <= 1 {
        Seq::empty()
    } else {
        let origin = f1.vertices@[0];
        let s1 = span_of(f1, origin, normal);
        let s2 = span_of(f2, origin, normal);
        if disjoint(s1, s2) {
            Seq::empty()
        } else {
            low_contacts(f1, f2, s1, s2) + high_contacts(f1, f2, s1, s2)
        }
    }
}

/// Computes the coordinate of `p` along the axis orthogonal to `normal`.
pub fn axis_coord_exec(p: &Point, origin: &Point, normal: &Point) -> (r: i128)
    requires
        p.in_range(),
        origin.in_range(),
        normal.in_range(),
    ensures
        r == axis_coord(*p, *origin, *normal),
        -6597069766656 <= r <= 6597069766656,
{
    let o: Point = Point { x: -normal.y, y: normal.x, z: 0 };
    dot_from_exec(p, origin, &o, Ghost(1048576))
}

/// Clips two segments in the plane against each other.
pub fn clip_2d(f1: &ConvexPolyface, f2: &ConvexPolyface, normal: &Point) -> (out: Vec<RawContact>)
    requires
        f1.wf(),
        f2.wf(),
        normal.in_range(),
    ensures
        out@ == clip_2d_spec(f1, f2, *normal),
        out@.len() <= 2,
{
    let mut out: Vec<RawContact> = Vec::new();
    if f1.vertices.len() <= 1 || f2.vertices.len() <= 1 {
        return out;
    }
    let origin: Point = f1.vertices[0];
    let a0: i128 = axis_coord_exec(&f1.vertices[0], &origin, normal);
    let a1: i128 = axis_coord_exec(&f1.vertices[1], &origin, normal);
    let b0: i128 = axis_coord_exec(&f2.vertices[0], &origin, normal);
    let b1: i128 = axis_coord_exec(&f2.vertices[1], &origin, normal);
    let mut lo1: i128 = a0;
    let mut hi1: i128 = a1;
    let mut low1: usize = 0;
    let mut high1: usize = 1;
    if a1 < a0 {
        lo1 = a1;
        hi1 = a0;
        low1 = 1;
        high1 = 0;
    }
    let mut lo2: i128 = b0;
    let mut hi2: i128 = b1;
    let mut low2: usize = 0;
    let mut high2: usize = 1;
    if b1 < b0 {
        lo2 = b1;
        hi2 = b0;
        low2 = 1;
        high2 = 0;
    }
    let ghost s1 = span_of(f1, origin, *normal);
    let ghost s2 = span_of(f2, origin, *normal);
    assert(s1 == (Span { lo: lo1 as int, hi: hi1 as int, low: low1, high: high1 }));
    assert(s2 == (Span { lo: lo2 as int, hi: hi2 as int, low: low2, high: high2 }));
    if lo2 > hi1 || lo1 > hi2 {
        return out;
    }
    let len1: i128 = hi1 - lo1;
    let len2: i128 = hi2 - lo2;
    if lo2 > lo1 {
        out.push(
            RawContact {
                on1: Witness::Edge { from: low1, to: high1, weight: Ratio { num: lo2 - lo1, den: len1 } },
                on2: Witness::Vertex { index: low2 },
                feature1: f1.feature_id,
                feature2: f2.vertices_id[low2],
            },
        );
    } else if len2 > 0 {
        out.push(
            RawContact {
                on1: Witness::Vertex { index: low1 },
                on2: Witness::Edge { from: low2, to: high2, weight: Ratio { num: lo1 - lo2, den: len2 } },
                feature1: f1.vertices_id[low1],
                feature2: f2.feature_id,
            },
        );
    }
    assert(out@ =~= low_contacts(f1, f2, s1, s2));
    if hi2 < hi1 {
        out.push(
            RawContact {
                on1: Witness::Edge { from: low1, to: high1, weight: Ratio { num: hi2 - lo1, den: len1 } },
                on2: Witness::Vertex { index: high2 },
                feature1: f1.feature_id,
                feature2: f2.vertices_id[high2],
            },
        );
    } else if len2 > 0 {
        out.push(
            RawContact {
                on1: Witness::Vertex { index: high1 },
                on2: Witness::Edge { from: low2, to: high2, weight: Ratio { num: hi1 - lo2, den: len2 } },
                feature1: f1.vertices_id[high1],
                feature2: f2.feature_id,
            },
        );
    }
    assert(out@ =~= low_contacts(f1, f2, s1, s2) + high_contacts(f1, f2, s1, s2));
    out
}

} // verus!
