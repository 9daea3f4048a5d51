use support_manifold::allocator::IdAllocator;
use support_manifold::arith::Point;
use support_manifold::contact::{RawContact, Witness};
use support_manifold::feature::{Dimension, FeatureId, FeatureKind};
use support_manifold::kinematic::{contact_kinematic, edge_direction, ContactKinematic, KinematicError};
use support_manifold::manifold::{find_slot, ContactManifold, TrackedContact};
use support_manifold::polyface::ConvexPolyface;

fn pt(x: i64, y: i64, z: i64) -> Point {
    Point { x, y, z }
}

fn raw(f1: FeatureId, f2: FeatureId, mark: usize) -> RawContact {
    RawContact {
        on1: Witness::Vertex { index: mark },
        on2: Witness::Vertex { index: mark },
        feature1: f1,
        feature2: f2,
    }
}

fn triangle() -> ConvexPolyface {
    ConvexPolyface {
        vertices: vec![pt(0, 0, 0), pt(4, 0, 0), pt(0, 3, 0)],
        vertices_id: vec![FeatureId::Vertex(0), FeatureId::Vertex(1), FeatureId::Vertex(2)],
        edges_id: vec![FeatureId::Edge(5), FeatureId::Edge(6), FeatureId::Edge(7)],
        normal: Some(pt(0, 0, 1)),
        feature_id: FeatureId::Face(0),
    }
}

fn flat_edge() -> ConvexPolyface {
    ConvexPolyface {
        vertices: vec![pt(1, 1, 1), pt(1, 1, 1)],
        vertices_id: vec![FeatureId::Vertex(0), FeatureId::Vertex(1)],
        edges_id: vec![FeatureId::Edge(9)],
        normal: None,
        feature_id: FeatureId::Edge(9),
    }
}

#[test]
fn feature_ids_compare_by_kind_and_index() {
    assert!(FeatureId::Vertex(3).same(&FeatureId::Vertex(3)));
    assert!(!FeatureId::Vertex(3).same(&FeatureId::Vertex(4)));
    assert!(!FeatureId::Vertex(3).same(&FeatureId::Edge(3)));
    assert!(!FeatureId::Face(3).same(&FeatureId::Edge(3)));
    assert_eq!(FeatureId::Edge(8).kind(), FeatureKind::Edge);
    assert_eq!(FeatureId::Face(8).kind(), FeatureKind::Face);
    assert_eq!(FeatureId::Vertex(8).kind(), FeatureKind::Vertex);
    assert_eq!(FeatureId::Edge(8).index(), 8);
}

#[test]
fn polyface_counts_and_finds_its_edges() {
    let t = triangle();
    assert_eq!(t.nedges(), 3);
    assert_eq!(t.edge(FeatureId::Edge(5)), Some((pt(0, 0, 0), pt(4, 0, 0))));
    assert_eq!(t.edge(FeatureId::Edge(7)), Some((pt(0, 3, 0), pt(0, 0, 0))));
    assert_eq!(t.edge(FeatureId::Edge(0)), None);
    assert_eq!(t.edge(FeatureId::Vertex(5)), None);
    assert_eq!(flat_edge().nedges(), 1);
    let mut e = ConvexPolyface::new(FeatureId::Vertex(2));
    assert_eq!(e.nedges(), 0);
    e.vertices.push(pt(1, 2, 3));
    e.vertices_id.push(FeatureId::Vertex(2));
    assert_eq!(e.nedges(), 0);
    e.clear();
    assert!(e.vertices.is_empty() && e.vertices_id.is_empty() && e.edges_id.is_empty());
    assert_eq!(e.normal, None);
    assert_eq!(e.feature_id, FeatureId::Vertex(2));
}

#[test]
fn edge_direction_runs_from_first_end_to_second() {
    let t = triangle();
    assert_eq!(edge_direction(&t, FeatureId::Edge(6)), Ok(pt(-4, 3, 0)));
    assert_eq!(edge_direction(&t, FeatureId::Edge(1)), Err(KinematicError::UnknownEdge));
    assert_eq!(edge_direction(&flat_edge(), FeatureId::Edge(9)), Err(KinematicError::DegenerateEdge));
}

#[test]
fn kinematic_in_the_plane() {
    let t = triangle();
    let k = |a, b| contact_kinematic(Dimension::Two, &t, a, &t, b);
    assert_eq!(k(FeatureId::Vertex(0), FeatureId::Vertex(1)), Ok(ContactKinematic::PointPoint));
    assert_eq!(k(FeatureId::Vertex(0), FeatureId::Edge(1)), Ok(ContactKinematic::PointPlane));
    assert_eq!(k(FeatureId::Edge(0), FeatureId::Vertex(1)), Ok(ContactKinematic::PlanePoint));
    assert_eq!(k(FeatureId::Edge(0), FeatureId::Edge(1)), Ok(ContactKinematic::PointPoint));
    assert_eq!(k(FeatureId::Face(0), FeatureId::Vertex(1)), Ok(ContactKinematic::PointPoint));
    assert_eq!(k(FeatureId::Vertex(0), FeatureId::Face(1)), Ok(ContactKinematic::PointPoint));
    assert_eq!(k(FeatureId::Face(0), FeatureId::Face(1)), Ok(ContactKinematic::PointPoint));
}

#[test]
fn kinematic_in_space() {
    let t = triangle();
    let k = |a, b| contact_kinematic(Dimension::Three, &t, a, &t, b);
    assert_eq!(k(FeatureId::Vertex(0), FeatureId::Vertex(1)), Ok(ContactKinematic::PointPoint));
    assert_eq!(k(FeatureId::Vertex(0), FeatureId::Face(0)), Ok(ContactKinematic::PointPlane));
    assert_eq!(k(FeatureId::Face(0), FeatureId::Vertex(1)), Ok(ContactKinematic::PlanePoint));
    assert_eq!(k(FeatureId::Edge(5), FeatureId::Vertex(1)), Ok(ContactKinematic::LinePoint(pt(4, 0, 0))));
    assert_eq!(k(FeatureId::Vertex(1), FeatureId::Edge(7)), Ok(ContactKinematic::PointLine(pt(0, -3, 0))));
    assert_eq!(
        k(FeatureId::Edge(5), FeatureId::Edge(6)),
        Ok(ContactKinematic::LineLine(pt(4, 0, 0), pt(-4, 3, 0)))
    );
    assert_eq!(k(FeatureId::Face(0), FeatureId::Face(0)), Ok(ContactKinematic::PointPoint));
    assert_eq!(k(FeatureId::Edge(5), FeatureId::Face(0)), Ok(ContactKinematic::PointPoint));
    assert_eq!(k(FeatureId::Face(0), FeatureId::Edge(5)), Ok(ContactKinematic::PointPoint));
}

#[test]
fn kinematic_reports_a_bad_edge() {
    let t = triangle();
    let f = flat_edge();
    assert_eq!(
        contact_kinematic(Dimension::Three, &t, FeatureId::Edge(1), &t, FeatureId::Vertex(0)),
        Err(KinematicError::UnknownEdge)
    );
    assert_eq!(
        contact_kinematic(Dimension::Three, &t, FeatureId::Vertex(0), &f, FeatureId::Edge(9)),
        Err(KinematicError::DegenerateEdge)
    );
    // Where both edges fail, the first decides.
    assert_eq!(
        contact_kinematic(Dimension::Three, &f, FeatureId::Edge(9), &t, FeatureId::Edge(1)),
        Err(KinematicError::DegenerateEdge)
    );
    assert_eq!(
        contact_kinematic(Dimension::Three, &t, FeatureId::Edge(1), &f, FeatureId::Edge(9)),
        Err(KinematicError::UnknownEdge)
    );
    // In the plane no edge is looked up.
    assert_eq!(
        contact_kinematic(Dimension::Two, &t, FeatureId::Vertex(0), &t, FeatureId::Edge(1)),
        Ok(ContactKinematic::PointPlane)
    );
}

#[test]
fn allocator_reuses_what_came_back() {
    let mut ids = IdAllocator::new();
    assert_eq!(ids.allocate(), 0);
    assert_eq!(ids.allocate(), 1);
    assert_eq!(ids.allocate(), 2);
    ids.free(0);
    ids.free(2);
    assert_eq!(ids.allocate(), 2);
    assert_eq!(ids.allocate(), 0);
    assert_eq!(ids.allocate(), 3);
}

#[test]
fn find_slot_returns_first_match_or_length() {
    let a = TrackedContact {
        id: 4,
        contact: raw(FeatureId::Vertex(0), FeatureId::Face(1), 0),
        kinematic: ContactKinematic::PointPlane,
    };
    let b = TrackedContact {
        id: 6,
        contact: raw(FeatureId::Face(0), FeatureId::Vertex(1), 0),
        kinematic: ContactKinematic::PlanePoint,
    };
    let slots = vec![a, b];
    assert_eq!(find_slot(&slots, FeatureId::Vertex(0), FeatureId::Face(1)), 0);
    assert_eq!(find_slot(&slots, FeatureId::Face(0), FeatureId::Vertex(1)), 1);
    assert_eq!(find_slot(&slots, FeatureId::Face(1), FeatureId::Vertex(0)), 2);
    assert_eq!(find_slot(&Vec::new(), FeatureId::Face(1), FeatureId::Vertex(0)), 0);
}

#[test]
fn pushed_pair_keeps_its_slot_in_the_next_frame() {
    let mut ids = IdAllocator::new();
    let mut m = ContactManifold::new();
    let (va, fb) = (FeatureId::Vertex(0), FeatureId::Face(1));
    let (fa, vb) = (FeatureId::Face(0), FeatureId::Vertex(3));
    m.save_cache_and_clear(&mut ids);
    assert!(!m.push(raw(va, fb, 1), ContactKinematic::PointPlane, &mut ids));
    assert!(!m.push(raw(fa, vb, 2), ContactKinematic::PlanePoint, &mut ids));
    let first = m.slot_of(va, fb);
    let second = m.slot_of(fa, vb);
    assert_eq!(first, Some(0));
    assert_eq!(second, Some(1));

    m.save_cache_and_clear(&mut ids);
    assert_eq!(m.len(), 0);
    // The other order, and new contact data: the slots follow the pairs.
    assert!(m.push(raw(fa, vb, 7), ContactKinematic::PlanePoint, &mut ids));
    assert!(m.push(raw(va, fb, 8), ContactKinematic::PointPlane, &mut ids));
    assert_eq!(m.slot_of(va, fb), first);
    assert_eq!(m.slot_of(fa, vb), second);
    assert_eq!(m.contacts()[0].contact, raw(fa, vb, 7));
    assert_eq!(m.contacts()[1].contact, raw(va, fb, 8));
}

#[test]
fn pair_that_is_not_pushed_again_is_dropped() {
    let mut ids = IdAllocator::new();
    let mut m = ContactManifold::new();
    let (va, fb) = (FeatureId::Vertex(0), FeatureId::Face(1));
    let (fa, vb) = (FeatureId::Face(0), FeatureId::Vertex(3));
    m.save_cache_and_clear(&mut ids);
    m.push(raw(va, fb, 1), ContactKinematic::PointPlane, &mut ids);
    m.push(raw(fa, vb, 2), ContactKinematic::PlanePoint, &mut ids);
    m.save_cache_and_clear(&mut ids);
    m.push(raw(fa, vb, 2), ContactKinematic::PlanePoint, &mut ids);
    assert_eq!(m.len(), 1);
    assert_eq!(m.slot_of(va, fb), None);
    assert_eq!(m.slot_of(fa, vb), Some(1));
    // The slot of the dropped pair goes back at the start of the next frame.
    m.save_cache_and_clear(&mut ids);
    assert_eq!(m.len(), 0);
    assert!(!m.push(raw(va, fb, 1), ContactKinematic::PointPlane, &mut ids));
    assert_eq!(m.slot_of(va, fb), Some(0));
    assert_eq!(m.slot_of(fa, vb), None);
}

#[test]
fn same_pair_twice_in_a_frame_keeps_one_contact() {
    let mut ids = IdAllocator::new();
    let mut m = ContactManifold::new();
    let (ea, eb) = (FeatureId::Edge(0), FeatureId::Edge(4));
    m.save_cache_and_clear(&mut ids);
    assert!(!m.push(raw(ea, eb, 1), ContactKinematic::PointPoint, &mut ids));
    assert!(m.push(raw(ea, eb, 2), ContactKinematic::PointPoint, &mut ids));
    assert!(!m.push(raw(eb, ea, 3), ContactKinematic::PointPoint, &mut ids));
    assert_eq!(m.len(), 2);
    assert_eq!(
        m.contacts()[0],
        TrackedContact { id: 0, contact: raw(ea, eb, 2), kinematic: ContactKinematic::PointPoint }
    );
    assert_eq!(m.contacts()[1].id, 1);
    assert_eq!(ids.allocate(), 2);
}

#[test]
fn slots_stay_distinct_across_frames() {
    let mut ids = IdAllocator::new();
    let mut m = ContactManifold::new();
    let pair = |i: usize| (FeatureId::Vertex(i), FeatureId::Face(i % 3));
    for frame in 0..6usize {
        m.save_cache_and_clear(&mut ids);
        for i in 0..8usize {
            if (i + frame) % 3 != 0 {
                let (a, b) = pair(i);
                m.push(raw(a, b, frame), ContactKinematic::PointPlane, &mut ids);
            }
        }
        let mut seen: Vec<usize> = m.contacts().iter().map(|c| c.id).collect();
        seen.sort();
        seen.dedup();
        assert_eq!(seen.len(), m.len());
        assert!(seen.iter().all(|id| *id < 8));
    }
}

#[test]
fn pair_keeps_its_slot_while_others_come_and_go() {
    let mut ids = IdAllocator::new();
    let mut m = ContactManifold::new();
    let kept = (FeatureId::Edge(1), FeatureId::Edge(2));
    m.save_cache_and_clear(&mut ids);
    m.push(raw(FeatureId::Vertex(0), FeatureId::Face(0), 0), ContactKinematic::PointPlane, &mut ids);
    m.push(raw(kept.0, kept.1, 0), ContactKinematic::PointPoint, &mut ids);
    let slot = m.slot_of(kept.0, kept.1);
    assert_eq!(slot, Some(1));
    for frame in 1..5usize {
        m.save_cache_and_clear(&mut ids);
        m.push(raw(FeatureId::Vertex(frame), FeatureId::Face(0), frame), ContactKinematic::PointPlane, &mut ids);
        m.push(raw(kept.0, kept.1, frame), ContactKinematic::PointPoint, &mut ids);
        assert_eq!(m.slot_of(kept.0, kept.1), slot);
        assert_eq!(m.len(), 2);
        assert_eq!(m.slot_of(FeatureId::Vertex(frame - 1), FeatureId::Face(0)), None);
    }
}
