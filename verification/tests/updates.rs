use support_manifold::allocator::IdAllocator;
use support_manifold::arith::Point;
use support_manifold::contact::{RawContact, Witness};
use support_manifold::feature::{Dimension, FeatureId};
use support_manifold::generator::{
    classify_all, Contact, FeatureRequest, QueryResult, SupportMapSupportMapManifoldGenerator,
};
use support_manifold::kinematic::{ContactKinematic, KinematicError};
use support_manifold::manifold::NewContact;
use support_manifold::polyface::ConvexPolyface;

fn pt(x: i64, y: i64, z: i64) -> Point {
    Point { x, y, z }
}

fn square(z: i64, normal: Point, first_id: usize, whole: FeatureId, shift: i64) -> ConvexPolyface {
    ConvexPolyface {
        vertices: vec![
            pt(shift - 5, -5, z),
            pt(shift + 5, -5, z),
            pt(shift + 5, 5, z),
            pt(shift - 5, 5, z),
        ],
        vertices_id: (0..4).map(|i| FeatureId::Vertex(first_id + i)).collect(),
        edges_id: (0..4).map(|i| FeatureId::Edge(first_id + i)).collect(),
        normal: Some(normal),
        feature_id: whole,
    }
}

fn vertex(at: Point, id: usize) -> ConvexPolyface {
    ConvexPolyface {
        vertices: vec![at],
        vertices_id: vec![FeatureId::Vertex(id)],
        edges_id: vec![],
        normal: None,
        feature_id: FeatureId::Vertex(id),
    }
}

fn touching(depth: i64) -> QueryResult {
    QueryResult::Projection(
        Contact { world1: pt(0, 0, 5), world2: pt(0, 0, 4), normal: pt(0, 0, 1), depth },
        pt(0, 0, 9),
    )
}

fn pairs(g: &SupportMapSupportMapManifoldGenerator) -> Vec<(FeatureId, FeatureId, usize)> {
    match g.contacts() {
        None => Vec::new(),
        Some(m) => m.contacts().iter().map(|c| (c.contact.feature1, c.contact.feature2, c.id)).collect(),
    }
}

#[test]
fn feature_request_follows_the_depth() {
    assert_eq!(
        SupportMapSupportMapManifoldGenerator::feature_request(&touching(1)),
        FeatureRequest::SupportFace
    );
    assert_eq!(
        SupportMapSupportMapManifoldGenerator::feature_request(&touching(0)),
        FeatureRequest::SupportFeature
    );
    assert_eq!(
        SupportMapSupportMapManifoldGenerator::feature_request(&touching(-3)),
        FeatureRequest::SupportFeature
    );
    assert_eq!(
        SupportMapSupportMapManifoldGenerator::feature_request(&QueryResult::NoIntersection(pt(1, 0, 0))),
        FeatureRequest::Nothing
    );
    assert_eq!(
        SupportMapSupportMapManifoldGenerator::feature_request(&QueryResult::Indeterminate),
        FeatureRequest::Nothing
    );
}

#[test]
fn new_generator_is_empty() {
    let g = SupportMapSupportMapManifoldGenerator::new(Dimension::Three);
    assert_eq!(g.num_contacts(), 0);
    assert!(g.contacts().is_none());
    assert_eq!(g.last_direction(), None);
    assert_eq!(g.last_optimal_direction(), None);
    assert_eq!(g.dimension(), Dimension::Three);
    assert_eq!(g.num_replaced(), 0);
}

#[test]
fn shapes_without_support_map_are_not_handled() {
    let mut ids = IdAllocator::new();
    let mut g = SupportMapSupportMapManifoldGenerator::new(Dimension::Three);
    let a = square(5, pt(0, 0, 1), 0, FeatureId::Face(0), 0);
    let b = square(4, pt(0, 0, -1), 10, FeatureId::Face(1), 0);
    assert_eq!(g.update(Some(touching(1)), &a, &b, &mut ids), Ok(true));
    let before = pairs(&g);
    assert_eq!(g.update(None, &a, &b, &mut ids), Ok(false));
    assert_eq!(pairs(&g), before);
    assert_eq!(g.last_direction(), Some(pt(0, 0, 9)));
}

#[test]
fn stacked_cubes_give_a_contact_for_each_corner() {
    let mut ids = IdAllocator::new();
    let mut g = SupportMapSupportMapManifoldGenerator::new(Dimension::Three);
    let a = square(5, pt(0, 0, 1), 0, FeatureId::Face(0), 0);
    let b = square(4, pt(0, 0, -1), 10, FeatureId::Face(1), 0);
    assert_eq!(g.update(Some(touching(1)), &a, &b, &mut ids), Ok(true));
    assert_eq!(g.num_contacts(), 8);
    assert_eq!(g.num_replaced(), 0);
    assert_eq!(g.last_direction(), Some(pt(0, 0, 9)));
    let found = pairs(&g);
    for i in 0..4 {
        assert_eq!(found[i], (FeatureId::Vertex(i), FeatureId::Face(1), i));
        assert_eq!(found[4 + i], (FeatureId::Face(0), FeatureId::Vertex(10 + i), 4 + i));
    }
    let m = g.contacts().unwrap();
    assert_eq!(m.contacts()[0].kinematic, ContactKinematic::PointPlane);
    assert_eq!(m.contacts()[4].kinematic, ContactKinematic::PlanePoint);
    assert_eq!(
        m.contacts()[0].contact.on2,
        Witness::Cast { index: 0, shift: support_manifold::arith::Ratio { num: 1, den: -1 } }
    );
}

#[test]
fn same_update_twice_gives_the_same_manifold() {
    let mut ids = IdAllocator::new();
    let mut g = SupportMapSupportMapManifoldGenerator::new(Dimension::Three);
    let a = square(5, pt(0, 0, 1), 0, FeatureId::Face(0), 0);
    let b = square(4, pt(0, 0, -1), 10, FeatureId::Face(1), 3);
    assert_eq!(g.update(Some(touching(1)), &a, &b, &mut ids), Ok(true));
    let first = pairs(&g);
    assert_eq!(g.update(Some(touching(1)), &a, &b, &mut ids), Ok(true));
    assert_eq!(pairs(&g), first);
    assert_eq!(g.num_replaced(), first.len());
    assert_eq!(g.update(Some(touching(1)), &a, &b, &mut ids), Ok(true));
    assert_eq!(pairs(&g), first);
}

#[test]
fn moved_shape_drops_the_pairs_that_are_gone() {
    let mut ids = IdAllocator::new();
    let mut g = SupportMapSupportMapManifoldGenerator::new(Dimension::Three);
    let a = square(5, pt(0, 0, 1), 0, FeatureId::Face(0), 0);
    let near = square(4, pt(0, 0, -1), 10, FeatureId::Face(1), 3);
    let far = square(4, pt(0, 0, -1), 10, FeatureId::Face(1), 8);
    assert_eq!(g.update(Some(touching(1)), &a, &near, &mut ids), Ok(true));
    // The right corners of A and the left corners of B overlap; no edges cross.
    let first = pairs(&g);
    assert_eq!(
        first.iter().map(|c| (c.0, c.1)).collect::<Vec<_>>(),
        vec![
            (FeatureId::Vertex(1), FeatureId::Face(1)),
            (FeatureId::Vertex(2), FeatureId::Face(1)),
            (FeatureId::Face(0), FeatureId::Vertex(10)),
            (FeatureId::Face(0), FeatureId::Vertex(13)),
        ]
    );
    assert_eq!(g.update(Some(touching(1)), &a, &far, &mut ids), Ok(true));
    let second = pairs(&g);
    assert_eq!(second, first);
    let away = square(4, pt(0, 0, -1), 10, FeatureId::Face(1), 20);
    assert_eq!(g.update(Some(touching(1)), &a, &away, &mut ids), Ok(true));
    // Nothing overlaps: the closest points alone remain, for the pair of the faces.
    assert_eq!(pairs(&g), vec![(FeatureId::Face(0), FeatureId::Face(1), 4)]);
    let m = g.contacts().unwrap();
    assert_eq!(m.contacts()[0].contact.on1, Witness::At { point: pt(0, 0, 5) });
    assert_eq!(m.contacts()[0].contact.on2, Witness::At { point: pt(0, 0, 4) });
    assert_eq!(m.contacts()[0].kinematic, ContactKinematic::PointPoint);
}

#[test]
fn two_vertices_fall_back_to_the_closest_points() {
    let mut ids = IdAllocator::new();
    let mut g = SupportMapSupportMapManifoldGenerator::new(Dimension::Three);
    let a = vertex(pt(0, 0, 5), 2);
    let b = vertex(pt(0, 0, 6), 7);
    assert_eq!(g.update(Some(touching(-1)), &a, &b, &mut ids), Ok(true));
    assert_eq!(pairs(&g), vec![(FeatureId::Vertex(2), FeatureId::Vertex(7), 0)]);
}

#[test]
fn separated_shapes_empty_the_manifold() {
    let mut ids = IdAllocator::new();
    let mut g = SupportMapSupportMapManifoldGenerator::new(Dimension::Three);
    let a = square(5, pt(0, 0, 1), 0, FeatureId::Face(0), 0);
    let b = square(4, pt(0, 0, -1), 10, FeatureId::Face(1), 0);
    assert_eq!(g.update(Some(touching(1)), &a, &b, &mut ids), Ok(true));
    assert_eq!(g.update(Some(QueryResult::NoIntersection(pt(0, 1, 0))), &a, &b, &mut ids), Ok(true));
    assert_eq!(g.num_contacts(), 0);
    assert!(g.contacts().is_none());
    assert_eq!(g.last_direction(), Some(pt(0, 1, 0)));
}

#[test]
fn undecided_query_changes_nothing() {
    let mut ids = IdAllocator::new();
    let mut g = SupportMapSupportMapManifoldGenerator::new(Dimension::Three);
    let a = square(5, pt(0, 0, 1), 0, FeatureId::Face(0), 0);
    let b = square(4, pt(0, 0, -1), 10, FeatureId::Face(1), 0);
    assert_eq!(g.update(Some(touching(1)), &a, &b, &mut ids), Ok(true));
    let before = pairs(&g);
    assert_eq!(g.update(Some(QueryResult::Indeterminate), &a, &b, &mut ids), Ok(true));
    assert_eq!(pairs(&g), before);
    assert_eq!(g.last_direction(), Some(pt(0, 0, 9)));
}

#[test]
fn bad_edge_aborts_the_update() {
    let mut ids = IdAllocator::new();
    let mut g = SupportMapSupportMapManifoldGenerator::new(Dimension::Three);
    let a = square(5, pt(0, 0, 1), 0, FeatureId::Face(0), 0);
    let b = square(4, pt(0, 0, -1), 10, FeatureId::Face(1), 0);
    assert_eq!(g.update(Some(touching(1)), &a, &b, &mut ids), Ok(true));
    let before = pairs(&g);
    // Two coincident vertices named as an edge: the closest points have no line to slide along.
    let mut bad = vertex(pt(0, 0, 5), 0);
    bad.vertices.push(pt(0, 0, 5));
    bad.vertices_id.push(FeatureId::Vertex(1));
    bad.edges_id.push(FeatureId::Edge(0));
    bad.feature_id = FeatureId::Edge(0);
    let v = vertex(pt(0, 0, 6), 7);
    assert_eq!(g.update(Some(touching(0)), &bad, &v, &mut ids), Err(KinematicError::DegenerateEdge));
    assert_eq!(pairs(&g), before);
    assert_eq!(g.last_direction(), Some(pt(0, 0, 9)));
}

#[test]
fn segments_in_the_plane_are_tracked_as_point_and_plane() {
    let mut ids = IdAllocator::new();
    let mut g = SupportMapSupportMapManifoldGenerator::new(Dimension::Two);
    let seg = |a: Point, b: Point, first: usize| ConvexPolyface {
        vertices: vec![a, b],
        vertices_id: vec![FeatureId::Vertex(first), FeatureId::Vertex(first + 1)],
        edges_id: vec![FeatureId::Edge(first)],
        normal: None,
        feature_id: FeatureId::Edge(first),
    };
    let a = seg(pt(0, 0, 0), pt(2, 0, 0), 0);
    let b = seg(pt(1, 0, 0), pt(3, 0, 0), 10);
    let q = QueryResult::Projection(
        Contact { world1: pt(1, 0, 0), world2: pt(1, 0, 0), normal: pt(0, 1, 0), depth: 0 },
        pt(0, 1, 0),
    );
    assert_eq!(g.update(Some(q), &a, &b, &mut ids), Ok(true));
    let m = g.contacts().unwrap();
    assert_eq!(m.len(), 2);
    assert_eq!(m.contacts()[0].kinematic, ContactKinematic::PointPlane);
    assert_eq!(m.contacts()[1].kinematic, ContactKinematic::PlanePoint);
}

#[test]
fn classify_all_stops_at_the_first_error() {
    let a = square(5, pt(0, 0, 1), 0, FeatureId::Face(0), 0);
    let b = square(4, pt(0, 0, -1), 10, FeatureId::Face(1), 0);
    let c = |f1, f2| RawContact {
        on1: Witness::Vertex { index: 0 },
        on2: Witness::Vertex { index: 0 },
        feature1: f1,
        feature2: f2,
    };
    let good = vec![c(FeatureId::Vertex(0), FeatureId::Face(1)), c(FeatureId::Edge(1), FeatureId::Edge(12))];
    assert_eq!(
        classify_all(Dimension::Three, &a, &b, &good),
        Ok(vec![
            NewContact { contact: good[0], kinematic: ContactKinematic::PointPlane },
            NewContact {
                contact: good[1],
                kinematic: ContactKinematic::LineLine(pt(0, 10, 0), pt(-10, 0, 0)),
            },
        ])
    );
    let bad = vec![good[0], c(FeatureId::Edge(77), FeatureId::Vertex(10)), good[1]];
    assert_eq!(classify_all(Dimension::Three, &a, &b, &bad), Err(KinematicError::UnknownEdge));
    assert_eq!(classify_all(Dimension::Three, &a, &b, &Vec::new()), Ok(vec![]));
}
