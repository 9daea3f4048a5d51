use support_manifold::arith::{Point, Ratio};
use support_manifold::feature::{Dimension, FeatureId};
use support_manifold::point_triangle::{
    is_planar_point, nearer_exec, perp_exec, FaceWeights, Triangle, TrianglePointLocation,
};

fn pt(x: i64, y: i64, z: i64) -> Point {
    Point { x, y, z }
}

fn corner() -> Triangle {
    Triangle::new(pt(0, 0, 0), pt(4, 0, 0), pt(0, 4, 0))
}

#[test]
fn point_beyond_a_vertex_projects_on_it() {
    let t = corner();
    for dim in [Dimension::Two, Dimension::Three] {
        assert_eq!(
            t.project_point_with_location(dim, &pt(-1, -1, 0), true),
            TrianglePointLocation::OnVertex(0)
        );
        assert_eq!(
            t.project_point_with_location(dim, &pt(5, -1, 0), true),
            TrianglePointLocation::OnVertex(1)
        );
        assert_eq!(
            t.project_point_with_location(dim, &pt(-1, 6, 0), true),
            TrianglePointLocation::OnVertex(2)
        );
        // A vertex itself.
        assert_eq!(t.project_point_with_location(dim, &pt(4, 0, 0), true), TrianglePointLocation::OnVertex(1));
    }
}

#[test]
fn point_beside_an_edge_projects_on_it() {
    let t = corner();
    assert_eq!(
        t.project_point_with_location(Dimension::Three, &pt(1, -2, 3), true),
        TrianglePointLocation::OnEdge(0, Ratio { num: 4, den: 16 })
    );
    assert_eq!(
        t.project_point_with_location(Dimension::Three, &pt(-2, 3, -1), true),
        TrianglePointLocation::OnEdge(2, Ratio { num: 12, den: 16 })
    );
    // (4, 4) lies beyond the long edge, across its middle.
    assert_eq!(
        t.project_point_with_location(Dimension::Two, &pt(4, 4, 0), false),
        TrianglePointLocation::OnEdge(1, Ratio { num: 16, den: 32 })
    );
}

#[test]
fn point_over_the_face_projects_inside() {
    let t = corner();
    assert_eq!(
        t.project_point_with_location(Dimension::Three, &pt(1, 1, 5), true),
        TrianglePointLocation::OnFace(FaceWeights { a: 128, b: 64, c: 64 })
    );
    assert_eq!(
        t.project_point_with_location(Dimension::Three, &pt(1, 1, 5), false),
        TrianglePointLocation::OnFace(FaceWeights { a: 128, b: 64, c: 64 })
    );
}

#[test]
fn point_in_a_solid_triangle_stays() {
    let t = corner();
    assert_eq!(t.project_point_with_location(Dimension::Two, &pt(1, 1, 0), true), TrianglePointLocation::OnSolid);
}

#[test]
fn point_in_a_hollow_triangle_goes_to_the_closest_edge() {
    let t = corner();
    // As close to edge 0 as to edge 2: edge 2 is chosen.
    assert_eq!(
        t.project_point_with_location(Dimension::Two, &pt(1, 1, 0), false),
        TrianglePointLocation::OnEdge(2, Ratio { num: 4, den: 16 })
    );
    assert_eq!(
        t.project_point_with_location(Dimension::Two, &pt(2, 1, 0), false),
        TrianglePointLocation::OnEdge(1, Ratio { num: 12, den: 32 })
    );
    assert_eq!(
        t.project_point_with_location(Dimension::Two, &pt(3, 0, 0), false),
        TrianglePointLocation::OnEdge(0, Ratio { num: 12, den: 16 })
    );
}

#[test]
fn feature_follows_the_location() {
    let t = corner();
    assert_eq!(t.project_point_with_feature(Dimension::Three, &pt(1, 1, 5)), FeatureId::Face(0));
    assert_eq!(t.project_point_with_feature(Dimension::Three, &pt(1, -2, 3)), FeatureId::Edge(0));
    assert_eq!(t.project_point_with_feature(Dimension::Three, &pt(-1, 6, 0)), FeatureId::Vertex(2));
    assert_eq!(t.project_point_with_feature(Dimension::Two, &pt(1, 1, 0)), FeatureId::Edge(2));
    assert_eq!(t.project_point_with_feature(Dimension::Two, &pt(5, -1, 0)), FeatureId::Vertex(1));
}

#[test]
fn planar_helpers() {
    assert_eq!(perp_exec(&pt(4, 0, 0), &pt(0, 0, 0), &pt(1, 1, 0)), 4);
    assert_eq!(perp_exec(&pt(0, 4, 0), &pt(4, 0, 0), &pt(2, 1, 0)), 4);
    assert!(nearer_exec(4, 16, 8, 16));
    assert!(!nearer_exec(4, 16, -4, 16));
    assert!(nearer_exec(-4, 32, 4, 16));
    assert!(is_planar_point(&pt(524_288, -524_288, 0)));
    assert!(!is_planar_point(&pt(524_289, 0, 0)));
    assert!(!is_planar_point(&pt(0, 0, 1)));
    assert!(corner().is_well_formed());
    assert!(corner().lies_in_plane());
    assert!(!Triangle::new(pt(0, 0, 1), pt(1, 0, 0), pt(0, 1, 0)).lies_in_plane());
    assert!(!Triangle::new(pt(0, 0, 2_000_000), pt(1, 0, 0), pt(0, 1, 0)).is_well_formed());
}
