use support_manifold::arith::Point;
use support_manifold::feature::FeatureId;
use support_manifold::polyface::ConvexPolyface;
use support_manifold::triangulate::{count_edge, sorted_edge, Triangle, Triangulator};

fn tri(x: usize, y: usize, z: usize) -> Triangle {
    Triangle { x, y, z }
}

#[test]
fn edges_are_named_smaller_index_first() {
    assert_eq!(sorted_edge(4, 2), (2, 4));
    assert_eq!(sorted_edge(2, 4), (2, 4));
    assert_eq!(sorted_edge(3, 3), (3, 3));
    assert_eq!(Triangle::new(5, 1, 3), tri(5, 1, 3));
}

#[test]
fn edges_are_counted() {
    let edges = vec![(0, 1), (1, 2), (0, 2), (0, 1), (1, 3), (0, 3)];
    assert_eq!(count_edge(&edges, (0, 1)), 2);
    assert_eq!(count_edge(&edges, (1, 3)), 1);
    assert_eq!(count_edge(&edges, (2, 3)), 0);
    assert_eq!(count_edge(&Vec::new(), (0, 1)), 0);
}

#[test]
fn first_point_splits_the_enclosing_triangle() {
    let mut t = Triangulator::new();
    assert_eq!(t.num_vertices(), 3);
    assert_eq!(t.triangles(), &vec![tri(0, 1, 2)]);
    t.add_point(&vec![true]);
    assert_eq!(t.num_vertices(), 4);
    assert_eq!(t.triangles(), &vec![tri(0, 1, 3), tri(1, 2, 3), tri(0, 2, 3)]);
    assert_eq!(t.to_trimesh(), vec![]);
}

#[test]
fn shared_edge_of_two_removed_triangles_is_not_joined() {
    let mut t = Triangulator::new();
    t.add_point(&vec![true]);
    // The next point lies in the circumcircles of the first two triangles,
    // which share the edge (1, 3).
    t.add_point(&vec![true, true, false]);
    assert_eq!(t.num_vertices(), 5);
    assert_eq!(
        t.triangles(),
        &vec![tri(0, 2, 3), tri(0, 1, 4), tri(0, 3, 4), tri(1, 2, 4), tri(2, 3, 4)]
    );
}

#[test]
fn point_outside_every_circumcircle_adds_no_triangle() {
    let mut t = Triangulator::new();
    t.add_point(&vec![true]);
    t.add_point(&vec![false, false, false]);
    assert_eq!(t.num_vertices(), 5);
    assert_eq!(t.triangles(), &vec![tri(0, 1, 3), tri(1, 2, 3), tri(0, 2, 3)]);
}

#[test]
fn mesh_keeps_the_triangles_of_the_points_alone() {
    let mut t = Triangulator::new();
    t.add_point(&vec![true]);
    t.add_point(&vec![true, false, false]);
    // Triangles: (1,2,3), (0,2,3), (0,1,4), (1,3,4), (0,3,4).
    t.add_point(&vec![false, false, false, true, true]);
    // Removed (1,3,4) and (0,3,4): the edge (3,4) is shared, the point 5 joins the other four.
    assert_eq!(
        t.triangles(),
        &vec![tri(1, 2, 3), tri(0, 2, 3), tri(0, 1, 4), tri(1, 3, 5), tri(1, 4, 5), tri(0, 3, 5), tri(0, 4, 5)]
    );
    assert_eq!(t.to_trimesh(), vec![]);
    t.add_point(&vec![false, false, false, true, false, false, false]);
    // Removed (1,3,5): the point 6 joins (1,3), (3,5) and (1,5).
    assert_eq!(t.num_vertices(), 7);
    let ts = t.triangles().clone();
    assert_eq!(ts[6], tri(1, 3, 6));
    assert_eq!(ts[7], tri(3, 5, 6));
    assert_eq!(ts[8], tri(1, 5, 6));
    // Four points remain once the first three vertices are gone: the
    // vertices 4, 5 and 6 take the places 0, 1 and 2, and 3 stays.
    assert_eq!(t.to_trimesh(), vec![(3, 1, 2)]);
}

#[test]
fn validity_checks_agree_with_the_grid() {
    assert!(Point { x: 1_048_576, y: -1_048_576, z: 0 }.is_in_range());
    assert!(!Point { x: 1_048_577, y: 0, z: 0 }.is_in_range());
    assert!(!Point { x: 0, y: 0, z: -1_048_577 }.is_in_range());
    assert_eq!(Point::new(1, 2, 3), Point { x: 1, y: 2, z: 3 });
    let mut f = ConvexPolyface::new(FeatureId::Face(0));
    assert!(f.is_well_formed());
    f.vertices.push(Point::new(0, 0, 0));
    assert!(!f.is_well_formed());
    f.vertices_id.push(FeatureId::Vertex(0));
    assert!(f.is_well_formed());
    f.vertices.push(Point::new(1, 0, 0));
    f.vertices_id.push(FeatureId::Vertex(1));
    assert!(!f.is_well_formed());
    f.edges_id.push(FeatureId::Edge(0));
    assert!(f.is_well_formed());
    f.vertices.push(Point::new(0, 1, 0));
    f.vertices_id.push(FeatureId::Vertex(2));
    f.edges_id.push(FeatureId::Edge(1));
    f.edges_id.push(FeatureId::Edge(2));
    assert!(!f.is_well_formed());
    f.normal = Some(Point::new(0, 0, 1));
    assert!(f.is_well_formed());
    f.vertices[1] = Point::new(2_000_000, 0, 0);
    assert!(!f.is_well_formed());
}
