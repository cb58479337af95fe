use navmesh::{NavMesh, NavPathMode, NavQuery, NavTriangle, NavVec3, FX_ONE};

fn fx(v: f64) -> i64 {
    (v * 65536.0).round() as i64
}

fn v3(x: f64, y: f64, z: f64) -> NavVec3 {
    NavVec3::new(fx(x), fx(y), fx(z))
}

fn tf(v: i64) -> f64 {
    v as f64 / 65536.0
}

fn tri(a: u32, b: u32, c: u32) -> NavTriangle {
    NavTriangle { first: a, second: b, third: c }
}

fn fixture() -> NavMesh {
    let vertices = vec![
        v3(0.0, 0.0, 0.0),
        v3(1.0, 0.0, 0.0),
        v3(2.0, 0.0, 1.0),
        v3(0.0, 1.0, 0.0),
        v3(1.0, 1.0, 0.0),
        v3(2.0, 1.0, 1.0),
    ];
    let triangles = vec![tri(0, 1, 4), tri(4, 3, 0), tri(1, 2, 5), tri(5, 4, 1)];
    NavMesh::new(vertices, triangles).unwrap()
}

fn tenths(v: NavVec3) -> (i32, i32, i32) {
    // Truncate toward zero, with a nudge so exact values stay put.
    (
        (tf(v.x) * 10.0 + 0.001) as i32,
        (tf(v.y) * 10.0 + 0.001) as i32,
        (tf(v.z) * 10.0 + 0.001) as i32,
    )
}

#[test]
fn find_closest_triangle_centroids() {
    let mesh = fixture();
    for (i, area) in mesh.areas().iter().enumerate() {
        let found = mesh.find_closest_triangle(area.center, NavQuery::Accuracy);
        assert_eq!(found, Some(i));
    }
}

#[test]
fn find_path_same_point_is_none() {
    let mesh = fixture();
    let p = v3(0.5, 0.5, 0.0);
    assert!(mesh.find_path(p, p, NavQuery::Accuracy, NavPathMode::MidPoints).is_none());
    assert!(mesh.find_path(p, p, NavQuery::Closest, NavPathMode::Accuracy).is_none());
}

#[test]
fn find_path_triangles_self() {
    let mesh = fixture();
    for i in 0..4 {
        let (path, cost) = mesh.find_path_triangles(i, i).unwrap();
        assert_eq!(path, vec![i]);
        assert_eq!(cost, 0);
    }
}

#[test]
fn find_path_triangles_corridor() {
    let mesh = fixture();
    let (path, _cost) = mesh.find_path_triangles(1, 2).unwrap();
    assert_eq!(path, vec![1, 0, 3, 2]);
}

#[test]
fn find_path_midpoints_fixture() {
    let mesh = fixture();
    let path = mesh
        .find_path(v3(0.0, 1.0, 0.0), v3(1.5, 0.25, 0.5), NavQuery::Accuracy, NavPathMode::MidPoints)
        .unwrap();
    let rounded: Vec<(i32, i32, i32)> = path.iter().map(|v| tenths(*v)).collect();
    assert_eq!(rounded, vec![(0, 10, 0), (10, 5, 0), (15, 2, 5)]);
}

#[test]
fn find_path_accuracy_fixture() {
    let mesh = fixture();
    let from = v3(0.0, 1.0, 0.0);
    let to = v3(1.5, 0.25, 0.5);
    let acc = mesh.find_path(from, to, NavQuery::Accuracy, NavPathMode::Accuracy).unwrap();
    let mid = mesh.find_path(from, to, NavQuery::Accuracy, NavPathMode::MidPoints).unwrap();
    let first = acc.first().copied().unwrap();
    let last = acc.last().copied().unwrap();
    assert_eq!(tenths(first), (0, 10, 0));
    assert_eq!(tenths(last), (15, 2, 5));
    assert!(NavMesh::path_length(&acc) <= NavMesh::path_length(&mid));
}

#[test]
fn refined_path_endpoints_and_no_duplicates() {
    let mesh = fixture();
    let from = v3(0.1, 0.1, 0.0);
    let to = v3(1.9, 0.9, 0.95);
    for mode in [NavPathMode::Accuracy, NavPathMode::MidPoints] {
        let path = mesh.find_path(from, to, NavQuery::Accuracy, mode).unwrap();
        assert!(path.len() >= 2);
        let snapped_from = mesh.closest_point(from, NavQuery::Accuracy).unwrap();
        let snapped_to = mesh.closest_point(to, NavQuery::Accuracy).unwrap();
        assert_eq!(*path.first().unwrap(), snapped_from);
        assert_eq!(*path.last().unwrap(), snapped_to);
        for pair in path.windows(2) {
            assert_ne!(pair[0], pair[1]);
        }
    }
}

#[test]
fn flat_square_mesh_straight_paths() {
    let vertices = vec![v3(0.0, 0.0, 0.0), v3(1.0, 0.0, 0.0), v3(1.0, 1.0, 0.0), v3(0.0, 1.0, 0.0)];
    let triangles = vec![tri(0, 1, 2), tri(0, 2, 3)];
    let mesh = NavMesh::new(vertices, triangles).unwrap();
    let from = v3(0.2, 0.1, 0.0);
    let to = v3(0.3, 0.8, 0.0);
    for mode in [NavPathMode::Accuracy, NavPathMode::MidPoints] {
        let path = mesh.find_path(from, to, NavQuery::Accuracy, mode).unwrap();
        assert_eq!(path, vec![from, to]);
    }
}

#[test]
fn single_triangle_mesh_straight_path() {
    let vertices = vec![v3(0.0, 0.0, 0.0), v3(1.0, 0.0, 0.0), v3(1.0, 1.0, 0.0)];
    let triangles = vec![tri(0, 1, 2)];
    let mesh = NavMesh::new(vertices, triangles).unwrap();
    let from = v3(0.5, 0.2, 0.0);
    let to = v3(0.9, 0.8, 0.0);
    let path = mesh.find_path(from, to, NavQuery::Accuracy, NavPathMode::Accuracy).unwrap();
    assert_eq!(path, vec![from, to]);
}

#[test]
fn cost_monotonicity_on_corridor() {
    let mut mesh = fixture();
    let (_, base) = mesh.find_path_triangles(1, 2).unwrap();
    mesh.set_area_cost(0, fx(4.0));
    mesh.set_area_cost(3, fx(4.0));
    let (_, raised) = mesh.find_path_triangles(1, 2).unwrap();
    assert!(raised >= base);
}

#[test]
fn filter_veto_blocks_everything() {
    let mesh = fixture();
    let r = mesh.find_path_triangles_custom(1, 2, |_w, _a, _b| false);
    assert!(r.is_none());
    let (path, cost) = mesh.find_path_triangles_custom(2, 2, |_w, _a, _b| false).unwrap();
    assert_eq!(path, vec![2]);
    assert_eq!(cost, 0);
}

#[test]
fn selective_filter_changes_route() {
    let mesh = fixture();
    // Refusing every edge that touches triangle 0 disconnects 1 from 2.
    let r = mesh.find_path_triangles_custom(1, 2, |_w, a, b| a != 0 && b != 0);
    assert!(r.is_none());
    // Allowing everything joins them again.
    let r2 = mesh.find_path_triangles_custom(1, 2, |_w, _a, _b| true);
    assert_eq!(r2.unwrap().0, vec![1, 0, 3, 2]);
}

#[test]
fn set_area_cost_clamps_and_returns_old() {
    let mut mesh = fixture();
    let old = mesh.set_area_cost(1, fx(2.5));
    assert_eq!(old, FX_ONE);
    let old2 = mesh.set_area_cost(1, -5);
    assert_eq!(old2, fx(2.5));
    assert_eq!(mesh.areas()[1].cost, 0);
}

#[test]
fn thicken_flat_mesh_moves_vertices_exactly() {
    let vertices = vec![v3(0.0, 0.0, 0.0), v3(1.0, 0.0, 0.0), v3(1.0, 1.0, 0.0), v3(0.0, 1.0, 0.0)];
    let triangles = vec![tri(0, 1, 2), tri(0, 2, 3)];
    let mesh = NavMesh::new(vertices.clone(), triangles).unwrap();
    let h = fx(0.5);
    let thick = mesh.thicken(h).unwrap();
    for (old, new) in vertices.iter().zip(thick.vertices().iter()) {
        assert_eq!(new.x, old.x);
        assert_eq!(new.y, old.y);
        assert_eq!(new.z, old.z + h);
    }
}

#[test]
fn thicken_fixture_builds() {
    let mesh = fixture();
    let thick = mesh.thicken(fx(0.25)).unwrap();
    assert_eq!(thick.vertices().len(), 6);
    assert_eq!(thick.triangles().len(), 4);
}

#[test]
fn scale_about_default_origin() {
    let mesh = fixture();
    let scaled = mesh.scale(v3(2.0, 2.0, 2.0), Some(v3(0.0, 0.0, 0.0))).unwrap();
    let first = scaled.vertices()[5];
    assert_eq!((tf(first.x), tf(first.y), tf(first.z)), (4.0, 2.0, 2.0));
}

#[test]
fn build_rejects_bad_vertex_index() {
    let vertices = vec![v3(0.0, 0.0, 0.0), v3(1.0, 0.0, 0.0), v3(1.0, 1.0, 0.0)];
    let triangles = vec![tri(0, 1, 2), tri(1, 7, 2)];
    let err = NavMesh::new(vertices, triangles).unwrap_err();
    assert_eq!(err, navmesh::NavError::TriangleVerticeIndexOutOfBounds(1, 1, 7));
}

#[test]
fn build_empty_mesh_queries_none() {
    let mesh = NavMesh::new(vec![], vec![]).unwrap();
    assert!(mesh.find_closest_triangle(v3(0.0, 0.0, 0.0), NavQuery::Accuracy).is_none());
    assert!(mesh.closest_point(v3(0.0, 0.0, 0.0), NavQuery::Closest).is_none());
}

#[test]
fn mesh_ids_differ() {
    let a = fixture();
    let b = fixture();
    assert_ne!(a.id(), b.id());
}

#[test]
fn boundary_edges_detected() {
    let mesh = fixture();
    // Interior edges (shared by two triangles) never appear; each
    // triangle keeps its open edges in its own vertex order.
    let counts: Vec<usize> = mesh.hard_edges.iter().map(|e| e.len()).collect();
    assert_eq!(counts, vec![1, 2, 2, 1]);
    assert_eq!(mesh.hard_edges[0][0], (v3(0.0, 0.0, 0.0), v3(1.0, 0.0, 0.0)));
    assert_eq!(mesh.hard_edges[3][0], (v3(2.0, 1.0, 1.0), v3(1.0, 1.0, 0.0)));

    let single = NavMesh::new(
        vec![v3(0.0, 0.0, 0.0), v3(1.0, 0.0, 0.0), v3(1.0, 1.0, 0.0)],
        vec![tri(0, 1, 2)],
    )
    .unwrap();
    assert_eq!(single.hard_edges[0].len(), 3);
}

#[test]
fn corridor_cost_sums_connection_weights() {
    let mesh = fixture();
    // All cost factors are one, so each step is charged exactly its
    // connection's squared centroid distance.
    let (path, cost) = mesh.find_path_triangles(1, 2).unwrap();
    let mut sum = 0i64;
    for pair in path.windows(2) {
        let conn = mesh
            .connections
            .iter()
            .find(|c| {
                (c.tris.0 as usize == pair[0] && c.tris.1 as usize == pair[1])
                    || (c.tris.0 as usize == pair[1] && c.tris.1 as usize == pair[0])
            })
            .unwrap();
        sum += conn.weight;
    }
    assert!(cost > 0);
    assert_eq!(cost, sum);
}

#[test]
fn raising_offpath_cost_leaves_route_cost() {
    let mut mesh = fixture();
    let (_, base) = mesh.find_path_triangles(0, 1).unwrap();
    // Raising costs away from the 0-1 connection leaves its cost alone.
    mesh.set_area_cost(2, fx(9.0));
    let (_, same) = mesh.find_path_triangles(0, 1).unwrap();
    assert_eq!(base, same);
}
