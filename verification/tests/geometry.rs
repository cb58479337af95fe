use navmesh::{NavArea, NavMesh, NavSpatialObject, NavTriangle, NavVec3};

fn fx(v: f64) -> i64 {
    (v * 65536.0).round() as i64
}

fn v3(x: f64, y: f64, z: f64) -> NavVec3 {
    NavVec3::new(fx(x), fx(y), fx(z))
}

fn spatial() -> NavSpatialObject {
    NavSpatialObject::new(0, v3(0.0, 0.0, 0.0), v3(2.0, 0.0, 0.0), v3(1.0, 2.0, 0.0))
}

fn dist(a: NavVec3, b: NavVec3) -> i64 {
    a.sub(b).magnitude()
}

#[test]
fn closest_point_never_beats_a_vertex() {
    let s = spatial();
    let samples = [
        v3(-1.0, -1.0, 0.5),
        v3(3.0, 0.5, -0.5),
        v3(1.0, 3.0, 1.0),
        v3(1.0, 0.5, 2.0),
        v3(0.5, 0.1, 0.0),
        v3(-2.0, 4.0, -3.0),
        v3(1.0, -0.5, 0.0),
    ];
    // A handful of rounding units of slack: every scalar op rounds once.
    let slack = 8;
    for p in samples {
        let cp = s.closest_point(p);
        let d = dist(p, cp);
        for v in [s.a, s.b, s.c] {
            assert!(d <= dist(p, v) + slack);
        }
    }
}

#[test]
fn closest_point_of_point_on_triangle_is_itself() {
    let s = spatial();
    let on_triangle = [
        s.a,
        s.b,
        s.c,
        v3(1.0, 0.0, 0.0),
        v3(1.0, 1.0, 0.0),
        v3(0.75, 0.5, 0.0),
        v3(1.25, 0.5, 0.0),
    ];
    // Within a couple of rounding units per component.
    let slack = 4;
    for p in on_triangle {
        let cp = s.closest_point(p);
        assert!((cp.x - p.x).abs() <= slack);
        assert!((cp.y - p.y).abs() <= slack);
        assert!((cp.z - p.z).abs() <= slack);
    }
}

#[test]
fn spatial_record_normal_and_mbr() {
    let s = spatial();
    let n = s.normal();
    // Counter-clockwise in the xy plane with this winding: +z.
    assert_eq!((n.x, n.y), (0, 0));
    assert_eq!(n.z, fx(1.0));
    let (lo, hi) = s.mbr();
    assert_eq!(lo, v3(0.0, 0.0, 0.0));
    assert_eq!(hi, v3(2.0, 2.0, 0.0));
    assert_eq!(s.distance2(v3(1.0, 0.5, 0.0)), 0);
}

#[test]
fn triangle_from_tuple_and_array() {
    let a = NavTriangle::from((1u32, 2u32, 3u32));
    let b = NavTriangle::from([1u32, 2u32, 3u32]);
    assert_eq!(a, b);
    assert_eq!((a.first, a.second, a.third), (1, 2, 3));
}

#[test]
fn path_length_cases() {
    let empty: Vec<NavVec3> = vec![];
    assert_eq!(NavMesh::path_length(&empty), 0);
    let single = vec![v3(1.0, 2.0, 3.0)];
    assert_eq!(NavMesh::path_length(&single), 0);
    let two = vec![v3(0.0, 0.0, 0.0), v3(3.0, 4.0, 0.0)];
    assert_eq!(NavMesh::path_length(&two), fx(5.0));
    let three = vec![v3(0.0, 0.0, 0.0), v3(1.0, 0.0, 0.0), v3(1.0, 1.0, 0.0)];
    assert_eq!(NavMesh::path_length(&three), fx(2.0));
}

#[test]
fn path_length_bounds_straight_distance() {
    let path = vec![
        v3(0.0, 1.0, 0.0),
        v3(1.0, 0.5, 0.0),
        v3(1.5, 0.25, 0.5),
        v3(2.0, 1.0, 1.0),
    ];
    let direct = dist(*path.last().unwrap(), path[0]);
    assert!(NavMesh::path_length(&path) >= direct);
}

#[test]
fn point_on_path_hits_both_ends() {
    let path = vec![
        v3(0.0, 0.0, 0.0),
        v3(1.0, 0.0, 0.0),
        v3(1.0, 1.0, 0.0),
        v3(2.0, 1.0, 1.0),
    ];
    let total = NavMesh::path_length(&path);
    assert_eq!(NavMesh::point_on_path(&path, 0).unwrap(), path[0]);
    assert_eq!(NavMesh::point_on_path(&path, total).unwrap(), *path.last().unwrap());
    assert!(NavMesh::point_on_path(&path, total + fx(1.0)).is_none());
}

#[test]
fn point_on_path_short_paths() {
    let empty: Vec<NavVec3> = vec![];
    assert!(NavMesh::point_on_path(&empty, 0).is_none());
    let single = vec![v3(1.0, 0.0, 0.0)];
    assert!(NavMesh::point_on_path(&single, 0).is_none());
    let two = vec![v3(0.0, 0.0, 0.0), v3(2.0, 0.0, 0.0)];
    let mid = NavMesh::point_on_path(&two, fx(1.0)).unwrap();
    assert_eq!(mid, v3(1.0, 0.0, 0.0));
}

#[test]
fn project_on_path_round_trip() {
    let path = vec![
        v3(0.0, 0.0, 0.0),
        v3(1.0, 0.0, 0.0),
        v3(1.0, 1.0, 0.0),
        v3(2.0, 1.0, 1.0),
    ];
    let total = NavMesh::path_length(&path);
    // Within one part in a thousand of the whole path.
    let slack = total / 1000 + 16;
    let mut s = 0i64;
    while s <= total {
        let p = NavMesh::point_on_path(&path, s).unwrap();
        let back = NavMesh::project_on_path(&path, p, 0);
        assert!((back - s).abs() <= slack, "s={} back={}", s, back);
        s += total / 7;
    }
}

#[test]
fn project_on_path_clamps() {
    let path = vec![v3(0.0, 0.0, 0.0), v3(1.0, 0.0, 0.0)];
    let total = NavMesh::path_length(&path);
    assert_eq!(NavMesh::project_on_path(&path, v3(-5.0, 0.0, 0.0), 0), 0);
    assert_eq!(NavMesh::project_on_path(&path, v3(9.0, 0.0, 0.0), 0), total);
    assert_eq!(NavMesh::project_on_path(&path, v3(0.5, 0.0, 0.0), fx(10.0)), total);
    assert_eq!(NavMesh::project_on_path(&path, v3(0.5, 0.0, 0.0), fx(-10.0)), 0);
}

#[test]
fn path_target_point_walks_forward() {
    let path = vec![v3(0.0, 0.0, 0.0), v3(2.0, 0.0, 0.0)];
    let (pt, s) = NavMesh::path_target_point(&path, v3(0.5, 0.3, 0.0), fx(0.5)).unwrap();
    assert_eq!(s, fx(1.0));
    assert_eq!(pt, v3(1.0, 0.0, 0.0));
}

#[test]
fn vector_operations_exact_values() {
    let a = v3(1.0, 2.0, 3.0);
    let b = v3(4.0, -2.0, 0.5);
    assert_eq!(a.add(b), v3(5.0, 0.0, 3.5));
    assert_eq!(a.sub(b), v3(-3.0, 4.0, 2.5));
    assert_eq!(a.dot(b), fx(1.5));
    assert_eq!(a.cross(b), v3(7.0, 11.5, -10.0));
    assert_eq!(v3(3.0, 4.0, 0.0).magnitude(), fx(5.0));
    assert_eq!(v3(0.0, 0.0, 0.0).normalize(), v3(0.0, 0.0, 0.0));
    let n = v3(0.0, 3.0, 0.0).normalize();
    assert_eq!(n, v3(0.0, 1.0, 0.0));
    assert_eq!(NavVec3::unproject(a, b, fx(1.0)), b);
    assert_eq!(NavVec3::unproject(a, b, 0), a);
}

#[test]
fn same_as_uses_tolerance() {
    let a = v3(1.0, 1.0, 1.0);
    let b = NavVec3::new(a.x + 5, a.y, a.z);
    let c = NavVec3::new(a.x + 5000, a.y, a.z);
    assert!(a.same_as(b));
    assert!(!a.same_as(c));
}

#[test]
fn raycast_line_hits_plane() {
    // Segment crossing the plane x = 1 with normal +x.
    let hit = NavVec3::raycast_line(
        v3(0.0, 0.0, 0.0),
        v3(2.0, 2.0, 0.0),
        v3(1.0, 0.0, 0.0),
        v3(1.0, 5.0, 0.0),
        v3(1.0, 0.0, 0.0),
    );
    assert_eq!(hit.unwrap(), v3(1.0, 1.0, 0.0));
    // Segment that stops before the plane: no hit.
    let miss = NavVec3::raycast_line(
        v3(0.0, 0.0, 0.0),
        v3(0.5, 0.5, 0.0),
        v3(1.0, 0.0, 0.0),
        v3(1.0, 5.0, 0.0),
        v3(1.0, 0.0, 0.0),
    );
    assert!(miss.is_none());
}

#[test]
fn is_line_between_points_detects_crossing() {
    let n = v3(0.0, 0.0, 1.0);
    let a = v3(1.0, -1.0, 0.0);
    let b = v3(1.0, 1.0, 0.0);
    assert!(NavVec3::is_line_between_points(v3(0.0, 0.0, 0.0), v3(2.0, 0.0, 0.0), a, b, n));
    assert!(!NavVec3::is_line_between_points(v3(0.0, 0.0, 0.0), v3(2.0, 4.0, 0.0), a, b, n));
}

#[test]
fn area_and_center_formulas() {
    let a = v3(0.0, 0.0, 0.0);
    let b = v3(2.0, 0.0, 0.0);
    let c = v3(1.0, 2.0, 0.0);
    assert_eq!(NavArea::calculate_area(a, b, c), fx(2.0));
    let center = NavArea::calculate_center(a, b, c);
    assert_eq!(center.x, fx(1.0));
    // 2/3 truncates toward zero in fixed point.
    assert_eq!(center.y, (fx(2.0) * 65536) / fx(3.0));
    assert_eq!(center.z, 0);
}

#[test]
fn fixture_area_sizes() {
    let vertices = vec![v3(0.0, 0.0, 0.0), v3(1.0, 0.0, 0.0), v3(1.0, 1.0, 0.0)];
    let triangles = vec![NavTriangle { first: 0, second: 1, third: 2 }];
    let mesh = NavMesh::new(vertices, triangles).unwrap();
    let area = &mesh.areas()[0];
    assert_eq!(area.size, fx(0.5));
    assert_eq!(area.cost, fx(1.0));
    assert_eq!(area.triangle, 0);
    assert_eq!(area.radius_sqr, (area.radius * area.radius) / 65536);
}
