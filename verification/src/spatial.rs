//! Per-triangle data: the triangle itself, its area descriptor, and the
//! cached spatial record used for closest-point queries.

use vstd::prelude::*;
use crate::scalar::{FX_ONE, FX_HALF, fx_mul, fx_mul_spec};
use crate::vec3::{
    NavVec3, vadd_spec, vsub_spec, vdiv_spec, cross_spec, magnitude_spec,
    normalize_spec, project_spec, unproject_spec, is_above_plane_spec, project_on_plane_spec,
    sqr_magnitude_spec, lemma_vsub_self, lemma_dot_zero, lemma_dot_in_range, lemma_unproject_zero, lemma_unproject_one,
};
use crate::scalar::{lemma_fx_div_self, lemma_fx_div_zero_num};

verus! {

/// A triangle of the mesh, as three vertex indices.
#[derive(Debug, Copy, Clone, PartialEq, Eq, Structural)]
pub struct NavTriangle {
    pub first: u32,
    pub second: u32,
    pub third: u32,
}

impl From<(u32, u32, u32)> for NavTriangle {
    fn from(value: (u32, u32, u32)) -> (r: Self) {
        NavTriangle { first: value.0, second: value.1, third: value.2 }
    }
}

impl vstd::std_specs::convert::FromSpecImpl<(u32, u32, u32)> for NavTriangle {
    open spec fn obeys_from_spec() -> bool {
        true
    }

    open spec fn from_spec(value: (u32, u32, u32)) -> Self {
        NavTriangle { first: value.0, second: value.1, third: value.2 }
    }
}

impl From<[u32; 3]> for NavTriangle {
    fn from(value: [u32; 3]) -> (r: Self) {
        NavTriangle { first: value[0], second: value[1], third: value[2] }
    }
}

impl vstd::std_specs::convert::FromSpecImpl<[u32; 3]> for NavTriangle {
    open spec fn obeys_from_spec() -> bool {
        true
    }

    open spec fn from_spec(value: [u32; 3]) -> Self {
        NavTriangle { first: value[0], second: value[1], third: value[2] }
    }
}

/// Area descriptor of one triangle; `cost` is the only field a built
/// mesh ever mutates.
#[derive(Debug, Clone, Copy)]
pub struct NavArea {
    /// Triangle index.
    pub triangle: u32,
    /// Triangle area.
    pub size: i64,
    /// Traverse cost factor, never negative.
    pub cost: i64,
    /// Triangle centroid.
    pub center: NavVec3,
    /// Radius of a sphere around the centroid containing the triangle.
    pub radius: i64,
    /// `radius` squared.
    pub radius_sqr: i64,
}

/// `|cross(b - a, c - a)| / 2`.
pub open spec fn area_size_spec(a: NavVec3, b: NavVec3, c: NavVec3) -> int {
    fx_mul_spec(magnitude_spec(cross_spec(vsub_spec(b, a), vsub_spec(c, a))), FX_HALF as int)
}

/// `(a + b + c) / 3`, componentwise.
pub open spec fn center_spec(a: NavVec3, b: NavVec3, c: NavVec3) -> NavVec3 {
    vdiv_spec(vadd_spec(vadd_spec(a, b), c), 3 * FX_ONE as int)
}

impl NavArea {
    /// Area of the triangle `(a, b, c)`.
    pub fn calculate_area(a: NavVec3, b: NavVec3, c: NavVec3) -> (r: i64)
        ensures
            r as int == area_size_spec(a, b, c),
    {
        let ab = b.sub(a);
        let ac = c.sub(a);
        fx_mul(ab.cross(ac).magnitude(), FX_HALF)
    }

    /// Centroid of the triangle `(a, b, c)`.
    pub fn calculate_center(a: NavVec3, b: NavVec3, c: NavVec3) -> (r: NavVec3)
        ensures
            r == center_spec(a, b, c),
    {
        let v = a.add(b).add(c);
        v.div_scalar(3 * FX_ONE)
    }
}

/// Cached geometry of one triangle: vertices, edge vectors, face normal,
/// and the edge-outward in-plane vectors used to classify closest points.
#[derive(Debug, Clone, Copy)]
pub struct NavSpatialObject {
    pub index: usize,
    pub a: NavVec3,
    pub b: NavVec3,
    pub c: NavVec3,
    pub ab: NavVec3,
    pub bc: NavVec3,
    pub ca: NavVec3,
    pub normal: NavVec3,
    pub dab: NavVec3,
    pub dbc: NavVec3,
    pub dca: NavVec3,
}

/// The record `NavSpatialObject::new` derives from a triangle.
#[verifier::opaque]
pub open spec fn spatial_spec(index: int, a: NavVec3, b: NavVec3, c: NavVec3) -> NavSpatialObject {
    let ab = vsub_spec(b, a);
    let bc = vsub_spec(c, b);
    let ca = vsub_spec(a, c);
    let normal = normalize_spec(cross_spec(vsub_spec(a, b), vsub_spec(a, c)));
    NavSpatialObject {
        index: index as usize,
        a,
        b,
        c,
        ab,
        bc,
        ca,
        normal,
        dab: cross_spec(normal, ab),
        dbc: cross_spec(normal, bc),
        dca: cross_spec(normal, ca),
    }
}

/// The decision procedure for the closest point on a triangle: corner,
/// edge, or interior, in that order, first match winning.
#[verifier::opaque]
pub open spec fn closest_point_spec(s: NavSpatialObject, p: NavVec3) -> NavVec3 {
    let pab = project_spec(p, s.a, s.b);
    let pbc = project_spec(p, s.b, s.c);
    let pca = project_spec(p, s.c, s.a);
    if pca > FX_ONE as int && pab < 0 {
        s.a
    } else if pab > FX_ONE as int && pbc < 0 {
        s.b
    } else if pbc > FX_ONE as int && pca < 0 {
        s.c
    } else if 0 <= pab <= FX_ONE as int && !is_above_plane_spec(p, s.a, s.dab) {
        unproject_spec(s.a, s.b, pab)
    } else if 0 <= pbc <= FX_ONE as int && !is_above_plane_spec(p, s.b, s.dbc) {
        unproject_spec(s.b, s.c, pbc)
    } else if 0 <= pca <= FX_ONE as int && !is_above_plane_spec(p, s.c, s.dca) {
        unproject_spec(s.c, s.a, pca)
    } else {
        project_on_plane_spec(p, s.a, s.normal)
    }
}

/// Squared distance from `p` to the triangle.
pub open spec fn distance2_spec(s: NavSpatialObject, p: NavVec3) -> int {
    sqr_magnitude_spec(vsub_spec(p, closest_point_spec(s, p)))
}

/// Componentwise bounding box of the three vertices.
pub open spec fn mbr_spec(s: NavSpatialObject) -> (NavVec3, NavVec3) {
    (
        NavVec3 {
            x: min3(s.a.x, s.b.x, s.c.x),
            y: min3(s.a.y, s.b.y, s.c.y),
            z: min3(s.a.z, s.b.z, s.c.z),
        },
        NavVec3 {
            x: max3(s.a.x, s.b.x, s.c.x),
            y: max3(s.a.y, s.b.y, s.c.y),
            z: max3(s.a.z, s.b.z, s.c.z),
        },
    )
}

pub open spec fn min3(a: i64, b: i64, c: i64) -> i64 {
    if a <= b && a <= c {
        a
    } else if b <= c {
        b
    } else {
        c
    }
}

pub open spec fn max3(a: i64, b: i64, c: i64) -> i64 {
    if a >= b && a >= c {
        a
    } else if b >= c {
        b
    } else {
        c
    }
}

fn min3_exec(a: i64, b: i64, c: i64) -> (r: i64)
    ensures
        r == min3(a, b, c),
{
    if a <= b && a <= c {
        a
    } else if b <= c {
        b
    } else {
        c
    }
}

fn max3_exec(a: i64, b: i64, c: i64) -> (r: i64)
    ensures
        r == max3(a, b, c),
{
    if a >= b && a >= c {
        a
    } else if b >= c {
        b
    } else {
        c
    }
}

impl NavSpatialObject {
    pub fn new(index: usize, a: NavVec3, b: NavVec3, c: NavVec3) -> (r: NavSpatialObject)
        ensures
            r == spatial_spec(index as int, a, b, c),
    {
        proof {
            reveal(spatial_spec);
        }
        let ab = b.sub(a);
        let bc = c.sub(b);
        let ca = a.sub(c);
        let normal = a.sub(b).cross(a.sub(c)).normalize();
        let dab = normal.cross(ab);
        let dbc = normal.cross(bc);
        let dca = normal.cross(ca);
        NavSpatialObject { index, a, b, c, ab, bc, ca, normal, dab, dbc, dca }
    }

    pub fn normal(&self) -> (r: NavVec3)
        ensures
            r == self.normal,
    {
        self.normal
    }

    /// Closest point on the triangle to `point`; see `closest_point_spec`.
    pub fn closest_point(&self, point: NavVec3) -> (r: NavVec3)
        ensures
            r == closest_point_spec(*self, point),
    {
        proof {
            reveal(closest_point_spec);
        }
        let pab = point.project(self.a, self.b);
        let pbc = point.project(self.b, self.c);
        let pca = point.project(self.c, self.a);
        if pca > FX_ONE && pab < 0 {
            self.a
        } else if pab > FX_ONE && pbc < 0 {
            self.b
        } else if pbc > FX_ONE && pca < 0 {
            self.c
        } else if 0 <= pab && pab <= FX_ONE && !point.is_above_plane(self.a, self.dab) {
            NavVec3::unproject(self.a, self.b, pab)
        } else if 0 <= pbc && pbc <= FX_ONE && !point.is_above_plane(self.b, self.dbc) {
            NavVec3::unproject(self.b, self.c, pbc)
        } else if 0 <= pca && pca <= FX_ONE && !point.is_above_plane(self.c, self.dca) {
            NavVec3::unproject(self.c, self.a, pca)
        } else {
            point.project_on_plane(self.a, self.normal)
        }
    }

    /// Componentwise bounding box of the triangle.
    pub fn mbr(&self) -> (r: (NavVec3, NavVec3))
        ensures
            r == mbr_spec(*self),
    {
        (
            NavVec3 {
                x: min3_exec(self.a.x, self.b.x, self.c.x),
                y: min3_exec(self.a.y, self.b.y, self.c.y),
                z: min3_exec(self.a.z, self.b.z, self.c.z),
            },
            NavVec3 {
                x: max3_exec(self.a.x, self.b.x, self.c.x),
                y: max3_exec(self.a.y, self.b.y, self.c.y),
                z: max3_exec(self.a.z, self.b.z, self.c.z),
            },
        )
    }

    /// Squared distance from `point` to the triangle.
    pub fn distance2(&self, point: NavVec3) -> (r: i64)
        ensures
            r as int == distance2_spec(*self, point),
    {
        point.sub(self.closest_point(point)).sqr_magnitude()
    }
}


/// A vertex of a triangle is its own closest point on that triangle:
/// snapping a point that already sits at the record's first vertex
/// returns that point unchanged.
pub proof fn lemma_closest_point_vertex(s: NavSpatialObject)
    ensures
        closest_point_spec(s, s.a) == s.a,
{
    reveal(closest_point_spec);
    lemma_vsub_self(s.a);
    lemma_dot_zero(vsub_spec(s.b, s.a));
    lemma_dot_zero(s.dab);
    lemma_fx_div_zero_num(sqr_magnitude_spec(vsub_spec(s.b, s.a)));
    assert(project_spec(s.a, s.a, s.b) == 0);
    let q = sqr_magnitude_spec(vsub_spec(s.a, s.c));
    lemma_dot_in_range(vsub_spec(s.a, s.c), vsub_spec(s.a, s.c));
    crate::mesh::lemma_sqr_magnitude_nonneg(vsub_spec(s.a, s.c));
    if q == 0 {
        lemma_fx_div_zero_num(0);
        assert(project_spec(s.a, s.c, s.a) == 0);
    } else {
        lemma_fx_div_self(q);
        assert(project_spec(s.a, s.c, s.a) == FX_ONE as int);
    }
    assert(!is_above_plane_spec(s.a, s.a, s.dab));
    lemma_unproject_zero(s.a, s.b);
}


/// The second vertex is its own closest point too, for a triangle whose
/// first edge has measurable length and in-range coordinate spans:
/// whichever edge the classification settles on, the walk along it ends
/// exactly at that vertex.
pub proof fn lemma_closest_point_vertex_second(s: NavSpatialObject)
    requires
        sqr_magnitude_spec(vsub_spec(s.b, s.a)) > 0,
        i64::MIN as int <= s.b.x - s.a.x <= i64::MAX as int,
        i64::MIN as int <= s.b.y - s.a.y <= i64::MAX as int,
        i64::MIN as int <= s.b.z - s.a.z <= i64::MAX as int,
    ensures
        closest_point_spec(s, s.b) == s.b,
{
    reveal(closest_point_spec);
    let q = sqr_magnitude_spec(vsub_spec(s.b, s.a));
    lemma_dot_in_range(vsub_spec(s.b, s.a), vsub_spec(s.b, s.a));
    lemma_fx_div_self(q);
    assert(project_spec(s.b, s.a, s.b) == FX_ONE as int);
    lemma_vsub_self(s.b);
    lemma_dot_zero(vsub_spec(s.c, s.b));
    lemma_fx_div_zero_num(sqr_magnitude_spec(vsub_spec(s.c, s.b)));
    assert(project_spec(s.b, s.b, s.c) == 0);
    lemma_dot_zero(s.dbc);
    if !is_above_plane_spec(s.b, s.a, s.dab) {
        lemma_unproject_one(s.a, s.b);
    } else {
        lemma_unproject_zero(s.b, s.c);
    }
}


/// The squared distance vanishes at a vertex: the first vertex of any
/// record, and the second under the same premises as its self-snap law,
/// are at distance zero from the triangle.
pub proof fn lemma_distance2_vertex(s: NavSpatialObject)
    ensures
        distance2_spec(s, s.a) == 0,
{
    lemma_closest_point_vertex(s);
    lemma_vsub_self(s.a);
    lemma_dot_zero(NavVec3 { x: 0, y: 0, z: 0 });
}

/// The squared distance also vanishes at the second vertex, for a
/// triangle whose first edge has measurable length and in-range spans.
pub proof fn lemma_distance2_vertex_second(s: NavSpatialObject)
    requires
        sqr_magnitude_spec(vsub_spec(s.b, s.a)) > 0,
        i64::MIN as int <= s.b.x - s.a.x <= i64::MAX as int,
        i64::MIN as int <= s.b.y - s.a.y <= i64::MAX as int,
        i64::MIN as int <= s.b.z - s.a.z <= i64::MAX as int,
    ensures
        distance2_spec(s, s.b) == 0,
{
    lemma_closest_point_vertex_second(s);
    lemma_vsub_self(s.b);
    lemma_dot_zero(NavVec3 { x: 0, y: 0, z: 0 });
}

} // verus!
