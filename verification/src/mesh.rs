//! The navigation mesh: build-time data, queries, and path arithmetic.

use vstd::prelude::*;
use crate::scalar::{FX_ONE, c64, clamp64, fx_add, fx_add_spec, fx_sub, fx_sub_spec, fx_mul,
    fx_mul_spec, fx_div, fx_div_spec, fx_max, lemma_fx_div_self, lemma_fx_div_zero_num};
use crate::vec3::{NavVec3, vadd_spec, vsub_spec, vdiv_spec, vmul_spec, vscale_spec,
    normalize_spec, magnitude_spec, sqr_magnitude_spec, unproject_spec, project_spec,
    lemma_unproject_zero, lemma_unproject_one, lemma_magnitude_bounds};
use crate::spatial::{NavTriangle, NavArea, NavSpatialObject, spatial_spec, area_size_spec,
    center_spec, distance2_spec, closest_point_spec};

verus! {

/// Build-time failure: a triangle names a vertex that does not exist.
/// Fields are the triangle index, the slot (0, 1 or 2) and the value found.
#[derive(Debug, Clone, Copy, PartialEq, Eq, Structural)]
pub enum NavError {
    TriangleVerticeIndexOutOfBounds(u32, u8, u32),
}

pub type NavResult<T> = Result<T, NavError>;

/// An unordered pair of indices; two connections are the same pair when
/// they hold the same two indices in either order.
#[derive(Debug, Clone, Copy, PartialEq, Eq, Structural)]
pub struct NavConnection(pub u32, pub u32);

/// `a` and `b` name the same unordered pair.
pub open spec fn same_pair(a: NavConnection, b: NavConnection) -> bool {
    (a.0 == b.0 && a.1 == b.1) || (a.0 == b.1 && a.1 == b.0)
}

/// A connection between two triangles sharing an edge: the triangle pair,
/// the squared distance between their centroids, and the shared edge as a
/// vertex pair.
#[derive(Debug, Clone, Copy)]
pub struct NavTriConnection {
    pub tris: NavConnection,
    pub weight: i64,
    pub edge: NavConnection,
}

/// A navigation mesh: immutable after construction, except for the
/// per-triangle traverse cost.
#[derive(Debug, Clone)]
pub struct NavMesh {
    pub id: String,
    pub vertices: Vec<NavVec3>,
    pub triangles: Vec<NavTriangle>,
    pub areas: Vec<NavArea>,
    pub connections: Vec<NavTriConnection>,
    pub spatials: Vec<NavSpatialObject>,
    pub hard_edges: Vec<Vec<(NavVec3, NavVec3)>>,
    pub origin: NavVec3,
}

/// All three vertex indices of `t` are below `n`.
pub open spec fn tri_in_bounds(t: NavTriangle, n: int) -> bool {
    t.first < n && t.second < n && t.third < n
}


/// One stored triangle connection is exactly what `build` derives for
/// its pair: a canonically ordered pair of distinct triangles that share
/// an edge, tagged with that edge and the squared centroid distance.
pub open spec fn conn_ok(verts: Seq<NavVec3>, tris: Seq<NavTriangle>, c: NavTriConnection) -> bool {
    let a = c.tris.0 as int;
    let b = c.tris.1 as int;
    &&& a < b < tris.len()
    &&& (c.edge.0 as int) < verts.len()
    &&& (c.edge.1 as int) < verts.len()
    &&& shared_edge_spec(tris[a], tris[b]) == Option::Some(c.edge)
    &&& c.weight as int == sqr_magnitude_spec(
        vsub_spec(tri_center(verts, tris, b), tri_center(verts, tris, a)),
    )
    &&& c.weight >= 0
}

/// Centroid of triangle `i` of the mesh data.
pub open spec fn tri_center(verts: Seq<NavVec3>, tris: Seq<NavTriangle>, i: int) -> NavVec3 {
    center_spec(
        verts[tris[i].first as int],
        verts[tris[i].second as int],
        verts[tris[i].third as int],
    )
}

impl NavMesh {
    /// Vertices of triangle `i`, in order.
    pub open spec fn tri_vertex(self, i: int, which: int) -> NavVec3 {
        let t = self.triangles@[i];
        if which == 0 {
            self.vertices@[t.first as int]
        } else if which == 1 {
            self.vertices@[t.second as int]
        } else {
            self.vertices@[t.third as int]
        }
    }

    /// The spatial record triangle `i` must carry.
    pub open spec fn tri_spatial(self, i: int) -> NavSpatialObject {
        spatial_spec(i, self.tri_vertex(i, 0), self.tri_vertex(i, 1), self.tri_vertex(i, 2))
    }

    /// One triangle connection is well formed.
    pub open spec fn conn_wf(self, c: NavTriConnection) -> bool {
        conn_ok(self.vertices@, self.triangles@, c)
    }

    /// Well-formedness: everything `build` derives is consistent, and
    /// stays so while costs change.
    pub open spec fn wf(self) -> bool {
        &&& self.triangles@.len() < u32::MAX as int
        &&& self.areas@.len() == self.triangles@.len()
        &&& self.spatials@.len() == self.triangles@.len()
        &&& self.hard_edges@.len() == self.triangles@.len()
        &&& forall|i: int|
            0 <= i < self.triangles@.len() ==> tri_in_bounds(
                #[trigger] self.triangles@[i],
                self.vertices@.len() as int,
            )
        &&& forall|i: int|
            0 <= i < self.triangles@.len() ==> #[trigger] self.spatials@[i] == self.tri_spatial(i)
        &&& forall|i: int|
            0 <= i < self.triangles@.len() ==> (#[trigger] self.areas@[i]).triangle as int == i
        &&& forall|i: int| 0 <= i < self.triangles@.len() ==> (#[trigger] self.areas@[i]).cost >= 0
        &&& forall|k: int|
            0 <= k < self.connections@.len() ==> self.conn_wf(#[trigger] self.connections@[k])
        &&& forall|k: int, l: int|
            0 <= k < l < self.connections@.len() ==> !same_pair(
                (#[trigger] self.connections@[k]).tris,
                (#[trigger] self.connections@[l]).tris,
            )
    }

    /// Index of the connection joining triangles `a` and `b`, if any.
    pub open spec fn conn_index(self, a: int, b: int) -> int {
        choose|k: int|
            0 <= k < self.connections@.len() && same_pair(
                self.connections@[k].tris,
                NavConnection(a as u32, b as u32),
            )
    }

    /// Some connection joins triangles `a` and `b`.
    pub open spec fn has_connection(self, a: int, b: int) -> bool {
        exists|k: int|
            0 <= k < self.connections@.len() && same_pair(
                (#[trigger] self.connections@[k]).tris,
                NavConnection(a as u32, b as u32),
            )
    }

    /// The connection joining `a` and `b` (meaningful when one exists).
    pub open spec fn conn_at(self, a: int, b: int) -> NavTriConnection {
        self.connections@[self.conn_index(a, b)]
    }

    /// Mesh identifier.
    pub fn id(&self) -> (r: &String)
        ensures
            r@ == self.id@,
    {
        &self.id
    }

    /// Mesh origin: the mean of the vertices.
    pub fn origin(&self) -> (r: NavVec3)
        ensures
            r == self.origin,
    {
        self.origin
    }

    /// The vertex list.
    pub fn vertices(&self) -> (r: &Vec<NavVec3>)
        ensures
            r@ == self.vertices@,
    {
        &self.vertices
    }

    /// The triangle list.
    pub fn triangles(&self) -> (r: &Vec<NavTriangle>)
        ensures
            r@ == self.triangles@,
    {
        &self.triangles
    }

    /// The area descriptors.
    pub fn areas(&self) -> (r: &Vec<NavArea>)
        ensures
            r@ == self.areas@,
    {
        &self.areas
    }

    /// Set the traverse cost of triangle `index`, clamping at zero, and
    /// return the old cost. Everything else is untouched.
    pub fn set_area_cost(&mut self, index: usize, cost: i64) -> (old_cost: i64)
        requires
            old(self).wf(),
            index < old(self).areas@.len(),
        ensures
            final(self).wf(),
            old_cost == old(self).areas@[index as int].cost,
            final(self).areas@[index as int].cost == if cost >= 0 {
                cost
            } else {
                0
            },
            final(self).areas@ == old(self).areas@.update(
                index as int,
                final(self).areas@[index as int],
            ),
            final(self).areas@[index as int] == (NavArea {
                cost: final(self).areas@[index as int].cost,
                ..old(self).areas@[index as int]
            }),
            final(self).id@ == old(self).id@,
            final(self).vertices@ == old(self).vertices@,
            final(self).triangles@ == old(self).triangles@,
            final(self).connections@ == old(self).connections@,
            final(self).spatials@ == old(self).spatials@,
            final(self).hard_edges@ == old(self).hard_edges@,
            final(self).origin == old(self).origin,
    {
        let area = self.areas[index];
        let clamped = fx_max(cost, 0);
        let updated = NavArea { cost: clamped, ..area };
        self.areas.set(index, updated);
        area.cost
    }
}


/// Left-fold of the segment lengths of the first `i` segments.
pub open spec fn path_length_upto(path: Seq<NavVec3>, i: int) -> int
    decreases i,
{
    if i <= 0 {
        0
    } else {
        fx_add_spec(
            path_length_upto(path, i - 1),
            magnitude_spec(vsub_spec(path[i], path[i - 1])),
        )
    }
}

/// Total length of a polyline: the sum of its segment lengths.
pub open spec fn path_length_spec(path: Seq<NavVec3>) -> int {
    if path.len() <= 1 {
        0
    } else {
        path_length_upto(path, path.len() - 1)
    }
}

/// Arc length of the projection of `point` onto one segment, clamped to
/// the segment: the clamped point and its arc length from `from`.
pub open spec fn point_on_line_spec(from: NavVec3, to: NavVec3, point: NavVec3) -> (NavVec3, int) {
    let d = magnitude_spec(vsub_spec(to, from));
    let p = project_spec(point, from, to);
    if p <= 0 {
        (from, 0)
    } else if p >= FX_ONE as int {
        (to, d)
    } else {
        (unproject_spec(from, to, p), fx_mul_spec(p, d))
    }
}

/// Signed arc length of the projection of `point` onto the line `from - to`.
pub open spec fn project_on_line_spec(from: NavVec3, to: NavVec3, point: NavVec3) -> int {
    fx_mul_spec(magnitude_spec(vsub_spec(to, from)), project_spec(point, from, to))
}

/// Candidate for segment `j` (from `path[j-1]` to `path[j]`): arc length
/// from the path start, and squared distance of `point` to the segment.
pub open spec fn proj_cand(path: Seq<NavVec3>, point: NavVec3, j: int) -> (int, int) {
    let pl = point_on_line_spec(path[j - 1], path[j], point);
    (
        fx_add_spec(path_length_upto(path, j - 1), pl.1),
        sqr_magnitude_spec(vsub_spec(pl.0, point)),
    )
}

/// Best candidate over segments `1..=j`; on ties the later segment wins.
pub open spec fn proj_best(path: Seq<NavVec3>, point: NavVec3, j: int) -> (int, int)
    decreases j,
{
    if j <= 1 {
        proj_cand(path, point, 1)
    } else {
        let prev = proj_best(path, point, j - 1);
        let c = proj_cand(path, point, j);
        if c.1 <= prev.1 {
            c
        } else {
            prev
        }
    }
}

/// Arc length of the projection of `point` onto the whole path, shifted
/// by `offset` and clamped to `[0, path_length]`.
pub open spec fn project_on_path_spec(path: Seq<NavVec3>, point: NavVec3, offset: int) -> int {
    let p = if path.len() <= 1 {
        0
    } else if path.len() == 2 {
        project_on_line_spec(path[0], path[1], point)
    } else {
        proj_best(path, point, path.len() - 1).0
    };
    let shifted = fx_add_spec(p, offset);
    let lo = if shifted >= 0 { shifted } else { 0 };
    let total = path_length_spec(path);
    if lo <= total {
        lo
    } else {
        total
    }
}

/// Walk the segments from segment `i` on, spending `s` arc length.
pub open spec fn point_on_path_walk(path: Seq<NavVec3>, s: int, i: int) -> Option<NavVec3>
    decreases path.len() - i,
{
    if i >= path.len() {
        Option::None
    } else {
        let d = magnitude_spec(vsub_spec(path[i], path[i - 1]));
        if s <= d {
            Option::Some(unproject_spec(path[i - 1], path[i], fx_div_spec(s, d)))
        } else {
            point_on_path_walk(path, fx_sub_spec(s, d), i + 1)
        }
    }
}

/// The point at arc length `s` along the path, if `s` does not overrun it.
pub open spec fn point_on_path_spec(path: Seq<NavVec3>, s: int) -> Option<NavVec3> {
    if path.len() <= 1 {
        Option::None
    } else if path.len() == 2 {
        Option::Some(
            unproject_spec(path[0], path[1], fx_div_spec(s, path_length_spec(path))),
        )
    } else {
        point_on_path_walk(path, s, 1)
    }
}

/// `project_on_path` followed by `point_on_path`.
pub open spec fn path_target_point_spec(
    path: Seq<NavVec3>,
    point: NavVec3,
    offset: int,
) -> Option<(NavVec3, int)> {
    let s = project_on_path_spec(path, point, offset);
    match point_on_path_spec(path, s) {
        Option::Some(p) => Option::Some((p, s)),
        Option::None => Option::None,
    }
}

/// The prefix of `s` up to index `i` with consecutive duplicates removed.
pub open spec fn dedup_upto(s: Seq<NavVec3>, i: int) -> Seq<NavVec3>
    decreases i,
{
    if i <= 1 {
        seq![s[0]]
    } else {
        let r = dedup_upto(s, i - 1);
        if s[i - 1] == s[i - 2] {
            r
        } else {
            r.push(s[i - 1])
        }
    }
}

/// `s` with runs of consecutive equal points collapsed to their first.
pub open spec fn dedup_spec(s: Seq<NavVec3>) -> Seq<NavVec3> {
    if s.len() == 0 {
        Seq::empty()
    } else {
        dedup_upto(s, s.len() as int)
    }
}

/// Removing consecutive duplicates keeps the first and last points and
/// leaves no two consecutive points equal.
pub proof fn lemma_dedup_props(s: Seq<NavVec3>, i: int)
    requires
        1 <= i <= s.len(),
    ensures
        dedup_upto(s, i).len() >= 1,
        dedup_upto(s, i)[0] == s[0],
        dedup_upto(s, i).last() == s[i - 1],
        forall|k: int|
            0 <= k < dedup_upto(s, i).len() - 1 ==> #[trigger] dedup_upto(s, i)[k] != dedup_upto(
                s,
                i,
            )[k + 1],
    decreases i,
{
    if i > 1 {
        lemma_dedup_props(s, i - 1);
    }
}

impl NavMesh {
    /// Total length of a polyline.
    pub fn path_length(path: &Vec<NavVec3>) -> (r: i64)
        ensures
            r as int == path_length_spec(path@),
            r >= 0,
    {
        let n = path.len();
        if n <= 1 {
            return 0;
        }
        let mut acc: i64 = 0;
        let mut i: usize = 1;
        while i < n
            invariant
                1 <= i <= n,
                n == path@.len(),
                acc as int == path_length_upto(path@, i - 1),
                acc >= 0,
            decreases n - i,
        {
            acc = fx_add(acc, path[i].sub(path[i - 1]).magnitude());
            i = i + 1;
        }
        acc
    }

    fn project_on_line(from: NavVec3, to: NavVec3, point: NavVec3) -> (r: i64)
        ensures
            r as int == project_on_line_spec(from, to, point),
    {
        let d = to.sub(from).magnitude();
        let p = point.project(from, to);
        fx_mul(d, p)
    }

    fn point_on_line(from: NavVec3, to: NavVec3, point: NavVec3) -> (r: (NavVec3, i64))
        ensures
            r.0 == point_on_line_spec(from, to, point).0,
            r.1 as int == point_on_line_spec(from, to, point).1,
    {
        let d = to.sub(from).magnitude();
        let p = point.project(from, to);
        if p <= 0 {
            (from, 0)
        } else if p >= FX_ONE {
            (to, d)
        } else {
            (NavVec3::unproject(from, to, p), fx_mul(p, d))
        }
    }

    /// Arc length of the projection of `point` onto the path, shifted by
    /// `offset` and clamped to `[0, path_length]`.
    pub fn project_on_path(path: &Vec<NavVec3>, point: NavVec3, offset: i64) -> (r: i64)
        ensures
            r as int == project_on_path_spec(path@, point, offset as int),
    {
        let n = path.len();
        let p: i64 = if n <= 1 {
            0
        } else if n == 2 {
            Self::project_on_line(path[0], path[1], point)
        } else {
            let first = Self::point_on_line(path[0], path[1], point);
            let mut best_s: i64 = first.1;
            let mut best_score: i64 = first.0.sub(point).sqr_magnitude();
            let mut dist: i64 = 0;
            let mut j: usize = 1;
            while j + 1 < n
                invariant
                    1 <= j < n,
                    n == path@.len(),
                    n >= 3,
                    dist as int == path_length_upto(path@, j as int - 1),
                    best_s as int == proj_best(path@, point, j as int).0,
                    best_score as int == proj_best(path@, point, j as int).1,
                decreases n - j,
            {
                dist = fx_add(dist, path[j].sub(path[j - 1]).magnitude());
                let j2 = j + 1;
                let pl = Self::point_on_line(path[j2 - 1], path[j2], point);
                let cand_s = fx_add(dist, pl.1);
                let cand_score = pl.0.sub(point).sqr_magnitude();
                if cand_score <= best_score {
                    best_s = cand_s;
                    best_score = cand_score;
                }
                j = j2;
            }
            best_s
        };
        let total = Self::path_length(path);
        let shifted = fx_add(p, offset);
        let lo = if shifted >= 0 { shifted } else { 0 };
        if lo <= total {
            lo
        } else {
            total
        }
    }

    /// The point at arc length `s` along the path, or `None` when the
    /// path has under two points or `s` overruns it.
    pub fn point_on_path(path: &Vec<NavVec3>, s: i64) -> (r: Option<NavVec3>)
        ensures
            r == point_on_path_spec(path@, s as int),
    {
        let n = path.len();
        if n <= 1 {
            return Option::None;
        }
        if n == 2 {
            let total = Self::path_length(path);
            return Option::Some(NavVec3::unproject(path[0], path[1], fx_div(s, total)));
        }
        let mut cur: i64 = s;
        let mut i: usize = 1;
        while i < n
            invariant
                1 <= i <= n,
                n == path@.len(),
                n >= 3,
                point_on_path_walk(path@, s as int, 1) == point_on_path_walk(
                    path@,
                    cur as int,
                    i as int,
                ),
            decreases n - i,
        {
            let d = path[i].sub(path[i - 1]).magnitude();
            if cur <= d {
                return Option::Some(NavVec3::unproject(path[i - 1], path[i], fx_div(cur, d)));
            }
            cur = fx_sub(cur, d);
            i = i + 1;
        }
        Option::None
    }

    /// The point at the arc length where `point` projects (shifted by
    /// `offset`), with that arc length.
    pub fn path_target_point(path: &Vec<NavVec3>, point: NavVec3, offset: i64) -> (r: Option<
        (NavVec3, i64),
    >)
        ensures
            match r {
                Option::Some(pr) => path_target_point_spec(path@, point, offset as int)
                    == Option::Some((pr.0, pr.1 as int)),
                Option::None => path_target_point_spec(path@, point, offset as int)
                    is None,
            },
    {
        let s = Self::project_on_path(path, point, offset);
        match Self::point_on_path(path, s) {
            Option::Some(p) => Option::Some((p, s)),
            Option::None => Option::None,
        }
    }
}

/// Collapse runs of consecutive equal points to their first point.
pub(crate) fn dedup_points(v: Vec<NavVec3>) -> (r: Vec<NavVec3>)
    ensures
        r@ == dedup_spec(v@),
{
    if v.len() == 0 {
        return v;
    }
    let mut r: Vec<NavVec3> = Vec::new();
    r.push(v[0]);
    let mut i: usize = 1;
    while i < v.len()
        invariant
            1 <= i <= v@.len(),
            r@ == dedup_upto(v@, i as int),
        decreases v@.len() - i,
    {
        if v[i].x != v[i - 1].x || v[i].y != v[i - 1].y || v[i].z != v[i - 1].z {
            r.push(v[i]);
        }
        i = i + 1;
    }
    r
}



/// The validation result for one triangle: the first slot naming a
/// vertex index at or above `n`, if any.
pub open spec fn tri_error(t: NavTriangle, i: int, n: int) -> Option<NavError> {
    if t.first as int >= n {
        Option::Some(NavError::TriangleVerticeIndexOutOfBounds(i as u32, 0, t.first))
    } else if t.second as int >= n {
        Option::Some(NavError::TriangleVerticeIndexOutOfBounds(i as u32, 1, t.second))
    } else if t.third as int >= n {
        Option::Some(NavError::TriangleVerticeIndexOutOfBounds(i as u32, 2, t.third))
    } else {
        Option::None
    }
}

/// The first validation error among triangles `i..`, in index order.
pub open spec fn first_build_error(tris: Seq<NavTriangle>, n: int, i: int) -> Option<NavError>
    decreases tris.len() - i,
{
    if i < 0 || i >= tris.len() {
        Option::None
    } else {
        match tri_error(tris[i], i, n) {
            Option::Some(e) => Option::Some(e),
            Option::None => first_build_error(tris, n, i + 1),
        }
    }
}

/// Radius of the sphere around the centroid that contains the triangle.
pub open spec fn radius_spec(a: NavVec3, b: NavVec3, c: NavVec3) -> int {
    let ce = center_spec(a, b, c);
    let ra = magnitude_spec(vsub_spec(a, ce));
    let rb = magnitude_spec(vsub_spec(b, ce));
    let rc = magnitude_spec(vsub_spec(c, ce));
    let m = if ra >= rb {
        ra
    } else {
        rb
    };
    if m >= rc {
        m
    } else {
        rc
    }
}

/// The area descriptor `build` derives for triangle `i`; new meshes get
/// cost one.
pub open spec fn area_spec(i: int, a: NavVec3, b: NavVec3, c: NavVec3) -> NavArea {
    NavArea {
        triangle: i as u32,
        size: c64(area_size_spec(a, b, c)),
        cost: FX_ONE,
        center: center_spec(a, b, c),
        radius: c64(radius_spec(a, b, c)),
        radius_sqr: c64(fx_mul_spec(radius_spec(a, b, c), radius_spec(a, b, c))),
    }
}

/// `t` has `e` among its three edges (as unordered pairs).
pub open spec fn tri_has_edge(t: NavTriangle, e: NavConnection) -> bool {
    same_pair(NavConnection(t.first, t.second), e) || same_pair(
        NavConnection(t.second, t.third),
        e,
    ) || same_pair(NavConnection(t.third, t.first), e)
}

/// The first edge of `t1` (in the order first-second, second-third,
/// third-first) that `t2` also has.
pub open spec fn shared_edge_spec(t1: NavTriangle, t2: NavTriangle) -> Option<NavConnection> {
    if tri_has_edge(t2, NavConnection(t1.first, t1.second)) {
        Option::Some(NavConnection(t1.first, t1.second))
    } else if tri_has_edge(t2, NavConnection(t1.second, t1.third)) {
        Option::Some(NavConnection(t1.second, t1.third))
    } else if tri_has_edge(t2, NavConnection(t1.third, t1.first)) {
        Option::Some(NavConnection(t1.third, t1.first))
    } else {
        Option::None
    }
}

/// How many of `t`'s three edge slots carry the pair `e`.
pub open spec fn edge_count_in_tri(t: NavTriangle, e: NavConnection) -> int {
    (if same_pair(NavConnection(t.first, t.second), e) {
        1int
    } else {
        0int
    }) + (if same_pair(NavConnection(t.second, t.third), e) {
        1int
    } else {
        0int
    }) + (if same_pair(NavConnection(t.third, t.first), e) {
        1int
    } else {
        0int
    })
}

/// How often the edge `e` occurs among the first `i` triangles, slots
/// counted separately.
pub open spec fn edge_mult(tris: Seq<NavTriangle>, e: NavConnection, i: int) -> int
    decreases i,
{
    if i <= 0 {
        0
    } else {
        edge_mult(tris, e, i - 1) + edge_count_in_tri(tris[i - 1], e)
    }
}

/// The boundary edges of triangle `i`: those of its edges incident to
/// fewer than two triangle edge slots overall, as vertex pairs in the
/// triangle's own order.
pub open spec fn hard_edges_spec(
    tris: Seq<NavTriangle>,
    verts: Seq<NavVec3>,
    i: int,
) -> Seq<(NavVec3, NavVec3)> {
    let t = tris[i];
    let m = tris.len() as int;
    let s0: Seq<(NavVec3, NavVec3)> = if edge_mult(tris, NavConnection(t.first, t.second), m)
        < 2 {
        seq![(verts[t.first as int], verts[t.second as int])]
    } else {
        Seq::empty()
    };
    let s1: Seq<(NavVec3, NavVec3)> = if edge_mult(tris, NavConnection(t.second, t.third), m)
        < 2 {
        seq![(verts[t.second as int], verts[t.third as int])]
    } else {
        Seq::empty()
    };
    let s2: Seq<(NavVec3, NavVec3)> = if edge_mult(tris, NavConnection(t.third, t.first), m)
        < 2 {
        seq![(verts[t.third as int], verts[t.first as int])]
    } else {
        Seq::empty()
    };
    s0 + s1 + s2
}

/// Componentwise sum of the first `i` vertices.
pub open spec fn vsum_upto(verts: Seq<NavVec3>, i: int) -> NavVec3
    decreases i,
{
    if i <= 0 {
        NavVec3 { x: 0, y: 0, z: 0 }
    } else {
        vadd_spec(vsum_upto(verts, i - 1), verts[i - 1])
    }
}

/// Mean of the vertices (the zero vector for an empty mesh).
pub open spec fn origin_spec(verts: Seq<NavVec3>) -> NavVec3 {
    vdiv_spec(vsum_upto(verts, verts.len() as int), clamp64(verts.len() * FX_ONE))
}

pub proof fn lemma_sqr_nonneg(a: int, b: int)
    ensures
        fx_mul_spec(a, b) >= 0 <== a == b,
{
    if a == b {
        assert(a * b >= 0) by (nonlinear_arith)
            requires
                a == b,
        ;
    }
}

/// A squared magnitude is never negative.
pub proof fn lemma_sqr_magnitude_nonneg(v: NavVec3)
    ensures
        sqr_magnitude_spec(v) >= 0,
{
    reveal(crate::vec3::dot_spec);
    lemma_sqr_nonneg(v.x as int, v.x as int);
    lemma_sqr_nonneg(v.y as int, v.y as int);
    lemma_sqr_nonneg(v.z as int, v.z as int);
}

/// Relies on typid's `ID::new` (a fresh uuid-backed identifier, printed
/// through its `Display`) for mesh identities; nothing is assumed of the
/// returned text.
#[verifier::external_body]
fn new_mesh_id() -> (r: String) {
    typid::ID::<()>::new().to_string()
}

fn same_pair_exec(a: NavConnection, b: NavConnection) -> (r: bool)
    ensures
        r == same_pair(a, b),
{
    (a.0 == b.0 && a.1 == b.1) || (a.0 == b.1 && a.1 == b.0)
}

fn tri_has_edge_exec(t: &NavTriangle, e: NavConnection) -> (r: bool)
    ensures
        r == tri_has_edge(*t, e),
{
    same_pair_exec(NavConnection(t.first, t.second), e) || same_pair_exec(
        NavConnection(t.second, t.third),
        e,
    ) || same_pair_exec(NavConnection(t.third, t.first), e)
}

fn shared_edge(t1: &NavTriangle, t2: &NavTriangle) -> (r: Option<NavConnection>)
    ensures
        r == shared_edge_spec(*t1, *t2),
{
    if tri_has_edge_exec(t2, NavConnection(t1.first, t1.second)) {
        Option::Some(NavConnection(t1.first, t1.second))
    } else if tri_has_edge_exec(t2, NavConnection(t1.second, t1.third)) {
        Option::Some(NavConnection(t1.second, t1.third))
    } else if tri_has_edge_exec(t2, NavConnection(t1.third, t1.first)) {
        Option::Some(NavConnection(t1.third, t1.first))
    } else {
        Option::None
    }
}

fn count_edge(triangles: &Vec<NavTriangle>, e: NavConnection) -> (r: u64)
    requires
        triangles@.len() < u32::MAX as int,
    ensures
        r as int == edge_mult(triangles@, e, triangles@.len() as int),
{
    let mut count: u64 = 0;
    let mut i: usize = 0;
    while i < triangles.len()
        invariant
            0 <= i <= triangles@.len(),
            triangles@.len() < u32::MAX as int,
            count as int == edge_mult(triangles@, e, i as int),
            count <= 3 * i,
        decreases triangles@.len() - i,
    {
        let t = triangles[i];
        if same_pair_exec(NavConnection(t.first, t.second), e) {
            count = count + 1;
        }
        if same_pair_exec(NavConnection(t.second, t.third), e) {
            count = count + 1;
        }
        if same_pair_exec(NavConnection(t.third, t.first), e) {
            count = count + 1;
        }
        i = i + 1;
    }
    count
}

impl NavMesh {
    fn compute_origin(vertices: &Vec<NavVec3>) -> (r: NavVec3)
        ensures
            r == origin_spec(vertices@),
    {
        let mut sum = NavVec3::zero();
        let mut i: usize = 0;
        while i < vertices.len()
            invariant
                0 <= i <= vertices@.len(),
                sum == vsum_upto(vertices@, i as int),
            decreases vertices@.len() - i,
        {
            sum = sum.add(vertices[i]);
            i = i + 1;
        }
        let n = vertices.len();
        let divisor: i64 = if (n as u64) >= 140737488355328u64 {
            proof {
                assert(n * FX_ONE >= 140737488355328 * 65536) by (nonlinear_arith)
                    requires
                        n >= 140737488355328,
                        FX_ONE == 65536,
                ;
            }
            i64::MAX
        } else {
            proof {
                assert(n * FX_ONE < 140737488355328 * 65536) by (nonlinear_arith)
                    requires
                        0 <= n < 140737488355328,
                        FX_ONE == 65536,
                ;
            }
            (n as i64) * FX_ONE
        };
        assert(divisor as int == clamp64(vertices@.len() * FX_ONE));
        sum.div_scalar(divisor)
    }

    fn build_areas(vertices: &Vec<NavVec3>, triangles: &Vec<NavTriangle>) -> (r: NavResult<
        Vec<NavArea>,
    >)
        requires
            triangles@.len() < u32::MAX as int,
        ensures
            match r {
                Result::Ok(areas) => {
                    &&& first_build_error(triangles@, vertices@.len() as int, 0) is None
                    &&& areas@.len() == triangles@.len()
                    &&& forall|i: int|
                        0 <= i < triangles@.len() ==> tri_in_bounds(
                            #[trigger] triangles@[i],
                            vertices@.len() as int,
                        )
                    &&& forall|i: int|
                        0 <= i < triangles@.len() ==> #[trigger] areas@[i] == area_spec(
                            i,
                            vertices@[triangles@[i].first as int],
                            vertices@[triangles@[i].second as int],
                            vertices@[triangles@[i].third as int],
                        )
                },
                Result::Err(e) => first_build_error(triangles@, vertices@.len() as int, 0)
                    == Option::Some(e),
            },
    {
        let mut areas: Vec<NavArea> = Vec::new();
        let mut i: usize = 0;
        while i < triangles.len()
            invariant
                0 <= i <= triangles@.len(),
                triangles@.len() < u32::MAX as int,
                areas@.len() == i,
                first_build_error(triangles@, vertices@.len() as int, 0) == first_build_error(
                    triangles@,
                    vertices@.len() as int,
                    i as int,
                ),
                forall|k: int|
                    0 <= k < i ==> tri_in_bounds(
                        #[trigger] triangles@[k],
                        vertices@.len() as int,
                    ),
                forall|k: int|
                    0 <= k < i ==> #[trigger] areas@[k] == area_spec(
                        k,
                        vertices@[triangles@[k].first as int],
                        vertices@[triangles@[k].second as int],
                        vertices@[triangles@[k].third as int],
                    ),
            decreases triangles@.len() - i,
        {
            let t = triangles[i];
            if t.first as usize >= vertices.len() {
                return Result::Err(NavError::TriangleVerticeIndexOutOfBounds(
                    i as u32,
                    0,
                    t.first,
                ));
            }
            if t.second as usize >= vertices.len() {
                return Result::Err(NavError::TriangleVerticeIndexOutOfBounds(
                    i as u32,
                    1,
                    t.second,
                ));
            }
            if t.third as usize >= vertices.len() {
                return Result::Err(NavError::TriangleVerticeIndexOutOfBounds(
                    i as u32,
                    2,
                    t.third,
                ));
            }
            let a = vertices[t.first as usize];
            let b = vertices[t.second as usize];
            let c = vertices[t.third as usize];
            let center = NavArea::calculate_center(a, b, c);
            let ra = a.sub(center).magnitude();
            let rb = b.sub(center).magnitude();
            let rc = c.sub(center).magnitude();
            let radius = fx_max(fx_max(ra, rb), rc);
            let area = NavArea {
                triangle: i as u32,
                size: NavArea::calculate_area(a, b, c),
                cost: FX_ONE,
                center,
                radius,
                radius_sqr: fx_mul(radius, radius),
            };
            areas.push(area);
            i = i + 1;
        }
        Result::Ok(areas)
    }

    fn build_spatials(vertices: &Vec<NavVec3>, triangles: &Vec<NavTriangle>) -> (r: Vec<
        NavSpatialObject,
    >)
        requires
            forall|i: int|
                0 <= i < triangles@.len() ==> tri_in_bounds(
                    #[trigger] triangles@[i],
                    vertices@.len() as int,
                ),
        ensures
            r@.len() == triangles@.len(),
            forall|i: int|
                0 <= i < triangles@.len() ==> #[trigger] r@[i] == spatial_spec(
                    i,
                    vertices@[triangles@[i].first as int],
                    vertices@[triangles@[i].second as int],
                    vertices@[triangles@[i].third as int],
                ),
    {
        let mut out: Vec<NavSpatialObject> = Vec::new();
        let mut i: usize = 0;
        while i < triangles.len()
            invariant
                0 <= i <= triangles@.len(),
                out@.len() == i,
                forall|k: int|
                    0 <= k < triangles@.len() ==> tri_in_bounds(
                        #[trigger] triangles@[k],
                        vertices@.len() as int,
                    ),
                forall|k: int|
                    0 <= k < i ==> #[trigger] out@[k] == spatial_spec(
                        k,
                        vertices@[triangles@[k].first as int],
                        vertices@[triangles@[k].second as int],
                        vertices@[triangles@[k].third as int],
                    ),
            decreases triangles@.len() - i,
        {
            let t = triangles[i];
            out.push(NavSpatialObject::new(
                i,
                vertices[t.first as usize],
                vertices[t.second as usize],
                vertices[t.third as usize],
            ));
            i = i + 1;
        }
        out
    }
}



impl NavMesh {
    fn build_connections(
        vertices: &Vec<NavVec3>,
        triangles: &Vec<NavTriangle>,
        areas: &Vec<NavArea>,
    ) -> (r: Vec<NavTriConnection>)
        requires
            triangles@.len() < u32::MAX as int,
            areas@.len() == triangles@.len(),
            forall|i: int|
                0 <= i < triangles@.len() ==> tri_in_bounds(
                    #[trigger] triangles@[i],
                    vertices@.len() as int,
                ),
            forall|i: int|
                0 <= i < triangles@.len() ==> (#[trigger] areas@[i]).center == tri_center(
                    vertices@,
                    triangles@,
                    i,
                ),
        ensures
            forall|k: int|
                0 <= k < r@.len() ==> conn_ok(vertices@, triangles@, #[trigger] r@[k]),
            forall|k: int, l: int|
                0 <= k < l < r@.len() ==> !same_pair(
                    (#[trigger] r@[k]).tris,
                    (#[trigger] r@[l]).tris,
                ),
            forall|a: int, b: int|
                0 <= a < b < triangles@.len() && shared_edge_spec(
                    triangles@[a],
                    triangles@[b],
                ) is Some ==> exists|k: int|
                    0 <= k < r@.len() && (#[trigger] r@[k]).tris == NavConnection(
                        a as u32,
                        b as u32,
                    ),
    {
        let n = triangles.len();
        let mut out: Vec<NavTriConnection> = Vec::new();
        let mut i: usize = 0;
        while i < n
            invariant
                0 <= i <= n,
                n == triangles@.len(),
                n < u32::MAX as int,
                areas@.len() == n,
                forall|t: int|
                    0 <= t < n ==> tri_in_bounds(
                        #[trigger] triangles@[t],
                        vertices@.len() as int,
                    ),
                forall|t: int|
                    0 <= t < n ==> (#[trigger] areas@[t]).center == tri_center(
                        vertices@,
                        triangles@,
                        t,
                    ),
                forall|k: int|
                    0 <= k < out@.len() ==> conn_ok(vertices@, triangles@, #[trigger] out@[k]),
                forall|k: int|
                    0 <= k < out@.len() ==> ((#[trigger] out@[k]).tris.0 as int) < i as int,
                forall|k: int, l: int|
                    0 <= k < l < out@.len() ==> !same_pair(
                        (#[trigger] out@[k]).tris,
                        (#[trigger] out@[l]).tris,
                    ),
                forall|a: int, b: int|
                    0 <= a < b < n && a < i as int && shared_edge_spec(
                        triangles@[a],
                        triangles@[b],
                    ) is Some ==> exists|k: int|
                        0 <= k < out@.len() && (#[trigger] out@[k]).tris == NavConnection(
                            a as u32,
                            b as u32,
                        ),
            decreases n - i,
        {
            let mut j: usize = i + 1;
            while j < n
                invariant
                    0 <= i < n,
                    i < j <= n,
                    n == triangles@.len(),
                    n < u32::MAX as int,
                    areas@.len() == n,
                    forall|t: int|
                        0 <= t < n ==> tri_in_bounds(
                            #[trigger] triangles@[t],
                            vertices@.len() as int,
                        ),
                    forall|t: int|
                        0 <= t < n ==> (#[trigger] areas@[t]).center == tri_center(
                            vertices@,
                            triangles@,
                            t,
                        ),
                    forall|k: int|
                        0 <= k < out@.len() ==> conn_ok(
                            vertices@,
                            triangles@,
                            #[trigger] out@[k],
                        ),
                    forall|k: int|
                        0 <= k < out@.len() ==> ((#[trigger] out@[k]).tris.0 as int) < i as int
                            || ((#[trigger] out@[k]).tris.0 as int == i as int && (
                        out@[k].tris.1 as int) < j as int),
                    forall|k: int, l: int|
                        0 <= k < l < out@.len() ==> !same_pair(
                            (#[trigger] out@[k]).tris,
                            (#[trigger] out@[l]).tris,
                        ),
                    forall|a: int, b: int|
                        0 <= a < b < n && (a < i as int || (a == i as int && b < j as int))
                            && shared_edge_spec(triangles@[a], triangles@[b]) is Some
                            ==> exists|k: int|
                            0 <= k < out@.len() && (#[trigger] out@[k]).tris == NavConnection(
                                a as u32,
                                b as u32,
                            ),
                decreases n - j,
            {
                let ghost pre = out@;
                match shared_edge(&triangles[i], &triangles[j]) {
                    Option::Some(e) => {
                        let wa = areas[i].center;
                        let wb = areas[j].center;
                        let w = wb.sub(wa).sqr_magnitude();
                        proof {
                            lemma_sqr_magnitude_nonneg(vsub_spec(wb, wa));
                        }
                        let entry = NavTriConnection {
                            tris: NavConnection(i as u32, j as u32),
                            weight: w,
                            edge: e,
                        };
                        out.push(entry);
                        proof {
                            assert forall|a: int, b: int|
                                0 <= a < b < n as int && (a < i as int || (a == i as int && b
                                    < j as int + 1)) && shared_edge_spec(
                                    triangles@[a],
                                    triangles@[b],
                                ) is Some implies exists|k: int|
                                0 <= k < out@.len() && (#[trigger] out@[k]).tris
                                    == NavConnection(a as u32, b as u32) by {
                                if a == i as int && b == j as int {
                                    assert(out@[pre.len() as int].tris == NavConnection(
                                        a as u32,
                                        b as u32,
                                    ));
                                } else {
                                    let k = choose|k: int|
                                        0 <= k < pre.len() && (#[trigger] pre[k]).tris
                                            == NavConnection(a as u32, b as u32);
                                    assert(out@[k].tris == NavConnection(a as u32, b as u32));
                                }
                            }
                        }
                    },
                    Option::None => {
                        proof {
                            assert forall|a: int, b: int|
                                0 <= a < b < n as int && (a < i as int || (a == i as int && b
                                    < j as int + 1)) && shared_edge_spec(
                                    triangles@[a],
                                    triangles@[b],
                                ) is Some implies exists|k: int|
                                0 <= k < out@.len() && (#[trigger] out@[k]).tris
                                    == NavConnection(a as u32, b as u32) by {
                                if !(a == i as int && b == j as int) {
                                    let k = choose|k: int|
                                        0 <= k < pre.len() && (#[trigger] pre[k]).tris
                                            == NavConnection(a as u32, b as u32);
                                    assert(out@[k].tris == NavConnection(a as u32, b as u32));
                                }
                            }
                        }
                    },
                }
                j = j + 1;
            }
            i = i + 1;
        }
        out
    }

    fn build_hard_edges(vertices: &Vec<NavVec3>, triangles: &Vec<NavTriangle>) -> (r: Vec<
        Vec<(NavVec3, NavVec3)>,
    >)
        requires
            triangles@.len() < u32::MAX as int,
            forall|i: int|
                0 <= i < triangles@.len() ==> tri_in_bounds(
                    #[trigger] triangles@[i],
                    vertices@.len() as int,
                ),
        ensures
            r@.len() == triangles@.len(),
            forall|i: int|
                0 <= i < triangles@.len() ==> (#[trigger] r@[i])@ == hard_edges_spec(
                    triangles@,
                    vertices@,
                    i,
                ),
    {
        let n = triangles.len();
        let mut out: Vec<Vec<(NavVec3, NavVec3)>> = Vec::new();
        let mut i: usize = 0;
        while i < n
            invariant
                0 <= i <= n,
                n == triangles@.len(),
                n < u32::MAX as int,
                out@.len() == i,
                forall|t: int|
                    0 <= t < n ==> tri_in_bounds(
                        #[trigger] triangles@[t],
                        vertices@.len() as int,
                    ),
                forall|k: int|
                    0 <= k < i ==> (#[trigger] out@[k])@ == hard_edges_spec(
                        triangles@,
                        vertices@,
                        k,
                    ),
            decreases n - i,
        {
            let t = triangles[i];
            let mut es: Vec<(NavVec3, NavVec3)> = Vec::new();
            if count_edge(triangles, NavConnection(t.first, t.second)) < 2 {
                es.push((vertices[t.first as usize], vertices[t.second as usize]));
            }
            if count_edge(triangles, NavConnection(t.second, t.third)) < 2 {
                es.push((vertices[t.second as usize], vertices[t.third as usize]));
            }
            if count_edge(triangles, NavConnection(t.third, t.first)) < 2 {
                es.push((vertices[t.third as usize], vertices[t.first as usize]));
            }
            assert(es@ =~= hard_edges_spec(triangles@, vertices@, i as int));
            out.push(es);
            i = i + 1;
        }
        out
    }

    /// Build a mesh from vertices and triangles. Fails with the first
    /// out-of-bounds vertex index, scanning triangles in order and the
    /// three slots of each in order; otherwise derives every cached
    /// structure and starts all traverse costs at one.
    pub fn new(vertices: Vec<NavVec3>, triangles: Vec<NavTriangle>) -> (r: NavResult<NavMesh>)
        requires
            triangles@.len() < u32::MAX as int,
        ensures
            match r {
                Result::Ok(m) => {
                    &&& first_build_error(triangles@, vertices@.len() as int, 0) is None
                    &&& m.wf()
                    &&& m.vertices@ == vertices@
                    &&& m.triangles@ == triangles@
                    &&& m.origin == origin_spec(vertices@)
                    &&& forall|i: int|
                        0 <= i < triangles@.len() ==> #[trigger] m.areas@[i] == area_spec(
                            i,
                            vertices@[triangles@[i].first as int],
                            vertices@[triangles@[i].second as int],
                            vertices@[triangles@[i].third as int],
                        )
                    &&& forall|a: int, b: int|
                        0 <= a < b < triangles@.len() && shared_edge_spec(
                            triangles@[a],
                            triangles@[b],
                        ) is Some ==> m.has_connection(a, b)
                    &&& forall|i: int|
                        0 <= i < triangles@.len() ==> (#[trigger] m.hard_edges@[i])@
                            == hard_edges_spec(triangles@, vertices@, i)
                },
                Result::Err(e) => first_build_error(triangles@, vertices@.len() as int, 0)
                    == Option::Some(e),
            },
    {
        let origin = Self::compute_origin(&vertices);
        let areas = match Self::build_areas(&vertices, &triangles) {
            Result::Ok(a) => a,
            Result::Err(e) => {
                return Result::Err(e);
            },
        };
        let spatials = Self::build_spatials(&vertices, &triangles);
        let connections = Self::build_connections(&vertices, &triangles, &areas);
        let hard_edges = Self::build_hard_edges(&vertices, &triangles);
        let id = new_mesh_id();
        let mesh = NavMesh {
            id,
            vertices,
            triangles,
            areas,
            connections,
            spatials,
            hard_edges,
            origin,
        };
        proof {
            assert forall|a: int, b: int|
                0 <= a < b < mesh.triangles@.len() && shared_edge_spec(
                    mesh.triangles@[a],
                    mesh.triangles@[b],
                ) is Some implies mesh.has_connection(a, b) by {
                let k = choose|k: int|
                    0 <= k < mesh.connections@.len() && (#[trigger] mesh.connections@[k]).tris
                        == NavConnection(a as u32, b as u32);
                assert(same_pair(
                    mesh.connections@[k].tris,
                    NavConnection(a as u32, b as u32),
                ));
            }
        }
        Result::Ok(mesh)
    }
}



/// Quality of querying a point on the mesh. Every mode answers with the
/// exact nearest triangle: the spatial scan is exact, so the cheaper
/// modes alias the accurate one.
#[derive(Debug, Clone, Copy, PartialEq, Eq, Structural)]
pub enum NavQuery {
    /// Totally accurate.
    Accuracy,
    /// Finds the point in the closest triangle.
    Closest,
    /// Finds the first triangle in range of the query.
    ClosestFirst,
}

/// Quality of finding a path.
#[derive(Debug, Clone, Copy, PartialEq, Eq, Structural)]
pub enum NavPathMode {
    /// Best quality: follows corridor geometry closely.
    Accuracy,
    /// Medium quality: bends at portal midpoints.
    MidPoints,
}

impl NavMesh {
    /// Best (index, squared distance) over the first `i` triangles; the
    /// earliest index wins ties.
    pub open spec fn closest_tri_upto(self, p: NavVec3, i: int) -> Option<(int, int)>
        decreases i,
    {
        if i <= 0 {
            Option::None
        } else {
            let d = distance2_spec(self.spatials@[i - 1], p);
            match self.closest_tri_upto(p, i - 1) {
                Option::None => Option::Some((i - 1, d)),
                Option::Some(pr) => if d < pr.1 {
                    Option::Some((i - 1, d))
                } else {
                    Option::Some(pr)
                },
            }
        }
    }

    /// The triangle closest to `p`: the first index reaching the minimal
    /// squared distance, or `None` on an empty mesh.
    pub open spec fn spec_closest_triangle(self, p: NavVec3) -> Option<int> {
        match self.closest_tri_upto(p, self.triangles@.len() as int) {
            Option::None => Option::None,
            Option::Some(pr) => Option::Some(pr.0),
        }
    }

    /// The point `p` snaps to: its closest point on its closest triangle.
    pub open spec fn spec_snap(self, p: NavVec3) -> NavVec3 {
        closest_point_spec(
            self.spatials@[self.spec_closest_triangle(p)->Some_0],
            p,
        )
    }

    proof fn lemma_closest_upto(self, p: NavVec3, i: int)
        requires
            0 <= i <= self.spatials@.len(),
        ensures
            self.closest_tri_upto(p, i) is None <==> i == 0,
            i > 0 ==> {
                let pr = self.closest_tri_upto(p, i)->Some_0;
                &&& 0 <= pr.0 < i
                &&& pr.1 == distance2_spec(self.spatials@[pr.0], p)
                &&& forall|j: int|
                    0 <= j < i ==> distance2_spec(#[trigger] self.spatials@[j], p) >= pr.1
                &&& forall|j: int|
                    0 <= j < pr.0 ==> distance2_spec(#[trigger] self.spatials@[j], p) > pr.1
            },
        decreases i,
    {
        if i > 0 {
            self.lemma_closest_upto(p, i - 1);
        }
    }

    /// Index of the triangle closest to `point`, or `None` on an empty
    /// mesh. The scan is exact, so every query quality returns the same
    /// index: the first one at minimal squared distance.
    #[verifier::rlimit(100)]
    pub fn find_closest_triangle(&self, point: NavVec3, query: NavQuery) -> (r: Option<usize>)
        requires
            self.wf(),
        ensures
            match r {
                Option::None => self.triangles@.len() == 0,
                Option::Some(t) => {
                    &&& t < self.triangles@.len()
                    &&& Option::Some(t as int) == self.spec_closest_triangle(point)
                    &&& forall|j: int|
                        0 <= j < self.triangles@.len() ==> distance2_spec(
                            self.spatials@[t as int],
                            point,
                        ) <= distance2_spec(#[trigger] self.spatials@[j], point)
                    &&& forall|j: int|
                        0 <= j < t ==> distance2_spec(self.spatials@[t as int], point)
                            < distance2_spec(#[trigger] self.spatials@[j], point)
                },
            },
            r is Some <==> self.triangles@.len() > 0,
    {
        let _ = query;
        let n = self.spatials.len();
        if n == 0 {
            return Option::None;
        }
        let mut best: usize = 0;
        let mut best_d: i64 = self.spatials[0].distance2(point);
        let mut i: usize = 1;
        proof {
            assert(self.closest_tri_upto(point, 0) is None);
            assert(self.closest_tri_upto(point, 1) == Option::Some(
                (0int, distance2_spec(self.spatials@[0], point)),
            ));
        }
        while i < n
            invariant
                1 <= i <= n,
                n == self.spatials@.len(),
                best < i,
                self.closest_tri_upto(point, i as int) == Option::Some(
                    (best as int, best_d as int),
                ),
            decreases n - i,
        {
            let d = self.spatials[i].distance2(point);
            if d < best_d {
                best = i;
                best_d = d;
            }
            i = i + 1;
        }
        proof {
            self.lemma_closest_upto(point, n as int);
        }
        Option::Some(best)
    }

    /// The closest point on the mesh to `point`: snap onto the closest
    /// triangle; `None` on an empty mesh.
    pub fn closest_point(&self, point: NavVec3, query: NavQuery) -> (r: Option<NavVec3>)
        requires
            self.wf(),
        ensures
            match r {
                Option::None => self.triangles@.len() == 0,
                Option::Some(pt) => self.triangles@.len() > 0 && pt == self.spec_snap(point),
            },
    {
        match self.find_closest_triangle(point, query) {
            Option::Some(t) => Option::Some(self.spatials[t].closest_point(point)),
            Option::None => Option::None,
        }
    }
}



/// Sum and count of the face normals of the triangles among the first
/// `j` that use vertex `vi`.
pub open spec fn normals_sum(m: NavMesh, vi: int, j: int) -> (NavVec3, int)
    decreases j,
{
    if j <= 0 {
        (NavVec3 { x: 0, y: 0, z: 0 }, 0)
    } else {
        let prev = normals_sum(m, vi, j - 1);
        let t = m.triangles@[j - 1];
        if t.first as int == vi || t.second as int == vi || t.third as int == vi {
            (vadd_spec(prev.0, m.tri_normal(j - 1)), prev.1 + 1)
        } else {
            prev
        }
    }
}

/// Where `thicken` moves vertex `vi`: along the normalized average of
/// the face normals of its incident triangles, by `value`.
pub open spec fn thicken_vertex_spec(m: NavMesh, vi: int, value: int) -> NavVec3 {
    let s = normals_sum(m, vi, m.triangles@.len() as int);
    let avg = if s.1 > 1 {
        vdiv_spec(s.0, clamp64(s.1 * FX_ONE))
    } else {
        s.0
    };
    vadd_spec(m.vertices@[vi], vscale_spec(normalize_spec(avg), value))
}

/// Where `scale` moves vertex `vi`: `(v - origin) * value + origin`,
/// componentwise.
pub open spec fn scale_vertex_spec(m: NavMesh, vi: int, value: NavVec3, origin: NavVec3)
    -> NavVec3 {
    vadd_spec(vmul_spec(vsub_spec(m.vertices@[vi], origin), value), origin)
}

fn copied_triangles(v: &Vec<NavTriangle>) -> (r: Vec<NavTriangle>)
    ensures
        r@ == v@,
{
    let mut out: Vec<NavTriangle> = Vec::new();
    let mut i: usize = 0;
    while i < v.len()
        invariant
            0 <= i <= v@.len(),
            out@ == v@.subrange(0, i as int),
        decreases v@.len() - i,
    {
        out.push(v[i]);
        i = i + 1;
    }
    proof {
        assert(out@ =~= v@);
    }
    out
}

impl NavMesh {
    /// A derived mesh whose every vertex is shifted by `value` along the
    /// normalized average of the face normals of its incident triangles;
    /// built fresh over the same triangles.
    pub fn thicken(&self, value: i64) -> (r: NavResult<NavMesh>)
        requires
            self.wf(),
        ensures
            match r {
                Result::Ok(m) => {
                    &&& m.wf()
                    &&& m.triangles@ == self.triangles@
                    &&& m.vertices@.len() == self.vertices@.len()
                    &&& forall|i: int|
                        0 <= i < self.vertices@.len() ==> #[trigger] m.vertices@[i]
                            == thicken_vertex_spec(*self, i, value as int)
                },
                Result::Err(e) => false,
            },
    {
        let nv = self.vertices.len();
        let mut shifted: Vec<NavVec3> = Vec::new();
        let mut i: usize = 0;
        while i < nv
            invariant
                0 <= i <= nv,
                nv == self.vertices@.len(),
                self.wf(),
                shifted@.len() == i,
                forall|k: int|
                    0 <= k < i ==> #[trigger] shifted@[k] == thicken_vertex_spec(
                        *self,
                        k,
                        value as int,
                    ),
            decreases nv - i,
        {
            let nt = self.triangles.len();
            let mut sum = NavVec3::zero();
            let mut count: usize = 0;
            let mut j: usize = 0;
            while j < nt
                invariant
                    0 <= j <= nt,
                    nt == self.triangles@.len(),
                    i < nv,
                    nv == self.vertices@.len(),
                    self.wf(),
                    count <= j,
                    (sum, count as int) == normals_sum(*self, i as int, j as int),
                decreases nt - j,
            {
                let t = self.triangles[j];
                if t.first as usize == i || t.second as usize == i || t.third as usize == i {
                    sum = sum.add(self.spatials[j].normal());
                    count = count + 1;
                }
                j = j + 1;
            }
            let avg = if count > 1 {
                proof {
                    assert(count * FX_ONE < 140737488355328 * 65536) by (nonlinear_arith)
                        requires
                            0 <= count < 0x100000000,
                            FX_ONE == 65536,
                    ;
                }
                sum.div_scalar((count as i64) * FX_ONE)
            } else {
                sum
            };
            shifted.push(self.vertices[i].add(avg.normalize().scale(value)));
            i = i + 1;
        }
        let tris = copied_triangles(&self.triangles);
        let r = Self::new(shifted, tris);
        proof {
            if r is Err {
                let e = choose|e: NavError| r == Result::<NavMesh, NavError>::Err(e);
                assert(first_build_error(self.triangles@, nv as int, 0) is None) by {
                    lemma_no_build_error(self.triangles@, nv as int, 0);
                }
                assert(false);
            }
        }
        r
    }

    /// A derived mesh scaled componentwise by `value` about `origin`
    /// (the mesh origin when none is given); built fresh over the same
    /// triangles.
    pub fn scale(&self, value: NavVec3, origin: Option<NavVec3>) -> (r: NavResult<NavMesh>)
        requires
            self.wf(),
        ensures
            match r {
                Result::Ok(m) => {
                    &&& m.wf()
                    &&& m.triangles@ == self.triangles@
                    &&& m.vertices@.len() == self.vertices@.len()
                    &&& forall|i: int|
                        0 <= i < self.vertices@.len() ==> #[trigger] m.vertices@[i]
                            == scale_vertex_spec(
                            *self,
                            i,
                            value,
                            match origin {
                                Option::Some(o) => o,
                                Option::None => self.origin,
                            },
                        )
                },
                Result::Err(e) => false,
            },
    {
        let o = match origin {
            Option::Some(o) => o,
            Option::None => self.origin,
        };
        let nv = self.vertices.len();
        let mut scaled: Vec<NavVec3> = Vec::new();
        let mut i: usize = 0;
        while i < nv
            invariant
                0 <= i <= nv,
                nv == self.vertices@.len(),
                self.wf(),
                scaled@.len() == i,
                forall|k: int|
                    0 <= k < i ==> #[trigger] scaled@[k] == scale_vertex_spec(*self, k, value, o),
            decreases nv - i,
        {
            scaled.push(self.vertices[i].sub(o).mul_vec(value).add(o));
            i = i + 1;
        }
        let tris = copied_triangles(&self.triangles);
        let r = Self::new(scaled, tris);
        proof {
            if r is Err {
                assert(first_build_error(self.triangles@, nv as int, 0) is None) by {
                    lemma_no_build_error(self.triangles@, nv as int, 0);
                }
                assert(false);
            }
        }
        r
    }
}

/// When every triangle is in bounds, validation finds no error.
pub proof fn lemma_no_build_error(tris: Seq<NavTriangle>, n: int, i: int)
    requires
        forall|k: int| 0 <= k < tris.len() ==> tri_in_bounds(#[trigger] tris[k], n),
        0 <= i,
    ensures
        first_build_error(tris, n, i) is None,
    decreases tris.len() - i,
{
    if i < tris.len() {
        lemma_no_build_error(tris, n, i + 1);
    }
}



/// Plain (unclamped) sum of the segment lengths from segment `i` on.
pub open spec fn tail_len(path: Seq<NavVec3>, i: int) -> int
    decreases path.len() - i,
{
    if i < 1 || i >= path.len() {
        0
    } else {
        magnitude_spec(vsub_spec(path[i], path[i - 1])) + tail_len(path, i + 1)
    }
}

/// With positive segments, every tail sum is positive up to the last
/// segment and zero after it.
proof fn lemma_tail_pos(path: Seq<NavVec3>, i: int)
    requires
        1 <= i <= path.len(),
        forall|j: int|
            1 <= j < path.len() ==> magnitude_spec(vsub_spec(#[trigger] path[j], path[j - 1]))
                > 0,
    ensures
        tail_len(path, i) >= 0,
        i < path.len() ==> tail_len(path, i) > 0,
    decreases path.len() - i,
{
    if i < path.len() {
        lemma_tail_pos(path, i + 1);
    }
}

/// With positive segments and an in-range total, the clamped running
/// length equals the plain sums.
proof fn lemma_upto_tail(path: Seq<NavVec3>, k: int)
    requires
        1 <= k <= path.len() - 1,
        forall|j: int|
            1 <= j < path.len() ==> magnitude_spec(vsub_spec(#[trigger] path[j], path[j - 1]))
                > 0,
        tail_len(path, 1) <= i64::MAX as int,
    ensures
        path_length_upto(path, k) == tail_len(path, 1) - tail_len(path, k + 1),
        0 <= path_length_upto(path, k) <= tail_len(path, 1),
    decreases k,
{
    lemma_tail_pos(path, k + 1);
    lemma_tail_pos(path, k);
    let d = magnitude_spec(vsub_spec(path[k], path[k - 1]));
    assert(tail_len(path, k) == d + tail_len(path, k + 1));
    assert(path_length_upto(path, k) == fx_add_spec(path_length_upto(path, k - 1), d));
    if k == 1 {
        assert(path_length_upto(path, 0) == 0);
        assert(tail_len(path, 1) == d + tail_len(path, 2));
    } else {
        lemma_upto_tail(path, k - 1);
    }
}

/// Walking the remaining tail length from segment `i` lands on the last
/// path point.
proof fn lemma_walk_tail(path: Seq<NavVec3>, i: int)
    requires
        1 <= i <= path.len() - 1,
        forall|j: int|
            1 <= j < path.len() ==> magnitude_spec(vsub_spec(#[trigger] path[j], path[j - 1]))
                > 0,
        forall|j: int|
            1 <= j < path.len() ==> {
                &&& i64::MIN as int <= (#[trigger] path[j]).x - path[j - 1].x <= i64::MAX as int
                &&& i64::MIN as int <= path[j].y - path[j - 1].y <= i64::MAX as int
                &&& i64::MIN as int <= path[j].z - path[j - 1].z <= i64::MAX as int
            },
        tail_len(path, i) <= i64::MAX as int,
    ensures
        point_on_path_walk(path, tail_len(path, i), i) == Option::Some(path[path.len() - 1]),
    decreases path.len() - i,
{
    let d = magnitude_spec(vsub_spec(path[i], path[i - 1]));
    let s = tail_len(path, i);
    lemma_tail_pos(path, i + 1);
    lemma_magnitude_bounds(vsub_spec(path[i], path[i - 1]));
    if i == path.len() - 1 {
        assert(s == d);
        lemma_fx_div_self(d);
        lemma_unproject_one(path[i - 1], path[i]);
    } else {
        assert(s > d);
        assert(fx_sub_spec(s, d) == tail_len(path, i + 1));
        lemma_walk_tail(path, i + 1);
    }
}

/// The point at arc length zero is the path's first point; the point at
/// the full path length is its last. This holds whenever every segment
/// has positive length, no coordinate step leaves the scalar range, and
/// the total length does not saturate.
pub proof fn lemma_point_on_path_ends(path: Seq<NavVec3>)
    requires
        path.len() >= 2,
        forall|j: int|
            1 <= j < path.len() ==> magnitude_spec(vsub_spec(#[trigger] path[j], path[j - 1]))
                > 0,
        forall|j: int|
            1 <= j < path.len() ==> {
                &&& i64::MIN as int <= (#[trigger] path[j]).x - path[j - 1].x <= i64::MAX as int
                &&& i64::MIN as int <= path[j].y - path[j - 1].y <= i64::MAX as int
                &&& i64::MIN as int <= path[j].z - path[j - 1].z <= i64::MAX as int
            },
        tail_len(path, 1) <= i64::MAX as int,
    ensures
        point_on_path_spec(path, 0) == Option::Some(path[0]),
        point_on_path_spec(path, path_length_spec(path)) == Option::Some(
            path[path.len() - 1],
        ),
{
    let total = path_length_spec(path);
    lemma_tail_pos(path, 1);
    if path.len() == 2 {
        let d = magnitude_spec(vsub_spec(path[1], path[0]));
        assert(path_length_upto(path, 0) == 0);
        assert(total == fx_add_spec(0, d));
        lemma_magnitude_bounds(vsub_spec(path[1], path[0]));
        assert(total == d);
        lemma_fx_div_zero_num(d);
        lemma_unproject_zero(path[0], path[1]);
        lemma_fx_div_self(d);
        lemma_unproject_one(path[0], path[1]);
    } else {
        let d1 = magnitude_spec(vsub_spec(path[1], path[0]));
        assert(point_on_path_walk(path, 0, 1) == Option::Some(
            unproject_spec(path[0], path[1], fx_div_spec(0, d1)),
        ));
        lemma_fx_div_zero_num(d1);
        lemma_unproject_zero(path[0], path[1]);
        lemma_upto_tail(path, path.len() - 1);
        assert(total == tail_len(path, 1));
        lemma_walk_tail(path, 1);
    }
}

/// A two-point path is exactly as long as the straight distance between
/// its ends: the shortest-path lower bound holds with equality there.
pub proof fn lemma_path_length_two(a: NavVec3, b: NavVec3)
    ensures
        path_length_spec(seq![a, b]) == magnitude_spec(vsub_spec(b, a)),
{
    let path = seq![a, b];
    lemma_magnitude_bounds(vsub_spec(b, a));
    assert(path_length_upto(path, 1) == fx_add_spec(
        path_length_upto(path, 0),
        magnitude_spec(vsub_spec(path[1], path[0])),
    ));
}


} // verus!
