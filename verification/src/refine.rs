//! Path refinement: lifting a corridor of triangles into a polyline.
//!
//! Two algorithms: `find_path_midpoints` bends at portal midpoints when
//! the surface folds or the straight line leaves the corridor;
//! `find_path_accuracy` cuts corners at portal endpoints and inserts
//! raycast bend points at folds. Each has a spec-level mirror, so the
//! returned polyline is pinned exactly.

use vstd::prelude::*;
use vstd::pervasive::unreached;
use crate::scalar::{FX_ONE, FX_HALF, ZERO_TRESHOLD};
use crate::vec3::{NavVec3, vsub_spec, dot_spec, cross_spec, normalize_spec, midpoint_spec,
    sqr_magnitude_spec, is_line_between_points_spec, raycast_line_spec};
use crate::mesh::{NavMesh, NavConnection, NavTriConnection, NavQuery, NavPathMode, same_pair,
    dedup_spec, dedup_upto, dedup_points, lemma_dedup_props};
use crate::vec3::same_as_spec;
use crate::spatial::closest_point_spec;

verus! {

/// A node of the accuracy refinement: a fixed corner point, or a level
/// change across the edge `(a, b)` with a raycast plane normal.
#[derive(Debug, Clone, Copy)]
pub enum AccNode {
    Point(NavVec3),
    LevelChange(NavVec3, NavVec3, NavVec3),
}

impl NavMesh {
    /// Face normal of triangle `i`.
    pub open spec fn tri_normal(self, i: int) -> NavVec3 {
        self.tri_spatial(i).normal
    }

    /// The shared edge of the connection joining triangles `a` and `b`,
    /// as two vertex positions.
    pub open spec fn portal(self, a: int, b: int) -> (NavVec3, NavVec3) {
        let e = self.conn_at(a, b).edge;
        (self.vertices@[e.0 as int], self.vertices@[e.1 as int])
    }

    /// A usable corridor: at least two triangles, all indices in range,
    /// each consecutive pair connected.
    pub open spec fn valid_corridor(self, c: Seq<usize>) -> bool {
        &&& c.len() >= 2
        &&& forall|i: int| 0 <= i < c.len() ==> (#[trigger] c[i] as int) < self.triangles@.len()
        &&& forall|i: int|
            0 <= i < c.len() - 1 ==> self.has_connection(#[trigger] c[i] as int, c[i + 1] as int)
    }

    /// The connection joining triangles `a` and `b`, scanned in storage
    /// order; under well-formedness the matching entry is unique.
    fn find_connection(&self, a: u32, b: u32) -> (r: Option<NavTriConnection>)
        requires
            self.wf(),
        ensures
            match r {
                Option::Some(c) => self.has_connection(a as int, b as int) && c == self.conn_at(
                    a as int,
                    b as int,
                ),
                Option::None => !self.has_connection(a as int, b as int),
            },
    {
        let m = self.connections.len();
        let mut k: usize = 0;
        while k < m
            invariant
                0 <= k <= m,
                m == self.connections@.len(),
                self.wf(),
                forall|l: int|
                    0 <= l < k ==> !same_pair(
                        (#[trigger] self.connections@[l]).tris,
                        NavConnection(a, b),
                    ),
            decreases m - k,
        {
            let c = self.connections[k];
            if (c.tris.0 == a && c.tris.1 == b) || (c.tris.0 == b && c.tris.1 == a) {
                proof {
                    assert(same_pair(self.connections@[k as int].tris, NavConnection(a, b)));
                    let ci = self.conn_index(a as int, b as int);
                    if ci != k as int {
                        assert(same_pair(self.connections@[ci].tris, NavConnection(a, b)));
                        assert(false);
                    }
                }
                return Option::Some(c);
            }
            k = k + 1;
        }
        Option::None
    }

    /// The two-triangle midpoints rule: bend at the portal midpoint when
    /// the faces fold or the straight segment misses the portal.
    pub open spec fn midpoints_two_spec(self, from: NavVec3, to: NavVec3, c: Seq<usize>) -> Seq<
        NavVec3,
    > {
        let p = self.portal(c[0] as int, c[1] as int);
        let n = self.tri_normal(c[0] as int);
        let m = self.tri_normal(c[1] as int);
        if dot_spec(n, m) < FX_ONE - ZERO_TRESHOLD || !is_line_between_points_spec(
            from,
            to,
            p.0,
            p.1,
            n,
        ) {
            seq![from, midpoint_spec(p.0, p.1), to]
        } else {
            seq![from, to]
        }
    }

    /// State of the midpoints walk after `w` corridor windows: the
    /// current start point, the previous face normal, and the points
    /// emitted so far.
    pub open spec fn mid_state(self, from: NavVec3, c: Seq<usize>, w: int) -> (
        NavVec3,
        NavVec3,
        Seq<NavVec3>,
    )
        decreases w,
    {
        if w <= 0 {
            (from, self.tri_normal(c[0] as int), seq![from])
        } else {
            let st = self.mid_state(from, c, w - 1);
            let p = self.portal(c[w - 1] as int, c[w] as int);
            let point = midpoint_spec(p.0, p.1);
            let normal = self.tri_normal(c[w] as int);
            if dot_spec(st.1, normal) < FX_ONE - ZERO_TRESHOLD {
                (point, normal, st.2.push(point))
            } else {
                let q = self.portal(c[w] as int, c[w + 1] as int);
                let end = midpoint_spec(q.0, q.1);
                if !is_line_between_points_spec(st.0, end, p.0, p.1, normal) {
                    (point, normal, st.2.push(point))
                } else {
                    (st.0, normal, st.2)
                }
            }
        }
    }

    /// The midpoints polyline before duplicate removal.
    pub open spec fn midpoints_raw_spec(self, from: NavVec3, to: NavVec3, c: Seq<usize>) -> Seq<
        NavVec3,
    > {
        if c.len() == 2 {
            self.midpoints_two_spec(from, to, c)
        } else {
            let st = self.mid_state(from, c, c.len() - 2);
            let p = self.portal(c[c.len() - 2] as int, c[c.len() - 1] as int);
            let n = self.tri_normal(c[c.len() - 2] as int);
            let m = self.tri_normal(c[c.len() - 1] as int);
            let pts = if dot_spec(n, m) < FX_ONE - ZERO_TRESHOLD || !is_line_between_points_spec(
                st.0,
                to,
                p.0,
                p.1,
                n,
            ) {
                st.2.push(midpoint_spec(p.0, p.1))
            } else {
                st.2
            };
            pts.push(to)
        }
    }

    /// The midpoints polyline: the raw walk with consecutive duplicate
    /// points collapsed.
    pub open spec fn midpoints_spec(self, from: NavVec3, to: NavVec3, c: Seq<usize>) -> Seq<
        NavVec3,
    > {
        dedup_spec(self.midpoints_raw_spec(from, to, c))
    }

    /// The raw midpoints walk starts at `from` and ends at `to`.
    proof fn lemma_midpoints_raw_ends(self, from: NavVec3, to: NavVec3, c: Seq<usize>, w: int)
        requires
            c.len() >= 2,
            0 <= w,
        ensures
            self.mid_state(from, c, w).2.len() >= 1,
            self.mid_state(from, c, w).2[0] == from,
        decreases w,
    {
        if w > 0 {
            self.lemma_midpoints_raw_ends(from, to, c, w - 1);
        }
    }

    /// Refine a corridor through portal midpoints; see `midpoints_spec`.
    /// The result starts at `from`, ends at `to`, and holds no two
    /// consecutive equal points.
    #[verifier::rlimit(100)]
    pub fn find_path_midpoints(&self, from: NavVec3, to: NavVec3, triangles: &Vec<usize>) -> (r:
        Vec<NavVec3>)
        requires
            self.wf(),
            self.valid_corridor(triangles@),
        ensures
            r@ == self.midpoints_spec(from, to, triangles@),
            r@.len() >= 1,
            r@[0] == from,
            r@[r@.len() - 1] == to,
            forall|i: int| 0 <= i < r@.len() - 1 ==> #[trigger] r@[i] != r@[i + 1],
    {
        let n = triangles.len();
        let mut raw: Vec<NavVec3> = Vec::new();
        if n == 2 {
            let conn = match self.find_connection(triangles[0] as u32, triangles[1] as u32) {
                Option::Some(c) => c,
                Option::None => unreached(),
            };
            let a = self.vertices[conn.edge.0 as usize];
            let b = self.vertices[conn.edge.1 as usize];
            let nrm = self.spatials[triangles[0]].normal();
            let m = self.spatials[triangles[1]].normal();
            raw.push(from);
            if nrm.dot(m) < FX_ONE - ZERO_TRESHOLD || !NavVec3::is_line_between_points(
                from,
                to,
                a,
                b,
                nrm,
            ) {
                raw.push(a.add(b).scale(FX_HALF));
            }
            raw.push(to);
            proof {
                assert(raw@ =~= self.midpoints_raw_spec(from, to, triangles@));
            }
        } else {
            let mut start = from;
            let mut last_normal = self.spatials[triangles[0]].normal();
            raw.push(from);
            let mut w: usize = 1;
            while w + 1 < n
                invariant
                    1 <= w < n,
                    n == triangles@.len(),
                    n >= 3,
                    self.wf(),
                    self.valid_corridor(triangles@),
                    (start, last_normal, raw@) == self.mid_state(from, triangles@, w - 1),
                decreases n - w,
            {
                let conn = match self.find_connection(
                    triangles[w - 1] as u32,
                    triangles[w] as u32,
                ) {
                    Option::Some(c) => c,
                    Option::None => unreached(),
                };
                let a = self.vertices[conn.edge.0 as usize];
                let b = self.vertices[conn.edge.1 as usize];
                let point = a.add(b).scale(FX_HALF);
                let normal = self.spatials[triangles[w]].normal();
                let old_last = last_normal;
                last_normal = normal;
                if old_last.dot(normal) < FX_ONE - ZERO_TRESHOLD {
                    start = point;
                    raw.push(point);
                } else {
                    let conn2 = match self.find_connection(
                        triangles[w] as u32,
                        triangles[w + 1] as u32,
                    ) {
                        Option::Some(c) => c,
                        Option::None => unreached(),
                    };
                    let c2 = self.vertices[conn2.edge.0 as usize];
                    let d2 = self.vertices[conn2.edge.1 as usize];
                    let end = c2.add(d2).scale(FX_HALF);
                    if !NavVec3::is_line_between_points(start, end, a, b, normal) {
                        start = point;
                        raw.push(point);
                    }
                }
                w = w + 1;
            }
            let conn = match self.find_connection(triangles[n - 2] as u32, triangles[n - 1]
                as u32) {
                Option::Some(c) => c,
                Option::None => unreached(),
            };
            let a = self.vertices[conn.edge.0 as usize];
            let b = self.vertices[conn.edge.1 as usize];
            let nrm = self.spatials[triangles[n - 2]].normal();
            let m = self.spatials[triangles[n - 1]].normal();
            if nrm.dot(m) < FX_ONE - ZERO_TRESHOLD || !NavVec3::is_line_between_points(
                start,
                to,
                a,
                b,
                nrm,
            ) {
                raw.push(a.add(b).scale(FX_HALF));
            }
            raw.push(to);
            proof {
                assert(raw@ =~= self.midpoints_raw_spec(from, to, triangles@));
            }
        }
        proof {
            self.lemma_midpoints_raw_ends(from, to, triangles@, triangles@.len() - 2);
            assert(raw@[0] == from);
            assert(raw@[raw@.len() - 1] == to);
            lemma_dedup_props(raw@, raw@.len() as int);
        }
        dedup_points(raw)
    }
}


/// The next fixed corner at or after index `i`, if any.
pub open spec fn next_point(nodes: Seq<AccNode>, i: int) -> Option<NavVec3>
    decreases nodes.len() - i,
{
    if i < 0 || i >= nodes.len() {
        Option::None
    } else {
        match nodes[i] {
            AccNode::Point(p) => Option::Some(p),
            AccNode::LevelChange(_a, _b, _n) => next_point(nodes, i + 1),
        }
    }
}

/// State of the materialization walk after `i` nodes: the running point
/// and the points emitted so far (starting from `from`). A corner pins
/// the path; a level change raycasts from the running point toward the
/// next corner (or `to`) against the fold plane.
pub open spec fn mat_state(nodes: Seq<AccNode>, from: NavVec3, to: NavVec3, i: int) -> (
    NavVec3,
    Seq<NavVec3>,
)
    decreases i,
{
    if i <= 0 {
        (from, seq![from])
    } else {
        let st = mat_state(nodes, from, to, i - 1);
        match nodes[i - 1] {
            AccNode::Point(p) => (p, st.1.push(p)),
            AccNode::LevelChange(a, _b, nn) => {
                let nxt = match next_point(nodes, i) {
                    Option::Some(p) => p,
                    Option::None => to,
                };
                match raycast_line_spec(st.0, nxt, a, nn) {
                    Option::Some(p) => (st.0, st.1.push(p)),
                    Option::None => st,
                }
            },
        }
    }
}

impl NavMesh {
    /// The two-triangle accuracy rule: a corner when the straight
    /// segment misses the portal, a raycast bend at a fold, else the
    /// straight segment.
    pub open spec fn accuracy_two_spec(self, from: NavVec3, to: NavVec3, c: Seq<usize>) -> Seq<
        NavVec3,
    > {
        let p = self.portal(c[0] as int, c[1] as int);
        let nrm = self.tri_normal(c[0] as int);
        let m = self.tri_normal(c[1] as int);
        if !is_line_between_points_spec(from, to, p.0, p.1, nrm) {
            let q = if sqr_magnitude_spec(vsub_spec(from, p.0)) < sqr_magnitude_spec(
                vsub_spec(from, p.1),
            ) {
                p.0
            } else {
                p.1
            };
            seq![from, q, to]
        } else if dot_spec(nrm, m) < FX_ONE - ZERO_TRESHOLD {
            match raycast_line_spec(
                from,
                to,
                p.0,
                cross_spec(normalize_spec(vsub_spec(p.1, p.0)), nrm),
            ) {
                Option::Some(pt) => seq![from, pt, to],
                Option::None => seq![from, to],
            }
        } else {
            seq![from, to]
        }
    }

    /// State of the accuracy node walk after `w` corridor windows: the
    /// current start point and the nodes emitted so far.
    pub open spec fn acc_state(self, from: NavVec3, c: Seq<usize>, w: int) -> (
        NavVec3,
        Seq<AccNode>,
    )
        decreases w,
    {
        if w <= 0 {
            (from, Seq::empty())
        } else {
            let st = self.acc_state(from, c, w - 1);
            let p = self.portal(c[w - 1] as int, c[w] as int);
            let q = self.portal(c[w] as int, c[w + 1] as int);
            let normal = self.tri_normal(c[w] as int);
            let old_last = self.tri_normal(c[w - 1] as int);
            if !is_line_between_points_spec(st.0, q.0, p.0, p.1, normal)
                || !is_line_between_points_spec(st.0, q.1, p.0, p.1, normal) {
                let pt = if sqr_magnitude_spec(vsub_spec(st.0, p.0)) < sqr_magnitude_spec(
                    vsub_spec(st.0, p.1),
                ) {
                    p.0
                } else {
                    p.1
                };
                (pt, st.1.push(AccNode::Point(pt)))
            } else if dot_spec(old_last, normal) < FX_ONE - ZERO_TRESHOLD {
                let nn = cross_spec(normalize_spec(vsub_spec(p.1, p.0)), old_last);
                (st.0, st.1.push(AccNode::LevelChange(p.0, p.1, nn)))
            } else {
                st
            }
        }
    }

    /// All accuracy nodes of a corridor of length three or more: the
    /// interior windows, then the rule for the final portal.
    pub open spec fn acc_nodes_spec(self, from: NavVec3, to: NavVec3, c: Seq<usize>) -> Seq<
        AccNode,
    > {
        let st = self.acc_state(from, c, c.len() - 2);
        let p = self.portal(c[c.len() - 2] as int, c[c.len() - 1] as int);
        let nrm = self.tri_normal(c[c.len() - 2] as int);
        let m = self.tri_normal(c[c.len() - 1] as int);
        if !is_line_between_points_spec(st.0, to, p.0, p.1, nrm) {
            let pt = if sqr_magnitude_spec(vsub_spec(st.0, p.0)) < sqr_magnitude_spec(
                vsub_spec(st.0, p.1),
            ) {
                p.0
            } else {
                p.1
            };
            st.1.push(AccNode::Point(pt))
        } else if dot_spec(nrm, m) < FX_ONE - ZERO_TRESHOLD {
            st.1.push(
                AccNode::LevelChange(
                    p.0,
                    p.1,
                    cross_spec(normalize_spec(vsub_spec(p.1, p.0)), nrm),
                ),
            )
        } else {
            st.1
        }
    }

    /// The accuracy polyline before duplicate removal.
    pub open spec fn accuracy_raw_spec(self, from: NavVec3, to: NavVec3, c: Seq<usize>) -> Seq<
        NavVec3,
    > {
        if c.len() == 2 {
            self.accuracy_two_spec(from, to, c)
        } else {
            let nodes = self.acc_nodes_spec(from, to, c);
            mat_state(nodes, from, to, nodes.len() as int).1.push(to)
        }
    }

    /// The accuracy polyline: the raw walk with consecutive duplicate
    /// points collapsed.
    pub open spec fn accuracy_spec(self, from: NavVec3, to: NavVec3, c: Seq<usize>) -> Seq<
        NavVec3,
    > {
        dedup_spec(self.accuracy_raw_spec(from, to, c))
    }

    /// The materialization walk starts at `from`.
    proof fn lemma_mat_ends(nodes: Seq<AccNode>, from: NavVec3, to: NavVec3, i: int)
        requires
            0 <= i,
        ensures
            mat_state(nodes, from, to, i).1.len() >= 1,
            mat_state(nodes, from, to, i).1[0] == from,
        decreases i,
    {
        if i > 0 {
            Self::lemma_mat_ends(nodes, from, to, i - 1);
        }
    }

    fn acc_collect_nodes(&self, from: NavVec3, to: NavVec3, triangles: &Vec<usize>) -> (r: Vec<
        AccNode,
    >)
        requires
            self.wf(),
            self.valid_corridor(triangles@),
            triangles@.len() >= 3,
        ensures
            r@ == self.acc_nodes_spec(from, to, triangles@),
    {
        let n = triangles.len();
        let mut nodes: Vec<AccNode> = Vec::new();
        let mut start = from;
        let mut w: usize = 1;
        while w + 1 < n
            invariant
                1 <= w < n,
                n == triangles@.len(),
                n >= 3,
                self.wf(),
                self.valid_corridor(triangles@),
                (start, nodes@) == self.acc_state(from, triangles@, w - 1),
            decreases n - w,
        {
            let conn = match self.find_connection(triangles[w - 1] as u32, triangles[w] as u32) {
                Option::Some(c) => c,
                Option::None => unreached(),
            };
            let a = self.vertices[conn.edge.0 as usize];
            let b = self.vertices[conn.edge.1 as usize];
            let conn2 = match self.find_connection(triangles[w] as u32, triangles[w + 1]
                as u32) {
                Option::Some(c) => c,
                Option::None => unreached(),
            };
            let c2 = self.vertices[conn2.edge.0 as usize];
            let d2 = self.vertices[conn2.edge.1 as usize];
            let normal = self.spatials[triangles[w]].normal();
            let old_last = self.spatials[triangles[w - 1]].normal();
            if !NavVec3::is_line_between_points(start, c2, a, b, normal)
                || !NavVec3::is_line_between_points(start, d2, a, b, normal) {
                let da = start.sub(a).sqr_magnitude();
                let db = start.sub(b).sqr_magnitude();
                start = if da < db {
                    a
                } else {
                    b
                };
                nodes.push(AccNode::Point(start));
            } else if old_last.dot(normal) < FX_ONE - ZERO_TRESHOLD {
                let nn = b.sub(a).normalize().cross(old_last);
                nodes.push(AccNode::LevelChange(a, b, nn));
            }
            w = w + 1;
        }
        let conn = match self.find_connection(triangles[n - 2] as u32, triangles[n - 1] as u32) {
            Option::Some(c) => c,
            Option::None => unreached(),
        };
        let a = self.vertices[conn.edge.0 as usize];
        let b = self.vertices[conn.edge.1 as usize];
        let nrm = self.spatials[triangles[n - 2]].normal();
        let m = self.spatials[triangles[n - 1]].normal();
        if !NavVec3::is_line_between_points(start, to, a, b, nrm) {
            let da = start.sub(a).sqr_magnitude();
            let db = start.sub(b).sqr_magnitude();
            let point = if da < db {
                a
            } else {
                b
            };
            nodes.push(AccNode::Point(point));
        } else if nrm.dot(m) < FX_ONE - ZERO_TRESHOLD {
            let nn = b.sub(a).normalize().cross(nrm);
            nodes.push(AccNode::LevelChange(a, b, nn));
        }
        nodes
    }
}

/// The first corner at or after index `i` of the node list.
fn next_point_exec(nodes: &Vec<AccNode>, i: usize) -> (r: Option<NavVec3>)
    requires
        i <= nodes@.len(),
    ensures
        r == next_point(nodes@, i as int),
{
    let mut j: usize = i;
    while j < nodes.len()
        invariant
            i <= j <= nodes@.len(),
            next_point(nodes@, i as int) == next_point(nodes@, j as int),
        decreases nodes@.len() - j,
    {
        match nodes[j] {
            AccNode::Point(p) => {
                return Option::Some(p);
            },
            AccNode::LevelChange(_a, _b, _n) => {},
        }
        j = j + 1;
    }
    Option::None
}

/// Walk the node list into points: corners pin the running point, level
/// changes contribute raycast hits; `to` is appended at the end.
fn acc_materialize(nodes: &Vec<AccNode>, from: NavVec3, to: NavVec3) -> (r: Vec<NavVec3>)
    ensures
        r@ == mat_state(nodes@, from, to, nodes@.len() as int).1.push(to),
{
    let mut pts: Vec<NavVec3> = Vec::new();
    pts.push(from);
    let mut point = from;
    let mut i: usize = 0;
    while i < nodes.len()
        invariant
            0 <= i <= nodes@.len(),
            (point, pts@) == mat_state(nodes@, from, to, i as int),
        decreases nodes@.len() - i,
    {
        match nodes[i] {
            AccNode::Point(p) => {
                point = p;
                pts.push(p);
            },
            AccNode::LevelChange(a, b, nn) => {
                let nxt = match next_point_exec(nodes, i + 1) {
                    Option::Some(p) => p,
                    Option::None => to,
                };
                match NavVec3::raycast_line(point, nxt, a, b, nn) {
                    Option::Some(p) => {
                        pts.push(p);
                    },
                    Option::None => {},
                }
            },
        }
        i = i + 1;
    }
    pts.push(to);
    pts
}

impl NavMesh {
    /// Refine a corridor by cutting corners at portal endpoints and
    /// bending at folds; see `accuracy_spec`. The result starts at
    /// `from`, ends at `to`, and holds no two consecutive equal points.
    #[verifier::rlimit(100)]
    pub fn find_path_accuracy(&self, from: NavVec3, to: NavVec3, triangles: &Vec<usize>) -> (r:
        Vec<NavVec3>)
        requires
            self.wf(),
            self.valid_corridor(triangles@),
        ensures
            r@ == self.accuracy_spec(from, to, triangles@),
            r@.len() >= 1,
            r@[0] == from,
            r@[r@.len() - 1] == to,
            forall|i: int| 0 <= i < r@.len() - 1 ==> #[trigger] r@[i] != r@[i + 1],
    {
        let n = triangles.len();
        let mut raw: Vec<NavVec3> = Vec::new();
        if n == 2 {
            let conn = match self.find_connection(triangles[0] as u32, triangles[1] as u32) {
                Option::Some(c) => c,
                Option::None => unreached(),
            };
            let a = self.vertices[conn.edge.0 as usize];
            let b = self.vertices[conn.edge.1 as usize];
            let nrm = self.spatials[triangles[0]].normal();
            let m = self.spatials[triangles[1]].normal();
            raw.push(from);
            if !NavVec3::is_line_between_points(from, to, a, b, nrm) {
                let da = from.sub(a).sqr_magnitude();
                let db = from.sub(b).sqr_magnitude();
                raw.push(if da < db {
                    a
                } else {
                    b
                });
            } else if nrm.dot(m) < FX_ONE - ZERO_TRESHOLD {
                match NavVec3::raycast_line(from, to, a, b, b.sub(a).normalize().cross(nrm)) {
                    Option::Some(p) => {
                        raw.push(p);
                    },
                    Option::None => {},
                }
            }
            raw.push(to);
            proof {
                assert(raw@ =~= self.accuracy_raw_spec(from, to, triangles@));
            }
        } else {
            let nodes = self.acc_collect_nodes(from, to, triangles);
            raw = acc_materialize(&nodes, from, to);
        }
        proof {
            if triangles@.len() != 2 {
                Self::lemma_mat_ends(
                    self.acc_nodes_spec(from, to, triangles@),
                    from,
                    to,
                    self.acc_nodes_spec(from, to, triangles@).len() as int,
                );
            }
            assert(raw@[0] == from);
            assert(raw@[raw@.len() - 1] == to);
            lemma_dedup_props(raw@, raw@.len() as int);
        }
        dedup_points(raw)
    }
}



impl NavMesh {
    /// Shortest path between two points, with a custom edge filter.
    /// Coincident endpoints (within tolerance) and an empty mesh give
    /// `None`; otherwise both points snap onto their closest triangles
    /// and the corridor found between those triangles is refined per
    /// `mode`. A returned polyline runs from the snapped `from` to the
    /// snapped `to`, holds no two consecutive equal points unless both
    /// snapped endpoints coincide on a single triangle, and is exactly
    /// the chosen refinement of some corridor between the snapped
    /// triangles, every step of which the filter approved (the straight
    /// two-point segment when that corridor is a single triangle).
    pub fn find_path_custom<F: Fn(i64, usize, usize) -> bool>(
        &self,
        from: NavVec3,
        to: NavVec3,
        query: NavQuery,
        mode: NavPathMode,
        filter: F,
    ) -> (r: Option<Vec<NavVec3>>)
        requires
            self.wf(),
            self.connections@.len() < 0xFFFFFFFF,
            forall|w: i64, a: usize, b: usize| #[trigger] filter.requires((w, a, b)),
        ensures
            same_as_spec(from, to) ==> r is None,
            self.triangles@.len() == 0 ==> r is None,
            match r {
                Option::Some(p) => {
                    &&& !same_as_spec(from, to)
                    &&& self.triangles@.len() > 0
                    &&& p@.len() >= 1
                    &&& p@[0] == self.spec_snap(from)
                    &&& p@[p@.len() - 1] == self.spec_snap(to)
                    &&& (forall|i: int| 0 <= i < p@.len() - 1 ==> #[trigger] p@[i] != p@[i + 1])
                        || (p@.len() == 2 && p@[0] == p@[1])
                    &&& exists|c: Seq<usize>|
                        {
                            &&& #[trigger] self.corridor_between(
                                c,
                                self.spec_closest_triangle(from)->Some_0,
                                self.spec_closest_triangle(to)->Some_0,
                            )
                            &&& forall|i: int, j: int| 0 <= i < j < c.len() ==> c[i] != c[j]
                            &&& forall|j: int|
                                0 <= j < c.len() - 1 ==> filter.ensures(
                                    (
                                        (#[trigger] self.conn_at(
                                            c[j] as int,
                                            c[j + 1] as int,
                                        )).weight,
                                        self.conn_at(c[j] as int, c[j + 1] as int).tris.0
                                            as usize,
                                        self.conn_at(c[j] as int, c[j + 1] as int).tris.1
                                            as usize,
                                    ),
                                    true,
                                )
                            &&& c.len() == 1 ==> p@ =~= seq![
                                self.spec_snap(from),
                                self.spec_snap(to),
                            ]
                            &&& c.len() >= 2 && mode == NavPathMode::Accuracy ==> p@
                                == self.accuracy_spec(
                                self.spec_snap(from),
                                self.spec_snap(to),
                                c,
                            )
                            &&& c.len() >= 2 && mode == NavPathMode::MidPoints ==> p@
                                == self.midpoints_spec(
                                self.spec_snap(from),
                                self.spec_snap(to),
                                c,
                            )
                        }
                },
                Option::None => true,
            },
            (r is None && !same_as_spec(from, to) && self.triangles@.len() > 0 && forall|
                w: i64,
                a: usize,
                b: usize,
                ret: bool,
            |
                #[trigger] filter.ensures((w, a, b), ret) ==> ret) ==> !self.spec_connected(
                self.spec_closest_triangle(from)->Some_0,
                self.spec_closest_triangle(to)->Some_0,
            ),
            (r is None && !same_as_spec(from, to) && self.triangles@.len() > 0) ==> !(exists|
                c: Seq<usize>,
            |
                #[trigger] self.corridor_between(
                    c,
                    self.spec_closest_triangle(from)->Some_0,
                    self.spec_closest_triangle(to)->Some_0,
                ) && (forall|j: int, ret: bool|
                    0 <= j < c.len() - 1 && #[trigger] filter.ensures(
                        (
                            (self.conn_at(c[j] as int, c[j + 1] as int)).weight,
                            self.conn_at(c[j] as int, c[j + 1] as int).tris.0 as usize,
                            self.conn_at(c[j] as int, c[j + 1] as int).tris.1 as usize,
                        ),
                        ret,
                    ) ==> ret)),
    {
        if from.same_as(to) {
            return Option::None;
        }
        let start = match self.find_closest_triangle(from, query) {
            Option::Some(s) => s,
            Option::None => {
                return Option::None;
            },
        };
        let end = match self.find_closest_triangle(to, query) {
            Option::Some(e) => e,
            Option::None => {
                return Option::None;
            },
        };
        let from2 = self.spatials[start].closest_point(from);
        let to2 = self.spatials[end].closest_point(to);
        let corridor = match self.find_path_triangles_custom(start, end, filter) {
            Option::Some(pc) => pc.0,
            Option::None => {
                proof {
                    assert(start as int == self.spec_closest_triangle(from)->Some_0);
                    assert(end as int == self.spec_closest_triangle(to)->Some_0);
                }
                return Option::None;
            },
        };
        if corridor.len() == 1 {
            let mut out: Vec<NavVec3> = Vec::new();
            out.push(from2);
            out.push(to2);
            proof {
                assert(self.corridor_between(
                    corridor@,
                    self.spec_closest_triangle(from)->Some_0,
                    self.spec_closest_triangle(to)->Some_0,
                ));
                assert(out@ =~= seq![self.spec_snap(from), self.spec_snap(to)]);
            }
            return Option::Some(out);
        }
        proof {
            assert(self.valid_corridor(corridor@));
        }
        let path = match mode {
            NavPathMode::Accuracy => self.find_path_accuracy(from2, to2, &corridor),
            NavPathMode::MidPoints => self.find_path_midpoints(from2, to2, &corridor),
        };
        proof {
            assert(self.corridor_between(
                corridor@,
                self.spec_closest_triangle(from)->Some_0,
                self.spec_closest_triangle(to)->Some_0,
            ));
        }
        Option::Some(path)
    }

    /// Shortest path between two points with every connection usable;
    /// see `find_path_custom`.
    pub fn find_path(&self, from: NavVec3, to: NavVec3, query: NavQuery, mode: NavPathMode) -> (r:
        Option<Vec<NavVec3>>)
        requires
            self.wf(),
            self.connections@.len() < 0xFFFFFFFF,
        ensures
            same_as_spec(from, to) ==> r is None,
            self.triangles@.len() == 0 ==> r is None,
            match r {
                Option::Some(p) => {
                    &&& !same_as_spec(from, to)
                    &&& self.triangles@.len() > 0
                    &&& p@.len() >= 1
                    &&& p@[0] == self.spec_snap(from)
                    &&& p@[p@.len() - 1] == self.spec_snap(to)
                    &&& (forall|i: int| 0 <= i < p@.len() - 1 ==> #[trigger] p@[i] != p@[i + 1])
                        || (p@.len() == 2 && p@[0] == p@[1])
                    &&& exists|c: Seq<usize>|
                        {
                            &&& #[trigger] self.corridor_between(
                                c,
                                self.spec_closest_triangle(from)->Some_0,
                                self.spec_closest_triangle(to)->Some_0,
                            )
                            &&& forall|i: int, j: int| 0 <= i < j < c.len() ==> c[i] != c[j]
                            &&& c.len() == 1 ==> p@ =~= seq![
                                self.spec_snap(from),
                                self.spec_snap(to),
                            ]
                            &&& c.len() >= 2 && mode == NavPathMode::Accuracy ==> p@
                                == self.accuracy_spec(
                                self.spec_snap(from),
                                self.spec_snap(to),
                                c,
                            )
                            &&& c.len() >= 2 && mode == NavPathMode::MidPoints ==> p@
                                == self.midpoints_spec(
                                self.spec_snap(from),
                                self.spec_snap(to),
                                c,
                            )
                        }
                },
                Option::None => true,
            },
            (r is None && !same_as_spec(from, to) && self.triangles@.len() > 0)
                ==> !self.spec_connected(
                self.spec_closest_triangle(from)->Some_0,
                self.spec_closest_triangle(to)->Some_0,
            ),
    {
        let cl = (|_w: i64, _a: usize, _b: usize| -> (r: bool)
            ensures
                r,
            { true });
        let r = self.find_path_custom(from, to, query, mode, cl);
        proof {
            if r is Some {
                let p = r->Some_0;
                let c = choose|c: Seq<usize>|
                    {
                        &&& #[trigger] self.corridor_between(
                            c,
                            self.spec_closest_triangle(from)->Some_0,
                            self.spec_closest_triangle(to)->Some_0,
                        )
                        &&& forall|i: int, j: int| 0 <= i < j < c.len() ==> c[i] != c[j]
                        &&& forall|j: int|
                            0 <= j < c.len() - 1 ==> cl.ensures(
                                (
                                    (#[trigger] self.conn_at(c[j] as int, c[j + 1] as int)).weight,
                                    self.conn_at(c[j] as int, c[j + 1] as int).tris.0 as usize,
                                    self.conn_at(c[j] as int, c[j + 1] as int).tris.1 as usize,
                                ),
                                true,
                            )
                        &&& c.len() == 1 ==> p@ =~= seq![
                            self.spec_snap(from),
                            self.spec_snap(to),
                        ]
                        &&& c.len() >= 2 && mode == NavPathMode::Accuracy ==> p@
                            == self.accuracy_spec(self.spec_snap(from), self.spec_snap(to), c)
                        &&& c.len() >= 2 && mode == NavPathMode::MidPoints ==> p@
                            == self.midpoints_spec(self.spec_snap(from), self.spec_snap(to), c)
                    };
                assert(self.corridor_between(
                    c,
                    self.spec_closest_triangle(from)->Some_0,
                    self.spec_closest_triangle(to)->Some_0,
                ));
            }
        }
        r
    }
}



impl NavMesh {
    /// For a two-triangle corridor whose faces are coplanar within
    /// tolerance and whose straight segment passes through the shared
    /// portal, both refinement modes return the straight path
    /// `[from, to]`.
    pub proof fn lemma_straight_two_corridor(self, from: NavVec3, to: NavVec3, c: Seq<usize>)
        requires
            self.wf(),
            self.valid_corridor(c),
            c.len() == 2,
            from != to,
            dot_spec(self.tri_normal(c[0] as int), self.tri_normal(c[1] as int)) >= FX_ONE
                - ZERO_TRESHOLD,
            is_line_between_points_spec(
                from,
                to,
                self.portal(c[0] as int, c[1] as int).0,
                self.portal(c[0] as int, c[1] as int).1,
                self.tri_normal(c[0] as int),
            ),
        ensures
            self.midpoints_spec(from, to, c) =~= seq![from, to],
            self.accuracy_spec(from, to, c) =~= seq![from, to],
    {
        let raw = seq![from, to];
        assert(self.midpoints_raw_spec(from, to, c) == raw);
        assert(self.accuracy_raw_spec(from, to, c) == raw);
        assert(dedup_upto(raw, 1) == seq![raw[0]]);
        assert(dedup_spec(raw) =~= seq![from, to]);
    }
}


} // verus!
