//! 3D vectors over the fixed-point scalar.
//!
//! Every operation has a spec-level mirror (`*_spec`) that states its
//! result exactly, so contracts further up can pin geometry down.

use vstd::prelude::*;
use crate::scalar::{
    FX_ONE, FX_HALF, ZERO_TRESHOLD, c64, abs_i, fx_add, fx_add_spec, fx_sub, fx_sub_spec, fx_mul,
    fx_mul_spec, fx_div, fx_div_spec, fx_sqrt, fx_sqrt_spec, is_sqrt_floor, sqrt_floor,
    lemma_sqrt_floor_exists, lemma_fx_mul_one, lemma_fx_mul_zero,
};

verus! {

/// A point or direction; components are fixed-point scalars.
#[derive(Debug, Copy, Clone, PartialEq, Eq, Structural)]
pub struct NavVec3 {
    pub x: i64,
    pub y: i64,
    pub z: i64,
}

#[verifier::opaque]
pub open spec fn vadd_spec(a: NavVec3, b: NavVec3) -> NavVec3 {
    NavVec3 { x: c64(a.x + b.x), y: c64(a.y + b.y), z: c64(a.z + b.z) }
}

#[verifier::opaque]
pub open spec fn vsub_spec(a: NavVec3, b: NavVec3) -> NavVec3 {
    NavVec3 { x: c64(a.x - b.x), y: c64(a.y - b.y), z: c64(a.z - b.z) }
}

#[verifier::opaque]
pub open spec fn vscale_spec(a: NavVec3, s: int) -> NavVec3 {
    NavVec3 {
        x: c64(fx_mul_spec(a.x as int, s)),
        y: c64(fx_mul_spec(a.y as int, s)),
        z: c64(fx_mul_spec(a.z as int, s)),
    }
}

/// Componentwise product, as used by mesh scaling.
#[verifier::opaque]
pub open spec fn vmul_spec(a: NavVec3, b: NavVec3) -> NavVec3 {
    NavVec3 {
        x: c64(fx_mul_spec(a.x as int, b.x as int)),
        y: c64(fx_mul_spec(a.y as int, b.y as int)),
        z: c64(fx_mul_spec(a.z as int, b.z as int)),
    }
}

#[verifier::opaque]
pub open spec fn vdiv_spec(a: NavVec3, s: int) -> NavVec3 {
    NavVec3 {
        x: c64(fx_div_spec(a.x as int, s)),
        y: c64(fx_div_spec(a.y as int, s)),
        z: c64(fx_div_spec(a.z as int, s)),
    }
}

#[verifier::opaque]
pub open spec fn dot_spec(a: NavVec3, b: NavVec3) -> int {
    fx_add_spec(
        fx_add_spec(fx_mul_spec(a.x as int, b.x as int), fx_mul_spec(a.y as int, b.y as int)),
        fx_mul_spec(a.z as int, b.z as int),
    )
}

#[verifier::opaque]
pub open spec fn cross_spec(a: NavVec3, b: NavVec3) -> NavVec3 {
    NavVec3 {
        x: c64(fx_sub_spec(fx_mul_spec(a.y as int, b.z as int), fx_mul_spec(a.z as int, b.y as int))),
        y: c64(fx_sub_spec(fx_mul_spec(a.z as int, b.x as int), fx_mul_spec(a.x as int, b.z as int))),
        z: c64(fx_sub_spec(fx_mul_spec(a.x as int, b.y as int), fx_mul_spec(a.y as int, b.x as int))),
    }
}

pub open spec fn sqr_magnitude_spec(a: NavVec3) -> int {
    dot_spec(a, a)
}

pub open spec fn magnitude_spec(a: NavVec3) -> int {
    fx_sqrt_spec(sqr_magnitude_spec(a))
}

pub open spec fn normalize_spec(a: NavVec3) -> NavVec3 {
    if magnitude_spec(a) == 0 {
        NavVec3 { x: 0, y: 0, z: 0 }
    } else {
        vdiv_spec(a, magnitude_spec(a))
    }
}

/// Parameter of the projection of `p` onto the line through `a` and `b`.
pub open spec fn project_spec(p: NavVec3, a: NavVec3, b: NavVec3) -> int {
    fx_div_spec(dot_spec(vsub_spec(p, a), vsub_spec(b, a)), sqr_magnitude_spec(vsub_spec(b, a)))
}

/// `a + (b - a) * t`.
pub open spec fn unproject_spec(a: NavVec3, b: NavVec3, t: int) -> NavVec3 {
    vadd_spec(a, vscale_spec(vsub_spec(b, a), t))
}

pub open spec fn project_on_plane_spec(p: NavVec3, origin: NavVec3, normal: NavVec3) -> NavVec3 {
    vsub_spec(p, vscale_spec(normal, dot_spec(vsub_spec(p, origin), normal)))
}

pub open spec fn is_above_plane_spec(p: NavVec3, origin: NavVec3, normal: NavVec3) -> bool {
    dot_spec(vsub_spec(p, origin), normal) > ZERO_TRESHOLD as int
}

pub open spec fn same_as_spec(a: NavVec3, b: NavVec3) -> bool {
    abs_i(fx_sub_spec(a.x as int, b.x as int)) < ZERO_TRESHOLD as int
        && abs_i(fx_sub_spec(a.y as int, b.y as int)) < ZERO_TRESHOLD as int
        && abs_i(fx_sub_spec(a.z as int, b.z as int)) < ZERO_TRESHOLD as int
}

/// Which side of the plane a signed distance lies on: zero within the
/// tolerance, else the sign.
pub open spec fn side_spec(v: int) -> int {
    if abs_i(v) < ZERO_TRESHOLD as int {
        0
    } else if v > 0 {
        1
    } else {
        -1
    }
}

/// The segment `from -> to`, viewed in the plane with normal `normal`,
/// crosses the line carrying the edge `(a, b)` between `a` and `b`:
/// the two edge endpoints do not lie on the same side of the vertical
/// plane that contains the segment and the normal (a point within
/// tolerance of that plane counts as its own side).
#[verifier::opaque]
pub open spec fn is_line_between_points_spec(
    from: NavVec3,
    to: NavVec3,
    a: NavVec3,
    b: NavVec3,
    normal: NavVec3,
) -> bool {
    let d = cross_spec(vsub_spec(to, from), normal);
    let sa = dot_spec(vsub_spec(a, from), d);
    let sb = dot_spec(vsub_spec(b, from), d);
    side_spec(sa) != side_spec(sb)
}

/// Intersection of the segment `from -> to` with the plane through `a`
/// with normal `normal`, if the segment is not parallel to the plane and
/// the hit lies within the segment's bounds.
#[verifier::opaque]
pub open spec fn raycast_line_spec(
    from: NavVec3,
    to: NavVec3,
    a: NavVec3,
    normal: NavVec3,
) -> Option<NavVec3> {
    let dir = vsub_spec(to, from);
    let den = dot_spec(normal, dir);
    if abs_i(den) <= ZERO_TRESHOLD as int {
        Option::None
    } else {
        let t = fx_div_spec(dot_spec(normal, vsub_spec(a, from)), den);
        if t < 0 || t > FX_ONE as int {
            Option::None
        } else {
            Option::Some(vadd_spec(from, vscale_spec(dir, t)))
        }
    }
}

/// Portal midpoint `(a + b) * 0.5`.
pub open spec fn midpoint_spec(a: NavVec3, b: NavVec3) -> NavVec3 {
    vscale_spec(vadd_spec(a, b), FX_HALF as int)
}

fn side_exec(v: i64) -> (r: i64)
    ensures
        r as int == side_spec(v as int),
{
    if -ZERO_TRESHOLD < v && v < ZERO_TRESHOLD {
        0
    } else if v > 0 {
        1
    } else {
        -1
    }
}

impl NavVec3 {
    pub fn new(x: i64, y: i64, z: i64) -> (r: NavVec3)
        ensures
            r == (NavVec3 { x, y, z }),
    {
        NavVec3 { x, y, z }
    }

    pub fn zero() -> (r: NavVec3)
        ensures
            r == (NavVec3 { x: 0i64, y: 0i64, z: 0i64 }),
    {
        NavVec3 { x: 0, y: 0, z: 0 }
    }

    pub fn add(self, o: NavVec3) -> (r: NavVec3)
        ensures
            r == vadd_spec(self, o),
    {
        proof { reveal(vadd_spec); }
        NavVec3 { x: fx_add(self.x, o.x), y: fx_add(self.y, o.y), z: fx_add(self.z, o.z) }
    }

    pub fn sub(self, o: NavVec3) -> (r: NavVec3)
        ensures
            r == vsub_spec(self, o),
    {
        proof { reveal(vsub_spec); }
        NavVec3 { x: fx_sub(self.x, o.x), y: fx_sub(self.y, o.y), z: fx_sub(self.z, o.z) }
    }

    pub fn scale(self, s: i64) -> (r: NavVec3)
        ensures
            r == vscale_spec(self, s as int),
    {
        proof { reveal(vscale_spec); }
        NavVec3 { x: fx_mul(self.x, s), y: fx_mul(self.y, s), z: fx_mul(self.z, s) }
    }

    pub fn mul_vec(self, o: NavVec3) -> (r: NavVec3)
        ensures
            r == vmul_spec(self, o),
    {
        proof { reveal(vmul_spec); }
        NavVec3 { x: fx_mul(self.x, o.x), y: fx_mul(self.y, o.y), z: fx_mul(self.z, o.z) }
    }

    pub fn div_scalar(self, s: i64) -> (r: NavVec3)
        ensures
            r == vdiv_spec(self, s as int),
    {
        proof { reveal(vdiv_spec); }
        NavVec3 { x: fx_div(self.x, s), y: fx_div(self.y, s), z: fx_div(self.z, s) }
    }

    pub fn dot(self, o: NavVec3) -> (r: i64)
        ensures
            r as int == dot_spec(self, o),
    {
        proof { reveal(dot_spec); }
        fx_add(fx_add(fx_mul(self.x, o.x), fx_mul(self.y, o.y)), fx_mul(self.z, o.z))
    }

    pub fn cross(self, o: NavVec3) -> (r: NavVec3)
        ensures
            r == cross_spec(self, o),
    {
        proof { reveal(cross_spec); }
        NavVec3 {
            x: fx_sub(fx_mul(self.y, o.z), fx_mul(self.z, o.y)),
            y: fx_sub(fx_mul(self.z, o.x), fx_mul(self.x, o.z)),
            z: fx_sub(fx_mul(self.x, o.y), fx_mul(self.y, o.x)),
        }
    }

    pub fn sqr_magnitude(self) -> (r: i64)
        ensures
            r as int == sqr_magnitude_spec(self),
    {
        self.dot(self)
    }

    pub fn magnitude(self) -> (r: i64)
        ensures
            r as int == magnitude_spec(self),
            r >= 0,
    {
        fx_sqrt(self.sqr_magnitude())
    }

    /// Unit vector in the direction of `self`; the zero vector stays zero.
    pub fn normalize(self) -> (r: NavVec3)
        ensures
            r == normalize_spec(self),
    {
        let m = self.magnitude();
        if m == 0 {
            NavVec3::zero()
        } else {
            self.div_scalar(m)
        }
    }

    /// Parameter of the projection of `self` onto the line through `a`, `b`.
    pub fn project(self, a: NavVec3, b: NavVec3) -> (r: i64)
        ensures
            r as int == project_spec(self, a, b),
    {
        let ab = b.sub(a);
        fx_div(self.sub(a).dot(ab), ab.sqr_magnitude())
    }

    pub fn unproject(a: NavVec3, b: NavVec3, t: i64) -> (r: NavVec3)
        ensures
            r == unproject_spec(a, b, t as int),
    {
        a.add(b.sub(a).scale(t))
    }

    pub fn project_on_plane(self, origin: NavVec3, normal: NavVec3) -> (r: NavVec3)
        ensures
            r == project_on_plane_spec(self, origin, normal),
    {
        self.sub(normal.scale(self.sub(origin).dot(normal)))
    }

    /// Strictly above the plane through `origin` with normal `normal`,
    /// with tolerance `ZERO_TRESHOLD`.
    pub fn is_above_plane(self, origin: NavVec3, normal: NavVec3) -> (r: bool)
        ensures
            r == is_above_plane_spec(self, origin, normal),
    {
        self.sub(origin).dot(normal) > ZERO_TRESHOLD
    }

    /// Componentwise equality within `ZERO_TRESHOLD`.
    pub fn same_as(self, o: NavVec3) -> (r: bool)
        ensures
            r == same_as_spec(self, o),
    {
        let dx = fx_sub(self.x, o.x);
        let dy = fx_sub(self.y, o.y);
        let dz = fx_sub(self.z, o.z);
        -ZERO_TRESHOLD < dx && dx < ZERO_TRESHOLD && -ZERO_TRESHOLD < dy && dy < ZERO_TRESHOLD
            && -ZERO_TRESHOLD < dz && dz < ZERO_TRESHOLD
    }

    /// See `is_line_between_points_spec`.
    pub fn is_line_between_points(
        from: NavVec3,
        to: NavVec3,
        a: NavVec3,
        b: NavVec3,
        normal: NavVec3,
    ) -> (r: bool)
        ensures
            r == is_line_between_points_spec(from, to, a, b, normal),
    {
        proof {
            reveal(is_line_between_points_spec);
        }
        let d = to.sub(from).cross(normal);
        let sa = a.sub(from).dot(d);
        let sb = b.sub(from).dot(d);
        side_exec(sa) != side_exec(sb)
    }

    /// See `raycast_line_spec`; the unused edge endpoint keeps the caller's
    /// portal edge visible in the call.
    pub fn raycast_line(
        from: NavVec3,
        to: NavVec3,
        a: NavVec3,
        _b: NavVec3,
        normal: NavVec3,
    ) -> (r: Option<NavVec3>)
        ensures
            r == raycast_line_spec(from, to, a, normal),
    {
        proof {
            reveal(raycast_line_spec);
        }
        let dir = to.sub(from);
        let den = normal.dot(dir);
        if -ZERO_TRESHOLD <= den && den <= ZERO_TRESHOLD {
            return Option::None;
        }
        let t = fx_div(normal.dot(a.sub(from)), den);
        if t < 0 || t > FX_ONE {
            return Option::None;
        }
        Option::Some(from.add(dir.scale(t)))
    }
}


/// Walking a zero fraction along a segment stays at its start.
pub proof fn lemma_unproject_zero(a: NavVec3, b: NavVec3)
    ensures
        unproject_spec(a, b, 0) == a,
{
    reveal(vadd_spec);
    reveal(vsub_spec);
    reveal(vscale_spec);
    let d = vsub_spec(b, a);
    lemma_fx_mul_zero(d.x as int);
    lemma_fx_mul_zero(d.y as int);
    lemma_fx_mul_zero(d.z as int);
}

/// Walking the whole of a segment lands on its end, as long as no
/// coordinate difference leaves the scalar range.
pub proof fn lemma_unproject_one(a: NavVec3, b: NavVec3)
    requires
        i64::MIN as int <= b.x - a.x <= i64::MAX as int,
        i64::MIN as int <= b.y - a.y <= i64::MAX as int,
        i64::MIN as int <= b.z - a.z <= i64::MAX as int,
    ensures
        unproject_spec(a, b, FX_ONE as int) == b,
{
    reveal(vadd_spec);
    reveal(vsub_spec);
    reveal(vscale_spec);
    let d = vsub_spec(b, a);
    lemma_fx_mul_one(d.x as int);
    lemma_fx_mul_one(d.y as int);
    lemma_fx_mul_one(d.z as int);
}

/// A magnitude is a nonnegative scalar no larger than `2^40`.
pub proof fn lemma_magnitude_bounds(v: NavVec3)
    ensures
        0 <= magnitude_spec(v) <= 0x10000000000,
{
    let sq = sqr_magnitude_spec(v);
    reveal(dot_spec);
    assert(sq <= i64::MAX as int);
    if sq > 0 {
        let n = sq * (FX_ONE as int);
        assert(n >= 0) by (nonlinear_arith)
            requires
                n == sq * 65536,
                sq > 0,
        ;
        lemma_sqrt_floor_exists(n);
        let r = sqrt_floor(n);
        assert(n <= (i64::MAX as int) * (FX_ONE as int)) by (nonlinear_arith)
            requires
                n == sq * (FX_ONE as int),
                0 < sq <= i64::MAX as int,
                FX_ONE == 65536,
        ;
        assert(r <= 0x10000000000) by (nonlinear_arith)
            requires
                0 <= r,
                r * r <= (i64::MAX as int) * (FX_ONE as int),
        ;
    }
}


/// A vector minus itself is the zero vector.
pub proof fn lemma_vsub_self(a: NavVec3)
    ensures
        vsub_spec(a, a) == (NavVec3 { x: 0, y: 0, z: 0 }),
{
    reveal(vsub_spec);
}

/// The zero vector is orthogonal to everything.
pub proof fn lemma_dot_zero(v: NavVec3)
    ensures
        dot_spec(NavVec3 { x: 0, y: 0, z: 0 }, v) == 0,
{
    reveal(dot_spec);
    lemma_fx_mul_zero(v.x as int);
    lemma_fx_mul_zero(v.y as int);
    lemma_fx_mul_zero(v.z as int);
}

/// A dot product never leaves the scalar range.
pub proof fn lemma_dot_in_range(a: NavVec3, b: NavVec3)
    ensures
        i64::MIN as int <= dot_spec(a, b) <= i64::MAX as int,
{
    reveal(dot_spec);
}

} // verus!
