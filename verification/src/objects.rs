//! Scene primitives: the torus distance field.

use vstd::prelude::*;

use crate::fixed::{
    lemma_sqrt_floor_le, mul_div, sqrt_floor, FIELD_LIMIT, NEAR_LIMIT, PARAM_LIMIT, SCALE,
    STEP_LIMIT,
};
use crate::raymarch::DistanceField;
use crate::vec3::{lemma_unit_product, v_dot, v_len, v_scale, v_sub, Vec3, Vec3S};

verus! {

/// Distance from `pos` to a torus centred at `origin`, whose ring lies in the
/// plane perpendicular to the unit vector `normal`, with the given radii:
/// decompose `pos - origin` into its component along `normal` and the
/// orthogonal in-plane rest; the distance is the length of
/// `(|in-plane| - major, along)` minus the minor radius.
pub open spec fn torus_distance(
    pos: Vec3S,
    origin: Vec3S,
    normal: Vec3S,
    major: int,
    minor: int,
) -> int {
    let p = v_sub(pos, origin);
    let pn = v_dot(p, normal);
    let q = v_sub(p, v_scale(normal, pn));
    let a = v_len(q) - major;
    sqrt_floor(a * a + pn * pn) - minor
}

/// Bounds on every intermediate of the torus field, linear in the bound `b`
/// on the queried point. Shared by the overflow argument of the executable
/// field and by the step cap a march relies on.
pub proof fn lemma_torus_parts(
    pos: Vec3S,
    origin: Vec3S,
    normal: Vec3S,
    major: int,
    minor: int,
    b: int,
)
    requires
        0 <= b,
        pos.bounded(b),
        origin.bounded(PARAM_LIMIT as int),
        normal.bounded(SCALE as int),
        0 < major <= PARAM_LIMIT as int,
        0 < minor <= PARAM_LIMIT as int,
    ensures
        v_sub(pos, origin).bounded(b + PARAM_LIMIT),
        -(3 * (b + PARAM_LIMIT)) <= v_dot(v_sub(pos, origin), normal) <= 3 * (b + PARAM_LIMIT),
        v_scale(normal, v_dot(v_sub(pos, origin), normal)).bounded(3 * (b + PARAM_LIMIT)),
        v_sub(
            v_sub(pos, origin),
            v_scale(normal, v_dot(v_sub(pos, origin), normal)),
        ).bounded(4 * (b + PARAM_LIMIT)),
        0 <= v_len(
            v_sub(v_sub(pos, origin), v_scale(normal, v_dot(v_sub(pos, origin), normal))),
        ) <= 7 * (b + PARAM_LIMIT),
        -minor <= torus_distance(pos, origin, normal, major, minor) <= 8 * (b + PARAM_LIMIT),
{
    let w = b + PARAM_LIMIT;
    let p = v_sub(pos, origin);
    lemma_unit_product(p.x, normal.x, w);
    lemma_unit_product(p.y, normal.y, w);
    lemma_unit_product(p.z, normal.z, w);
    let pn = v_dot(p, normal);
    lemma_unit_product(pn, normal.x, 3 * w);
    lemma_unit_product(pn, normal.y, 3 * w);
    lemma_unit_product(pn, normal.z, 3 * w);
    let q = v_sub(p, v_scale(normal, pn));
    let sq = q.x * q.x + q.y * q.y + q.z * q.z;
    assert(0 <= sq <= (7 * w) * (7 * w)) by (nonlinear_arith)
        requires
            0 <= w,
            sq == q.x * q.x + q.y * q.y + q.z * q.z,
            -(4 * w) <= q.x <= 4 * w,
            -(4 * w) <= q.y <= 4 * w,
            -(4 * w) <= q.z <= 4 * w,
    ;
    lemma_sqrt_floor_le(sq, 7 * w);
    let a = v_len(q) - major;
    let s2 = a * a + pn * pn;
    assert(0 <= s2 <= (8 * w) * (8 * w)) by (nonlinear_arith)
        requires
            0 <= w,
            s2 == a * a + pn * pn,
            -(7 * w) <= a <= 7 * w,
            -(3 * w) <= pn <= 3 * w,
    ;
    lemma_sqrt_floor_le(s2, 8 * w);
}

/// The torus distance field, in fixed-point arithmetic; equal to the model
/// `torus_distance` on all admitted inputs. The result never drops below
/// `-minor_radius`, and near the origin (componentwise within `NEAR_LIMIT`)
/// never exceeds `STEP_LIMIT`.
pub fn torus(
    pos: &Vec3,
    origin: &Vec3,
    normal: &Vec3,
    major_radius: i64,
    minor_radius: i64,
) -> (r: i64)
    requires
        pos@.bounded(FIELD_LIMIT as int),
        origin@.bounded(PARAM_LIMIT as int),
        normal@.bounded(SCALE as int),
        0 < major_radius <= PARAM_LIMIT,
        0 < minor_radius <= PARAM_LIMIT,
    ensures
        r as int == torus_distance(
            pos@,
            origin@,
            normal@,
            major_radius as int,
            minor_radius as int,
        ),
        -minor_radius <= r,
        pos@.bounded(NEAR_LIMIT as int) ==> r <= STEP_LIMIT,
{
    proof {
        lemma_torus_parts(
            pos@,
            origin@,
            normal@,
            major_radius as int,
            minor_radius as int,
            FIELD_LIMIT as int,
        );
        if pos@.bounded(NEAR_LIMIT as int) {
            lemma_torus_parts(
                pos@,
                origin@,
                normal@,
                major_radius as int,
                minor_radius as int,
                NEAR_LIMIT as int,
            );
        }
    }
    let p = pos.sub(origin);
    let pn = p.dot(normal);
    let sc = Vec3 {
        x: mul_div(normal.x, pn, SCALE),
        y: mul_div(normal.y, pn, SCALE),
        z: mul_div(normal.z, pn, SCALE),
    };
    let q = p.sub(&sc);
    let ql = q.length();
    let a = ql - major_radius;
    let h = crate::fixed::hypot2(a, pn);
    h - minor_radius
}

/// A torus-shaped scene: the one concrete distance field of the crate. An
/// animated scene varies `normal` (and possibly `origin`) between frames.
#[derive(Clone, Copy, Debug)]
pub struct Torus {
    pub origin: Vec3,
    pub normal: Vec3,
    pub major_radius: i64,
    pub minor_radius: i64,
}

impl DistanceField for Torus {
    /// The centre is an ordinary scene position, the axis is at most one unit
    /// per component (unit length is expected but not enforced), and the radii
    /// are positive.
    open spec fn wf(&self) -> bool {
        &&& self.origin@.bounded(PARAM_LIMIT as int)
        &&& self.normal@.bounded(SCALE as int)
        &&& 0 < self.major_radius <= PARAM_LIMIT
        &&& 0 < self.minor_radius <= PARAM_LIMIT
    }

    open spec fn spec_distance(&self, p: Vec3S) -> int {
        torus_distance(
            p,
            self.origin@,
            self.normal@,
            self.major_radius as int,
            self.minor_radius as int,
        )
    }

    fn distance(&self, p: &Vec3) -> (r: i64) {
        torus(p, &self.origin, &self.normal, self.major_radius, self.minor_radius)
    }
}

/// A torus centred on the plane `x = 0` with its axis in that plane is
/// symmetric across it: the field at a reflected point is unchanged. (This
/// discharges the scene hypothesis of the camera's mirror-symmetry lemma.)
pub proof fn lemma_torus_mirror_symmetric(
    pos: Vec3S,
    origin: Vec3S,
    normal: Vec3S,
    major: int,
    minor: int,
)
    requires
        origin.x == 0,
        normal.x == 0,
    ensures
        torus_distance(crate::vec3::mirror_x(pos), origin, normal, major, minor)
            == torus_distance(pos, origin, normal, major, minor),
{
    let p = v_sub(pos, origin);
    let pm = v_sub(crate::vec3::mirror_x(pos), origin);
    assert(pm == crate::vec3::mirror_x(p));
    vstd::arithmetic::div_mod::lemma_basic_div(0, SCALE as int);
    assert(p.x * normal.x == 0 && pm.x * normal.x == 0) by (nonlinear_arith)
        requires
            normal.x == 0,
    ;
    let pn = v_dot(p, normal);
    assert(v_dot(pm, normal) == pn);
    let sc = v_scale(normal, pn);
    assert(normal.x * pn == 0) by (nonlinear_arith)
        requires
            normal.x == 0,
    ;
    let q = v_sub(p, sc);
    let qm = v_sub(pm, sc);
    assert(qm == crate::vec3::mirror_x(q));
    crate::vec3::lemma_v_len_mirror(q);
}

} // verus!
