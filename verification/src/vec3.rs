//! 3-component vectors of fixed-point scalars, and their mathematical model.

use vstd::prelude::*;

use crate::fixed::{
    hypot3, is_sqrt_floor, lemma_sqrt_floor_exists, lemma_tdiv_le, mul_div, sqrt_floor, tdiv,
    HYPOT_LIMIT, SCALE,
};

verus! {

/// An immutable 3-vector; each component is an `i64` multiple of `1 / SCALE`.
#[derive(Clone, Copy, Debug, PartialEq, Eq, Structural)]
pub struct Vec3 {
    pub x: i64,
    pub y: i64,
    pub z: i64,
}

/// The mathematical model of a `Vec3`: the same components as unbounded
/// integers.
pub struct Vec3S {
    pub x: int,
    pub y: int,
    pub z: int,
}

impl View for Vec3 {
    type V = Vec3S;

    open spec fn view(&self) -> Vec3S {
        Vec3S { x: self.x as int, y: self.y as int, z: self.z as int }
    }
}

impl Vec3S {
    /// Every component lies within `[-m, m]`.
    pub open spec fn bounded(self, m: int) -> bool {
        &&& -m <= self.x <= m
        &&& -m <= self.y <= m
        &&& -m <= self.z <= m
    }
}

/// The zero vector.
pub open spec fn v_zero() -> Vec3S {
    Vec3S { x: 0, y: 0, z: 0 }
}

/// Componentwise sum.
pub open spec fn v_add(a: Vec3S, b: Vec3S) -> Vec3S {
    Vec3S { x: a.x + b.x, y: a.y + b.y, z: a.z + b.z }
}

/// Componentwise difference.
pub open spec fn v_sub(a: Vec3S, b: Vec3S) -> Vec3S {
    Vec3S { x: a.x - b.x, y: a.y - b.y, z: a.z - b.z }
}

/// Each component multiplied by the fixed-point scalar `k`.
pub open spec fn v_scale(a: Vec3S, k: int) -> Vec3S {
    Vec3S {
        x: tdiv(a.x * k, SCALE as int),
        y: tdiv(a.y * k, SCALE as int),
        z: tdiv(a.z * k, SCALE as int),
    }
}

/// Fixed-point dot product: each product of components is scaled back down.
pub open spec fn v_dot(a: Vec3S, b: Vec3S) -> int {
    tdiv(a.x * b.x, SCALE as int) + tdiv(a.y * b.y, SCALE as int) + tdiv(
        a.z * b.z,
        SCALE as int,
    )
}

/// Euclidean length, rounded down. The components' squares carry a factor
/// `SCALE * SCALE`, so no rescaling is needed.
pub open spec fn v_len(a: Vec3S) -> int {
    sqrt_floor(a.x * a.x + a.y * a.y + a.z * a.z)
}

/// The vector rescaled to (approximately) unit length; the zero vector stays
/// zero.
pub open spec fn v_norm(a: Vec3S) -> Vec3S {
    let l = v_len(a);
    if l == 0 {
        v_zero()
    } else {
        Vec3S {
            x: tdiv(a.x * SCALE, l),
            y: tdiv(a.y * SCALE, l),
            z: tdiv(a.z * SCALE, l),
        }
    }
}

impl Vec3 {
    /// The zero vector.
    pub fn zero() -> (r: Vec3)
        ensures
            r@ == v_zero(),
    {
        Vec3 { x: 0, y: 0, z: 0 }
    }

    /// Componentwise sum.
    pub fn add(&self, other: &Vec3) -> (r: Vec3)
        requires
            self@.bounded(0x2000_0000_0000_0000),
            other@.bounded(0x2000_0000_0000_0000),
        ensures
            r@ == v_add(self@, other@),
    {
        Vec3 { x: self.x + other.x, y: self.y + other.y, z: self.z + other.z }
    }

    /// Componentwise difference.
    pub fn sub(&self, other: &Vec3) -> (r: Vec3)
        requires
            self@.bounded(0x2000_0000_0000_0000),
            other@.bounded(0x2000_0000_0000_0000),
        ensures
            r@ == v_sub(self@, other@),
    {
        Vec3 { x: self.x - other.x, y: self.y - other.y, z: self.z - other.z }
    }

    /// Fixed-point dot product. The asymmetric bounds fit both uses: a scene
    /// point against a unit axis, and a basis column against a unit direction.
    pub fn dot(&self, other: &Vec3) -> (r: i64)
        requires
            self@.bounded(0x1000_0000_0000_0000),
            other@.bounded(0x2_0000),
        ensures
            r as int == v_dot(self@, other@),
            -0x6000_0000_0000_0000 <= r <= 0x6000_0000_0000_0000,
    {
        proof {
            lemma_dot_term(self@.x, other@.x);
            lemma_dot_term(self@.y, other@.y);
            lemma_dot_term(self@.z, other@.z);
        }
        let tx = mul_div(self.x, other.x, SCALE);
        let ty = mul_div(self.y, other.y, SCALE);
        let tz = mul_div(self.z, other.z, SCALE);
        tx + ty + tz
    }

    /// Euclidean length, rounded down.
    pub fn length(&self) -> (r: i64)
        requires
            self@.bounded(HYPOT_LIMIT as int),
        ensures
            r as int == v_len(self@),
            0 <= r,
    {
        hypot3(self.x, self.y, self.z)
    }

    /// The vector rescaled to (approximately) unit length; the zero vector
    /// stays zero.
    pub fn normalize(&self) -> (r: Vec3)
        requires
            self@.bounded(HYPOT_LIMIT as int),
        ensures
            r@ == v_norm(self@),
            r@.bounded(SCALE as int),
    {
        let l = self.length();
        if l == 0 {
            Vec3 { x: 0, y: 0, z: 0 }
        } else {
            proof {
                let s = self@.x * self@.x + self@.y * self@.y + self@.z * self@.z;
                assert(self@.x * self@.x >= 0 && self@.y * self@.y >= 0 && self@.z * self@.z
                    >= 0) by (nonlinear_arith);
                lemma_sqrt_floor_exists(s);
                lemma_norm_component(self@.x, s, l as int);
                lemma_norm_component(self@.y, s, l as int);
                lemma_norm_component(self@.z, s, l as int);
            }
            Vec3 {
                x: mul_div(self.x, SCALE, l),
                y: mul_div(self.y, SCALE, l),
                z: mul_div(self.z, SCALE, l),
            }
        }
    }
}

/// The point reflected across the plane `x = 0`.
pub open spec fn mirror_x(v: Vec3S) -> Vec3S {
    Vec3S { x: -v.x, y: v.y, z: v.z }
}

/// Reflection keeps the length: the squares of the components are unchanged.
pub proof fn lemma_v_len_mirror(v: Vec3S)
    ensures
        v_len(mirror_x(v)) == v_len(v),
        0 <= v_len(v),
{
    assert((-v.x) * (-v.x) == v.x * v.x && v.x * v.x >= 0 && v.y * v.y >= 0 && v.z * v.z >= 0)
        by (nonlinear_arith);
    lemma_sqrt_floor_exists(v.x * v.x + v.y * v.y + v.z * v.z);
}

/// Normalization commutes with reflection across `x = 0`.
pub proof fn lemma_v_norm_mirror(v: Vec3S)
    ensures
        v_norm(mirror_x(v)) == mirror_x(v_norm(v)),
{
    lemma_v_len_mirror(v);
    let l = v_len(v);
    if l != 0 {
        assert((-v.x) * SCALE == -(v.x * SCALE)) by (nonlinear_arith);
        crate::fixed::lemma_tdiv_neg(v.x * SCALE, l);
    }
}

/// A product against a scalar no larger than one unit keeps its bound after
/// rescaling, in either order.
pub proof fn lemma_unit_product(a: int, u: int, m: int)
    requires
        0 <= m,
        -m <= a <= m,
        -(SCALE as int) <= u <= SCALE as int,
    ensures
        -m <= tdiv(a * u, SCALE as int) <= m,
        -m <= tdiv(u * a, SCALE as int) <= m,
{
    assert(-(m * (SCALE as int)) <= a * u <= m * (SCALE as int) && a * u == u * a)
        by (nonlinear_arith)
        requires
            0 <= m,
            -m <= a <= m,
            -(SCALE as int) <= u <= SCALE as int,
    ;
    lemma_tdiv_le(a * u, SCALE as int, m);
    lemma_tdiv_le(u * a, SCALE as int, m);
}

/// A dot product against a vector of at most unit components keeps three
/// times the other factor's bound.
pub proof fn lemma_v_dot_unit(a: Vec3S, b: Vec3S, m: int)
    requires
        0 <= m,
        a.bounded(m),
        b.bounded(SCALE as int),
    ensures
        -(3 * m) <= v_dot(a, b) <= 3 * m,
{
    lemma_unit_product(a.x, b.x, m);
    lemma_unit_product(a.y, b.y, m);
    lemma_unit_product(a.z, b.z, m);
}

/// One addend of the fixed-point dot product stays within `2^61` when the
/// factors are bounded by `2^60` and `2^17`.
proof fn lemma_dot_term(a: int, b: int)
    requires
        -0x1000_0000_0000_0000 <= a <= 0x1000_0000_0000_0000,
        -0x2_0000 <= b <= 0x2_0000,
    ensures
        -0x2000_0000_0000_0000 <= tdiv(a * b, SCALE as int) <= 0x2000_0000_0000_0000,
{
    assert(-(0x2000_0000_0000_0000 * (SCALE as int)) <= a * b <= 0x2000_0000_0000_0000 * (
    SCALE as int)) by (nonlinear_arith)
        requires
            -0x1000_0000_0000_0000 <= a <= 0x1000_0000_0000_0000,
            -0x2_0000 <= b <= 0x2_0000,
    ;
    lemma_tdiv_le(a * b, SCALE as int, 0x2000_0000_0000_0000);
}

/// A component divided by the vector's length is at most one unit: the
/// component's square is part of the sum the length is the root of.
proof fn lemma_norm_component(x: int, s: int, l: int)
    requires
        x * x <= s,
        is_sqrt_floor(s, l),
        0 < l,
    ensures
        -(SCALE as int) <= tdiv(x * SCALE, l) <= SCALE as int,
{
    assert(-l <= x <= l) by (nonlinear_arith)
        requires
            x * x <= s,
            0 <= l,
            l * l <= s,
            s < (l + 1) * (l + 1),
    ;
    assert(-((SCALE as int) * l) <= x * SCALE <= (SCALE as int) * l) by (nonlinear_arith)
        requires
            -l <= x <= l,
    ;
    lemma_tdiv_le(x * SCALE, l, SCALE as int);
}

} // verus!
