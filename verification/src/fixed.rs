//! Fixed-point scalar arithmetic.
//!
//! A scalar is an `i64` holding a multiple of `1 / SCALE` scene units.
//! Multiplication and division truncate toward zero, mirroring what the
//! hardware operations on magnitudes produce; square roots round down.

use vstd::arithmetic::div_mod::{
    lemma_div_is_ordered, lemma_div_multiples_vanish, lemma_div_pos_is_pos,
};
use vstd::prelude::*;

verus! {

/// Raw units per scene unit.
pub const SCALE: i64 = 65536;

/// Bound on configuration scalars: option fields, torus radii, camera and ray
/// origins, and the largest drop a distance field may report (see
/// `DistanceField`). Equals `2^32` raw units.
pub const PARAM_LIMIT: i64 = 0x1_0000_0000;

/// Bound on the components of a ray direction. Equals `2^18` raw units.
pub const DIR_LIMIT: i64 = 0x4_0000;

/// Cap on `RaymarchOptions::max_iterations`.
pub const ITER_LIMIT: usize = 4096;

/// Points this close to the ray origin (componentwise, in raw units) are the
/// ones a march can step from; a distance field promises a bounded value
/// there. Equals `2^50`.
pub const NEAR_LIMIT: i64 = 0x4_0000_0000_0000;

/// Bound on a distance field's value at points within `NEAR_LIMIT`.
/// Equals `2^55`.
pub const STEP_LIMIT: i64 = 0x80_0000_0000_0000;

/// Bound on the accumulated march depth. Equals `2^56`.
pub const DEPTH_LIMIT: i64 = 0x100_0000_0000_0000;

/// A distance field must accept any point bounded componentwise by this.
/// Equals `2^59`.
pub const FIELD_LIMIT: i64 = 0x800_0000_0000_0000;

/// Bound on the arguments of `hypot2` / `hypot3`. Equals `2^62`.
pub const HYPOT_LIMIT: i64 = 0x4000_0000_0000_0000;

/// Division truncated toward zero, for a positive divisor; the rounding of
/// every executable quotient in this crate.
pub open spec fn tdiv(n: int, d: int) -> int {
    if n >= 0 {
        n / d
    } else {
        -((-n) / d)
    }
}

/// `r` is the square root of `n`, rounded down.
pub open spec fn is_sqrt_floor(n: int, r: int) -> bool {
    0 <= r && r * r <= n && n < (r + 1) * (r + 1)
}

/// The square root of `n`, rounded down (meaningful for `n >= 0`).
pub open spec fn sqrt_floor(n: int) -> int {
    choose|r: int| is_sqrt_floor(n, r)
}

/// The rounded-down square root exists for every nonnegative argument.
pub proof fn lemma_sqrt_floor_exists(n: int)
    requires
        0 <= n,
    ensures
        is_sqrt_floor(n, sqrt_floor(n)),
    decreases n,
{
    if n == 0 {
        assert(is_sqrt_floor(0, 0));
    } else {
        lemma_sqrt_floor_exists(n - 1);
        let r = sqrt_floor(n - 1);
        if (r + 1) * (r + 1) <= n {
            assert(is_sqrt_floor(n, r + 1)) by (nonlinear_arith)
                requires
                    0 <= r,
                    r * r <= n - 1,
                    n - 1 < (r + 1) * (r + 1),
                    (r + 1) * (r + 1) <= n,
            ;
        } else {
            assert(is_sqrt_floor(n, r));
        }
    }
    let w = choose|r: int| is_sqrt_floor(n, r);
    assert(is_sqrt_floor(n, w));
}

/// At most one value is the rounded-down square root of `n`.
pub proof fn lemma_sqrt_floor_unique(n: int, r: int)
    requires
        is_sqrt_floor(n, r),
    ensures
        sqrt_floor(n) == r,
{
    assert(exists|q: int| is_sqrt_floor(n, q)) by {
        assert(is_sqrt_floor(n, r));
    }
    let q = sqrt_floor(n);
    assert(is_sqrt_floor(n, q));
    if q < r {
        assert(false) by (nonlinear_arith)
            requires
                0 <= q,
                q < r,
                r * r <= n,
                n < (q + 1) * (q + 1),
        ;
    }
    if r < q {
        assert(false) by (nonlinear_arith)
            requires
                0 <= r,
                r < q,
                q * q <= n,
                n < (r + 1) * (r + 1),
        ;
    }
}

/// If `n <= m * m` then the rounded-down square root of `n` is at most `m`.
pub proof fn lemma_sqrt_floor_le(n: int, m: int)
    requires
        0 <= n,
        0 <= m,
        n <= m * m,
    ensures
        0 <= sqrt_floor(n) <= m,
{
    lemma_sqrt_floor_exists(n);
    let r = sqrt_floor(n);
    if m < r {
        assert(false) by (nonlinear_arith)
            requires
                0 <= m,
                m < r,
                r * r <= n,
                n <= m * m,
        ;
    }
}

/// A bound on the dividend gives the same bound, shrunk by the divisor, on the
/// truncated quotient.
pub proof fn lemma_tdiv_le(n: int, d: int, m: int)
    requires
        0 < d,
        0 <= m,
        -(m * d) <= n <= m * d,
    ensures
        -m <= tdiv(n, d) <= m,
{
    if n >= 0 {
        lemma_div_pos_is_pos(n, d);
        lemma_div_is_ordered(n, m * d, d);
        assert(m * d == d * m) by (nonlinear_arith);
        lemma_div_multiples_vanish(m, d);
    } else {
        lemma_div_pos_is_pos(-n, d);
        lemma_div_is_ordered(-n, m * d, d);
        assert(m * d == d * m) by (nonlinear_arith);
        lemma_div_multiples_vanish(m, d);
    }
}

/// Truncating division flips sign with its dividend.
pub proof fn lemma_tdiv_neg(n: int, d: int)
    requires
        0 < d,
    ensures
        tdiv(-n, d) == -tdiv(n, d),
{
    if n == 0 {
        vstd::arithmetic::div_mod::lemma_basic_div(0, d);
    } else if n > 0 {
        assert(tdiv(-n, d) == -(n / d));
        assert(tdiv(n, d) == n / d);
    } else {
        assert(tdiv(-n, d) == (-n) / d);
        assert(tdiv(n, d) == -((-n) / d));
    }
}

/// `(a * b) / d`, truncated toward zero, computed through 128-bit magnitudes
/// so that no intermediate overflows.
pub fn mul_div(a: i64, b: i64, d: i64) -> (r: i64)
    requires
        0 < d,
        -0x7fff_ffff_ffff_ffff <= tdiv(a as int * b as int, d as int) <= 0x7fff_ffff_ffff_ffff,
    ensures
        r as int == tdiv(a as int * b as int, d as int),
{
    let am: u128 = if a >= 0 {
        a as u128
    } else {
        (-(a as i128)) as u128
    };
    let bm: u128 = if b >= 0 {
        b as u128
    } else {
        (-(b as i128)) as u128
    };
    proof {
        assert(am <= 0x8000_0000_0000_0000);
        assert(bm <= 0x8000_0000_0000_0000);
        assert(am * bm <= 0x8000_0000_0000_0000 * 0x8000_0000_0000_0000) by (nonlinear_arith)
            requires
                am <= 0x8000_0000_0000_0000,
                bm <= 0x8000_0000_0000_0000,
        ;
    }
    let p: u128 = am * bm;
    let q: u128 = p / (d as u128);
    proof {
        let ab = a as int * b as int;
        if a >= 0 && b >= 0 {
            assert(ab == am as int * bm as int);
        } else if a < 0 && b < 0 {
            assert(ab == am as int * bm as int) by (nonlinear_arith)
                requires
                    am == -(a as int),
                    bm == -(b as int),
                    ab == a as int * b as int,
            ;
        } else {
            assert(ab == -(am as int * bm as int)) by (nonlinear_arith)
                requires
                    (am == a as int && bm == -(b as int)) || (am == -(a as int) && bm == b as int),
                    ab == a as int * b as int,
            ;
        }
        if ab >= 0 {
            assert(q as int == tdiv(ab, d as int));
        } else {
            assert(q as int == (-ab) / (d as int));
            assert(tdiv(ab, d as int) == -(q as int));
        }
        assert(q <= 0x7fff_ffff_ffff_ffff);
    }
    if (a < 0) != (b < 0) {
        -(q as i64)
    } else {
        q as i64
    }
}

/// Square root of a 128-bit value, rounded down; binary search on the result.
pub fn isqrt(x: u128) -> (r: u64)
    ensures
        r as int == sqrt_floor(x as int),
        is_sqrt_floor(x as int, r as int),
{
    let mut lo: u128 = 0;
    let mut hi: u128 = 0x1_0000_0000_0000_0000;
    proof {
        assert((hi as int) * (hi as int) > x as int) by (nonlinear_arith)
            requires
                hi == 0x1_0000_0000_0000_0000u128,
                x <= 0xffff_ffff_ffff_ffff_ffff_ffff_ffff_ffffu128,
        ;
    }
    while lo + 1 < hi
        invariant
            lo < hi <= 0x1_0000_0000_0000_0000,
            (lo as int) * (lo as int) <= x as int,
            (x as int) < (hi as int) * (hi as int),
        decreases hi - lo,
    {
        let mid: u128 = lo + (hi - lo) / 2;
        proof {
            assert(lo < mid < hi);
            assert(mid * mid <= 0xffff_ffff_ffff_ffff * 0xffff_ffff_ffff_ffff) by (nonlinear_arith)
                requires
                    mid <= 0xffff_ffff_ffff_ffffu128,
            ;
        }
        if mid * mid <= x {
            lo = mid;
        } else {
            hi = mid;
        }
    }
    proof {
        assert(hi == lo + 1);
        assert(is_sqrt_floor(x as int, lo as int));
        lemma_sqrt_floor_unique(x as int, lo as int);
    }
    lo as u64
}

/// Length of a 2-vector of raw scalars: the rounded-down square root of the
/// sum of the squares.
pub fn hypot2(a: i64, b: i64) -> (r: i64)
    requires
        -HYPOT_LIMIT <= a <= HYPOT_LIMIT,
        -HYPOT_LIMIT <= b <= HYPOT_LIMIT,
    ensures
        r as int == sqrt_floor(a as int * a as int + b as int * b as int),
        0 <= r,
{
    let am: u128 = if a >= 0 {
        a as u128
    } else {
        (-(a as i128)) as u128
    };
    let bm: u128 = if b >= 0 {
        b as u128
    } else {
        (-(b as i128)) as u128
    };
    proof {
        assert(am as int * am as int == a as int * a as int) by (nonlinear_arith)
            requires
                am == a as int || am == -(a as int),
        ;
        assert(bm as int * bm as int == b as int * b as int) by (nonlinear_arith)
            requires
                bm == b as int || bm == -(b as int),
        ;
        assert(am * am <= 0x4000_0000_0000_0000 * 0x4000_0000_0000_0000) by (nonlinear_arith)
            requires
                am <= 0x4000_0000_0000_0000u128,
        ;
        assert(bm * bm <= 0x4000_0000_0000_0000 * 0x4000_0000_0000_0000) by (nonlinear_arith)
            requires
                bm <= 0x4000_0000_0000_0000u128,
        ;
    }
    let s: u128 = am * am + bm * bm;
    let r = isqrt(s);
    proof {
        assert(r as int * r as int <= s as int);
        assert(r < 0x8000_0000_0000_0000u64) by (nonlinear_arith)
            requires
                r as int * r as int <= s as int,
                s as int <= 2 * (0x4000_0000_0000_0000 * 0x4000_0000_0000_0000),
        ;
    }
    r as i64
}

/// Length of a 3-vector of raw scalars: the rounded-down square root of the
/// sum of the squares.
pub fn hypot3(a: i64, b: i64, c: i64) -> (r: i64)
    requires
        -HYPOT_LIMIT <= a <= HYPOT_LIMIT,
        -HYPOT_LIMIT <= b <= HYPOT_LIMIT,
        -HYPOT_LIMIT <= c <= HYPOT_LIMIT,
    ensures
        r as int == sqrt_floor(
            a as int * a as int + b as int * b as int + c as int * c as int,
        ),
        0 <= r,
{
    let am: u128 = if a >= 0 {
        a as u128
    } else {
        (-(a as i128)) as u128
    };
    let bm: u128 = if b >= 0 {
        b as u128
    } else {
        (-(b as i128)) as u128
    };
    let cm: u128 = if c >= 0 {
        c as u128
    } else {
        (-(c as i128)) as u128
    };
    proof {
        assert(am as int * am as int == a as int * a as int) by (nonlinear_arith)
            requires
                am == a as int || am == -(a as int),
        ;
        assert(bm as int * bm as int == b as int * b as int) by (nonlinear_arith)
            requires
                bm == b as int || bm == -(b as int),
        ;
        assert(cm as int * cm as int == c as int * c as int) by (nonlinear_arith)
            requires
                cm == c as int || cm == -(c as int),
        ;
        assert(am * am <= 0x4000_0000_0000_0000 * 0x4000_0000_0000_0000) by (nonlinear_arith)
            requires
                am <= 0x4000_0000_0000_0000u128,
        ;
        assert(bm * bm <= 0x4000_0000_0000_0000 * 0x4000_0000_0000_0000) by (nonlinear_arith)
            requires
                bm <= 0x4000_0000_0000_0000u128,
        ;
        assert(cm * cm <= 0x4000_0000_0000_0000 * 0x4000_0000_0000_0000) by (nonlinear_arith)
            requires
                cm <= 0x4000_0000_0000_0000u128,
        ;
    }
    let s: u128 = am * am + bm * bm + cm * cm;
    let r = isqrt(s);
    proof {
        assert(r as int * r as int <= s as int);
        assert(r < 0x8000_0000_0000_0000u64) by (nonlinear_arith)
            requires
                r as int * r as int <= s as int,
                s as int <= 3 * (0x4000_0000_0000_0000 * 0x4000_0000_0000_0000),
        ;
    }
    r as i64
}

} // verus!
