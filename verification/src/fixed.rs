//! Fixed-point scalar arithmetic: scale constants, truncating division,
//! rescaling multiplication and an integer square root, each with an exact
//! contract.

use vstd::prelude::*;
use vstd::arithmetic::div_mod::{lemma_div_is_ordered, lemma_div_pos_is_pos, lemma_div_nonincreasing};

verus! {

/// The fixed-point unit: values represent `v / FX_ONE`.
pub const FX_ONE: i64 = 65536;

/// Largest magnitude allowed for a point or sphere-center coordinate.
pub const POS_MAX: i64 = 0x10_0000_0000;

/// Largest magnitude allowed for a ray-direction coordinate.
pub const DIR_MAX: i64 = 0x100_0000;

/// Largest ray parameter accepted by the intersection routines.
pub const T_MAX_FX: i64 = 0x4_0000_0000;

/// Lower ray-parameter cutoff used by the path estimator to skip
/// self-intersections at a hit point (the shadow-acne epsilon).
pub const T_MIN_ACNE: i64 = 64;

/// Threshold below which a vector component counts as zero for the
/// degenerate-direction guards.
pub const NEAR_ZERO_EPS: i64 = 4;

/// Division truncating toward zero, the rounding Rust's `/` performs;
/// meaningful for positive divisors.
pub open spec fn tdiv(n: int, d: int) -> int {
    if n >= 0 {
        n / d
    } else {
        -((-n) / d)
    }
}

/// Drops the scale factor after a product of two fixed-point values.
pub open spec fn fx(v: int) -> int {
    tdiv(v, FX_ONE as int)
}

/// The floor of the square root of a non-negative value.
pub open spec fn sqrt_floor(n: int) -> int {
    choose|r: int| 0 <= r && #[trigger] (r * r) <= n && n < (r + 1) * (r + 1)
}

/// A truncating quotient keeps the magnitude bound of its numerator:
/// if `|n| <= b` then `|tdiv(n, d)| <= b / d`.
pub proof fn lemma_tdiv_mag(n: int, d: int, b: int)
    requires
        d > 0,
        0 <= b,
        -b <= n <= b,
    ensures
        -(b / d) <= tdiv(n, d) <= b / d,
{
    lemma_div_pos_is_pos(b, d);
    if n >= 0 {
        lemma_div_is_ordered(n, b, d);
        lemma_div_pos_is_pos(n, d);
    } else {
        lemma_div_is_ordered(-n, b, d);
        lemma_div_pos_is_pos(-n, d);
    }
}

/// Magnitude bounds on two factors bound their product.
pub proof fn lemma_mul_bound(a: int, b: int, ma: int, mb: int)
    by (nonlinear_arith)
    requires
        0 <= ma,
        0 <= mb,
        -ma <= a <= ma,
        -mb <= b <= mb,
    ensures
        -(ma * mb) <= a * b <= ma * mb,
{
}

/// The floor square root is unique, so `sqrt_floor` returns exactly the
/// witness that brackets `n`.
pub proof fn lemma_sqrt_floor_unique(n: int, r: int)
    requires
        0 <= r,
        r * r <= n,
        n < (r + 1) * (r + 1),
    ensures
        sqrt_floor(n) == r,
{
    let c = sqrt_floor(n);
    assert(0 <= c && c * c <= n && n < (c + 1) * (c + 1)) by {
        assert(exists|q: int| 0 <= q && #[trigger] (q * q) <= n && n < (q + 1) * (q + 1)) by {
            assert(0 <= r && r * r <= n && n < (r + 1) * (r + 1));
        }
    }
    assert(c == r) by (nonlinear_arith)
        requires
            0 <= r,
            r * r <= n,
            n < (r + 1) * (r + 1),
            0 <= c,
            c * c <= n,
            n < (c + 1) * (c + 1),
    {
        if c < r {
            assert((c + 1) * (c + 1) <= r * r);
        }
        if r < c {
            assert((r + 1) * (r + 1) <= c * c);
        }
    }
}

/// Truncating division is monotone in the numerator.
pub proof fn lemma_tdiv_mono(n1: int, n2: int, d: int)
    requires
        d > 0,
        n1 <= n2,
    ensures
        tdiv(n1, d) <= tdiv(n2, d),
{
    if n1 >= 0 {
        lemma_div_is_ordered(n1, n2, d);
    } else if n2 < 0 {
        lemma_div_is_ordered(-n2, -n1, d);
    } else {
        lemma_div_pos_is_pos(-n1, d);
        lemma_div_pos_is_pos(n2, d);
    }
}

/// Truncating division with a positive divisor, carried out on magnitudes
/// so that only unsigned machine division is used.
pub fn tdiv_i128(n: i128, d: i128) -> (r: i128)
    requires
        d > 0,
        n > i128::MIN,
    ensures
        r == tdiv(n as int, d as int),
{
    if n >= 0 {
        let q: u128 = (n as u128) / (d as u128);
        proof {
            lemma_div_nonincreasing(n as int, d as int);
            lemma_div_pos_is_pos(n as int, d as int);
        }
        q as i128
    } else {
        let m: i128 = -n;
        let q: u128 = (m as u128) / (d as u128);
        proof {
            lemma_div_nonincreasing(m as int, d as int);
            lemma_div_pos_is_pos(m as int, d as int);
        }
        -(q as i128)
    }
}

/// Rescales a double-width fixed-point product back to single scale.
pub fn fx_sd(v: i128) -> (r: i128)
    requires
        v > i128::MIN,
    ensures
        r == fx(v as int),
{
    tdiv_i128(v, FX_ONE as i128)
}

/// Fixed-point product of two scalars; the raw product must stay within
/// `2^78` so that the rescaled result fits an `i64`.
pub fn fx_mul(a: i64, b: i64) -> (r: i64)
    requires
        -0x4000_0000_0000_0000_0000 <= (a as int) * (b as int) <= 0x4000_0000_0000_0000_0000,
    ensures
        r == fx((a as int) * (b as int)),
        -0x4000_0000_0000_0000 <= r <= 0x4000_0000_0000_0000,
{
    let p: i128 = (a as i128) * (b as i128);
    let r: i128 = fx_sd(p);
    proof {
        lemma_tdiv_mag(p as int, FX_ONE as int, 0x4000_0000_0000_0000_0000);
        assert(0x4000_0000_0000_0000_0000int / 65536int == 0x4000_0000_0000_0000int);
    }
    r as i64
}

/// Floor square root of an unsigned 128-bit value, by binary search.
pub fn isqrt(n: u128) -> (r: u128)
    ensures
        0 <= r <= 0xffff_ffff_ffff_ffff,
        (r as int) * (r as int) <= n as int,
        (n as int) < ((r as int) + 1) * ((r as int) + 1),
        r == sqrt_floor(n as int),
{
    let mut lo: u128 = 0;
    let mut hi: u128 = 0x1_0000_0000_0000_0000;
    assert((n as int) < (hi as int) * (hi as int)) by (nonlinear_arith)
        requires
            hi as int == 0x1_0000_0000_0000_0000,
            n as int <= 0xffff_ffff_ffff_ffff_ffff_ffff_ffff_ffff,
    ;
    while lo + 1 < hi
        invariant
            0 <= lo < hi,
            hi <= 0x1_0000_0000_0000_0000,
            (lo as int) * (lo as int) <= n as int,
            (n as int) < (hi as int) * (hi as int),
        decreases hi - lo,
    {
        let mid: u128 = lo + (hi - lo) / 2;
        assert((mid as int) * (mid as int) < 0x1_0000_0000_0000_0000_0000_0000_0000_0000)
            by (nonlinear_arith)
            requires
                mid as int <= 0xffff_ffff_ffff_ffff,
        ;
        let sq: u128 = mid * mid;
        if sq <= n {
            lo = mid;
        } else {
            hi = mid;
        }
    }
    proof {
        lemma_sqrt_floor_unique(n as int, lo as int);
    }
    lo
}

} // verus!
