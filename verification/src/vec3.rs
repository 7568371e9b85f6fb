//! The 3-component fixed-point vector kernel: arithmetic, geometric
//! operators, randomized sampling helpers, and the algebraic laws the
//! operators obey.
//!
//! A component holds a real value scaled by `FX_ONE`; the same type carries
//! points and colors. Raw (unscaled) integer forms of the dot and cross
//! products back the exact algebraic laws; the executable operators rescale
//! their results and their contracts state the exact truncated value.

use vstd::prelude::*;
use crate::fixed::{FX_ONE, NEAR_ZERO_EPS, fx, tdiv, sqrt_floor, fx_mul, fx_sd, tdiv_i128, isqrt, lemma_tdiv_mag, lemma_mul_bound, lemma_sqrt_floor_unique};
use crate::rng::rand_range_i64;
use vstd::arithmetic::div_mod::{lemma_div_pos_is_pos, lemma_multiply_divide_lt};
use vstd::arithmetic::mul::lemma_mul_inequality;

verus! {

#[derive(Clone, Copy, PartialEq, Eq, Structural, Debug)]
pub struct Vec3 {
    pub x: i64,
    pub y: i64,
    pub z: i64,
}

/// Points and colors share the vector representation.
pub type Point3 = Vec3;

/// Colors are vectors whose components are per-channel intensities.
pub type Color = Vec3;

/// All three components lie within `b` in magnitude.
pub open spec fn bounded(v: Vec3, b: int) -> bool {
    &&& -b <= v.x <= b
    &&& -b <= v.y <= b
    &&& -b <= v.z <= b
}

/// A vector as the triple of its components, for composing specifications.
pub open spec fn v3(v: Vec3) -> (int, int, int) {
    (v.x as int, v.y as int, v.z as int)
}

/// The unscaled dot product of two integer triples.
pub open spec fn dot3(a: (int, int, int), b: (int, int, int)) -> int {
    (a.0 * b.0) + (a.1 * b.1) + (a.2 * b.2)
}

/// The unscaled (raw) dot product of two vectors.
pub open spec fn dot_raw(a: Vec3, b: Vec3) -> int {
    dot3(v3(a), v3(b))
}

/// The unscaled cross product, as an integer triple.
pub open spec fn cross_raw(a: Vec3, b: Vec3) -> (int, int, int) {
    (a.y * b.z - a.z * b.y, a.z * b.x - a.x * b.z, a.x * b.y - a.y * b.x)
}

/// The componentwise negation of a triple.
pub open spec fn neg3(t: (int, int, int)) -> (int, int, int) {
    (-t.0, -t.1, -t.2)
}

/// `uv` is the fixed-point normalization of some nonzero vector.
pub open spec fn is_normalized(uv: Vec3) -> bool {
    exists|rv: Vec3| dot_raw(rv, rv) >= 1 && v3(uv) == #[trigger] spec_unit(rv)
}

/// Every component is below the degeneracy threshold in magnitude.
pub open spec fn spec_near_zero(v: Vec3) -> bool {
    &&& -NEAR_ZERO_EPS < v.x < NEAR_ZERO_EPS
    &&& -NEAR_ZERO_EPS < v.y < NEAR_ZERO_EPS
    &&& -NEAR_ZERO_EPS < v.z < NEAR_ZERO_EPS
}

/// A squared norm is never negative.
pub proof fn lemma_norm_sq_nonneg(v: Vec3)
    by (nonlinear_arith)
    ensures
        dot_raw(v, v) >= 0,
{
}

/// Componentwise bounds on two vectors bound each product and the raw dot.
pub proof fn lemma_dot_raw_bound(a: Vec3, b: Vec3, m: int)
    by (nonlinear_arith)
    requires
        0 <= m,
        bounded(a, m),
        bounded(b, m),
    ensures
        -(m * m) <= a.x * b.x <= m * m,
        -(m * m) <= a.y * b.y <= m * m,
        -(m * m) <= a.z * b.z <= m * m,
        -(3 * m * m) <= dot_raw(a, b) <= 3 * m * m,
{
}

/// Separate componentwise bounds on two vectors bound each product and the
/// raw dot.
pub proof fn lemma_dot_raw_bound2(a: Vec3, b: Vec3, ma: int, mb: int)
    by (nonlinear_arith)
    requires
        0 <= ma,
        0 <= mb,
        bounded(a, ma),
        bounded(b, mb),
    ensures
        -(ma * mb) <= a.x * b.x <= ma * mb,
        -(ma * mb) <= a.y * b.y <= ma * mb,
        -(ma * mb) <= a.z * b.z <= ma * mb,
        -(3 * ma * mb) <= dot_raw(a, b) <= 3 * ma * mb,
{
}

/// A vector with a nonzero component has raw squared norm at least one.
pub proof fn lemma_nonzero_norm(v: Vec3)
    by (nonlinear_arith)
    requires
        !(v.x == 0 && v.y == 0 && v.z == 0),
    ensures
        dot_raw(v, v) >= 1,
{
}

/// Negating a vector keeps its squared norm and flips the sign of any dot
/// product with it.
pub proof fn lemma_dot_neg(a: Vec3, b: Vec3, na: Vec3)
    by (nonlinear_arith)
    requires
        na.x == -a.x,
        na.y == -a.y,
        na.z == -a.z,
    ensures
        dot_raw(na, na) == dot_raw(a, a),
        dot_raw(na, b) == -dot_raw(a, b),
{
}

/// The cross product is orthogonal to both of its factors: the raw dot of
/// `cross(a, b)` with `a` is exactly zero, and likewise with `b`.
pub proof fn lemma_cross_orthogonal(a: Vec3, b: Vec3)
    ensures
        cross_raw(a, b).0 * a.x + cross_raw(a, b).1 * a.y + cross_raw(a, b).2 * a.z == 0,
        cross_raw(a, b).0 * b.x + cross_raw(a, b).1 * b.y + cross_raw(a, b).2 * b.z == 0,
{
    assert((a.y * b.z - a.z * b.y) * a.x + (a.z * b.x - a.x * b.z) * a.y + (a.x * b.y - a.y
        * b.x) * a.z == 0) by (nonlinear_arith);
    assert((a.y * b.z - a.z * b.y) * b.x + (a.z * b.x - a.x * b.z) * b.y + (a.x * b.y - a.y
        * b.x) * b.z == 0) by (nonlinear_arith);
}

/// Adding a vector and subtracting it again returns the first operand
/// exactly; fixed-point addition carries no rounding.
pub proof fn lemma_add_sub_cancel(a: Vec3, b: Vec3)
    ensures
        (a.x + b.x) - b.x == a.x,
        (a.y + b.y) - b.y == a.y,
        (a.z + b.z) - b.z == a.z,
{
}

/// `(a - b)^2` expands to `a^2 - 2ab + b^2`.
proof fn lemma_expand_sq_diff(a: int, b: int)
    by (nonlinear_arith)
    ensures
        (a - b) * (a - b) == a * a - 2 * (a * b) + b * b,
{
}

/// Products commute and reassociate: `(s*a)*(s*a) == (s*s)*(a*a)`.
proof fn lemma_sq_of_mul(s: int, a: int)
    by (nonlinear_arith)
    ensures
        (s * a) * (s * a) == (s * s) * (a * a),
{
}

/// `(s*a)*(2*d*m) == 2*((s*d)*(a*m))`.
proof fn lemma_cross_term(s: int, a: int, d: int, m: int)
    by (nonlinear_arith)
    ensures
        (s * a) * (2 * (d * m)) == 2 * ((s * d) * (a * m)),
{
}

/// One component of the scaled reflection, squared and expanded.
proof fn lemma_reflect_component(s: int, d: int, a: int, m: int, r: int)
    requires
        r == s * a - 2 * (d * m),
    ensures
        r * r == (s * s) * (a * a) - 4 * ((s * d) * (a * m)) + 4 * ((d * d) * (m * m)),
{
    lemma_expand_sq_diff(s * a, 2 * (d * m));
    lemma_sq_of_mul(s, a);
    lemma_cross_term(s, a, d, m);
    assert((2 * (d * m)) * (2 * (d * m)) == 4 * ((d * d) * (m * m))) by (nonlinear_arith);
}

/// Reflection about a normal preserves length, in the exact scaled form:
/// with `s` the raw squared norm of the normal, the vector
/// `s*v - 2*dot_raw(v,n)*n` has raw squared norm `s*s*dot_raw(v,v)`.
pub proof fn lemma_reflect_preserves_length(v: Vec3, n: Vec3, s: int, r: (int, int, int))
    requires
        dot_raw(n, n) == s,
        r.0 == s * v.x - 2 * dot_raw(v, n) * n.x,
        r.1 == s * v.y - 2 * dot_raw(v, n) * n.y,
        r.2 == s * v.z - 2 * dot_raw(v, n) * n.z,
    ensures
        r.0 * r.0 + r.1 * r.1 + r.2 * r.2 == s * s * dot_raw(v, v),
{
    let d = dot_raw(v, n);
    let vx = v.x as int;
    let vy = v.y as int;
    let vz = v.z as int;
    let nx = n.x as int;
    let ny = n.y as int;
    let nz = n.z as int;
    assert(d == vx * nx + vy * ny + vz * nz);
    assert(s == nx * nx + ny * ny + nz * nz);
    vstd::arithmetic::mul::lemma_mul_is_associative(2, d, nx);
    vstd::arithmetic::mul::lemma_mul_is_associative(2, d, ny);
    vstd::arithmetic::mul::lemma_mul_is_associative(2, d, nz);
    lemma_reflect_component(s, d, vx, nx, r.0);
    lemma_reflect_component(s, d, vy, ny, r.1);
    lemma_reflect_component(s, d, vz, nz, r.2);
    let sd = s * d;
    let dd = d * d;
    let ss = s * s;
    assert(r.0 * r.0 + r.1 * r.1 + r.2 * r.2 == ss * (vx * vx + vy * vy + vz * vz) - 4 * (
    sd * d) + 4 * (dd * s)) by {
        assert(ss * (vx * vx) + ss * (vy * vy) + ss * (vz * vz) == ss * (vx * vx + vy * vy
            + vz * vz)) by (nonlinear_arith);
        assert(sd * (vx * nx) + sd * (vy * ny) + sd * (vz * nz) == sd * d)
            by (nonlinear_arith)
            requires
                d == vx * nx + vy * ny + vz * nz,
        ;
        assert(dd * (nx * nx) + dd * (ny * ny) + dd * (nz * nz) == dd * s)
            by (nonlinear_arith)
            requires
                s == nx * nx + ny * ny + nz * nz,
        ;
    }
    assert((s * d) * d == (d * d) * s) by (nonlinear_arith);
    assert(dot_raw(v, v) == vx * vx + vy * vy + vz * vz);
}

impl Vec3 {
    pub fn new(x: i64, y: i64, z: i64) -> (r: Vec3)
        ensures
            r == (Vec3 { x, y, z }),
    {
        Vec3 { x, y, z }
    }

    pub fn x(&self) -> (r: i64)
        ensures
            r == self.x,
    {
        self.x
    }

    pub fn y(&self) -> (r: i64)
        ensures
            r == self.y,
    {
        self.y
    }

    pub fn z(&self) -> (r: i64)
        ensures
            r == self.z,
    {
        self.z
    }

    /// Componentwise sum, exact.
    pub fn add(self, other: Vec3) -> (r: Vec3)
        requires
            i64::MIN <= self.x + other.x <= i64::MAX,
            i64::MIN <= self.y + other.y <= i64::MAX,
            i64::MIN <= self.z + other.z <= i64::MAX,
        ensures
            r.x == self.x + other.x,
            r.y == self.y + other.y,
            r.z == self.z + other.z,
    {
        Vec3 { x: self.x + other.x, y: self.y + other.y, z: self.z + other.z }
    }

    /// Componentwise difference, exact.
    pub fn sub(self, other: Vec3) -> (r: Vec3)
        requires
            i64::MIN <= self.x - other.x <= i64::MAX,
            i64::MIN <= self.y - other.y <= i64::MAX,
            i64::MIN <= self.z - other.z <= i64::MAX,
        ensures
            r.x == self.x - other.x,
            r.y == self.y - other.y,
            r.z == self.z - other.z,
    {
        Vec3 { x: self.x - other.x, y: self.y - other.y, z: self.z - other.z }
    }

    /// Componentwise negation, exact.
    pub fn neg(self) -> (r: Vec3)
        requires
            self.x > i64::MIN,
            self.y > i64::MIN,
            self.z > i64::MIN,
        ensures
            r.x == -self.x,
            r.y == -self.y,
            r.z == -self.z,
    {
        Vec3 { x: -self.x, y: -self.y, z: -self.z }
    }

    /// In-place componentwise sum, exact.
    pub fn add_assign(&mut self, other: Vec3)
        requires
            i64::MIN <= old(self).x + other.x <= i64::MAX,
            i64::MIN <= old(self).y + other.y <= i64::MAX,
            i64::MIN <= old(self).z + other.z <= i64::MAX,
        ensures
            final(self).x == old(self).x + other.x,
            final(self).y == old(self).y + other.y,
            final(self).z == old(self).z + other.z,
    {
        self.x = self.x + other.x;
        self.y = self.y + other.y;
        self.z = self.z + other.z;
    }

    /// In-place componentwise fixed-point product.
    pub fn mul_assign(&mut self, other: Vec3)
        requires
            -0x4000_0000_0000_0000_0000 <= old(self).x * other.x <= 0x4000_0000_0000_0000_0000,
            -0x4000_0000_0000_0000_0000 <= old(self).y * other.y <= 0x4000_0000_0000_0000_0000,
            -0x4000_0000_0000_0000_0000 <= old(self).z * other.z <= 0x4000_0000_0000_0000_0000,
        ensures
            final(self).x == fx(old(self).x * other.x),
            final(self).y == fx(old(self).y * other.y),
            final(self).z == fx(old(self).z * other.z),
    {
        self.x = fx_mul(self.x, other.x);
        self.y = fx_mul(self.y, other.y);
        self.z = fx_mul(self.z, other.z);
    }

    /// In-place componentwise fixed-point quotient.
    pub fn div_assign(&mut self, other: Vec3)
        requires
            bounded(*old(self), 0x4000_0000_0000),
            other.x != 0,
            other.y != 0,
            other.z != 0,
        ensures
            final(self).x == sdiv_fx_spec(old(self).x as int, other.x as int),
            final(self).y == sdiv_fx_spec(old(self).y as int, other.y as int),
            final(self).z == sdiv_fx_spec(old(self).z as int, other.z as int),
    {
        self.x = sdiv_fx(self.x, other.x);
        self.y = sdiv_fx(self.y, other.y);
        self.z = sdiv_fx(self.z, other.z);
    }

    /// Componentwise fixed-point product.
    pub fn mul(self, other: Vec3) -> (r: Vec3)
        requires
            -0x4000_0000_0000_0000_0000 <= self.x * other.x <= 0x4000_0000_0000_0000_0000,
            -0x4000_0000_0000_0000_0000 <= self.y * other.y <= 0x4000_0000_0000_0000_0000,
            -0x4000_0000_0000_0000_0000 <= self.z * other.z <= 0x4000_0000_0000_0000_0000,
        ensures
            r.x == fx(self.x * other.x),
            r.y == fx(self.y * other.y),
            r.z == fx(self.z * other.z),
    {
        Vec3 {
            x: fx_mul(self.x, other.x),
            y: fx_mul(self.y, other.y),
            z: fx_mul(self.z, other.z),
        }
    }

    /// Fixed-point product with a scalar.
    pub fn mul_scalar(self, s: i64) -> (r: Vec3)
        requires
            -0x4000_0000_0000_0000_0000 <= self.x * s <= 0x4000_0000_0000_0000_0000,
            -0x4000_0000_0000_0000_0000 <= self.y * s <= 0x4000_0000_0000_0000_0000,
            -0x4000_0000_0000_0000_0000 <= self.z * s <= 0x4000_0000_0000_0000_0000,
        ensures
            r.x == fx(self.x * s),
            r.y == fx(self.y * s),
            r.z == fx(self.z * s),
    {
        Vec3 { x: fx_mul(self.x, s), y: fx_mul(self.y, s), z: fx_mul(self.z, s) }
    }

    /// Componentwise fixed-point quotient, truncating toward zero.
    pub fn div(self, other: Vec3) -> (r: Vec3)
        requires
            bounded(self, 0x4000_0000_0000),
            other.x != 0,
            other.y != 0,
            other.z != 0,
        ensures
            r.x == sdiv_fx_spec(self.x as int, other.x as int),
            r.y == sdiv_fx_spec(self.y as int, other.y as int),
            r.z == sdiv_fx_spec(self.z as int, other.z as int),
    {
        Vec3 {
            x: sdiv_fx(self.x, other.x),
            y: sdiv_fx(self.y, other.y),
            z: sdiv_fx(self.z, other.z),
        }
    }

    /// Fixed-point quotient by a scalar, truncating toward zero.
    pub fn div_scalar(self, s: i64) -> (r: Vec3)
        requires
            bounded(self, 0x4000_0000_0000),
            s != 0,
        ensures
            r.x == sdiv_fx_spec(self.x as int, s as int),
            r.y == sdiv_fx_spec(self.y as int, s as int),
            r.z == sdiv_fx_spec(self.z as int, s as int),
    {
        Vec3 { x: sdiv_fx(self.x, s), y: sdiv_fx(self.y, s), z: sdiv_fx(self.z, s) }
    }

    /// Fixed-point dot product: the raw dot rescaled by one unit.
    pub fn dot(&self, other: &Vec3) -> (r: i64)
        requires
            bounded(*self, 0x4000_0000_0000_0000),
            bounded(*other, 0x4000_0000_0000_0000),
            -0x4000_0000_0000_0000_0000 <= dot_raw(*self, *other) <= 0x4000_0000_0000_0000_0000,
        ensures
            r == fx(dot_raw(*self, *other)),
            -0x4000_0000_0000_0000 <= r <= 0x4000_0000_0000_0000,
    {
        proof {
            lemma_dot_raw_bound(*self, *other, 0x4000_0000_0000_0000);
        }
        let p: i128 = (self.x as i128) * (other.x as i128) + (self.y as i128) * (other.y as i128)
            + (self.z as i128) * (other.z as i128);
        let r: i128 = fx_sd(p);
        proof {
            lemma_tdiv_mag(p as int, FX_ONE as int, 0x4000_0000_0000_0000_0000);
            assert(0x4000_0000_0000_0000_0000int / 65536int == 0x4000_0000_0000_0000int);
        }
        r as i64
    }

    /// Fixed-point cross product: each raw component rescaled by one unit.
    pub fn cross(&self, other: &Vec3) -> (r: Vec3)
        requires
            bounded(*self, 0x40_0000_0000),
            bounded(*other, 0x40_0000_0000),
        ensures
            r.x == fx(cross_raw(*self, *other).0),
            r.y == fx(cross_raw(*self, *other).1),
            r.z == fx(cross_raw(*self, *other).2),
    {
        proof {
            assert(
                -0x2000_0000_0000_0000_0000 <= self.y * other.z <= 0x2000_0000_0000_0000_0000
                && -0x2000_0000_0000_0000_0000 <= self.z * other.y <= 0x2000_0000_0000_0000_0000
                && -0x2000_0000_0000_0000_0000 <= self.z * other.x <= 0x2000_0000_0000_0000_0000
                && -0x2000_0000_0000_0000_0000 <= self.x * other.z <= 0x2000_0000_0000_0000_0000
                && -0x2000_0000_0000_0000_0000 <= self.x * other.y <= 0x2000_0000_0000_0000_0000
                && -0x2000_0000_0000_0000_0000 <= self.y * other.x <= 0x2000_0000_0000_0000_0000
            ) by (nonlinear_arith)
                requires
                    bounded(*self, 0x40_0000_0000),
                    bounded(*other, 0x40_0000_0000),
            ;
        }
        let cx: i128 = (self.y as i128) * (other.z as i128) - (self.z as i128) * (other.y as i128);
        let cy: i128 = (self.z as i128) * (other.x as i128) - (self.x as i128) * (other.z as i128);
        let cz: i128 = (self.x as i128) * (other.y as i128) - (self.y as i128) * (other.x as i128);
        let rx: i128 = fx_sd(cx);
        let ry: i128 = fx_sd(cy);
        let rz: i128 = fx_sd(cz);
        proof {
            lemma_tdiv_mag(cx as int, FX_ONE as int, 0x4000_0000_0000_0000_0000);
            lemma_tdiv_mag(cy as int, FX_ONE as int, 0x4000_0000_0000_0000_0000);
            lemma_tdiv_mag(cz as int, FX_ONE as int, 0x4000_0000_0000_0000_0000);
            assert(0x4000_0000_0000_0000_0000int / 65536int == 0x4000_0000_0000_0000int);
        }
        Vec3 { x: rx as i64, y: ry as i64, z: rz as i64 }
    }

    /// Fixed-point squared length: the raw squared norm rescaled by one unit.
    pub fn length_squared(&self) -> (r: i64)
        requires
            bounded(*self, 0x40_0000_0000),
        ensures
            r == fx(dot_raw(*self, *self)),
            0 <= r <= 0x4000_0000_0000_0000,
    {
        proof {
            lemma_norm_sq_nonneg(*self);
            lemma_dot_raw_bound(*self, *self, 0x40_0000_0000);
        }
        let p: i128 = (self.x as i128) * (self.x as i128) + (self.y as i128) * (self.y as i128)
            + (self.z as i128) * (self.z as i128);
        let r: i128 = fx_sd(p);
        proof {
            lemma_tdiv_mag(p as int, FX_ONE as int, 0x4000_0000_0000_0000_0000);
            assert(0x4000_0000_0000_0000_0000int / 65536int == 0x4000_0000_0000_0000int);
            lemma_div_pos_is_pos(p as int, FX_ONE as int);
        }
        r as i64
    }

    /// Fixed-point length: the floor square root of the raw squared norm.
    pub fn length(&self) -> (r: i64)
        requires
            bounded(*self, 0x4000_0000_0000_0000),
        ensures
            r == sqrt_floor(dot_raw(*self, *self)),
            r >= 0,
            (r as int) * (r as int) <= dot_raw(*self, *self) < ((r as int) + 1) * ((r as int) + 1),
    {
        proof {
            lemma_norm_sq_nonneg(*self);
            lemma_dot_raw_bound(*self, *self, 0x4000_0000_0000_0000);
        }
        let p: i128 = (self.x as i128) * (self.x as i128) + (self.y as i128) * (self.y as i128)
            + (self.z as i128) * (self.z as i128);
        let s: u128 = isqrt(p as u128);
        proof {
            assert((s as int) * (s as int) <= p as int ==> s as int <= 0x7fff_ffff_ffff_ffff)
                by (nonlinear_arith)
                requires
                    p as int <= 0x3000_0000_0000_0000_0000_0000_0000_0000,
                    s as int >= 0,
            ;
        }
        s as i64
    }
}

/// A quotient `x * FX_ONE / len` stays within one fixed-point unit when
/// `|x| <= len`.
proof fn lemma_unit_comp_bound(x: int, len: int)
    requires
        len >= 1,
        -len <= x <= len,
    ensures
        -65536 <= tdiv(x * 65536, len) <= 65536,
{
    lemma_mul_inequality(x, len, 65536);
    lemma_mul_inequality(-x, len, 65536);
    assert(len * 65536 < len * 65537) by (nonlinear_arith)
        requires
            len >= 1,
    ;
    if x >= 0 {
        lemma_multiply_divide_lt(x * 65536, len, 65537);
        lemma_div_pos_is_pos(x * 65536, len);
    } else {
        lemma_multiply_divide_lt((-x) * 65536, len, 65537);
        lemma_div_pos_is_pos((-x) * 65536, len);
    }
}

/// No component exceeds the vector's length: with `n` the raw squared norm
/// and `l` its floor square root, each component lies within `l`.
proof fn lemma_comp_le_len(v: Vec3, n: int, l: int)
    by (nonlinear_arith)
    requires
        dot_raw(v, v) == n,
        n < (l + 1) * (l + 1),
        l >= 0,
    ensures
        -l <= v.x <= l,
        -l <= v.y <= l,
        -l <= v.z <= l,
{
}

/// The normalized form of `v`: each component promoted by one scale unit
/// and divided by the fixed-point length of `v`.
pub open spec fn spec_unit(v: Vec3) -> (int, int, int) {
    let l = sqrt_floor(dot_raw(v, v));
    (tdiv(v.x * 65536, l), tdiv(v.y * 65536, l), tdiv(v.z * 65536, l))
}

/// The reflection of the triple `v` about the normal triple `n`, in
/// executable fixed-point form: `v - n * (2 * dot(v, n))`.
pub open spec fn reflect3(v: (int, int, int), n: (int, int, int)) -> (int, int, int) {
    let d2 = 2 * fx(dot3(v, n));
    (v.0 - fx(n.0 * d2), v.1 - fx(n.1 * d2), v.2 - fx(n.2 * d2))
}

/// The reflection of `v` about the normal `n`.
pub open spec fn spec_reflect(v: Vec3, n: Vec3) -> (int, int, int) {
    reflect3(v3(v), v3(n))
}

/// Refraction of the unit triple `uv` at a surface with unit normal triple
/// `n` and refraction ratio `ratio`, by Snell's law in fixed-point form:
/// the perpendicular component `(uv + n * cos) * ratio` plus the parallel
/// component `n * (-sqrt(|1 - |perp|^2|))`, with the cosine clamped to one.
pub open spec fn refract3(uv: (int, int, int), n: (int, int, int), ratio: int) -> (
    int,
    int,
    int,
) {
    let c0 = fx(-dot3(uv, n));
    let cos = if c0 > FX_ONE { FX_ONE as int } else { c0 };
    let perp = (
        fx((uv.0 + fx(n.0 * cos)) * ratio),
        fx((uv.1 + fx(n.1 * cos)) * ratio),
        fx((uv.2 + fx(n.2 * cos)) * ratio),
    );
    let lsq = fx(dot3(perp, perp));
    let k = if FX_ONE - lsq >= 0 { FX_ONE - lsq } else { -(FX_ONE - lsq) };
    let s = sqrt_floor(k * 65536);
    (perp.0 + fx(n.0 * -s), perp.1 + fx(n.1 * -s), perp.2 + fx(n.2 * -s))
}

impl Vec3 {
    /// True exactly when every component is below the degeneracy threshold.
    pub fn near_zero(&self) -> (r: bool)
        ensures
            r == spec_near_zero(*self),
    {
        -NEAR_ZERO_EPS < self.x && self.x < NEAR_ZERO_EPS && -NEAR_ZERO_EPS < self.y && self.y
            < NEAR_ZERO_EPS && -NEAR_ZERO_EPS < self.z && self.z < NEAR_ZERO_EPS
    }

    /// Normalization: the result is `spec_unit(self)` exactly, and each
    /// component stays within one fixed-point unit.
    pub fn unit_vector(&self) -> (r: Vec3)
        requires
            bounded(*self, 0x4000_0000_0000),
            dot_raw(*self, *self) >= 1,
        ensures
            r.x == spec_unit(*self).0,
            r.y == spec_unit(*self).1,
            r.z == spec_unit(*self).2,
            bounded(r, FX_ONE as int),
    {
        let len = self.length();
        proof {
            if len == 0 {
                assert((len as int + 1) * (len as int + 1) == 1) by (nonlinear_arith)
                    requires
                        len as int == 0,
                ;
            }
        }
        assert(len >= 1);
        proof {
            lemma_comp_le_len(*self, dot_raw(*self, *self), len as int);
            lemma_unit_comp_bound(self.x as int, len as int);
            lemma_unit_comp_bound(self.y as int, len as int);
            lemma_unit_comp_bound(self.z as int, len as int);
        }
        let rx = tdiv_i128((self.x as i128) * 65536, len as i128);
        let ry = tdiv_i128((self.y as i128) * 65536, len as i128);
        let rz = tdiv_i128((self.z as i128) * 65536, len as i128);
        Vec3 { x: rx as i64, y: ry as i64, z: rz as i64 }
    }

    /// Refraction by Snell's law; `self` and the normal are expected in
    /// unit scale and the result is `refract3` of their triples, exactly.
    pub fn refract(&self, n: &Vec3, etai_over_etat: i64) -> (r: Vec3)
        requires
            bounded(*self, 0x2_0000),
            bounded(*n, 0x2_0000),
            0 < etai_over_etat <= 0x10_0000,
        ensures
            v3(r) == refract3(v3(*self), v3(*n), etai_over_etat as int),
    {
        proof {
            lemma_dot_raw_bound(*self, *n, 0x2_0000);
        }
        let draw: i128 = -((self.x as i128) * (n.x as i128) + (self.y as i128) * (n.y as i128)
            + (self.z as i128) * (n.z as i128));
        let c0i: i128 = fx_sd(draw);
        proof {
            lemma_tdiv_mag(draw as int, 65536, 0xc_0000_0000);
        }
        let c0: i64 = c0i as i64;
        let cos: i64 = if c0 > FX_ONE {
            FX_ONE
        } else {
            c0
        };
        proof {
            lemma_mul_bound(n.x as int, cos as int, 0x2_0000, 0xc_0000);
            lemma_mul_bound(n.y as int, cos as int, 0x2_0000, 0xc_0000);
            lemma_mul_bound(n.z as int, cos as int, 0x2_0000, 0xc_0000);
            lemma_tdiv_mag(n.x * cos, 65536, 0x18_0000_0000);
            lemma_tdiv_mag(n.y * cos, 65536, 0x18_0000_0000);
            lemma_tdiv_mag(n.z * cos, 65536, 0x18_0000_0000);
        }
        let ix: i64 = self.x + fx_mul(n.x, cos);
        let iy: i64 = self.y + fx_mul(n.y, cos);
        let iz: i64 = self.z + fx_mul(n.z, cos);
        proof {
            lemma_mul_bound(ix as int, etai_over_etat as int, 0x1a_0000, 0x10_0000);
            lemma_mul_bound(iy as int, etai_over_etat as int, 0x1a_0000, 0x10_0000);
            lemma_mul_bound(iz as int, etai_over_etat as int, 0x1a_0000, 0x10_0000);
            lemma_tdiv_mag(ix * etai_over_etat, 65536, 0x1a0_0000_0000);
            lemma_tdiv_mag(iy * etai_over_etat, 65536, 0x1a0_0000_0000);
            lemma_tdiv_mag(iz * etai_over_etat, 65536, 0x1a0_0000_0000);
        }
        let px: i64 = fx_mul(ix, etai_over_etat);
        let py: i64 = fx_mul(iy, etai_over_etat);
        let pz: i64 = fx_mul(iz, etai_over_etat);
        let perp = Vec3 { x: px, y: py, z: pz };
        proof {
            lemma_norm_sq_nonneg(perp);
            lemma_dot_raw_bound(perp, perp, 0x1a0_0000);
        }
        let praw: i128 = (px as i128) * (px as i128) + (py as i128) * (py as i128) + (
        pz as i128) * (pz as i128);
        let lsqi: i128 = fx_sd(praw);
        proof {
            lemma_tdiv_mag(praw as int, 65536, 0x300_0000_0000_0000);
            lemma_div_pos_is_pos(praw as int, 65536);
        }
        let lsq: i64 = lsqi as i64;
        let k: i64 = if FX_ONE - lsq >= 0 {
            FX_ONE - lsq
        } else {
            -(FX_ONE - lsq)
        };
        let sq: u128 = isqrt((k as u128) * 65536);
        proof {
            assert(sq as int <= 0x1000_0000_0000_0000) by (nonlinear_arith)
                requires
                    (sq as int) * (sq as int) <= (k as int) * 65536,
                    0 <= k as int <= 0x1_0000_0000_0000_0000,
                    sq as int >= 0,
            ;
        }
        let s: i64 = sq as i64;
        proof {
            lemma_mul_bound(n.x as int, -(s as int), 0x2_0000, 0x1000_0000_0000_0000);
            lemma_mul_bound(n.y as int, -(s as int), 0x2_0000, 0x1000_0000_0000_0000);
            lemma_mul_bound(n.z as int, -(s as int), 0x2_0000, 0x1000_0000_0000_0000);
        }
        let rx: i64 = px + fx_mul(n.x, -s);
        let ry: i64 = py + fx_mul(n.y, -s);
        let rz: i64 = pz + fx_mul(n.z, -s);
        Vec3 { x: rx, y: ry, z: rz }
    }

    /// Reflection about a normal, exact in the fixed-point sense.
    pub fn reflect(&self, normal: &Vec3) -> (r: Vec3)
        requires
            bounded(*self, 0x100_0000),
            bounded(*normal, 0x100_0000),
        ensures
            r.x == spec_reflect(*self, *normal).0,
            r.y == spec_reflect(*self, *normal).1,
            r.z == spec_reflect(*self, *normal).2,
            bounded(r, 0x7_0000_0000_0000),
    {
        proof {
            lemma_dot_raw_bound(*self, *normal, 0x100_0000);
            lemma_tdiv_mag(dot_raw(*self, *normal), 65536, 0x3_0000_0000_0000);
        }
        let d = self.dot(normal);
        let d2 = 2 * d;
        proof {
            lemma_mul_bound(normal.x as int, d2 as int, 0x100_0000, 0x6_0000_0000);
            lemma_mul_bound(normal.y as int, d2 as int, 0x100_0000, 0x6_0000_0000);
            lemma_mul_bound(normal.z as int, d2 as int, 0x100_0000, 0x6_0000_0000);
        }
        let scaled = normal.mul_scalar(d2);
        proof {
            lemma_tdiv_mag(normal.x * d2, 65536, 0x600_0000_0000_0000);
            lemma_tdiv_mag(normal.y * d2, 65536, 0x600_0000_0000_0000);
            lemma_tdiv_mag(normal.z * d2, 65536, 0x600_0000_0000_0000);
        }
        self.sub(scaled)
    }
}

impl Vec3 {
    /// A vector with each component drawn uniformly from `[0, 1)`.
    pub fn new_random() -> (r: Vec3)
        ensures
            0 <= r.x < FX_ONE,
            0 <= r.y < FX_ONE,
            0 <= r.z < FX_ONE,
    {
        Vec3 {
            x: rand_range_i64(0, FX_ONE),
            y: rand_range_i64(0, FX_ONE),
            z: rand_range_i64(0, FX_ONE),
        }
    }

    /// A vector with each component drawn uniformly from `[lo, hi)`.
    pub fn new_random_range(lo: i64, hi: i64) -> (r: Vec3)
        requires
            lo < hi,
        ensures
            lo <= r.x < hi,
            lo <= r.y < hi,
            lo <= r.z < hi,
    {
        Vec3 {
            x: rand_range_i64(lo, hi),
            y: rand_range_i64(lo, hi),
            z: rand_range_i64(lo, hi),
        }
    }

    /// Rejection-samples a point strictly inside the unit ball: draws from
    /// the cube `[-1, 1)^3` until the raw squared norm is below one. The
    /// attempt count is bounded (acceptance odds are about one half per
    /// draw); if every draw is rejected the origin is returned, which also
    /// lies inside the ball.
    pub fn new_random_in_unit_sphere() -> (r: Vec3)
        ensures
            dot_raw(r, r) < (FX_ONE as int) * (FX_ONE as int),
            bounded(r, FX_ONE as int),
    {
        let mut p = Vec3 { x: 0, y: 0, z: 0 };
        let mut found = false;
        let mut tries: u32 = 0;
        while !found && tries < 64
            invariant
                dot_raw(p, p) < (FX_ONE as int) * (FX_ONE as int),
                bounded(p, FX_ONE as int),
            decreases 64 - tries,
        {
            tries = tries + 1;
            let c = Vec3::new_random_range(-FX_ONE, FX_ONE);
            proof {
                lemma_dot_raw_bound(c, c, FX_ONE as int);
            }
            let lsq: i128 = (c.x as i128) * (c.x as i128) + (c.y as i128) * (c.y as i128) + (
            c.z as i128) * (c.z as i128);
            if lsq < (FX_ONE as i128) * (FX_ONE as i128) {
                p = c;
                found = true;
            }
        }
        p
    }

    /// A point in the unit ball, flipped if needed so that it lies in the
    /// hemisphere around the given normal: the raw dot with the normal is
    /// never negative.
    pub fn random_in_hemisphere(normal: &Vec3) -> (r: Vec3)
        requires
            bounded(*normal, 0x100_0000),
        ensures
            dot_raw(r, r) < (FX_ONE as int) * (FX_ONE as int),
            bounded(r, FX_ONE as int),
            dot_raw(r, *normal) >= 0,
    {
        let p = Vec3::new_random_in_unit_sphere();
        proof {
            lemma_dot_raw_bound(p, *normal, 0x100_0000);
        }
        let d: i128 = (p.x as i128) * (normal.x as i128) + (p.y as i128) * (normal.y as i128)
            + (p.z as i128) * (normal.z as i128);
        if d > 0 {
            p
        } else {
            let np = Vec3 { x: -p.x, y: -p.y, z: -p.z };
            proof {
                lemma_dot_neg(p, *normal, np);
            }
            np
        }
    }

    /// Rejection-samples a point strictly inside the unit disk in the x-y
    /// plane, with the same bounded-attempt guard as the ball sampler.
    pub fn random_in_unit_disk() -> (r: Vec3)
        ensures
            dot_raw(r, r) < (FX_ONE as int) * (FX_ONE as int),
            bounded(r, FX_ONE as int),
            r.z == 0,
    {
        let mut p = Vec3 { x: 0, y: 0, z: 0 };
        let mut found = false;
        let mut tries: u32 = 0;
        while !found && tries < 64
            invariant
                dot_raw(p, p) < (FX_ONE as int) * (FX_ONE as int),
                bounded(p, FX_ONE as int),
                p.z == 0,
            decreases 64 - tries,
        {
            tries = tries + 1;
            let c = Vec3 {
                x: rand_range_i64(-FX_ONE, FX_ONE),
                y: rand_range_i64(-FX_ONE, FX_ONE),
                z: 0,
            };
            proof {
                lemma_dot_raw_bound(c, c, FX_ONE as int);
            }
            let lsq: i128 = (c.x as i128) * (c.x as i128) + (c.y as i128) * (c.y as i128);
            if lsq < (FX_ONE as i128) * (FX_ONE as i128) {
                p = c;
                found = true;
            }
        }
        p
    }
}

/// Signed fixed-point division: `n` promoted by one scale unit, divided by
/// `d`, truncating toward zero.
pub open spec fn sdiv_fx_spec(n: int, d: int) -> int {
    if d > 0 {
        tdiv(n * FX_ONE, d)
    } else {
        -tdiv(n * FX_ONE, -d)
    }
}

/// Fixed-point scalar division helper; the numerator bound keeps the
/// promoted value and the quotient within `i64`.
pub fn sdiv_fx(n: i64, d: i64) -> (r: i64)
    requires
        -0x4000_0000_0000 <= n <= 0x4000_0000_0000,
        d != 0,
    ensures
        r == sdiv_fx_spec(n as int, d as int),
        -0x4000_0000_0000_0000 <= r <= 0x4000_0000_0000_0000,
{
    let num: i128 = (n as i128) * 65536;
    if d > 0 {
        let q: i128 = tdiv_i128(num, d as i128);
        proof {
            lemma_tdiv_mag(num as int, d as int, 0x4000_0000_0000_0000);
            vstd::arithmetic::div_mod::lemma_div_nonincreasing(0x4000_0000_0000_0000int, d as int);
            lemma_div_pos_is_pos(0x4000_0000_0000_0000int, d as int);
        }
        q as i64
    } else {
        let m: i128 = -(d as i128);
        let q: i128 = tdiv_i128(num, m);
        proof {
            lemma_tdiv_mag(num as int, m as int, 0x4000_0000_0000_0000);
            vstd::arithmetic::div_mod::lemma_div_nonincreasing(0x4000_0000_0000_0000int, m as int);
            lemma_div_pos_is_pos(0x4000_0000_0000_0000int, m as int);
        }
        (-q) as i64
    }
}

} // verus!
