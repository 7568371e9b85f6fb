//! The material models: diffuse, reflective-with-fuzz, and dielectric.
//! Scattering consumes an incoming ray and a hit description and yields a
//! scattered ray with an attenuation color, or absorbs the ray.

use vstd::prelude::*;
use crate::fixed::{FX_ONE, fx, sqrt_floor, lemma_tdiv_mag, lemma_mul_bound, fx_mul, isqrt};
use crate::hittable::HitRecord;
use crate::ray::Ray;
use crate::rng::rand_range_i64;
use crate::vec3::{Vec3, Color, bounded, dot_raw, dot3, v3, spec_unit, reflect3, refract3, sdiv_fx, sdiv_fx_spec, spec_near_zero, is_normalized, lemma_dot_raw_bound2, lemma_nonzero_norm};
use vstd::arithmetic::div_mod::{lemma_div_pos_is_pos, lemma_div_is_ordered_by_denominator, lemma_multiply_divide_lt};
use vstd::arithmetic::mul::lemma_mul_inequality;

verus! {

/// A diffuse surface that always scatters and attenuates by its albedo.
#[derive(Clone, Copy, PartialEq, Eq, Structural, Debug)]
pub struct Lambertian {
    pub albedo: Color,
}

/// A reflective surface with a roughness parameter perturbing the ideal
/// reflection; a perturbed ray that points into the surface is absorbed.
#[derive(Clone, Copy, PartialEq, Eq, Structural, Debug)]
pub struct Metal {
    pub albedo: Color,
    pub fuzz: i64,
}

/// A transparent refractive medium described by its refractive index.
#[derive(Clone, Copy, PartialEq, Eq, Structural, Debug)]
pub struct Dialectric {
    pub ir: i64,
}

/// The closed set of material models.
#[derive(Clone, Copy, PartialEq, Eq, Structural, Debug)]
pub enum Material {
    Lambertian(Lambertian),
    Metal(Metal),
    Dialectric(Dialectric),
}

/// A color whose channels are fractional reflectances in `[0, 1]`.
pub open spec fn albedo_wf(c: Color) -> bool {
    &&& 0 <= c.x <= FX_ONE
    &&& 0 <= c.y <= FX_ONE
    &&& 0 <= c.z <= FX_ONE
}

/// Well-formed material parameters: albedos are fractional, fuzz lies in
/// `[0, 1]`, and a refractive index lies in `[1/16, 16]` so that both
/// refraction ratios stay in range.
pub open spec fn material_wf(m: Material) -> bool {
    match m {
        Material::Lambertian(l) => albedo_wf(l.albedo),
        Material::Metal(mt) => albedo_wf(mt.albedo) && 0 <= mt.fuzz <= FX_ONE,
        Material::Dialectric(d) => 0x1000 <= d.ir <= 0x10_0000,
    }
}

/// The material absorbs every channel: a diffuse or metallic surface with
/// an all-zero albedo. A dielectric never absorbs.
pub open spec fn absorbs_all(m: Material) -> bool {
    match m {
        Material::Lambertian(l) => l.albedo == (Color { x: 0, y: 0, z: 0 }),
        Material::Metal(mt) => mt.albedo == (Color { x: 0, y: 0, z: 0 }),
        Material::Dialectric(_) => false,
    }
}

/// The refraction ratio the dielectric model uses: the reciprocal of the
/// index when entering the medium, the index itself when leaving.
pub open spec fn spec_refraction_ratio(ir: int, front_face: bool) -> int {
    if front_face {
        sdiv_fx_spec(FX_ONE as int, ir)
    } else {
        ir
    }
}

/// Total internal reflection: `ratio * sin(theta)` exceeds one, computed
/// exactly as the dielectric model computes it, with the cosine clamped to
/// `[-1, 1]` before the square root.
pub open spec fn spec_cannot_refract(uv: (int, int, int), n: (int, int, int), ratio: int) -> bool {
    let c0 = fx(-dot3(uv, n));
    let cos = if c0 > FX_ONE {
        FX_ONE as int
    } else if c0 < -FX_ONE {
        -FX_ONE as int
    } else {
        c0
    };
    let cos_sq = fx(cos * cos);
    let sin_sq = if FX_ONE - cos_sq >= 0 {
        FX_ONE - cos_sq
    } else {
        0
    };
    fx(ratio * sqrt_floor(sin_sq * 65536)) > FX_ONE
}

impl Material {
    /// Scattering. What is pinned down for every material: the scattered
    /// ray starts at the hit point and the attenuation is the material's
    /// color. A diffuse surface always scatters, along the normal plus a
    /// drawn unit-scale vector with the near-zero fallback to the normal,
    /// so its direction is never degenerate. A metal scatters the drawn
    /// perturbation of the exact reflection if and only if that direction
    /// leaves the surface, and absorbs it otherwise; with zero fuzz this is
    /// deterministic. A dielectric always scatters with full transmission;
    /// its direction is the exact reflection or the exact refraction of the
    /// unit incoming direction, total internal reflection forces the
    /// reflection, and at a refractive index of one the ray passes through
    /// as the exact ratio-one refraction. The choice of draw is random.
    #[verifier::rlimit(60)]
    pub fn scatter(&self, ray_in: &Ray, rec: &HitRecord) -> (res: Option<(Ray, Color)>)
        requires
            material_wf(*self),
            bounded(rec.normal, 0x2_0000),
            bounded(ray_in.direction, 0x100_0000),
            dot_raw(ray_in.direction, ray_in.direction) >= 1,
        ensures
            (match res {
                Some(pair) => pair.0.origin == rec.p,
                None => true,
            }),
            self matches Material::Lambertian(l) ==> res matches Some(pair) && pair.1
                == l.albedo,
            self matches Material::Lambertian(l) ==> exists|uv: Vec3|
                (#[trigger] bounded(uv, FX_ONE as int)) && is_normalized(uv) && (
                res matches Some(pair) ==> {
                    let sum = Vec3 {
                        x: (rec.normal.x + uv.x) as i64,
                        y: (rec.normal.y + uv.y) as i64,
                        z: (rec.normal.z + uv.z) as i64,
                    };
                    pair.0.direction == (if spec_near_zero(sum) {
                        rec.normal
                    } else {
                        sum
                    })
                }),
            self matches Material::Lambertian(l) && !spec_near_zero(rec.normal) ==> (
            res matches Some(pair) && !spec_near_zero(pair.0.direction)),
            self matches Material::Metal(mt) ==> (match res {
                Some(pair) => pair.1 == mt.albedo && fx(dot_raw(pair.0.direction, rec.normal))
                    > 0,
                None => true,
            }),
            self matches Material::Metal(mt) && mt.fuzz == 0 ==> {
                let refl = reflect3(spec_unit(ray_in.direction), v3(rec.normal));
                &&& (res is Some <==> fx(dot3(refl, v3(rec.normal))) > 0)
                &&& (res matches Some(pair) ==> v3(pair.0.direction) == refl)
            },
            self matches Material::Metal(mt) ==> exists|b: Vec3|
                (#[trigger] dot_raw(b, b)) < (FX_ONE as int) * (FX_ONE as int) && bounded(
                    b,
                    FX_ONE as int,
                ) && ({
                    let refl = reflect3(spec_unit(ray_in.direction), v3(rec.normal));
                    let pdir = (
                        refl.0 + fx(b.x * mt.fuzz),
                        refl.1 + fx(b.y * mt.fuzz),
                        refl.2 + fx(b.z * mt.fuzz),
                    );
                    &&& (res is Some <==> fx(dot3(pdir, v3(rec.normal))) > 0)
                    &&& (res matches Some(pair) ==> v3(pair.0.direction) == pdir)
                }),
            self matches Material::Dialectric(dl) ==> res matches Some(pair) && pair.1 == (
            Color { x: FX_ONE, y: FX_ONE, z: FX_ONE }) && {
                let u = spec_unit(ray_in.direction);
                let n3 = v3(rec.normal);
                let ratio = spec_refraction_ratio(dl.ir as int, rec.front_face);
                ||| v3(pair.0.direction) == reflect3(u, n3)
                ||| v3(pair.0.direction) == refract3(u, n3, ratio)
            },
            self matches Material::Dialectric(dl) && spec_cannot_refract(
                spec_unit(ray_in.direction),
                v3(rec.normal),
                spec_refraction_ratio(dl.ir as int, rec.front_face),
            ) ==> (res matches Some(pair) && v3(pair.0.direction) == reflect3(
                spec_unit(ray_in.direction),
                v3(rec.normal),
            )),
            self matches Material::Dialectric(dl) && dl.ir == FX_ONE ==> (res matches Some(pair)
                && v3(pair.0.direction) == refract3(
                spec_unit(ray_in.direction),
                v3(rec.normal),
                FX_ONE as int,
            )),
    {
        match self {
            Material::Lambertian(l) => {
                let rv = Vec3::new_random();
                let u: Vec3 = if rv.x == 0 && rv.y == 0 && rv.z == 0 {
                    proof {
                        let fb = Vec3 { x: 0, y: 0, z: FX_ONE };
                        assert(fb.x * fb.x + fb.y * fb.y + fb.z * fb.z == 0x1_0000_0000)
                            by (nonlinear_arith)
                            requires
                                fb.x == 0,
                                fb.y == 0,
                                fb.z == 65536,
                        ;
                        crate::fixed::lemma_sqrt_floor_unique(0x1_0000_0000, 65536);
                        vstd::arithmetic::div_mod::lemma_div_of0(65536);
                        vstd::arithmetic::div_mod::lemma_div_multiples_vanish(65536, 65536);
                        assert(v3(fb) == spec_unit(fb));
                        assert(is_normalized(fb));
                    }
                    Vec3 { x: 0, y: 0, z: FX_ONE }
                } else {
                    proof {
                        lemma_nonzero_norm(rv);
                    }
                    rv.unit_vector()
                };
                let mut direction = rec.normal.add(u);
                proof {
                    assert(bounded(u, FX_ONE as int));
                    assert(is_normalized(u));
                    let sum = Vec3 {
                        x: (rec.normal.x + u.x) as i64,
                        y: (rec.normal.y + u.y) as i64,
                        z: (rec.normal.z + u.z) as i64,
                    };
                    assert(direction == sum);
                }
                if direction.near_zero() {
                    direction = rec.normal;
                }
                Some((Ray::new(rec.p, direction), l.albedo))
            },
            Material::Metal(mt) => {
                let u = ray_in.direction.unit_vector();
                let reflected = u.reflect(&rec.normal);
                let ball = Vec3::new_random_in_unit_sphere();
                proof {
                    lemma_mul_bound(ball.x as int, mt.fuzz as int, FX_ONE as int, FX_ONE as int);
                    lemma_mul_bound(ball.y as int, mt.fuzz as int, FX_ONE as int, FX_ONE as int);
                    lemma_mul_bound(ball.z as int, mt.fuzz as int, FX_ONE as int, FX_ONE as int);
                    lemma_tdiv_mag(ball.x * mt.fuzz, 65536, 0x1_0000_0000);
                    lemma_tdiv_mag(ball.y * mt.fuzz, 65536, 0x1_0000_0000);
                    lemma_tdiv_mag(ball.z * mt.fuzz, 65536, 0x1_0000_0000);
                }
                let fz = ball.mul_scalar(mt.fuzz);
                let direction = reflected.add(fz);
                proof {
                    lemma_dot_raw_bound2(direction, rec.normal, 0x8_0000_0000_0000, 0x2_0000);
                    if mt.fuzz == 0 {
                        assert(ball.x * mt.fuzz == 0 && ball.y * mt.fuzz == 0 && ball.z
                            * mt.fuzz == 0) by (nonlinear_arith)
                            requires
                                mt.fuzz == 0,
                        ;
                        vstd::arithmetic::div_mod::lemma_div_of0(65536);
                        assert(fz.x == 0 && fz.y == 0 && fz.z == 0);
                    }
                }
                let scattered = Ray::new(rec.p, direction);
                let sd = direction.dot(&rec.normal);
                proof {
                    assert(v3(u) == spec_unit(ray_in.direction));
                    let refl = reflect3(spec_unit(ray_in.direction), v3(rec.normal));
                    assert(v3(direction) == (
                        refl.0 + fx(ball.x * mt.fuzz),
                        refl.1 + fx(ball.y * mt.fuzz),
                        refl.2 + fx(ball.z * mt.fuzz),
                    ));
                }
                if sd > 0 {
                    Some((scattered, mt.albedo))
                } else {
                    None
                }
            },
            Material::Dialectric(dl) => {
                let refraction_ratio: i64 = if rec.front_face {
                    proof {
                        lemma_div_pos_is_pos(0x1_0000_0000, dl.ir as int);
                        lemma_div_is_ordered_by_denominator(0x1_0000_0000, 0x1000, dl.ir as int);
                        lemma_div_is_ordered_by_denominator(
                            0x1_0000_0000,
                            dl.ir as int,
                            0x10_0000,
                        );
                    }
                    sdiv_fx(FX_ONE, dl.ir)
                } else {
                    dl.ir
                };
                let u = ray_in.direction.unit_vector();
                let nu = Vec3 { x: -u.x, y: -u.y, z: -u.z };
                proof {
                    lemma_dot_raw_bound2(rec.normal, nu, 0x2_0000, 0x1_0000);
                }
                let c = rec.normal.dot(&nu);
                let cos: i64 = if c > FX_ONE {
                    FX_ONE
                } else if c < -FX_ONE {
                    -FX_ONE
                } else {
                    c
                };
                proof {
                    lemma_mul_bound(cos as int, cos as int, FX_ONE as int, FX_ONE as int);
                    lemma_tdiv_mag(cos * cos, 65536, 0x1_0000_0000);
                    assert(cos * cos >= 0) by (nonlinear_arith);
                    lemma_div_pos_is_pos(cos * cos, 65536);
                }
                let cos_sq = fx_mul(cos, cos);
                let sin_sq: i64 = if FX_ONE - cos_sq >= 0 {
                    FX_ONE - cos_sq
                } else {
                    0
                };
                let sin: u128 = isqrt((sin_sq as u128) * 65536);
                proof {
                    assert(sin * sin <= 0x1_0000_0000_0000 ==> sin <= 0x100_0000)
                        by (nonlinear_arith);
                }
                let sin64: i64 = sin as i64;
                proof {
                    lemma_mul_bound(refraction_ratio as int, sin64 as int, 0x10_0000, 0x100_0000);
                    lemma_tdiv_mag(refraction_ratio * sin64, 65536, 0x1000_0000_0000);
                }
                let cannot_refract = fx_mul(refraction_ratio, sin64) > FX_ONE;
                proof {
                    assert(v3(u) == spec_unit(ray_in.direction));
                    assert(rec.normal.x * nu.x + rec.normal.y * nu.y + rec.normal.z * nu.z == -(
                    u.x * rec.normal.x + u.y * rec.normal.y + u.z * rec.normal.z))
                        by (nonlinear_arith)
                        requires
                            nu.x == -u.x,
                            nu.y == -u.y,
                            nu.z == -u.z,
                    ;
                    assert(cannot_refract == spec_cannot_refract(
                        spec_unit(ray_in.direction),
                        v3(rec.normal),
                        spec_refraction_ratio(dl.ir as int, rec.front_face),
                    ));
                }
                let reflectance_bigger = if refraction_ratio != FX_ONE {
                    Dialectric::reflectance(cos, refraction_ratio) > rand_range_i64(0, FX_ONE)
                } else {
                    false
                };
                proof {
                    if refraction_ratio == FX_ONE {
                        assert(sin as int <= 65536) by (nonlinear_arith)
                            requires
                                (sin as int) * (sin as int) <= 0x1_0000_0000,
                                sin as int >= 0,
                        ;
                        vstd::arithmetic::div_mod::lemma_div_multiples_vanish(
                            sin64 as int,
                            65536,
                        );
                        assert(!cannot_refract);
                    }
                    vstd::arithmetic::div_mod::lemma_div_multiples_vanish(65536, 65536);
                }
                let direction: Vec3 = if cannot_refract || reflectance_bigger {
                    u.reflect(&rec.normal)
                } else {
                    u.refract(&rec.normal, refraction_ratio)
                };
                Some((Ray::new(rec.p, direction), Color { x: FX_ONE, y: FX_ONE, z: FX_ONE }))
            },
        }
    }
}

/// Schlick's reflectance approximation in exact fixed-point form:
/// `r0 + (1 - r0) * (1 - cosine)^5` with `r0 = ((1 - k)/(1 + k))^2`,
/// clamped into `[0, 2]`.
pub open spec fn spec_reflectance(cosine: int, ref_idx: int) -> int {
    let q = sdiv_fx_spec(FX_ONE - ref_idx, FX_ONE + ref_idx);
    let r0 = fx(q * q);
    let m = FX_ONE - cosine;
    let m2 = fx(m * m);
    let m4 = fx(m2 * m2);
    let m5 = fx(m4 * m);
    let raw = r0 + fx((FX_ONE - r0) * m5);
    if raw < 0 {
        0
    } else if raw > 2 * FX_ONE {
        2 * FX_ONE as int
    } else {
        raw
    }
}

impl Dialectric {
    /// Schlick's reflectance approximation, exactly `spec_reflectance`;
    /// for a non-negative cosine the value is a probability in `[0, 1]`.
    pub fn reflectance(cosine: i64, ref_idx: i64) -> (r: i64)
        requires
            -FX_ONE <= cosine <= FX_ONE,
            0 < ref_idx <= 0x10_0000,
        ensures
            r == spec_reflectance(cosine as int, ref_idx as int),
            0 <= r <= 2 * FX_ONE,
            0 <= cosine ==> r <= FX_ONE,
    {
        let num: i64 = FX_ONE - ref_idx;
        let den: i64 = FX_ONE + ref_idx;
        proof {
            assert(-den < num < den);
            if num >= 0 {
                lemma_mul_inequality(num as int, den as int - 1, 65536);
                lemma_multiply_divide_lt(num * 65536, den as int, 65536);
                lemma_div_pos_is_pos(num * 65536, den as int);
            } else {
                lemma_mul_inequality(-num as int, den as int - 1, 65536);
                lemma_multiply_divide_lt((-num) * 65536, den as int, 65536);
                lemma_div_pos_is_pos((-num) * 65536, den as int);
            }
        }
        let q = sdiv_fx(num, den);
        assert(-FX_ONE < q < FX_ONE);
        proof {
            lemma_mul_bound(q as int, q as int, FX_ONE as int, FX_ONE as int);
            lemma_tdiv_mag(q * q, 65536, 0x1_0000_0000);
            assert(q * q >= 0) by (nonlinear_arith);
            lemma_div_pos_is_pos(q * q, 65536);
        }
        let r0 = fx_mul(q, q);
        let m: i64 = FX_ONE - cosine;
        proof {
            lemma_mul_bound(m as int, m as int, 2 * FX_ONE as int, 2 * FX_ONE as int);
            lemma_tdiv_mag(m * m, 65536, 0x4_0000_0000);
            assert(m * m >= 0) by (nonlinear_arith);
            lemma_div_pos_is_pos(m * m, 65536);
        }
        let m2 = fx_mul(m, m);
        proof {
            lemma_mul_bound(m2 as int, m2 as int, 4 * FX_ONE as int, 4 * FX_ONE as int);
            lemma_tdiv_mag(m2 * m2, 65536, 0x10_0000_0000);
            assert(m2 * m2 >= 0) by (nonlinear_arith);
            lemma_div_pos_is_pos(m2 * m2, 65536);
        }
        let m4 = fx_mul(m2, m2);
        proof {
            lemma_mul_bound(m4 as int, m as int, 16 * FX_ONE as int, 2 * FX_ONE as int);
            lemma_tdiv_mag(m4 * m, 65536, 0x20_0000_0000);
            assert(m4 * m >= 0) by (nonlinear_arith)
                requires
                    m4 >= 0,
                    m >= 0,
            ;
            lemma_div_pos_is_pos(m4 * m, 65536);
        }
        let m5 = fx_mul(m4, m);
        proof {
            lemma_mul_bound(FX_ONE as int - r0, m5 as int, FX_ONE as int, 32 * FX_ONE as int);
            lemma_tdiv_mag((FX_ONE - r0) * m5, 65536, 0x20_0000_0000);
        }
        let tail = fx_mul(FX_ONE - r0, m5);
        proof {
            if cosine >= 0 {
                lemma_mul_bound(m as int, m as int, FX_ONE as int, FX_ONE as int);
                lemma_tdiv_mag(m * m, 65536, 0x1_0000_0000);
                lemma_mul_bound(m2 as int, m2 as int, FX_ONE as int, FX_ONE as int);
                lemma_tdiv_mag(m2 * m2, 65536, 0x1_0000_0000);
                lemma_mul_bound(m4 as int, m as int, FX_ONE as int, FX_ONE as int);
                lemma_tdiv_mag(m4 * m, 65536, 0x1_0000_0000);
                assert((FX_ONE - r0) * m5 == m5 * (FX_ONE - r0)) by (nonlinear_arith);
                lemma_mul_inequality(m5 as int, 65536, FX_ONE as int - r0);
                crate::fixed::lemma_tdiv_mono(
                    (FX_ONE - r0) * m5,
                    65536 * (FX_ONE as int - r0),
                    65536,
                );
                vstd::arithmetic::div_mod::lemma_div_multiples_vanish(
                    FX_ONE as int - r0,
                    65536,
                );
            }
        }
        let raw = r0 + tail;
        if raw < 0 {
            0
        } else if raw > 2 * FX_ONE {
            2 * FX_ONE
        } else {
            raw
        }
    }
}

} // verus!
