//! The one concrete surface: analytic ray-sphere intersection via the
//! half-angle form of the quadratic, with exact integer discriminant logic.

use vstd::prelude::*;
use crate::fixed::{POS_MAX, T_MAX_FX, tdiv, sqrt_floor, tdiv_i128, isqrt, lemma_mul_bound, lemma_tdiv_mono};
use crate::hittable::HitRecord;
use crate::material::{Material, material_wf};
use crate::ray::{Ray, ray_wf, spec_at};
use crate::vec3::{Vec3, Point3, bounded, dot_raw, dot3, v3, neg3, sdiv_fx, sdiv_fx_spec, lemma_dot_raw_bound, lemma_dot_raw_bound2};

verus! {

#[derive(Clone, Copy, PartialEq, Eq, Structural, Debug)]
pub struct Sphere {
    pub center: Point3,
    pub radius: i64,
    pub material: Material,
}

/// A sphere the intersection routine accepts: center within the coordinate
/// limits, a positive radius, and well-formed material parameters.
pub open spec fn sphere_wf(s: Sphere) -> bool {
    &&& bounded(s.center, POS_MAX as int)
    &&& 1 <= s.radius <= POS_MAX
    &&& material_wf(s.material)
}

/// `origin - center`, the vector from the sphere's center to the ray origin.
pub open spec fn sph_oc(s: Sphere, r: Ray) -> (int, int, int) {
    (r.origin.x - s.center.x, r.origin.y - s.center.y, r.origin.z - s.center.z)
}

/// The quadratic coefficient `a = |direction|^2` (raw scale).
pub open spec fn sph_a(r: Ray) -> int {
    dot3(v3(r.direction), v3(r.direction))
}

/// The half coefficient `b/2 = oc . direction` (raw scale).
pub open spec fn sph_half_b(s: Sphere, r: Ray) -> int {
    dot3(sph_oc(s, r), v3(r.direction))
}

/// The constant coefficient `c = |oc|^2 - radius^2` (raw scale).
pub open spec fn sph_c(s: Sphere, r: Ray) -> int {
    dot3(sph_oc(s, r), sph_oc(s, r)) - s.radius * s.radius
}

/// The discriminant of the half-angle quadratic; negative means no
/// intersection with the sphere's surface.
pub open spec fn sph_disc(s: Sphere, r: Ray) -> int {
    sph_half_b(s, r) * sph_half_b(s, r) - sph_a(r) * sph_c(s, r)
}

/// The smaller intersection parameter, in fixed-point scale.
pub open spec fn sph_root1(s: Sphere, r: Ray) -> int {
    tdiv((-sph_half_b(s, r) - sqrt_floor(sph_disc(s, r))) * 65536, sph_a(r))
}

/// The larger intersection parameter, in fixed-point scale.
pub open spec fn sph_root2(s: Sphere, r: Ray) -> int {
    tdiv((-sph_half_b(s, r) + sqrt_floor(sph_disc(s, r))) * 65536, sph_a(r))
}

/// The sphere has an intersection parameter within `(t_min, t_max]`.
pub open spec fn sph_hits(s: Sphere, r: Ray, t_min: int, t_max: int) -> bool {
    sph_disc(s, r) >= 0 && (t_min < sph_root1(s, r) <= t_max || t_min < sph_root2(s, r)
        <= t_max)
}

/// The parameter a hit reports: the smaller root when it lies in range,
/// otherwise the larger one.
pub open spec fn sph_hit_t(s: Sphere, r: Ray, t_min: int, t_max: int) -> int {
    if t_min < sph_root1(s, r) <= t_max {
        sph_root1(s, r)
    } else {
        sph_root2(s, r)
    }
}

/// The outward normal at the hit parameter `t`: `(point - center) / radius`.
pub open spec fn sph_outward(s: Sphere, r: Ray, t: int) -> (int, int, int) {
    let p = spec_at(r, t);
    (
        sdiv_fx_spec(p.0 - s.center.x, s.radius as int),
        sdiv_fx_spec(p.1 - s.center.y, s.radius as int),
        sdiv_fx_spec(p.2 - s.center.z, s.radius as int),
    )
}

/// `h` is a faithful intersection record for sphere `s` and ray `r`,
/// independent of the parameter range it was found in: its parameter is a
/// root of the quadratic and point, normal orientation and material are
/// the exact derived values.
pub open spec fn sph_valid_hit(s: Sphere, r: Ray, h: HitRecord) -> bool {
    &&& sph_disc(s, r) >= 0
    &&& (h.t == sph_root1(s, r) || h.t == sph_root2(s, r))
    &&& v3(h.p) == spec_at(r, h.t as int)
    &&& h.front_face == (dot3(v3(r.direction), sph_outward(s, r, h.t as int)) < 0)
    &&& v3(h.normal) == (if h.front_face {
        sph_outward(s, r, h.t as int)
    } else {
        neg3(sph_outward(s, r, h.t as int))
    })
    &&& h.material == s.material
}

impl Sphere {
    pub fn new(center: Point3, radius: i64, material: Material) -> (s: Sphere)
        ensures
            s == (Sphere { center, radius, material }),
    {
        Sphere { center, radius, material }
    }

    /// Analytic intersection. A result is returned exactly when a root of
    /// the quadratic lies within `(t_min, t_max]`; the reported parameter
    /// is the smaller in-range root, no root lies strictly below it in
    /// range, and the point, oriented normal, face flag and material are
    /// pinned down exactly.
    pub fn hit(&self, r: &Ray, t_min: i64, t_max: i64) -> (res: Option<HitRecord>)
        requires
            sphere_wf(*self),
            ray_wf(*r),
            0 <= t_min <= t_max <= T_MAX_FX,
        ensures
            res is Some <==> sph_hits(*self, *r, t_min as int, t_max as int),
            res matches Some(h) ==> sph_valid_hit(*self, *r, h),
            res matches Some(h) ==> {
                &&& h.t == sph_hit_t(*self, *r, t_min as int, t_max as int)
                &&& t_min < h.t <= t_max
                &&& !sph_hits(*self, *r, t_min as int, h.t - 1)
                &&& v3(h.p) == spec_at(*r, h.t as int)
                &&& h.front_face == (dot3(v3(r.direction), sph_outward(*self, *r, h.t as int))
                    < 0)
                &&& v3(h.normal) == (if h.front_face {
                    sph_outward(*self, *r, h.t as int)
                } else {
                    neg3(sph_outward(*self, *r, h.t as int))
                })
                &&& h.material == self.material
            },
    {
        let ocv = Vec3 {
            x: r.origin.x - self.center.x,
            y: r.origin.y - self.center.y,
            z: r.origin.z - self.center.z,
        };
        proof {
            lemma_dot_raw_bound(r.direction, r.direction, 0x100_0000);
            lemma_dot_raw_bound2(ocv, r.direction, 0x20_0000_0000, 0x100_0000);
            lemma_dot_raw_bound(ocv, ocv, 0x20_0000_0000);
            lemma_mul_bound(self.radius as int, self.radius as int, POS_MAX as int, POS_MAX as int);
        }
        let dx: i128 = r.direction.x as i128;
        let dy: i128 = r.direction.y as i128;
        let dz: i128 = r.direction.z as i128;
        let a: i128 = dx * dx + dy * dy + dz * dz;
        let hb: i128 = (ocv.x as i128) * dx + (ocv.y as i128) * dy + (ocv.z as i128) * dz;
        let c: i128 = (ocv.x as i128) * (ocv.x as i128) + (ocv.y as i128) * (ocv.y as i128) + (
        ocv.z as i128) * (ocv.z as i128) - (self.radius as i128) * (self.radius as i128);
        proof {
            lemma_mul_bound(hb as int, hb as int, 0x6000_0000_0000_0000, 0x6000_0000_0000_0000);
            lemma_mul_bound(a as int, c as int, 0x3_0000_0000_0000, 0xd00_0000_0000_0000_0000);
        }
        let disc: i128 = hb * hb - a * c;
        if disc < 0 {
            return None;
        }
        let sqrtd_u: u128 = isqrt(disc as u128);
        let sqrtd: i128 = sqrtd_u as i128;
        let numer1: i128 = (-hb - sqrtd) * 65536;
        let root1: i128 = tdiv_i128(numer1, a);
        let numer2: i128 = (-hb + sqrtd) * 65536;
        let root2: i128 = tdiv_i128(numer2, a);
        proof {
            lemma_tdiv_mono(numer1 as int, numer2 as int, a as int);
        }
        let tmin_w: i128 = t_min as i128;
        let tmax_w: i128 = t_max as i128;
        let chosen: i128 = if tmin_w < root1 && root1 <= tmax_w {
            root1
        } else if tmin_w < root2 && root2 <= tmax_w {
            root2
        } else {
            return None;
        };
        let t: i64 = chosen as i64;
        let p = r.at(t);
        let outward = Vec3 {
            x: sdiv_fx(p.x - self.center.x, self.radius),
            y: sdiv_fx(p.y - self.center.y, self.radius),
            z: sdiv_fx(p.z - self.center.z, self.radius),
        };
        proof {
            lemma_dot_raw_bound2(r.direction, outward, 0x100_0000, 0x4000_0000_0000_0000);
        }
        let dd: i128 = dx * (outward.x as i128) + dy * (outward.y as i128) + dz * (
        outward.z as i128);
        let front_face = dd < 0;
        let normal = if front_face {
            outward
        } else {
            Vec3 { x: -outward.x, y: -outward.y, z: -outward.z }
        };
        Some(
            HitRecord {
                p,
                normal,
                t,
                front_face,
                material: self.material,
            },
        )
    }
}

} // verus!
