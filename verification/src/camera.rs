//! The camera: immutable projection state built from look-from/look-at/up,
//! field of view, aspect ratio and a thin-lens aperture, and the map from
//! normalized image-plane coordinates to world-space rays.

use vstd::prelude::*;
use crate::fixed::{FX_ONE, POS_MAX, fx, tdiv, lemma_tdiv_mag, lemma_mul_bound};
use crate::ray::Ray;
use crate::vec3::{Vec3, Point3, bounded, dot3, v3, spec_unit, sdiv_fx_spec, lemma_nonzero_norm};
use vstd::arithmetic::div_mod::{lemma_div_pos_is_pos, lemma_div_is_ordered, lemma_div_multiples_vanish};

verus! {

pub struct Camera {
    pub origin: Point3,
    pub lower_left_corner: Point3,
    pub horizontal: Vec3,
    pub vertical: Vec3,
    pub u: Vec3,
    pub v: Vec3,
    pub w: Vec3,
    pub lens_radius: i64,
}

/// The basis vectors stay unit-scale, the derived corners stay within the
/// coordinate limits, and the lens radius is small and non-negative.
pub open spec fn camera_wf(c: Camera) -> bool {
    &&& bounded(c.origin, POS_MAX as int)
    &&& bounded(c.lower_left_corner, 0x400_0000_0000)
    &&& bounded(c.horizontal, 0x400_0000_0000)
    &&& bounded(c.vertical, 0x400_0000_0000)
    &&& bounded(c.u, FX_ONE as int)
    &&& bounded(c.v, 2 * FX_ONE as int)
    &&& bounded(c.w, FX_ONE as int)
    &&& 0 <= c.lens_radius <= 0x80_0000
}

/// The view direction basis vector: the normalized `look_from - look_at`.
pub open spec fn spec_w(look_from: Point3, look_at: Point3) -> (int, int, int) {
    spec_unit(
        Vec3 {
            x: (look_from.x - look_at.x) as i64,
            y: (look_from.y - look_at.y) as i64,
            z: (look_from.z - look_at.z) as i64,
        },
    )
}

/// The fixed-point cross product of the up vector with the view basis
/// vector, before normalization.
pub open spec fn spec_up_cross_w(v_up: Vec3, look_from: Point3, look_at: Point3) -> (
    int,
    int,
    int,
) {
    let w = spec_w(look_from, look_at);
    (
        fx(v_up.y * w.2 - v_up.z * w.1),
        fx(v_up.z * w.0 - v_up.x * w.2),
        fx(v_up.x * w.1 - v_up.y * w.0),
    )
}

/// The ray direction through normalized image coordinates `(s, t)` when the
/// lens offset is zero: `lower_left + s*horizontal + t*vertical - origin`.
pub open spec fn spec_cam_dir(c: Camera, s: int, t: int) -> (int, int, int) {
    (
        c.lower_left_corner.x + fx(c.horizontal.x * s) + fx(c.vertical.x * t) - c.origin.x,
        c.lower_left_corner.y + fx(c.horizontal.y * s) + fx(c.vertical.y * t) - c.origin.y,
        c.lower_left_corner.z + fx(c.horizontal.z * s) + fx(c.vertical.z * t) - c.origin.z,
    )
}

impl Camera {
    /// Builds the projection state. `vfov_tan_half` is the tangent of half
    /// the vertical field of view, in fixed point; viewport dimensions are
    /// scaled by the focus distance so the aperture blurs away from the
    /// focal plane.
    pub fn new(
        look_from: Point3,
        look_at: Point3,
        v_up: Vec3,
        vfov_tan_half: i64,
        aspect_ratio: i64,
        aperture: i64,
        focus_dist: i64,
    ) -> (c: Camera)
        requires
            bounded(look_from, POS_MAX as int),
            bounded(look_at, POS_MAX as int),
            bounded(v_up, 0x100_0000),
            !(look_from.x == look_at.x && look_from.y == look_at.y && look_from.z == look_at.z),
            dot3(
                spec_up_cross_w(v_up, look_from, look_at),
                spec_up_cross_w(v_up, look_from, look_at),
            ) >= 1,
            1 <= vfov_tan_half <= 0x10_0000,
            1 <= aspect_ratio <= 0x10_0000,
            0 <= aperture <= 0x100_0000,
            1 <= focus_dist <= 0x100_0000,
        ensures
            camera_wf(c),
            c.origin == look_from,
            c.lens_radius == tdiv(aperture as int, 2),
            v3(c.w) == spec_w(look_from, look_at),
            v3(c.u) == spec_unit(
                Vec3 {
                    x: spec_up_cross_w(v_up, look_from, look_at).0 as i64,
                    y: spec_up_cross_w(v_up, look_from, look_at).1 as i64,
                    z: spec_up_cross_w(v_up, look_from, look_at).2 as i64,
                },
            ),
            v3(c.v) == (
                fx(crate::vec3::cross_raw(c.w, c.u).0),
                fx(crate::vec3::cross_raw(c.w, c.u).1),
                fx(crate::vec3::cross_raw(c.w, c.u).2),
            ),
            ({
                let vh = 2 * (vfov_tan_half as int);
                let vw = fx(aspect_ratio * vh);
                &&& c.horizontal.x == fx(fx(c.u.x * vw) * focus_dist)
                &&& c.horizontal.y == fx(fx(c.u.y * vw) * focus_dist)
                &&& c.horizontal.z == fx(fx(c.u.z * vw) * focus_dist)
                &&& c.vertical.x == fx(fx(c.v.x * vh) * focus_dist)
                &&& c.vertical.y == fx(fx(c.v.y * vh) * focus_dist)
                &&& c.vertical.z == fx(fx(c.v.z * vh) * focus_dist)
            }),
            c.lower_left_corner.x == c.origin.x - sdiv_fx_spec(c.horizontal.x as int, 131072)
                - sdiv_fx_spec(c.vertical.x as int, 131072) - fx(c.w.x * focus_dist),
            c.lower_left_corner.y == c.origin.y - sdiv_fx_spec(c.horizontal.y as int, 131072)
                - sdiv_fx_spec(c.vertical.y as int, 131072) - fx(c.w.y * focus_dist),
            c.lower_left_corner.z == c.origin.z - sdiv_fx_spec(c.horizontal.z as int, 131072)
                - sdiv_fx_spec(c.vertical.z as int, 131072) - fx(c.w.z * focus_dist),
    {
        let viewport_height: i64 = 2 * vfov_tan_half;
        proof {
            lemma_mul_bound(aspect_ratio as int, viewport_height as int, 0x10_0000, 0x20_0000);
            lemma_tdiv_mag(aspect_ratio * viewport_height, 65536, 0x2_0000_0000_0000);
        }
        let viewport_width: i64 = crate::fixed::fx_mul(aspect_ratio, viewport_height);
        let wdiff = Vec3 {
            x: look_from.x - look_at.x,
            y: look_from.y - look_at.y,
            z: look_from.z - look_at.z,
        };
        proof {
            lemma_nonzero_norm(wdiff);
        }
        let w = wdiff.unit_vector();
        let cu = v_up.cross(&w);
        proof {
            assert(v3(cu) == spec_up_cross_w(v_up, look_from, look_at));
            assert(crate::vec3::dot_raw(cu, cu) >= 1);
            lemma_mul_bound(v_up.y as int, w.z as int, 0x100_0000, FX_ONE as int);
            lemma_mul_bound(v_up.z as int, w.y as int, 0x100_0000, FX_ONE as int);
            lemma_mul_bound(v_up.z as int, w.x as int, 0x100_0000, FX_ONE as int);
            lemma_mul_bound(v_up.x as int, w.z as int, 0x100_0000, FX_ONE as int);
            lemma_mul_bound(v_up.x as int, w.y as int, 0x100_0000, FX_ONE as int);
            lemma_mul_bound(v_up.y as int, w.x as int, 0x100_0000, FX_ONE as int);
            lemma_tdiv_mag(v_up.y * w.z - v_up.z * w.y, 65536, 0x200_0000_0000);
            lemma_tdiv_mag(v_up.z * w.x - v_up.x * w.z, 65536, 0x200_0000_0000);
            lemma_tdiv_mag(v_up.x * w.y - v_up.y * w.x, 65536, 0x200_0000_0000);
        }
        let u = cu.unit_vector();
        proof {
            lemma_mul_bound(w.y as int, u.z as int, FX_ONE as int, FX_ONE as int);
            lemma_mul_bound(w.z as int, u.y as int, FX_ONE as int, FX_ONE as int);
            lemma_mul_bound(w.z as int, u.x as int, FX_ONE as int, FX_ONE as int);
            lemma_mul_bound(w.x as int, u.z as int, FX_ONE as int, FX_ONE as int);
            lemma_mul_bound(w.x as int, u.y as int, FX_ONE as int, FX_ONE as int);
            lemma_mul_bound(w.y as int, u.x as int, FX_ONE as int, FX_ONE as int);
        }
        let v = w.cross(&u);
        proof {
            lemma_tdiv_mag(w.y * u.z - w.z * u.y, 65536, 0x2_0000_0000);
            lemma_tdiv_mag(w.z * u.x - w.x * u.z, 65536, 0x2_0000_0000);
            lemma_tdiv_mag(w.x * u.y - w.y * u.x, 65536, 0x2_0000_0000);
            lemma_mul_bound(u.x as int, viewport_width as int, FX_ONE as int, 0x2_0000_0000);
            lemma_mul_bound(u.y as int, viewport_width as int, FX_ONE as int, 0x2_0000_0000);
            lemma_mul_bound(u.z as int, viewport_width as int, FX_ONE as int, 0x2_0000_0000);
            lemma_tdiv_mag(u.x * viewport_width, 65536, 0x2_0000_0000_0000);
            lemma_tdiv_mag(u.y * viewport_width, 65536, 0x2_0000_0000_0000);
            lemma_tdiv_mag(u.z * viewport_width, 65536, 0x2_0000_0000_0000);
        }
        let hw = u.mul_scalar(viewport_width);
        proof {
            lemma_mul_bound(hw.x as int, focus_dist as int, 0x2_0000_0000, 0x100_0000);
            lemma_mul_bound(hw.y as int, focus_dist as int, 0x2_0000_0000, 0x100_0000);
            lemma_mul_bound(hw.z as int, focus_dist as int, 0x2_0000_0000, 0x100_0000);
            lemma_tdiv_mag(hw.x * focus_dist, 65536, 0x200_0000_0000_0000);
            lemma_tdiv_mag(hw.y * focus_dist, 65536, 0x200_0000_0000_0000);
            lemma_tdiv_mag(hw.z * focus_dist, 65536, 0x200_0000_0000_0000);
        }
        let horizontal = hw.mul_scalar(focus_dist);
        proof {
            lemma_mul_bound(v.x as int, viewport_height as int, 0x2_0000, 0x20_0000);
            lemma_mul_bound(v.y as int, viewport_height as int, 0x2_0000, 0x20_0000);
            lemma_mul_bound(v.z as int, viewport_height as int, 0x2_0000, 0x20_0000);
            lemma_tdiv_mag(v.x * viewport_height, 65536, 0x400_0000_0000);
            lemma_tdiv_mag(v.y * viewport_height, 65536, 0x400_0000_0000);
            lemma_tdiv_mag(v.z * viewport_height, 65536, 0x400_0000_0000);
        }
        let vh = v.mul_scalar(viewport_height);
        proof {
            lemma_mul_bound(vh.x as int, focus_dist as int, 0x400_0000, 0x100_0000);
            lemma_mul_bound(vh.y as int, focus_dist as int, 0x400_0000, 0x100_0000);
            lemma_mul_bound(vh.z as int, focus_dist as int, 0x400_0000, 0x100_0000);
            lemma_tdiv_mag(vh.x * focus_dist, 65536, 0x4_0000_0000_0000);
            lemma_tdiv_mag(vh.y * focus_dist, 65536, 0x4_0000_0000_0000);
            lemma_tdiv_mag(vh.z * focus_dist, 65536, 0x4_0000_0000_0000);
        }
        let vertical = vh.mul_scalar(focus_dist);
        proof {
            lemma_tdiv_mag(horizontal.x * 65536, 131072, 0x200_0000_0000_0000);
            lemma_tdiv_mag(horizontal.y * 65536, 131072, 0x200_0000_0000_0000);
            lemma_tdiv_mag(horizontal.z * 65536, 131072, 0x200_0000_0000_0000);
            lemma_tdiv_mag(vertical.x * 65536, 131072, 0x200_0000_0000_0000);
            lemma_tdiv_mag(vertical.y * 65536, 131072, 0x200_0000_0000_0000);
            lemma_tdiv_mag(vertical.z * 65536, 131072, 0x200_0000_0000_0000);
        }
        let half_h = horizontal.div_scalar(2 * FX_ONE);
        let half_v = vertical.div_scalar(2 * FX_ONE);
        proof {
            lemma_mul_bound(w.x as int, focus_dist as int, FX_ONE as int, 0x100_0000);
            lemma_mul_bound(w.y as int, focus_dist as int, FX_ONE as int, 0x100_0000);
            lemma_mul_bound(w.z as int, focus_dist as int, FX_ONE as int, 0x100_0000);
            lemma_tdiv_mag(w.x * focus_dist, 65536, 0x1_0000_0000_0000);
            lemma_tdiv_mag(w.y * focus_dist, 65536, 0x1_0000_0000_0000);
            lemma_tdiv_mag(w.z * focus_dist, 65536, 0x1_0000_0000_0000);
        }
        let wf = w.mul_scalar(focus_dist);
        let lower_left_corner = look_from.sub(half_h).sub(half_v).sub(wf);
        let lens_radius: i64 = ((aperture as u64) / 2) as i64;
        proof {
            lemma_div_pos_is_pos(aperture as int, 2);
            lemma_div_is_ordered(aperture as int, 0x100_0000, 2);
        }
        Camera {
            origin: look_from,
            lower_left_corner,
            horizontal,
            vertical,
            u,
            v,
            w,
            lens_radius,
        }
    }

    /// Maps normalized image coordinates plus a random lens offset to a
    /// world-space ray. With a zero aperture the ray originates exactly at
    /// the camera origin and its direction is the exact image-plane
    /// direction; in general the origin is displaced by at most four lens
    /// radii per axis, and origin plus direction always lands exactly on
    /// the focus-plane point for `(s, t)` — the lens offset cancels.
    pub fn get_ray(&self, s: i64, t: i64) -> (r: Ray)
        requires
            camera_wf(*self),
            0 <= s <= FX_ONE,
            0 <= t <= FX_ONE,
        ensures
            -4 * self.lens_radius <= r.origin.x - self.origin.x <= 4 * self.lens_radius,
            -4 * self.lens_radius <= r.origin.y - self.origin.y <= 4 * self.lens_radius,
            -4 * self.lens_radius <= r.origin.z - self.origin.z <= 4 * self.lens_radius,
            self.lens_radius == 0 ==> r.origin == self.origin && v3(r.direction)
                == spec_cam_dir(*self, s as int, t as int),
            r.origin.x + r.direction.x == self.lower_left_corner.x + fx(self.horizontal.x * s)
                + fx(self.vertical.x * t),
            r.origin.y + r.direction.y == self.lower_left_corner.y + fx(self.horizontal.y * s)
                + fx(self.vertical.y * t),
            r.origin.z + r.direction.z == self.lower_left_corner.z + fx(self.horizontal.z * s)
                + fx(self.vertical.z * t),
    {
        let rd = Vec3::random_in_unit_disk();
        proof {
            lemma_mul_bound(rd.x as int, self.lens_radius as int, FX_ONE as int, self.lens_radius as int);
            lemma_mul_bound(rd.y as int, self.lens_radius as int, FX_ONE as int, self.lens_radius as int);
            lemma_mul_bound(rd.z as int, self.lens_radius as int, FX_ONE as int, self.lens_radius as int);
            lemma_tdiv_mag(rd.x * self.lens_radius, 65536, 65536 * (self.lens_radius as int));
            lemma_tdiv_mag(rd.y * self.lens_radius, 65536, 65536 * (self.lens_radius as int));
            lemma_tdiv_mag(rd.z * self.lens_radius, 65536, 65536 * (self.lens_radius as int));
            lemma_div_multiples_vanish(self.lens_radius as int, 65536);
            if self.lens_radius == 0 {
                assert(rd.x * self.lens_radius == 0 && rd.y * self.lens_radius == 0 && rd.z
                    * self.lens_radius == 0) by (nonlinear_arith)
                    requires
                        self.lens_radius == 0,
                ;
                vstd::arithmetic::div_mod::lemma_div_of0(65536);
            }
        }
        let rdl = rd.mul_scalar(self.lens_radius);
        proof {
            lemma_mul_bound(self.u.x as int, rdl.x as int, FX_ONE as int, self.lens_radius as int);
            lemma_mul_bound(self.u.y as int, rdl.x as int, FX_ONE as int, self.lens_radius as int);
            lemma_mul_bound(self.u.z as int, rdl.x as int, FX_ONE as int, self.lens_radius as int);
            lemma_tdiv_mag(self.u.x * rdl.x, 65536, 65536 * (self.lens_radius as int));
            lemma_tdiv_mag(self.u.y * rdl.x, 65536, 65536 * (self.lens_radius as int));
            lemma_tdiv_mag(self.u.z * rdl.x, 65536, 65536 * (self.lens_radius as int));
            lemma_mul_bound(self.v.x as int, rdl.y as int, 2 * FX_ONE as int, self.lens_radius as int);
            lemma_mul_bound(self.v.y as int, rdl.y as int, 2 * FX_ONE as int, self.lens_radius as int);
            lemma_mul_bound(self.v.z as int, rdl.y as int, 2 * FX_ONE as int, self.lens_radius as int);
            lemma_tdiv_mag(self.v.x * rdl.y, 65536, 131072 * (self.lens_radius as int));
            lemma_tdiv_mag(self.v.y * rdl.y, 65536, 131072 * (self.lens_radius as int));
            lemma_tdiv_mag(self.v.z * rdl.y, 65536, 131072 * (self.lens_radius as int));
            assert((131072 * (self.lens_radius as int)) / 65536 == 2 * (self.lens_radius as int))
                by {
                lemma_div_multiples_vanish(2 * (self.lens_radius as int), 65536);
            }
            if self.lens_radius == 0 {
                assert(self.u.x * rdl.x == 0 && self.u.y * rdl.x == 0 && self.u.z * rdl.x == 0
                    && self.v.x * rdl.y == 0 && self.v.y * rdl.y == 0 && self.v.z * rdl.y == 0)
                    by (nonlinear_arith)
                    requires
                        rdl.x == 0,
                        rdl.y == 0,
                ;
                vstd::arithmetic::div_mod::lemma_div_of0(65536);
            }
        }
        let offset = self.u.mul_scalar(rdl.x).add(self.v.mul_scalar(rdl.y));
        proof {
            lemma_mul_bound(self.horizontal.x as int, s as int, 0x400_0000_0000, FX_ONE as int);
            lemma_mul_bound(self.horizontal.y as int, s as int, 0x400_0000_0000, FX_ONE as int);
            lemma_mul_bound(self.horizontal.z as int, s as int, 0x400_0000_0000, FX_ONE as int);
            lemma_tdiv_mag(self.horizontal.x * s, 65536, 0x400_0000_0000_0000);
            lemma_tdiv_mag(self.horizontal.y * s, 65536, 0x400_0000_0000_0000);
            lemma_tdiv_mag(self.horizontal.z * s, 65536, 0x400_0000_0000_0000);
            lemma_mul_bound(self.vertical.x as int, t as int, 0x400_0000_0000, FX_ONE as int);
            lemma_mul_bound(self.vertical.y as int, t as int, 0x400_0000_0000, FX_ONE as int);
            lemma_mul_bound(self.vertical.z as int, t as int, 0x400_0000_0000, FX_ONE as int);
            lemma_tdiv_mag(self.vertical.x * t, 65536, 0x400_0000_0000_0000);
            lemma_tdiv_mag(self.vertical.y * t, 65536, 0x400_0000_0000_0000);
            lemma_tdiv_mag(self.vertical.z * t, 65536, 0x400_0000_0000_0000);
        }
        let hs = self.horizontal.mul_scalar(s);
        let vt = self.vertical.mul_scalar(t);
        let direction = self.lower_left_corner.add(hs).add(vt).sub(self.origin).sub(offset);
        let origin = self.origin.add(offset);
        Ray { origin, direction }
    }
}

} // verus!
