//! A recursive Monte Carlo path tracer over fixed-point arithmetic.
//!
//! Geometry, radiance and colors are carried as 64-bit integers scaled by
//! `fixed::FX_ONE`, so that every arithmetic step has an exact, verified
//! contract; floating-point values never enter the library.

pub mod camera;
pub mod color;
pub mod fixed;
pub mod img;
pub mod hittable;
pub mod hittable_list;
pub mod material;
pub mod ray;
pub mod rng;
pub mod sphere;
pub mod vec3;

use vstd::prelude::*;
use crate::fixed::{FX_ONE, DIR_MAX, POS_MAX, T_MAX_FX, T_MIN_ACNE, fx, tdiv, lemma_tdiv_mag, lemma_mul_bound, lemma_tdiv_mono};
use crate::hittable_list::{HittableList, list_wf};
use crate::material::{material_wf, albedo_wf, absorbs_all};
use crate::ray::{Ray, ray_wf};
use crate::sphere::{sphere_wf, sph_hits, sph_valid_hit};
use crate::vec3::{Color, v3, spec_unit, lemma_nonzero_norm};
use vstd::arithmetic::div_mod::{lemma_div_pos_is_pos, lemma_div_is_ordered, lemma_div_multiples_vanish};

verus! {

/// Number of jittered camera rays averaged per pixel.
pub const SAMPLES_PER_PIXEL: u32 = 50;

/// Maximum number of recursive bounces followed by the path estimator.
pub const MAX_DEPTH: u32 = 50;

/// The ambient background: a vertical gradient from white toward sky blue,
/// interpolated by `(unit_direction.y + 1) / 2`, in the exact fixed-point
/// form the estimator computes.
pub open spec fn spec_sky(r: Ray) -> (int, int, int) {
    let t = tdiv(spec_unit(r.direction).1 + FX_ONE, 2);
    let w = FX_ONE - t;
    (
        fx(65536 * w) + fx(32768 * t),
        fx(65536 * w) + fx(45875 * t),
        fx(65536 * w) + fx(65536 * t),
    )
}

/// All color channels lie in the unit interval `[0, 1]`.
pub open spec fn color_01(c: Color) -> bool {
    albedo_wf(c)
}

/// The recursive radiance estimate for one ray. Every channel of the
/// result lies in `[0, 1]`. Past the depth cutoff the estimate is black.
/// A well-formed ray that no surface intersects within the working range
/// (in particular, any well-formed ray against an empty scene) receives
/// exactly the background gradient. A ray that does intersect a scene in
/// which every surface absorbs every channel comes back black.
pub fn ray_color(ray: &Ray, world: &HittableList, depth: u32) -> (c: Color)
    requires
        list_wf(*world),
    ensures
        color_01(c),
        depth > MAX_DEPTH ==> c == (Color { x: 0, y: 0, z: 0 }),
        ray_wf(*ray) && depth <= MAX_DEPTH && (forall|j: int|
            0 <= j < world.objects@.len() ==> !sph_hits(
                #[trigger] world.objects@[j],
                *ray,
                T_MIN_ACNE as int,
                T_MAX_FX as int,
            )) ==> v3(c) == spec_sky(*ray),
        (exists|j: int|
            0 <= j < world.objects@.len() && sph_hits(
                #[trigger] world.objects@[j],
                *ray,
                T_MIN_ACNE as int,
                T_MAX_FX as int,
            )) && (forall|j: int|
            0 <= j < world.objects@.len() ==> absorbs_all(
                #[trigger] world.objects@[j].material,
            )) ==> c == (Color { x: 0, y: 0, z: 0 }),
    decreases MAX_DEPTH + 1 - depth,
{
    let black = Color { x: 0, y: 0, z: 0 };
    if depth > MAX_DEPTH {
        return black;
    }
    let d = ray.direction;
    if d.x == 0 && d.y == 0 && d.z == 0 {
        proof {
            assert(crate::vec3::dot_raw(d, d) == 0) by (nonlinear_arith)
                requires
                    d.x == 0,
                    d.y == 0,
                    d.z == 0,
            ;
        }
        return black;
    }
    proof {
        lemma_nonzero_norm(d);
    }
    if d.x < -DIR_MAX || d.x > DIR_MAX || d.y < -DIR_MAX || d.y > DIR_MAX || d.z < -DIR_MAX
        || d.z > DIR_MAX {
        return black;
    }
    let o = ray.origin;
    if o.x < -POS_MAX || o.x > POS_MAX || o.y < -POS_MAX || o.y > POS_MAX || o.z < -POS_MAX
        || o.z > POS_MAX {
        return black;
    }
    match world.hit(ray, T_MIN_ACNE, T_MAX_FX) {
        Some(rec) => {
            proof {
                let j = choose|j: int|
                    0 <= j < world.objects@.len() && sph_valid_hit(
                        #[trigger] world.objects@[j],
                        *ray,
                        rec,
                    );
                assert(sphere_wf(world.objects@[j]));
                assert(material_wf(rec.material));
                assert(sph_hits(world.objects@[j], *ray, T_MIN_ACNE as int, T_MAX_FX as int));
                assert(exists|k: int|
                    0 <= k < world.objects@.len() && sph_hits(
                        #[trigger] world.objects@[k],
                        *ray,
                        T_MIN_ACNE as int,
                        T_MAX_FX as int,
                    ));
            }
            if rec.normal.x < -0x2_0000 || rec.normal.x > 0x2_0000 || rec.normal.y < -0x2_0000
                || rec.normal.y > 0x2_0000 || rec.normal.z < -0x2_0000 || rec.normal.z
                > 0x2_0000 {
                return black;
            }
            match rec.material.scatter(ray, &rec) {
                Some((scattered, attenuation)) => {
                    let bounced = ray_color(&scattered, world, depth + 1);
                    proof {
                        lemma_mul_bound(
                            attenuation.x as int,
                            bounced.x as int,
                            FX_ONE as int,
                            FX_ONE as int,
                        );
                        lemma_mul_bound(
                            attenuation.y as int,
                            bounced.y as int,
                            FX_ONE as int,
                            FX_ONE as int,
                        );
                        lemma_mul_bound(
                            attenuation.z as int,
                            bounced.z as int,
                            FX_ONE as int,
                            FX_ONE as int,
                        );
                        assert(attenuation.x * bounced.x >= 0 && attenuation.y * bounced.y >= 0
                            && attenuation.z * bounced.z >= 0) by (nonlinear_arith)
                            requires
                                attenuation.x >= 0 && bounced.x >= 0 && attenuation.y >= 0
                                    && bounced.y >= 0 && attenuation.z >= 0 && bounced.z >= 0,
                        ;
                        lemma_tdiv_mag(attenuation.x * bounced.x, 65536, 0x1_0000_0000);
                        lemma_tdiv_mag(attenuation.y * bounced.y, 65536, 0x1_0000_0000);
                        lemma_tdiv_mag(attenuation.z * bounced.z, 65536, 0x1_0000_0000);
                        lemma_div_pos_is_pos(attenuation.x * bounced.x, 65536);
                        lemma_div_pos_is_pos(attenuation.y * bounced.y, 65536);
                        lemma_div_pos_is_pos(attenuation.z * bounced.z, 65536);
                        if forall|j: int|
                            0 <= j < world.objects@.len() ==> absorbs_all(
                                #[trigger] world.objects@[j].material,
                            ) {
                            let j2 = choose|j: int|
                                0 <= j < world.objects@.len() && sph_valid_hit(
                                    #[trigger] world.objects@[j],
                                    *ray,
                                    rec,
                                );
                            assert(absorbs_all(world.objects@[j2].material));
                            assert(absorbs_all(rec.material));
                            assert(attenuation == (Color { x: 0, y: 0, z: 0 }));
                            assert(attenuation.x * bounced.x == 0 && attenuation.y * bounced.y
                                == 0 && attenuation.z * bounced.z == 0) by (nonlinear_arith)
                                requires
                                    attenuation.x == 0,
                                    attenuation.y == 0,
                                    attenuation.z == 0,
                            ;
                            vstd::arithmetic::div_mod::lemma_div_of0(65536);
                        }
                    }
                    attenuation.mul(bounced)
                },
                None => black,
            }
        },
        None => {
            proof {
                if exists|j: int|
                    0 <= j < world.objects@.len() && sph_hits(
                        #[trigger] world.objects@[j],
                        *ray,
                        T_MIN_ACNE as int,
                        T_MAX_FX as int,
                    ) {
                    let j3 = choose|j: int|
                        0 <= j < world.objects@.len() && sph_hits(
                            #[trigger] world.objects@[j],
                            *ray,
                            T_MIN_ACNE as int,
                            T_MAX_FX as int,
                        );
                    assert(!sph_hits(
                        world.objects@[j3],
                        *ray,
                        T_MIN_ACNE as int,
                        T_MAX_FX as int,
                    ));
                }
            }
            let u = d.unit_vector();
            let t: i64 = (((u.y + FX_ONE) as u64) / 2) as i64;
            proof {
                lemma_div_pos_is_pos((u.y + FX_ONE) as int, 2);
                lemma_div_is_ordered((u.y + FX_ONE) as int, 131072, 2);
                assert(t == tdiv(spec_unit(d).1 + FX_ONE, 2));
            }
            let w: i64 = FX_ONE - t;
            proof {
                lemma_mul_bound(65536, w as int, 65536, 65536);
                lemma_mul_bound(32768, t as int, 32768, 65536);
                lemma_mul_bound(45875, t as int, 45875, 65536);
                lemma_mul_bound(65536, t as int, 65536, 65536);
                lemma_div_multiples_vanish(w as int, 65536);
                lemma_div_multiples_vanish(t as int, 65536);
                lemma_tdiv_mono(32768 * t, 65536 * t, 65536);
                lemma_tdiv_mono(45875 * t, 65536 * t, 65536);
                lemma_div_pos_is_pos(32768 * t, 65536);
                lemma_div_pos_is_pos(45875 * t, 65536);
            }
            let white = Color { x: FX_ONE, y: FX_ONE, z: FX_ONE };
            let blue = Color { x: 32768, y: 45875, z: 65536 };
            let wpart = white.mul_scalar(w);
            let bpart = blue.mul_scalar(t);
            wpart.add(bpart)
        },
    }
}

} // verus!
