// End-to-end checks for the intersection protocol, the material models,
// the camera and the path estimator, in fixed-point units (one = 65536).

use rust_tracer::camera::Camera;
use rust_tracer::color::channel_byte;
use rust_tracer::hittable::HitRecord;
use rust_tracer::hittable_list::HittableList;
use rust_tracer::img::Img;
use rust_tracer::material::{Dialectric, Lambertian, Material, Metal};
use rust_tracer::ray::Ray;
use rust_tracer::rng::rand_range_i64;
use rust_tracer::sphere::Sphere;
use rust_tracer::vec3::Vec3;
use rust_tracer::{ray_color, MAX_DEPTH};

const ONE: i64 = 65536;

fn gray(level: i64) -> Material {
    Material::Lambertian(Lambertian { albedo: Vec3::new(level, level, level) })
}

#[test]
fn ray_at_sphere_center_hits_front_face() {
    let s = Sphere::new(Vec3::new(0, 0, -ONE), ONE / 2, gray(ONE / 2));
    let r = Ray::new(Vec3::new(0, 0, 0), Vec3::new(0, 0, -ONE));
    let h = s.hit(&r, 64, rust_tracer::fixed::T_MAX_FX).expect("must hit");
    assert_eq!(h.t, ONE / 2);
    assert!(h.front_face);
    assert_eq!(h.p, Vec3::new(0, 0, -ONE / 2));
    // The normal points back along the ray: parallel to the direction.
    assert_eq!(h.normal, Vec3::new(0, 0, ONE));
}

#[test]
fn ray_beside_sphere_misses() {
    let s = Sphere::new(Vec3::new(0, 0, -ONE), ONE / 2, gray(ONE / 2));
    let r = Ray::new(Vec3::new(0, 0, 0), Vec3::new(ONE, 0, 0));
    assert!(s.hit(&r, 64, rust_tracer::fixed::T_MAX_FX).is_none());
}

#[test]
fn tangent_ray_has_one_root() {
    let s = Sphere::new(Vec3::new(0, 0, -ONE), ONE / 2, gray(ONE / 2));
    let r = Ray::new(Vec3::new(0, ONE / 2, 0), Vec3::new(0, 0, -ONE));
    let h = s.hit(&r, 64, rust_tracer::fixed::T_MAX_FX).expect("tangent must graze");
    // Zero discriminant: both roots coincide at t = 1.
    assert_eq!(h.t, ONE);
}

#[test]
fn scene_returns_nearest_hit() {
    let near = Sphere::new(Vec3::new(0, 0, -2 * ONE), ONE / 2, gray(ONE / 4));
    let far = Sphere::new(Vec3::new(0, 0, -4 * ONE), ONE / 2, gray(3 * ONE / 4));
    let mut world = HittableList::new();
    world.add(far);
    world.add(near);
    let r = Ray::new(Vec3::new(0, 0, 0), Vec3::new(0, 0, -ONE));
    let h = world.hit(&r, 64, rust_tracer::fixed::T_MAX_FX).expect("must hit");
    assert_eq!(h.t, 3 * ONE / 2);
    assert_eq!(h.material, gray(ONE / 4));
}

#[test]
fn empty_scene_clears_and_misses() {
    let mut world = HittableList::new();
    world.add(Sphere::new(Vec3::new(0, 0, -2 * ONE), ONE / 2, gray(ONE / 2)));
    world.clear();
    let r = Ray::new(Vec3::new(0, 0, 0), Vec3::new(0, 0, -ONE));
    assert!(world.hit(&r, 64, rust_tracer::fixed::T_MAX_FX).is_none());
}

fn straight_hit() -> (Ray, HitRecord) {
    let r = Ray::new(Vec3::new(0, 0, 0), Vec3::new(0, 0, -ONE));
    let rec = HitRecord {
        p: Vec3::new(0, 0, -ONE / 2),
        normal: Vec3::new(0, 0, ONE),
        t: ONE / 2,
        front_face: true,
        material: gray(ONE / 2),
    };
    (r, rec)
}

#[test]
fn lambertian_always_scatters() {
    let albedo = Vec3::new(ONE / 2, ONE / 4, ONE / 8);
    let m = Material::Lambertian(Lambertian { albedo });
    let (r, rec) = straight_hit();
    for _ in 0..100 {
        let (scattered, attenuation) = m.scatter(&r, &rec).expect("diffuse never absorbs");
        assert_eq!(scattered.origin, rec.p);
        assert_eq!(attenuation, albedo);
    }
}

#[test]
fn metal_scatter_leaves_surface_or_absorbs() {
    let albedo = Vec3::new(3 * ONE / 4, 3 * ONE / 4, 3 * ONE / 4);
    let m = Material::Metal(Metal { albedo, fuzz: ONE });
    // A grazing incoming ray: full fuzz pushes about half the samples
    // below the surface, which must be absorbed.
    let r = Ray::new(Vec3::new(0, 0, 0), Vec3::new(ONE, 0, -328));
    let rec = HitRecord {
        p: Vec3::new(ONE, 0, -ONE / 2),
        normal: Vec3::new(0, 0, ONE),
        t: ONE,
        front_face: true,
        material: m,
    };
    let mut absorbed = 0u32;
    let mut scattered_count = 0u32;
    for _ in 0..300 {
        match m.scatter(&r, &rec) {
            Some((scattered, attenuation)) => {
                scattered_count += 1;
                assert_eq!(attenuation, albedo);
                assert_eq!(scattered.origin, rec.p);
                let d = scattered.direction;
                let n = rec.normal;
                let dot = (d.x as i128) * (n.x as i128) + (d.y as i128) * (n.y as i128)
                    + (d.z as i128) * (n.z as i128);
                assert!(dot / 65536 > 0, "scattered ray points into the surface");
            }
            None => absorbed += 1,
        }
    }
    assert!(absorbed > 0, "full fuzz at grazing incidence never absorbed");
    assert!(scattered_count > 0);
}

#[test]
fn dielectric_always_transmits_fully() {
    let m = Material::Dialectric(Dialectric { ir: 3 * ONE / 2 });
    let (r, rec) = straight_hit();
    for _ in 0..100 {
        let (scattered, attenuation) = m.scatter(&r, &rec).expect("dielectric never absorbs");
        assert_eq!(attenuation, Vec3::new(ONE, ONE, ONE));
        assert_eq!(scattered.origin, rec.p);
    }
}

#[test]
fn total_internal_reflection_forces_the_mirror_direction() {
    // Leaving glass at a grazing angle: ratio 1.5 times a sine near one
    // exceeds one, so every scatter is the exact reflection.
    let m = Material::Dialectric(Dialectric { ir: 3 * ONE / 2 });
    let r = Ray::new(Vec3::new(0, 0, 0), Vec3::new(ONE, 0, -ONE / 20));
    let rec = HitRecord {
        p: Vec3::new(ONE, 0, -ONE / 20),
        normal: Vec3::new(0, 0, ONE),
        t: ONE,
        front_face: false,
        material: m,
    };
    let expected = r.direction.unit_vector().reflect(&rec.normal);
    for _ in 0..50 {
        let (scattered, _) = m.scatter(&r, &rec).expect("dielectric never absorbs");
        assert_eq!(scattered.direction, expected);
    }
}

#[test]
fn hit_exactly_at_t_min_is_excluded() {
    let s = Sphere::new(Vec3::new(0, 0, -ONE), ONE / 2, gray(ONE / 2));
    let r = Ray::new(Vec3::new(0, 0, 0), Vec3::new(0, 0, -ONE));
    // The near root lies exactly at t = 1/2; the interval is open below,
    // so with t_min = 1/2 the far root t = 3/2 is reported instead.
    let h = s.hit(&r, ONE / 2, rust_tracer::fixed::T_MAX_FX).expect("far root qualifies");
    assert_eq!(h.t, 3 * ONE / 2);
}

#[test]
fn index_one_dielectric_passes_straight_through() {
    let m = Material::Dialectric(Dialectric { ir: ONE });
    let (r, rec) = straight_hit();
    let expected = r.direction.unit_vector().refract(&rec.normal, ONE);
    for _ in 0..50 {
        let (scattered, att) = m.scatter(&r, &rec).expect("dielectric never absorbs");
        assert_eq!(att, Vec3::new(ONE, ONE, ONE));
        assert_eq!(scattered.direction, expected);
    }
    // At normal incidence the ratio-one refraction is the identity, so the
    // ray is undeviated exactly.
    assert_eq!(expected, r.direction.unit_vector());
}

#[test]
fn reflectance_at_normal_incidence() {
    // cosine = 1, index ratio 1.5: r0 = ((1-1.5)/(1+1.5))^2 = 0.04.
    assert_eq!(Dialectric::reflectance(ONE, 3 * ONE / 2), 2621);
}

fn test_camera(aperture: i64) -> Camera {
    Camera::new(
        Vec3::new(13 * ONE, 2 * ONE, 3 * ONE),
        Vec3::new(0, 0, 0),
        Vec3::new(0, ONE, 0),
        11556,  // tan of half a 20-degree field of view
        116508, // 16:9
        aperture,
        10 * ONE,
    )
}

#[test]
fn zero_aperture_rays_originate_at_look_from() {
    let cam = test_camera(0);
    for _ in 0..20 {
        let r = cam.get_ray(ONE / 2, ONE / 2);
        assert_eq!(r.origin, Vec3::new(13 * ONE, 2 * ONE, 3 * ONE));
    }
}

#[test]
fn aperture_spreads_ray_origins() {
    let cam = test_camera(ONE / 2);
    let lens = ONE / 4;
    let first = cam.get_ray(ONE / 2, ONE / 2).origin;
    let mut saw_different = false;
    for _ in 0..64 {
        let o = cam.get_ray(ONE / 2, ONE / 2).origin;
        assert!((o.x - 13 * ONE).abs() <= 4 * lens);
        assert!((o.y - 2 * ONE).abs() <= 4 * lens);
        assert!((o.z - 3 * ONE).abs() <= 4 * lens);
        if o != first {
            saw_different = true;
        }
    }
    assert!(saw_different, "a positive aperture must move the ray origin");
}

#[test]
fn empty_scene_renders_exact_gradient() {
    let world = HittableList::new();
    let r = Ray::new(Vec3::new(0, 0, 0), Vec3::new(0, 0, -ONE));
    let c = ray_color(&r, &world, 0);
    // t = 1/2: white/2 plus (0.5, 0.7, 1.0)/2.
    assert_eq!(c, Vec3::new(49152, 55705, 65536));
}

#[test]
fn black_material_renders_black() {
    let mut world = HittableList::new();
    world.add(Sphere::new(Vec3::new(0, 0, -2 * ONE), ONE / 2, gray(0)));
    let r = Ray::new(Vec3::new(0, 0, 0), Vec3::new(0, 0, -ONE));
    for _ in 0..20 {
        assert_eq!(ray_color(&r, &world, 0), Vec3::new(0, 0, 0));
    }
}

#[test]
fn recursion_depth_contributes_color() {
    let mirror = Material::Metal(
        Metal { albedo: Vec3::new(3 * ONE / 4, 3 * ONE / 4, 3 * ONE / 4), fuzz: 0 },
    );
    let mut world = HittableList::new();
    world.add(Sphere::new(Vec3::new(0, 0, -2 * ONE), ONE / 2, mirror));
    let r = Ray::new(Vec3::new(0, 0, 0), Vec3::new(0, 0, -ONE));
    let lit = ray_color(&r, &world, 0);
    assert_ne!(lit, Vec3::new(0, 0, 0), "one mirror bounce must reach the sky");
    let cut = ray_color(&r, &world, MAX_DEPTH + 1);
    assert_eq!(cut, Vec3::new(0, 0, 0), "past the depth cutoff everything is black");
}

#[test]
fn channel_conversion_exact_values() {
    let samples = 50i64;
    assert_eq!(channel_byte(0), 0);
    assert_eq!(channel_byte(samples * ONE), 255);
    // An average of one quarter has square root one half: byte 128.
    assert_eq!(channel_byte(samples * ONE / 4), 128);
}

#[test]
fn pixel_lines_accumulate() {
    let mut img = Img::new(2, 2);
    assert_eq!(img.iter_heigth(), 2);
    assert_eq!(img.iter_width(), 2);
    img.add_pixel(&Vec3::new(50 * ONE, 0, 50 * ONE / 4));
    assert_eq!(img.pixels.len(), 1);
    assert_eq!(img.pixels[0].r, 255);
    assert_eq!(img.pixels[0].g, 0);
    assert_eq!(img.pixels[0].b, 128);
    assert_eq!(img.content, b"255 0 128\n".to_vec());
}

#[test]
fn random_draw_stays_in_range() {
    // A one-value range pins the draw; returning the upper bound would fail.
    assert_eq!(rand_range_i64(0, 1), 0);
    for _ in 0..100 {
        let v = rand_range_i64(10, 20);
        assert!((10..20).contains(&v));
    }
}
