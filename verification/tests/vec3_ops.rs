// The vector operator checks, in fixed-point units (one = 65536).

use rust_tracer::vec3::Vec3;

const ONE: i64 = 65536;

#[test]
fn test_add() {
    let vec1 = Vec3::new(ONE, ONE, ONE);
    let vec2 = Vec3::new(ONE, ONE, ONE);
    assert_eq!(vec1.add(vec2), Vec3::new(2 * ONE, 2 * ONE, 2 * ONE));
}

#[test]
fn test_sub() {
    let vec1 = Vec3::new(ONE, ONE, ONE);
    let vec2 = Vec3::new(ONE, ONE, ONE);
    assert_eq!(vec1.sub(vec2), Vec3::new(0, 0, 0));
}

#[test]
fn test_mul() {
    let vec1 = Vec3::new(ONE, ONE, ONE);
    let vec2 = Vec3::new(2 * ONE, 2 * ONE, 2 * ONE);
    let num: i64 = 5 * ONE;
    assert_eq!(vec1.mul(vec2), Vec3::new(2 * ONE, 2 * ONE, 2 * ONE));
    assert_eq!(vec1.mul_scalar(num), Vec3::new(5 * ONE, 5 * ONE, 5 * ONE));
}

#[test]
fn test_div() {
    let vec1 = Vec3::new(2 * ONE, 2 * ONE, 2 * ONE);
    let vec2 = Vec3::new(12 * ONE, 12 * ONE, 12 * ONE);
    let num: i64 = 5 * ONE;
    assert_eq!(vec2.div(vec1), Vec3::new(6 * ONE, 6 * ONE, 6 * ONE));
    // 2/5 = 0.4, which truncates to 26214 in fixed point.
    assert_eq!(vec1.div_scalar(num), Vec3::new(26214, 26214, 26214));
}

#[test]
fn assign_operators_match_their_plain_forms() {
    let mut a = Vec3::new(ONE, 2 * ONE, 3 * ONE);
    let b = Vec3::new(2 * ONE, 2 * ONE, 2 * ONE);
    a.add_assign(b);
    assert_eq!(a, Vec3::new(3 * ONE, 4 * ONE, 5 * ONE));
    a.mul_assign(b);
    assert_eq!(a, Vec3::new(6 * ONE, 8 * ONE, 10 * ONE));
    a.div_assign(b);
    assert_eq!(a, Vec3::new(3 * ONE, 4 * ONE, 5 * ONE));
}

#[test]
fn add_then_sub_returns_first_operand() {
    let a = Vec3::new(12345, -9876, 4444);
    let b = Vec3::new(-777, 31415, -2718);
    assert_eq!(a.add(b).sub(b), a);
}

#[test]
fn length_of_three_four_zero_is_five() {
    let v = Vec3::new(3 * ONE, 4 * ONE, 0);
    assert_eq!(v.length(), 5 * ONE);
    assert_eq!(v.length_squared(), 25 * ONE);
}

#[test]
fn unit_vector_has_unit_length_within_tolerance() {
    let v = Vec3::new(ONE, 2 * ONE, 3 * ONE);
    let u = v.unit_vector();
    let len = u.length();
    assert!((len - ONE).abs() <= 2, "length {} not close to one", len);
}

#[test]
fn cross_is_orthogonal_within_tolerance() {
    let a = Vec3::new(3 * ONE, -ONE, 2 * ONE);
    let b = Vec3::new(-2 * ONE, 4 * ONE, ONE);
    let c = a.cross(&b);
    let da = c.dot(&a);
    let db = c.dot(&b);
    assert!(da.abs() <= 8, "dot with a was {}", da);
    assert!(db.abs() <= 8, "dot with b was {}", db);
}

#[test]
fn reflect_about_axis_normal_flips_one_component() {
    let v = Vec3::new(ONE / 2, -ONE / 2, 0);
    let n = Vec3::new(0, ONE, 0);
    let r = v.reflect(&n);
    assert_eq!(r, Vec3::new(ONE / 2, ONE / 2, 0));
    // Reflection preserves the length exactly in this axis-aligned case.
    assert_eq!(r.length(), v.length());
}

#[test]
fn near_zero_detects_tiny_vectors() {
    assert!(Vec3::new(0, 0, 0).near_zero());
    assert!(Vec3::new(3, -3, 1).near_zero());
    assert!(!Vec3::new(0, 5, 0).near_zero());
}

#[test]
fn refract_with_unit_ratio_is_identity_within_tolerance() {
    let n = Vec3::new(0, ONE, 0);
    // Normal incidence passes through exactly.
    let straight = Vec3::new(0, -ONE, 0);
    assert_eq!(straight.refract(&n, ONE), straight);
    // Oblique incidence deviates by at most a few truncation steps.
    let v = Vec3::new(39322, -52428, 0);
    let r = v.refract(&n, ONE);
    assert!((r.x - v.x).abs() <= 3, "x deviated: {} vs {}", r.x, v.x);
    assert!((r.y - v.y).abs() <= 3, "y deviated: {} vs {}", r.y, v.y);
    assert!((r.z - v.z).abs() <= 3, "z deviated: {} vs {}", r.z, v.z);
}

#[test]
fn samplers_stay_in_their_regions() {
    let one2 = (ONE as i128) * (ONE as i128);
    for _ in 0..200 {
        let p = Vec3::new_random_in_unit_sphere();
        let lsq = (p.x as i128) * (p.x as i128) + (p.y as i128) * (p.y as i128)
            + (p.z as i128) * (p.z as i128);
        assert!(lsq < one2);

        let d = Vec3::random_in_unit_disk();
        assert_eq!(d.z, 0);
        let dsq = (d.x as i128) * (d.x as i128) + (d.y as i128) * (d.y as i128);
        assert!(dsq < one2);

        let nrm = Vec3::new(0, 0, ONE);
        let h = Vec3::random_in_hemisphere(&nrm);
        let dn = (h.x as i128) * (nrm.x as i128) + (h.y as i128) * (nrm.y as i128)
            + (h.z as i128) * (nrm.z as i128);
        assert!(dn >= 0);

        let rr = Vec3::new_random_range(-3 * ONE, 7 * ONE);
        assert!(rr.x >= -3 * ONE && rr.x < 7 * ONE);
        assert!(rr.y >= -3 * ONE && rr.y < 7 * ONE);
        assert!(rr.z >= -3 * ONE && rr.z < 7 * ONE);

        let ru = Vec3::new_random();
        assert!(ru.x >= 0 && ru.x < ONE);
        assert!(ru.y >= 0 && ru.y < ONE);
        assert!(ru.z >= 0 && ru.z < ONE);
    }
}
