//! A ray: origin plus direction, with the parametric point evaluator.

use vstd::prelude::*;
use crate::fixed::{fx, lemma_tdiv_mag, lemma_mul_bound, fx_mul};
use crate::vec3::{Vec3, Point3, bounded, v3};

verus! {

#[derive(Clone, Copy, PartialEq, Eq, Structural, Debug)]
pub struct Ray {
    pub origin: Point3,
    pub direction: Vec3,
}

/// A ray the intersection routines accept: origin and direction within the
/// coordinate limits and a direction that is not the zero vector.
pub open spec fn ray_wf(r: Ray) -> bool {
    &&& bounded(r.origin, crate::fixed::POS_MAX as int)
    &&& bounded(r.direction, crate::fixed::DIR_MAX as int)
    &&& crate::vec3::dot_raw(r.direction, r.direction) >= 1
}

/// The point `origin + t * direction`, componentwise in fixed point.
pub open spec fn spec_at(r: Ray, t: int) -> (int, int, int) {
    (
        r.origin.x + fx(r.direction.x * t),
        r.origin.y + fx(r.direction.y * t),
        r.origin.z + fx(r.direction.z * t),
    )
}

impl Ray {
    pub fn new(origin: Point3, direction: Vec3) -> (r: Ray)
        ensures
            r == (Ray { origin, direction }),
    {
        Ray { origin, direction }
    }

    /// The parametric point at `t`, exactly `spec_at(self, t)`.
    pub fn at(&self, t: i64) -> (p: Point3)
        requires
            bounded(self.origin, 0x1000_0000_0000),
            bounded(self.direction, 0x100_0000),
            -0x4_0000_0000 <= t <= 0x4_0000_0000,
        ensures
            v3(p) == spec_at(*self, t as int),
            bounded(p, 0x1400_0000_0000),
    {
        proof {
            lemma_mul_bound(self.direction.x as int, t as int, 0x100_0000, 0x4_0000_0000);
            lemma_mul_bound(self.direction.y as int, t as int, 0x100_0000, 0x4_0000_0000);
            lemma_mul_bound(self.direction.z as int, t as int, 0x100_0000, 0x4_0000_0000);
            lemma_tdiv_mag(self.direction.x * t, 65536, 0x400_0000_0000_0000);
            lemma_tdiv_mag(self.direction.y * t, 65536, 0x400_0000_0000_0000);
            lemma_tdiv_mag(self.direction.z * t, 65536, 0x400_0000_0000_0000);
        }
        Point3 {
            x: self.origin.x + fx_mul(self.direction.x, t),
            y: self.origin.y + fx_mul(self.direction.y, t),
            z: self.origin.z + fx_mul(self.direction.z, t),
        }
    }
}

} // verus!
